//! User configuration as it is written, and the settings it resolves to: the
//! connectors, the named models, the agents, the tools' settings, where the
//! chat history is kept and how titles are made.
use vstd::prelude::*;

use crate::clients::{
    api_key_view,
    model_view,
    provider_view,
    spec_resolve_key,
    env_view,
    AnthropicProviderConfig,
    ApiKey,
    OllamaProviderConfig,
    ProviderConfig,
    SupportedModels,
};
use crate::directive::{
    directive_view,
    find_entry,
    first_index_of,
    lemma_first_index_in_range,
    spec_directive_from,
    Directive,
    DirectiveRegistry,
};
use crate::error::{Error, ErrorKind};
use crate::text::{str_eq, strings_view};

verus! {

broadcast use vstd::string::group_string_axioms;

/// A directive source as written in the user configuration.
#[derive(Debug)]
pub enum DirectiveSourceConfig {
    /// An inline string.
    Text { value: String },
    /// File paths.
    File { paths: Vec<String> },
    /// A reference to a system directive by name.
    System { name: String },
}

/// A directive as written in the user configuration, with an optional
/// condition.
#[derive(Debug)]
pub struct DirectiveConfig {
    /// When the directive applies, if not always.
    pub condition: Option<String>,
    /// Where its content comes from.
    pub source: DirectiveSourceConfig,
}

/// A named reference to a model in the models registry.
#[derive(Debug)]
pub struct Model(pub String);

/// Where the chat history is kept, as written.
#[derive(Debug)]
pub struct HistoryUserConfig {
    pub directory: String,
}

/// How chat titles are made, as written.
#[derive(Debug)]
pub struct TitleUserConfig {
    pub model: Option<Model>,
    pub prompt: Option<String>,
}

/// The web search provider, as written, with its key.
#[derive(Debug)]
pub enum WebSearchProviderConfig {
    Brave { api_key: ApiKey },
    LangSearch { api_key: ApiKey },
    Tavily { api_key: ApiKey },
}

/// The tools' settings, as written.
#[derive(Debug)]
pub struct ToolsUserConfig {
    pub fetch_webpage: Option<FetchWebpageUserConfig>,
    pub analyze_image: Option<AnalyzeImageUserConfig>,
    pub run_command: Option<RunCommandUserConfig>,
    pub web_search: Option<WebSearchProviderConfig>,
}

/// The `run_command` tool's settings, as written.
#[derive(Debug)]
pub struct RunCommandUserConfig {
    pub whitelist: Vec<String>,
    pub check_models: Vec<Model>,
}

/// The `fetch_webpage` tool's settings, as written.
#[derive(Debug)]
pub struct FetchWebpageUserConfig {
    pub model: Option<Model>,
}

/// The `analyze_image` tool's settings, as written.
#[derive(Debug)]
pub struct AnalyzeImageUserConfig {
    pub model: Option<Model>,
}

/// An agent, as written.
#[derive(Debug)]
pub struct TenonAgentConfig {
    pub model: Model,
    pub directive: Vec<DirectiveConfig>,
    pub tool_names: Vec<String>,
    pub default: bool,
    pub choreos: Vec<String>,
}

/// A model, as written: its connector, its name there, and the parameters
/// sent with every request.
#[derive(Debug)]
pub struct ModelConfig {
    pub connector: String,
    pub name: String,
    pub default_parameters: serde_json::Map<String, serde_json::Value>,
}

/// The whole user configuration, each table as `(name, entry)` pairs in the
/// order they are read.
#[derive(Debug)]
pub struct TenonUserConfig {
    pub connectors: Option<Vec<(String, ProviderConfig)>>,
    pub agents: Option<Vec<(String, TenonAgentConfig)>>,
    pub models: Option<Vec<(String, ModelConfig)>>,
    pub tools: Option<ToolsUserConfig>,
    pub history: Option<HistoryUserConfig>,
    pub title: Option<TitleUserConfig>,
}

/// Where the chat history is kept.
#[derive(Debug)]
pub struct HistoryConfig {
    pub directory: String,
}

/// The model that `fetch_webpage` summarizes with, if any.
#[derive(Debug)]
pub struct FetchWebpageConfig {
    pub model: Option<SupportedModels>,
}

/// The model that `analyze_image` describes with, if any.
#[derive(Debug)]
pub struct AnalyzeImageConfig {
    pub model: Option<SupportedModels>,
}

/// The commands `run_command` runs without asking, and the models that judge
/// the others.
#[derive(Debug)]
pub struct RunCommandConfig {
    pub whitelist: Vec<String>,
    pub check_models: Vec<SupportedModels>,
}

/// The web search provider with its resolved key.
#[derive(Debug)]
pub enum WebSearchConfig {
    Brave { api_key: String },
    LangSearch { api_key: String },
    Tavily { api_key: String },
}

/// The tools' settings.
#[derive(Debug)]
pub struct ToolsConfig {
    pub fetch_webpage: FetchWebpageConfig,
    pub analyze_image: AnalyzeImageConfig,
    pub run_command: RunCommandConfig,
    pub web_search: Option<WebSearchConfig>,
}

/// How chat titles are made.
#[derive(Debug)]
pub struct TitleConfig {
    pub model: Option<SupportedModels>,
    pub prompt: Option<String>,
}

/// An agent: its model, its directives, the tools it may call and the
/// choreographies it may use.
#[derive(Debug)]
pub struct TenonAgent {
    pub model: SupportedModels,
    pub directives: Vec<Directive>,
    pub tool_names: Vec<String>,
    pub choreos: Vec<String>,
}

/// The resolved settings.
#[derive(Debug)]
pub struct TenonConfig {
    pub connectors: Vec<(String, ProviderConfig)>,
    pub agents: Vec<(String, TenonAgent)>,
    pub default_agent: String,
    pub models: Vec<(String, SupportedModels)>,
    pub tools: ToolsConfig,
    pub history: HistoryConfig,
    pub title: TitleConfig,
}

// ---------------------------------------------------------------------------
// Views
// ---------------------------------------------------------------------------

/// A provider as values.
pub type ProviderView = (int, Seq<char>, Option<(bool, Seq<char>)>);

/// A model as values.
pub type ModelView = (Seq<char>, ProviderView, Seq<char>, serde_json::Map<String, serde_json::Value>);

/// A directive as values.
pub type DirectiveView = (Option<Seq<char>>, (int, Seq<Seq<char>>));

/// An agent as values: model, directives, tool names, choreographies.
pub type AgentView = (ModelView, Seq<DirectiveView>, Seq<Seq<char>>, Seq<Seq<char>>);

/// The tools' settings as values: the two tools' models, the whitelist, the
/// judging models and the web search provider (kind and key).
pub type ToolsView = (Option<ModelView>, Option<ModelView>, Seq<Seq<char>>, Seq<ModelView>, Option<(int, Seq<char>)>);

/// The title settings as values.
pub type TitleView = (Option<ModelView>, Option<Seq<char>>);

/// The resolved settings as values.
pub type ConfigView = (
    Seq<(Seq<char>, ProviderView)>,
    Seq<(Seq<char>, AgentView)>,
    Seq<char>,
    Seq<(Seq<char>, ModelView)>,
    ToolsView,
    Seq<char>,
    TitleView,
);

/// Named providers as values.
pub open spec fn connectors_view(v: Seq<(String, ProviderConfig)>) -> Seq<(Seq<char>, ProviderView)> {
    v.map_values(|e: (String, ProviderConfig)| (e.0@, provider_view(e.1)))
}

/// Named models as values.
pub open spec fn models_view(v: Seq<(String, SupportedModels)>) -> Seq<(Seq<char>, ModelView)> {
    v.map_values(|e: (String, SupportedModels)| (e.0@, model_view(e.1)))
}

/// An optional model as values.
pub open spec fn opt_model_view(m: Option<SupportedModels>) -> Option<ModelView> {
    match m {
        Some(x) => Some(model_view(x)),
        None => None,
    }
}

/// An agent as values.
pub open spec fn agent_view(a: TenonAgent) -> AgentView {
    (
        model_view(a.model),
        a.directives@.map_values(|d: Directive| directive_view(d)),
        strings_view(a.tool_names@),
        strings_view(a.choreos@),
    )
}

/// Named agents as values.
pub open spec fn agents_view(v: Seq<(String, TenonAgent)>) -> Seq<(Seq<char>, AgentView)> {
    v.map_values(|e: (String, TenonAgent)| (e.0@, agent_view(e.1)))
}

/// A web search provider as values: its kind (in the order of the
/// variants) and its key.
pub open spec fn web_search_view(w: WebSearchConfig) -> (int, Seq<char>) {
    match w {
        WebSearchConfig::Brave { api_key } => (0, api_key@),
        WebSearchConfig::LangSearch { api_key } => (1, api_key@),
        WebSearchConfig::Tavily { api_key } => (2, api_key@),
    }
}

/// The tools' settings as values.
pub open spec fn tools_view(t: ToolsConfig) -> ToolsView {
    (
        opt_model_view(t.fetch_webpage.model),
        opt_model_view(t.analyze_image.model),
        strings_view(t.run_command.whitelist@),
        t.run_command.check_models@.map_values(|m: SupportedModels| model_view(m)),
        match t.web_search {
            Some(w) => Some(web_search_view(w)),
            None => None,
        },
    )
}

/// The title settings as values.
pub open spec fn title_view(t: TitleConfig) -> TitleView {
    (
        opt_model_view(t.model),
        match t.prompt {
            Some(p) => Some(p@),
            None => None,
        },
    )
}

/// The resolved settings as values.
pub open spec fn config_view(c: TenonConfig) -> ConfigView {
    (
        connectors_view(c.connectors@),
        agents_view(c.agents@),
        c.default_agent@,
        models_view(c.models@),
        tools_view(c.tools),
        c.history.directory@,
        title_view(c.title),
    )
}

// ---------------------------------------------------------------------------
// Resolution, stage by stage
// ---------------------------------------------------------------------------

/// The value of the first entry named `name`.
pub open spec fn lookup<T>(entries: Seq<(Seq<char>, T)>, name: Seq<char>) -> Option<T>
    decreases entries.len(),
{
    if entries.len() == 0 {
        None
    } else {
        match lookup(entries.drop_last(), name) {
            Some(v) => Some(v),
            None => if entries.last().0 == name {
                Some(entries.last().1)
            } else {
                None
            },
        }
    }
}

/// The models as written, each given the provider of its connector; the
/// first whose connector is unknown is an error.
pub open spec fn spec_resolve_models(
    models: Seq<(String, ModelConfig)>,
    conns: Seq<(Seq<char>, ProviderView)>,
) -> Result<Seq<(Seq<char>, ModelView)>, Seq<char>>
    decreases models.len(),
{
    if models.len() == 0 {
        Ok(seq![])
    } else {
        match spec_resolve_models(models.drop_last(), conns) {
            Err(m) => Err(m),
            Ok(done) => {
                let (name, mc) = models.last();
                match lookup(conns, mc.connector@) {
                    None => Err("unknown connector for model: "@ + mc.connector@),
                    Some(p) => Ok(
                        done.push((name@, (mc.connector@, p, mc.name@, mc.default_parameters))),
                    ),
                }
            },
        }
    }
}

/// The directives as written, built in order; the first failure is the
/// error.
pub open spec fn spec_resolve_directives(cfgs: Seq<DirectiveConfig>, reg: Seq<(String, Directive)>) -> Result<
    Seq<DirectiveView>,
    Seq<char>,
>
    decreases cfgs.len(),
{
    if cfgs.len() == 0 {
        Ok(seq![])
    } else {
        match spec_resolve_directives(cfgs.drop_last(), reg) {
            Err(m) => Err(m),
            Ok(ds) => match spec_directive_from(cfgs.last(), reg) {
                Err(m) => Err(m),
                Ok(d) => Ok(ds.push(d)),
            },
        }
    }
}

/// The choreography ids among `ids` that `known` holds, in order.
pub open spec fn kept_choreos(ids: Seq<Seq<char>>, known: Seq<Seq<char>>) -> Seq<Seq<char>>
    decreases ids.len(),
{
    if ids.len() == 0 {
        seq![]
    } else {
        let k = kept_choreos(ids.drop_last(), known);
        if known.contains(ids.last()) {
            k.push(ids.last())
        } else {
            k
        }
    }
}

/// The agents as written, in order, with the default agent's name: an agent
/// whose model is unknown, a second default agent or a directive that fails
/// is an error, the first in order.
pub open spec fn spec_resolve_agents(
    agents: Seq<(String, TenonAgentConfig)>,
    models: Seq<(Seq<char>, ModelView)>,
    reg: Seq<(String, Directive)>,
    known: Seq<Seq<char>>,
) -> Result<(Seq<(Seq<char>, AgentView)>, Option<Seq<char>>), Seq<char>>
    decreases agents.len(),
{
    if agents.len() == 0 {
        Ok((seq![], None))
    } else {
        match spec_resolve_agents(agents.drop_last(), models, reg, known) {
            Err(m) => Err(m),
            Ok((done, default)) => {
                let (k, v) = agents.last();
                match lookup(models, v.model.0@) {
                    None => Err("unknown model: "@ + v.model.0@),
                    Some(mv) => if v.default && default is Some {
                        Err(
                            "more than one default agents found: "@ + default->0 + " and "@ + k@,
                        )
                    } else {
                        match spec_resolve_directives(v.directive@, reg) {
                            Err(m) => Err(m),
                            Ok(ds) => Ok(
                                (
                                    done.push(
                                        (
                                            k@,
                                            (
                                                mv,
                                                ds,
                                                strings_view(v.tool_names@),
                                                kept_choreos(strings_view(v.choreos@), known),
                                            ),
                                        ),
                                    ),
                                    if v.default {
                                        Some(k@)
                                    } else {
                                        default
                                    },
                                ),
                            ),
                        }
                    },
                }
            },
        }
    }
}

/// A tool's model: the named one when the tool names one (an error when it
/// is unknown), else `current`.
pub open spec fn spec_tool_model(
    m: Option<Model>,
    models: Seq<(Seq<char>, ModelView)>,
    tool: Seq<char>,
    current: Option<ModelView>,
) -> Result<Option<ModelView>, Seq<char>> {
    match m {
        None => Ok(current),
        Some(Model(n)) => match lookup(models, n@) {
            Some(v) => Ok(Some(v)),
            None => Err("unknown model for "@ + tool + ": "@ + n@),
        },
    }
}

/// The judging models, in order; the first unknown one is an error.
pub open spec fn spec_check_models(ms: Seq<Model>, models: Seq<(Seq<char>, ModelView)>) -> Result<
    Seq<ModelView>,
    Seq<char>,
>
    decreases ms.len(),
{
    if ms.len() == 0 {
        Ok(seq![])
    } else {
        match spec_check_models(ms.drop_last(), models) {
            Err(e) => Err(e),
            Ok(done) => match lookup(models, ms.last().0@) {
                Some(v) => Ok(done.push(v)),
                None => Err("unknown model for run_command check: "@ + ms.last().0@),
            },
        }
    }
}

/// The web search provider with its key resolved in `env`; a key that does
/// not resolve leaves no provider.
pub open spec fn spec_web_search(w: Option<WebSearchProviderConfig>, env: Seq<(Seq<char>, Seq<char>)>) -> Option<
    (int, Seq<char>),
> {
    match w {
        None => None,
        Some(p) => {
            let (kind, key) = match p {
                WebSearchProviderConfig::Brave { api_key } => (0int, api_key),
                WebSearchProviderConfig::LangSearch { api_key } => (1int, api_key),
                WebSearchProviderConfig::Tavily { api_key } => (2int, api_key),
            };
            match spec_resolve_key(api_key_view(key), env) {
                Ok(k) => Some((kind, k)),
                Err(_) => None,
            }
        },
    }
}

/// The tools' settings: those written replace `base`'s; a named model that
/// is unknown is an error (`fetch_webpage` first, then `analyze_image`,
/// then the judging models). The web search provider is the written one.
pub open spec fn spec_resolve_tools(
    tools: Option<ToolsUserConfig>,
    base: ToolsView,
    models: Seq<(Seq<char>, ModelView)>,
    env: Seq<(Seq<char>, Seq<char>)>,
) -> Result<ToolsView, Seq<char>> {
    match tools {
        None => Ok(base),
        Some(t) => {
            let f = match t.fetch_webpage {
                Some(c) => spec_tool_model(c.model, models, "fetch_webpage"@, base.0),
                None => Ok(base.0),
            };
            let a = match t.analyze_image {
                Some(c) => spec_tool_model(c.model, models, "analyze_image"@, base.1),
                None => Ok(base.1),
            };
            let (wl, cm) = match t.run_command {
                Some(rc) => (strings_view(rc.whitelist@), spec_check_models(rc.check_models@, models)),
                None => (base.2, Ok(base.3)),
            };
            match f {
                Err(e) => Err(e),
                Ok(f) => match a {
                    Err(e) => Err(e),
                    Ok(a) => match cm {
                        Err(e) => Err(e),
                        Ok(cm) => Ok((f, a, wl, cm, spec_web_search(t.web_search, env))),
                    },
                },
            }
        },
    }
}

/// The title settings: a written model (an error when unknown) or prompt
/// replaces `base`'s.
pub open spec fn spec_resolve_title(
    title: Option<TitleUserConfig>,
    base: TitleView,
    models: Seq<(Seq<char>, ModelView)>,
) -> Result<TitleView, Seq<char>> {
    match title {
        None => Ok(base),
        Some(t) => match spec_tool_model(t.model, models, "title"@, base.0) {
            Err(e) => Err(e),
            Ok(m) => Ok(
                (
                    m,
                    match t.prompt {
                        Some(p) => Some(p@),
                        None => base.1,
                    },
                ),
            ),
        },
    }
}

/// The settings that `value` resolves to over `base`: connectors, then
/// models, agents, tools, history and title, each stage's first error ending
/// the resolution.
pub open spec fn spec_resolve_config(
    value: TenonUserConfig,
    base: ConfigView,
    reg: Seq<(String, Directive)>,
    known: Seq<Seq<char>>,
    env: Seq<(Seq<char>, Seq<char>)>,
) -> Result<ConfigView, Seq<char>> {
    let conns = match value.connectors {
        Some(c) => connectors_view(c@),
        None => base.0,
    };
    let models = match value.models {
        Some(m) => spec_resolve_models(m@, conns),
        None => Ok(base.3),
    };
    match models {
        Err(e) => Err(e),
        Ok(models) => {
            let agents = match value.agents {
                None => Ok((base.1, Some(base.2))),
                Some(a) => if a@.len() == 0 {
                    Err("agents cannot be empty"@)
                } else {
                    match spec_resolve_agents(a@, models, reg, known) {
                        Err(e) => Err(e),
                        Ok((list, None)) => Err("at least one agent needs to be set as default"@),
                        Ok((list, Some(d))) => Ok((list, Some(d))),
                    }
                },
            };
            match agents {
                Err(e) => Err(e),
                Ok((agents, default)) => match spec_resolve_tools(value.tools, base.4, models, env) {
                    Err(e) => Err(e),
                    Ok(tools) => match spec_resolve_title(value.title, base.6, models) {
                        Err(e) => Err(e),
                        Ok(title) => Ok(
                            (
                                conns,
                                agents,
                                match default {
                                    Some(d) => d,
                                    None => base.2,
                                },
                                models,
                                tools,
                                match value.history {
                                    Some(h) => h.directory@,
                                    None => base.5,
                                },
                                title,
                            ),
                        ),
                    },
                },
            }
        },
    }
}

// ---------------------------------------------------------------------------
// Lemmas
// ---------------------------------------------------------------------------

proof fn lemma_lookup_connectors(v: Seq<(String, ProviderConfig)>, name: Seq<char>)
    ensures
        lookup(connectors_view(v), name) == match first_index_of(v, name) {
            Some(i) => Some(provider_view(v[i].1)),
            None => None,
        },
    decreases v.len(),
{
    if v.len() > 0 {
        assert(connectors_view(v).drop_last() =~= connectors_view(v.drop_last()));
        lemma_lookup_connectors(v.drop_last(), name);
        lemma_first_index_in_range(v.drop_last(), name);
    }
}

proof fn lemma_lookup_models(v: Seq<(String, SupportedModels)>, name: Seq<char>)
    ensures
        lookup(models_view(v), name) == match first_index_of(v, name) {
            Some(i) => Some(model_view(v[i].1)),
            None => None,
        },
    decreases v.len(),
{
    if v.len() > 0 {
        assert(models_view(v).drop_last() =~= models_view(v.drop_last()));
        lemma_lookup_models(v.drop_last(), name);
        lemma_first_index_in_range(v.drop_last(), name);
    }
}

// ---------------------------------------------------------------------------
// Executable stages
// ---------------------------------------------------------------------------

/// The model named `name` in `models`, copied.
fn find_model(models: &Vec<(String, SupportedModels)>, name: &str) -> (r: Option<SupportedModels>)
    ensures
        opt_model_view(r) == lookup(models_view(models@), name@),
{
    proof {
        lemma_lookup_models(models@, name@);
    }
    match find_entry(models, name) {
        Some(i) => Some(models[i].1.duplicate()),
        None => None,
    }
}

/// An error of the configuration.
fn config_error(message: String) -> (e: Error)
    ensures
        e.kind == ErrorKind::InvalidInput,
        e.message@ == message@,
{
    Error { kind: ErrorKind::InvalidInput, message }
}

/// Resolves the written models against the connectors.
#[verifier::loop_isolation(false)]
fn resolve_models(
    models: Vec<(String, ModelConfig)>,
    conns: &Vec<(String, ProviderConfig)>,
) -> (r: Result<Vec<(String, SupportedModels)>, Error>)
    ensures
        match spec_resolve_models(models@, connectors_view(conns@)) {
            Ok(v) => r matches Ok(x) && models_view(x@) == v,
            Err(m) => r matches Err(e) && e.kind == ErrorKind::InvalidInput && e.message@ == m,
        },
{
    let ghost orig = models@;
    let total = models.len();
    let mut rest = models;
    let mut out: Vec<(String, SupportedModels)> = Vec::new();
    let mut i: usize = 0;
    assert(orig.take(0) =~= Seq::<(String, ModelConfig)>::empty());
    assert(models_view(out@) =~= Seq::<(Seq<char>, ModelView)>::empty());
    while rest.len() > 0
        invariant
            total == orig.len(),
            i <= orig.len(),
            rest@ == orig.skip(i as int),
            spec_resolve_models(orig.take(i as int), connectors_view(conns@)) == Ok::<
                Seq<(Seq<char>, ModelView)>,
                Seq<char>,
            >(models_view(out@)),
        decreases rest@.len(),
    {
        let (name, mc) = rest.remove(0);
        proof {
            assert(orig.take(i + 1).drop_last() =~= orig.take(i as int));
            assert(orig.take(i + 1).last() == orig[i as int]);
            assert(orig[i as int] == orig.skip(i as int)[0]);
            lemma_lookup_connectors(conns@, mc.connector@);
            lemma_first_index_in_range(conns@, mc.connector@);
        }
        match find_entry(conns, mc.connector.as_str()) {
            None => {
                let mut m = "unknown connector for model: ".to_string();
                m.append(mc.connector.as_str());
                proof {
                    let cv = connectors_view(conns@);
                    assert(lookup(cv, mc.connector@) is None);
                    assert(spec_resolve_models(orig.take(i as int), cv) is Ok);
                    assert(spec_resolve_models(orig.take(i + 1), cv) == Err::<Seq<(Seq<char>, ModelView)>, Seq<char>>(
                        "unknown connector for model: "@ + mc.connector@));
                    lemma_resolve_models_err_extends(orig, cv, i + 1);
                }
                return Err(config_error(m));
            },
            Some(k) => {
                let model = SupportedModels {
                    config: conns[k].1.duplicate(),
                    connector_name: mc.connector,
                    model_name: mc.name,
                    default_parameters: mc.default_parameters,
                };
                let ghost before = models_view(out@);
                out.push((name, model));
                proof {
                    assert(models_view(out@) =~= before.push(
                        (out@.last().0@, model_view(out@.last().1)),
                    ));
                    assert(rest@ =~= orig.skip(i + 1));
                }
                i = i + 1;
            },
        }
    }
    assert(orig.take(i as int) =~= orig);
    Ok(out)
}

/// An error at one prefix stays the error of every longer prefix.
proof fn lemma_resolve_models_err_extends(
    models: Seq<(String, ModelConfig)>,
    conns: Seq<(Seq<char>, ProviderView)>,
    n: int,
)
    requires
        0 <= n <= models.len(),
        spec_resolve_models(models.take(n), conns) is Err,
    ensures
        spec_resolve_models(models, conns) == spec_resolve_models(models.take(n), conns),
    decreases models.len() - n,
{
    if n < models.len() {
        assert(models.take(n + 1).drop_last() =~= models.take(n));
        lemma_resolve_models_err_extends(models, conns, n + 1);
    } else {
        assert(models.take(n) =~= models);
    }
}

/// An error at one prefix stays the error of every longer prefix.
proof fn lemma_resolve_directives_err_extends(
    cfgs: Seq<DirectiveConfig>,
    reg: Seq<(String, Directive)>,
    n: int,
)
    requires
        0 <= n <= cfgs.len(),
        spec_resolve_directives(cfgs.take(n), reg) is Err,
    ensures
        spec_resolve_directives(cfgs, reg) == spec_resolve_directives(cfgs.take(n), reg),
    decreases cfgs.len() - n,
{
    if n < cfgs.len() {
        assert(cfgs.take(n + 1).drop_last() =~= cfgs.take(n));
        lemma_resolve_directives_err_extends(cfgs, reg, n + 1);
    } else {
        assert(cfgs.take(n) =~= cfgs);
    }
}

/// An error at one prefix stays the error of every longer prefix.
proof fn lemma_resolve_agents_err_extends(
    agents: Seq<(String, TenonAgentConfig)>,
    models: Seq<(Seq<char>, ModelView)>,
    reg: Seq<(String, Directive)>,
    known: Seq<Seq<char>>,
    n: int,
)
    requires
        0 <= n <= agents.len(),
        spec_resolve_agents(agents.take(n), models, reg, known) is Err,
    ensures
        spec_resolve_agents(agents, models, reg, known) == spec_resolve_agents(
            agents.take(n),
            models,
            reg,
            known,
        ),
    decreases agents.len() - n,
{
    if n < agents.len() {
        assert(agents.take(n + 1).drop_last() =~= agents.take(n));
        lemma_resolve_agents_err_extends(agents, models, reg, known, n + 1);
    } else {
        assert(agents.take(n) =~= agents);
    }
}

/// An error at one prefix stays the error of every longer prefix.
proof fn lemma_check_models_err_extends(ms: Seq<Model>, models: Seq<(Seq<char>, ModelView)>, n: int)
    requires
        0 <= n <= ms.len(),
        spec_check_models(ms.take(n), models) is Err,
    ensures
        spec_check_models(ms, models) == spec_check_models(ms.take(n), models),
    decreases ms.len() - n,
{
    if n < ms.len() {
        assert(ms.take(n + 1).drop_last() =~= ms.take(n));
        lemma_check_models_err_extends(ms, models, n + 1);
    } else {
        assert(ms.take(n) =~= ms);
    }
}

/// Builds the directives in order.
#[verifier::loop_isolation(false)]
fn resolve_directives(cfgs: Vec<DirectiveConfig>, reg: &DirectiveRegistry) -> (r: Result<
    Vec<Directive>,
    Error,
>)
    ensures
        match spec_resolve_directives(cfgs@, reg.entries@) {
            Ok(v) => r matches Ok(x) && x@.map_values(|d: Directive| directive_view(d)) == v,
            Err(m) => r matches Err(e) && e.kind == ErrorKind::InvalidInput && e.message@ == m,
        },
{
    let ghost orig = cfgs@;
    let total = cfgs.len();
    let mut rest = cfgs;
    let mut out: Vec<Directive> = Vec::new();
    let mut i: usize = 0;
    assert(orig.take(0) =~= Seq::<DirectiveConfig>::empty());
    assert(out@.map_values(|d: Directive| directive_view(d)) =~= Seq::<DirectiveView>::empty());
    while rest.len() > 0
        invariant
            total == orig.len(),
            i <= orig.len(),
            rest@ == orig.skip(i as int),
            spec_resolve_directives(orig.take(i as int), reg.entries@) == Ok::<
                Seq<DirectiveView>,
                Seq<char>,
            >(out@.map_values(|d: Directive| directive_view(d))),
        decreases rest@.len(),
    {
        let c = rest.remove(0);
        proof {
            assert(orig.take(i + 1).drop_last() =~= orig.take(i as int));
            assert(orig.take(i + 1).last() == orig[i as int]);
            assert(orig[i as int] == orig.skip(i as int)[0]);
        }
        match Directive::try_from(c, reg) {
            Err(e) => {
                proof {
                    assert(spec_resolve_directives(orig.take(i as int), reg.entries@) is Ok);
                    assert(spec_resolve_directives(orig.take(i + 1), reg.entries@) == Err::<Seq<DirectiveView>, Seq<char>>(e.message@));
                    lemma_resolve_directives_err_extends(orig, reg.entries@, i + 1);
                }
                return Err(config_error(e.message));
            },
            Ok(d) => {
                let ghost before = out@.map_values(|d: Directive| directive_view(d));
                out.push(d);
                proof {
                    assert(out@.map_values(|d: Directive| directive_view(d)) =~= before.push(
                        directive_view(out@.last()),
                    ));
                    assert(rest@ =~= orig.skip(i + 1));
                }
                i = i + 1;
            },
        }
    }
    assert(orig.take(i as int) =~= orig);
    Ok(out)
}

/// The ids among `ids` that `known` holds, in order.
fn keep_known(ids: &Vec<String>, known: &Vec<String>) -> (r: Vec<String>)
    ensures
        strings_view(r@) == kept_choreos(strings_view(ids@), strings_view(known@)),
{
    let mut out: Vec<String> = Vec::new();
    let mut i: usize = 0;
    let ghost kv = strings_view(known@);
    while i < ids.len()
        invariant
            kv == strings_view(known@),
            i <= ids@.len(),
            strings_view(out@) == kept_choreos(strings_view(ids@).take(i as int), kv),
        decreases ids@.len() - i,
    {
        let ghost iv = strings_view(ids@);
        assert(iv.take(i + 1).drop_last() =~= iv.take(i as int));
        assert(iv.take(i + 1).last() == ids@[i as int]@);
        let mut found = false;
        let mut j: usize = 0;
        while j < known.len()
            invariant
                kv == strings_view(known@),
                j <= known@.len(),
                i < ids@.len(),
                found == exists|m: int| 0 <= m < j && kv[m] == ids@[i as int]@,
            decreases known@.len() - j,
        {
            if str_eq(known[j].as_str(), ids[i].as_str()) {
                found = true;
            }
            proof {
                if found {
                    if kv[j as int] == ids@[i as int]@ {
                        assert(exists|m: int| 0 <= m < j + 1 && kv[m] == ids@[i as int]@);
                    }
                }
            }
            j += 1;
        }
        proof {
            if found {
                let m = choose|m: int| 0 <= m < known@.len() && kv[m] == ids@[i as int]@;
                assert(kv.contains(ids@[i as int]@));
            } else {
                if kv.contains(ids@[i as int]@) {
                    let m = choose|m: int| 0 <= m < kv.len() && kv[m] == ids@[i as int]@;
                    assert(false);
                }
            }
        }
        if found {
            let ghost before = strings_view(out@);
            out.push(ids[i].clone());
            assert(strings_view(out@) =~= before.push(ids@[i as int]@));
        }
        i += 1;
    }
    assert(strings_view(ids@).take(ids@.len() as int) =~= strings_view(ids@));
    out
}

/// Resolves the written agents in order, with the default agent's name.
#[verifier::loop_isolation(false)]
fn resolve_agents(
    agents: Vec<(String, TenonAgentConfig)>,
    models: &Vec<(String, SupportedModels)>,
    reg: &DirectiveRegistry,
    known: &Vec<String>,
) -> (r: Result<(Vec<(String, TenonAgent)>, Option<String>), Error>)
    ensures
        match spec_resolve_agents(agents@, models_view(models@), reg.entries@, strings_view(known@)) {
            Ok((v, d)) => r matches Ok((x, y)) && agents_view(x@) == v && match y {
                Some(s) => d == Some(s@),
                None => d is None,
            },
            Err(m) => r matches Err(e) && e.kind == ErrorKind::InvalidInput && e.message@ == m,
        },
{
    let ghost orig = agents@;
    let ghost mv = models_view(models@);
    let ghost kv = strings_view(known@);
    let total = agents.len();
    let mut rest = agents;
    let mut out: Vec<(String, TenonAgent)> = Vec::new();
    let mut default: Option<String> = None;
    let mut i: usize = 0;
    assert(orig.take(0) =~= Seq::<(String, TenonAgentConfig)>::empty());
    assert(agents_view(out@) =~= Seq::<(Seq<char>, AgentView)>::empty());
    while rest.len() > 0
        invariant
            total == orig.len(),
            mv == models_view(models@),
            kv == strings_view(known@),
            i <= orig.len(),
            rest@ == orig.skip(i as int),
            spec_resolve_agents(orig.take(i as int), mv, reg.entries@, kv) == Ok::<
                (Seq<(Seq<char>, AgentView)>, Option<Seq<char>>),
                Seq<char>,
            >(
                (
                    agents_view(out@),
                    match default {
                        Some(s) => Some(s@),
                        None => None,
                    },
                ),
            ),
        decreases rest@.len(),
    {
        let (k, v) = rest.remove(0);
        proof {
            assert(orig.take(i + 1).drop_last() =~= orig.take(i as int));
            assert(orig.take(i + 1).last() == orig[i as int]);
            assert(orig[i as int] == orig.skip(i as int)[0]);
        }
        let model = match find_model(models, v.model.0.as_str()) {
            Some(m) => m,
            None => {
                let mut m = "unknown model: ".to_string();
                m.append(v.model.0.as_str());
                proof {
                    assert(spec_resolve_agents(orig.take(i as int), mv, reg.entries@, kv) is Ok);
                    assert(spec_resolve_agents(orig.take(i + 1), mv, reg.entries@, kv) == Err::<(Seq<(Seq<char>, AgentView)>, Option<Seq<char>>), Seq<char>>(m@));
                    lemma_resolve_agents_err_extends(orig, mv, reg.entries@, kv, i + 1);
                }
                return Err(config_error(m));
            },
        };
        if v.default {
            match &default {
                Some(a) => {
                    let mut m = "more than one default agents found: ".to_string();
                    m.append(a.as_str());
                    m.append(" and ");
                    m.append(k.as_str());
                    proof {
                        assert(spec_resolve_agents(orig.take(i as int), mv, reg.entries@, kv) is Ok);
                        assert(spec_resolve_agents(orig.take(i + 1), mv, reg.entries@, kv) == Err::<(Seq<(Seq<char>, AgentView)>, Option<Seq<char>>), Seq<char>>(m@));
                        lemma_resolve_agents_err_extends(orig, mv, reg.entries@, kv, i + 1);
                    }
                    return Err(config_error(m));
                },
                None => {},
            }
        }
        let is_default = v.default;
        let choreos = keep_known(&v.choreos, known);
        let tool_names = v.tool_names;
        let directives = match resolve_directives(v.directive, reg) {
            Ok(d) => d,
            Err(e) => {
                proof {
                    assert(spec_resolve_agents(orig.take(i as int), mv, reg.entries@, kv) is Ok);
                    assert(spec_resolve_agents(orig.take(i + 1), mv, reg.entries@, kv) == Err::<(Seq<(Seq<char>, AgentView)>, Option<Seq<char>>), Seq<char>>(e.message@));
                    lemma_resolve_agents_err_extends(orig, mv, reg.entries@, kv, i + 1);
                }
                return Err(e);
            },
        };
        if is_default {
            default = Some(k.clone());
        }
        let ghost before = agents_view(out@);
        out.push((k, TenonAgent { model, directives, tool_names, choreos }));
        proof {
            assert(agents_view(out@) =~= before.push((out@.last().0@, agent_view(out@.last().1))));
            assert(rest@ =~= orig.skip(i + 1));
        }
        i = i + 1;
    }
    assert(orig.take(i as int) =~= orig);
    Ok((out, default))
}

/// A tool's model: the named one, or `current` when none is named.
fn tool_model(
    m: Option<Model>,
    models: &Vec<(String, SupportedModels)>,
    tool: &str,
    current: Option<SupportedModels>,
) -> (r: Result<Option<SupportedModels>, Error>)
    ensures
        match spec_tool_model(m, models_view(models@), tool@, opt_model_view(current)) {
            Ok(v) => r matches Ok(x) && opt_model_view(x) == v,
            Err(e) => r matches Err(x) && x.kind == ErrorKind::InvalidInput && x.message@ == e,
        },
{
    match m {
        None => Ok(current),
        Some(Model(n)) => match find_model(models, n.as_str()) {
            Some(x) => Ok(Some(x)),
            None => {
                let mut msg = "unknown model for ".to_string();
                msg.append(tool);
                msg.append(": ");
                msg.append(n.as_str());
                Err(config_error(msg))
            },
        },
    }
}

/// The judging models, in order.
fn check_models(ms: &Vec<Model>, models: &Vec<(String, SupportedModels)>) -> (r: Result<
    Vec<SupportedModels>,
    Error,
>)
    ensures
        match spec_check_models(ms@, models_view(models@)) {
            Ok(v) => r matches Ok(x) && x@.map_values(|m: SupportedModels| model_view(m)) == v,
            Err(e) => r matches Err(x) && x.kind == ErrorKind::InvalidInput && x.message@ == e,
        },
{
    let mut out: Vec<SupportedModels> = Vec::new();
    let mut i: usize = 0;
    let ghost mv = models_view(models@);
    assert(ms@.take(0) =~= Seq::<Model>::empty());
    assert(out@.map_values(|m: SupportedModels| model_view(m)) =~= Seq::<ModelView>::empty());
    while i < ms.len()
        invariant
            mv == models_view(models@),
            i <= ms@.len(),
            spec_check_models(ms@.take(i as int), mv) == Ok::<Seq<ModelView>, Seq<char>>(
                out@.map_values(|m: SupportedModels| model_view(m)),
            ),
        decreases ms@.len() - i,
    {
        proof {
            assert(ms@.take(i + 1).drop_last() =~= ms@.take(i as int));
            assert(ms@.take(i + 1).last() == ms@[i as int]);
        }
        match find_model(models, ms[i].0.as_str()) {
            Some(m) => {
                let ghost before = out@.map_values(|m: SupportedModels| model_view(m));
                out.push(m);
                assert(out@.map_values(|m: SupportedModels| model_view(m)) =~= before.push(
                    model_view(out@.last()),
                ));
            },
            None => {
                let mut msg = "unknown model for run_command check: ".to_string();
                msg.append(ms[i].0.as_str());
                proof {
                    lemma_check_models_err_extends(ms@, mv, i + 1);
                }
                return Err(config_error(msg));
            },
        }
        i += 1;
    }
    assert(ms@.take(i as int) =~= ms@);
    Ok(out)
}

/// The web search provider with its key resolved in `env`.
fn web_search(w: Option<WebSearchProviderConfig>, env: &Vec<(String, String)>) -> (r: Option<
    WebSearchConfig,
>)
    ensures
        match r {
            Some(x) => spec_web_search(w, env_view(env@)) == Some(web_search_view(x)),
            None => spec_web_search(w, env_view(env@)) is None,
        },
{
    match w {
        None => None,
        Some(WebSearchProviderConfig::Brave { api_key }) => match api_key.resolve(env) {
            Ok(k) => Some(WebSearchConfig::Brave { api_key: k }),
            Err(_) => None,
        },
        Some(WebSearchProviderConfig::LangSearch { api_key }) => match api_key.resolve(env) {
            Ok(k) => Some(WebSearchConfig::LangSearch { api_key: k }),
            Err(_) => None,
        },
        Some(WebSearchProviderConfig::Tavily { api_key }) => match api_key.resolve(env) {
            Ok(k) => Some(WebSearchConfig::Tavily { api_key: k }),
            Err(_) => None,
        },
    }
}

/// The tools' settings over `base`.
fn resolve_tools(
    tools: Option<ToolsUserConfig>,
    base: ToolsConfig,
    models: &Vec<(String, SupportedModels)>,
    env: &Vec<(String, String)>,
) -> (r: Result<ToolsConfig, Error>)
    ensures
        match spec_resolve_tools(tools, tools_view(base), models_view(models@), env_view(env@)) {
            Ok(v) => r matches Ok(x) && tools_view(x) == v,
            Err(e) => r matches Err(x) && x.kind == ErrorKind::InvalidInput && x.message@ == e,
        },
{
    match tools {
        None => Ok(base),
        Some(t) => {
            let f = match t.fetch_webpage {
                Some(c) => tool_model(c.model, models, "fetch_webpage", base.fetch_webpage.model),
                None => Ok(base.fetch_webpage.model),
            };
            let f = match f {
                Ok(x) => x,
                Err(e) => return Err(e),
            };
            let a = match t.analyze_image {
                Some(c) => tool_model(c.model, models, "analyze_image", base.analyze_image.model),
                None => Ok(base.analyze_image.model),
            };
            let a = match a {
                Ok(x) => x,
                Err(e) => return Err(e),
            };
            let run_command = match t.run_command {
                Some(rc) => match check_models(&rc.check_models, models) {
                    Ok(cm) => RunCommandConfig { whitelist: rc.whitelist, check_models: cm },
                    Err(e) => return Err(e),
                },
                None => base.run_command,
            };
            let ws = web_search(t.web_search, env);
            Ok(
                ToolsConfig {
                    fetch_webpage: FetchWebpageConfig { model: f },
                    analyze_image: AnalyzeImageConfig { model: a },
                    run_command,
                    web_search: ws,
                },
            )
        },
    }
}

/// The title settings over `base`.
fn resolve_title(
    title: Option<TitleUserConfig>,
    base: TitleConfig,
    models: &Vec<(String, SupportedModels)>,
) -> (r: Result<TitleConfig, Error>)
    ensures
        match spec_resolve_title(title, title_view(base), models_view(models@)) {
            Ok(v) => r matches Ok(x) && title_view(x) == v,
            Err(e) => r matches Err(x) && x.kind == ErrorKind::InvalidInput && x.message@ == e,
        },
{
    match title {
        None => Ok(base),
        Some(t) => {
            let m = match tool_model(t.model, models, "title", base.model) {
                Ok(m) => m,
                Err(e) => return Err(e),
            };
            let prompt = match t.prompt {
                Some(p) => Some(p),
                None => base.prompt,
            };
            Ok(TitleConfig { model: m, prompt })
        },
    }
}

/// Calls `serde_json::Map::new`, which makes an empty map; since the map is
/// opaque to the library, nothing is stated of it.
#[verifier::external_body]
fn new_parameters() -> serde_json::Map<String, serde_json::Value> {
    serde_json::Map::new()
}

impl Default for HistoryConfig {
    /// History is kept in `.tenon/history`.
    fn default() -> (r: HistoryConfig)
        ensures
            r.directory@ == ".tenon/history"@,
    {
        HistoryConfig { directory: ".tenon/history".to_string() }
    }
}

impl Default for ToolsConfig {
    /// No tool model, an empty whitelist and no judges, no web search.
    fn default() -> (r: ToolsConfig)
        ensures
            tools_view(r) == (
                None::<ModelView>,
                None::<ModelView>,
                Seq::<Seq<char>>::empty(),
                Seq::<ModelView>::empty(),
                None::<(int, Seq<char>)>,
            ),
    {
        let r = ToolsConfig {
            fetch_webpage: FetchWebpageConfig { model: None },
            analyze_image: AnalyzeImageConfig { model: None },
            run_command: RunCommandConfig { whitelist: Vec::new(), check_models: Vec::new() },
            web_search: None,
        };
        assert(tools_view(r).2 =~= Seq::<Seq<char>>::empty());
        assert(tools_view(r).3 =~= Seq::<ModelView>::empty());
        r
    }
}

impl Default for TitleConfig {
    /// No title model and no prompt of its own.
    fn default() -> (r: TitleConfig)
        ensures
            title_view(r) == (None::<ModelView>, None::<Seq<char>>),
    {
        TitleConfig { model: None, prompt: None }
    }
}

/// The tools an agent may call when none are configured.
pub open spec fn default_tool_names() -> Seq<Seq<char>> {
    seq![
        "create_file"@,
        "edit_file"@,
        "fetch_webpage"@,
        "list_files"@,
        "read_file"@,
        "remove_path"@,
        "run_command"@,
        "search_text"@,
        "web_search"@,
        "record_thought"@,
    ]
}

/// The hosted Ollama provider of the defaults.
pub open spec fn ollama_cloud_view() -> ProviderView {
    (0, "https://ollama.com"@, Some((true, "OLLAMA_API_KEY"@)))
}

/// The default settings, but for the default model's parameters: the
/// connectors `ollama_cloud` (hosted Ollama) and `zai` (an Anthropic-style
/// endpoint), one model `default` (`glm-5.1` on `ollama_cloud`), one agent
/// `default` with that model, no directives, the default tools and no
/// choreographies, and the tools', history and title defaults.
pub open spec fn is_default_config(c: ConfigView) -> bool {
    &&& c.0 == seq![
        ("ollama_cloud"@, ollama_cloud_view()),
        ("zai"@, (4int, "https://api.z.ai/api/anthropic"@, Some((true, "ZAI_API_KEY"@)))),
    ]
    &&& c.3.len() == 1
    &&& c.3[0].0 == "default"@
    &&& c.3[0].1.0 == "ollama_cloud"@
    &&& c.3[0].1.1 == ollama_cloud_view()
    &&& c.3[0].1.2 == "glm-5.1"@
    &&& c.1.len() == 1
    &&& c.1[0].0 == "default"@
    &&& c.1[0].1 == (c.3[0].1, Seq::<DirectiveView>::empty(), default_tool_names(), Seq::<Seq<char>>::empty())
    &&& c.2 == "default"@
    &&& c.4 == (
        None::<ModelView>,
        None::<ModelView>,
        Seq::<Seq<char>>::empty(),
        Seq::<ModelView>::empty(),
        None::<(int, Seq<char>)>,
    )
    &&& c.5 == ".tenon/history"@
    &&& c.6 == (None::<ModelView>, None::<Seq<char>>)
}

/// The names of the default tools.
fn default_tools() -> (r: Vec<String>)
    ensures
        strings_view(r@) == default_tool_names(),
{
    let r = vec![
        "create_file".to_string(),
        "edit_file".to_string(),
        "fetch_webpage".to_string(),
        "list_files".to_string(),
        "read_file".to_string(),
        "remove_path".to_string(),
        "run_command".to_string(),
        "search_text".to_string(),
        "web_search".to_string(),
        "record_thought".to_string(),
    ];
    assert(strings_view(r@) =~= default_tool_names());
    r
}

impl Default for TenonConfig {
    /// The default settings (see `is_default_config`).
    fn default() -> (r: TenonConfig)
        ensures
            is_default_config(config_view(r)),
    {
        let ollama_cloud = ProviderConfig::Ollama(
            OllamaProviderConfig {
                base_url: "https://ollama.com".to_string(),
                bearer: OllamaProviderConfig::default().bearer,
            },
        );
        let zai = ProviderConfig::Anthropic(
            AnthropicProviderConfig {
                base_url: "https://api.z.ai/api/anthropic".to_string(),
                api_key: ApiKey::Env { env: "ZAI_API_KEY".to_string() },
            },
        );
        let model = SupportedModels {
            connector_name: "ollama_cloud".to_string(),
            config: ollama_cloud.duplicate(),
            model_name: "glm-5.1".to_string(),
            default_parameters: new_parameters(),
        };
        let agent = TenonAgent {
            model: model.duplicate(),
            directives: Vec::new(),
            tool_names: default_tools(),
            choreos: Vec::new(),
        };
        let connectors = vec![("ollama_cloud".to_string(), ollama_cloud), ("zai".to_string(), zai)];
        let models = vec![("default".to_string(), model)];
        let agents = vec![("default".to_string(), agent)];
        let r = TenonConfig {
            connectors,
            agents,
            default_agent: "default".to_string(),
            models,
            tools: ToolsConfig::default(),
            history: HistoryConfig::default(),
            title: TitleConfig::default(),
        };
        proof {
            let c = config_view(r);
            assert(c.0 =~= seq![
                ("ollama_cloud"@, ollama_cloud_view()),
                ("zai"@, (4int, "https://api.z.ai/api/anthropic"@, Some((true, "ZAI_API_KEY"@)))),
            ]);
            assert(r.agents@[0].1.directives@.map_values(|d: Directive| directive_view(d)) =~= Seq::<DirectiveView>::empty());
            assert(strings_view(r.agents@[0].1.choreos@) =~= Seq::<Seq<char>>::empty());
        }
        r
    }
}

/// A resolved default agent is one of the resolved agents, and was marked
/// default.
proof fn lemma_default_is_listed(
    agents: Seq<(String, TenonAgentConfig)>,
    models: Seq<(Seq<char>, ModelView)>,
    reg: Seq<(String, Directive)>,
    known: Seq<Seq<char>>,
)
    ensures
        spec_resolve_agents(agents, models, reg, known) matches Ok((list, Some(d))) ==> lookup(
            list,
            d,
        ) is Some && exists|k: int| 0 <= k < agents.len() && agents[k].0@ == d && agents[k].1.default,
        spec_resolve_agents(agents, models, reg, known) matches Ok((list, _)) ==> list.len()
            == agents.len() && forall|k: int| 0 <= k < list.len() ==> #[trigger] list[k].0 == agents[k].0@,
    decreases agents.len(),
{
    if agents.len() > 0 {
        let init = agents.drop_last();
        lemma_default_is_listed(init, models, reg, known);
        if let Ok((list, def)) = spec_resolve_agents(agents, models, reg, known) {
            if let Ok((l0, d0)) = spec_resolve_agents(init, models, reg, known) {
                assert(list.drop_last() == l0);
                assert forall|k: int| 0 <= k < list.len() implies #[trigger] list[k].0 == agents[k].0@ by {
                    if k < l0.len() {
                        assert(list[k] == l0[k]);
                        assert(init[k] == agents[k]);
                    }
                }
                if let Some(d) = def {
                    if agents.last().1.default {
                        assert(list.last().0 == d);
                        assert(agents[agents.len() - 1].0@ == d);
                        assert(list[list.len() - 1].0 == d);
                    } else {
                        assert(d0 == Some(d));
                        let k = choose|k: int| 0 <= k < init.len() && init[k].0@ == d && init[k].1.default;
                        assert(agents[k] == init[k]);
                        assert(list[k].0 == agents[k].0@);
                    }
                    lemma_lookup_found(list, d);
                }
            }
        }
    }
}

/// A name that some entry has is found.
proof fn lemma_lookup_found<T>(entries: Seq<(Seq<char>, T)>, name: Seq<char>)
    requires
        exists|k: int| 0 <= k < entries.len() && entries[k].0 == name,
    ensures
        lookup(entries, name) is Some,
    decreases entries.len(),
{
    let k = choose|k: int| 0 <= k < entries.len() && entries[k].0 == name;
    if k < entries.len() - 1 {
        let init = entries.drop_last();
        assert(init[k] == entries[k]);
        lemma_lookup_found(init, name);
    }
}

/// A configuration that sets nothing resolves to the base settings.
pub proof fn lemma_empty_config_keeps_base(
    value: TenonUserConfig,
    base: ConfigView,
    reg: Seq<(String, Directive)>,
    known: Seq<Seq<char>>,
    env: Seq<(Seq<char>, Seq<char>)>,
)
    requires
        value.connectors is None,
        value.agents is None,
        value.models is None,
        value.tools is None,
        value.history is None,
        value.title is None,
    ensures
        spec_resolve_config(value, base, reg, known, env) == Ok::<ConfigView, Seq<char>>(base),
{
}

/// When agents are configured and resolution succeeds, the default agent is
/// one of them, the one marked default, and the agents keep their names and
/// order.
pub proof fn lemma_default_agent_is_configured(
    value: TenonUserConfig,
    base: ConfigView,
    reg: Seq<(String, Directive)>,
    known: Seq<Seq<char>>,
    env: Seq<(Seq<char>, Seq<char>)>,
)
    requires
        value.agents is Some,
    ensures
        spec_resolve_config(value, base, reg, known, env) matches Ok(c) ==> {
            &&& lookup(c.1, c.2) is Some
            &&& exists|k: int|
                0 <= k < value.agents->0@.len() && value.agents->0@[k].0@ == c.2
                    && value.agents->0@[k].1.default
            &&& c.1.len() == value.agents->0@.len()
        },
{
    let conns = match value.connectors {
        Some(c) => connectors_view(c@),
        None => base.0,
    };
    let models = match value.models {
        Some(m) => spec_resolve_models(m@, conns),
        None => Ok(base.3),
    };
    if let Ok(mv) = models {
        lemma_default_is_listed(value.agents->0@, mv, reg, known);
    }
}

proof fn lemma_directives_each_built(cfgs: Seq<DirectiveConfig>, reg: Seq<(String, Directive)>)
    ensures
        spec_resolve_directives(cfgs, reg) matches Ok(ds) ==> ds.len() == cfgs.len() && forall|j: int|
            0 <= j < ds.len() ==> spec_directive_from(cfgs[j], reg) == Ok::<
                DirectiveView,
                Seq<char>,
            >(#[trigger] ds[j]),
    decreases cfgs.len(),
{
    if cfgs.len() > 0 {
        let init = cfgs.drop_last();
        lemma_directives_each_built(init, reg);
        if let Ok(ds) = spec_resolve_directives(cfgs, reg) {
            if let Ok(d0) = spec_resolve_directives(init, reg) {
                assert forall|j: int| 0 <= j < ds.len() implies spec_directive_from(cfgs[j], reg)
                    == Ok::<DirectiveView, Seq<char>>(#[trigger] ds[j]) by {
                    if j < d0.len() {
                        assert(ds[j] == d0[j]);
                        assert(init[j] == cfgs[j]);
                    }
                }
            }
        }
    }
}

proof fn lemma_agents_keep_directives(
    agents: Seq<(String, TenonAgentConfig)>,
    models: Seq<(Seq<char>, ModelView)>,
    reg: Seq<(String, Directive)>,
    known: Seq<Seq<char>>,
)
    ensures
        spec_resolve_agents(agents, models, reg, known) matches Ok((list, _)) ==> list.len()
            == agents.len() && forall|k: int|
            0 <= k < list.len() ==> spec_resolve_directives(agents[k].1.directive@, reg) == Ok::<
                Seq<DirectiveView>,
                Seq<char>,
            >((#[trigger] list[k]).1.1),
    decreases agents.len(),
{
    if agents.len() > 0 {
        let init = agents.drop_last();
        lemma_agents_keep_directives(init, models, reg, known);
        if let Ok((list, def)) = spec_resolve_agents(agents, models, reg, known) {
            if let Ok((l0, d0)) = spec_resolve_agents(init, models, reg, known) {
                assert(list.drop_last() == l0);
                assert forall|k: int| 0 <= k < list.len() implies spec_resolve_directives(
                    agents[k].1.directive@,
                    reg,
                ) == Ok::<Seq<DirectiveView>, Seq<char>>((#[trigger] list[k]).1.1) by {
                    if k < l0.len() {
                        assert(list[k] == l0[k]);
                        assert(init[k] == agents[k]);
                    }
                }
            }
        }
    }
}

/// No directive written in the configuration is lost: when resolution
/// succeeds, the `k`-th resolved agent is the `k`-th configured one, with
/// as many directives as it was given, its `j`-th directive being the one
/// built from its `j`-th configured directive.
pub proof fn lemma_configured_directives_are_kept(
    value: TenonUserConfig,
    base: ConfigView,
    reg: Seq<(String, Directive)>,
    known: Seq<Seq<char>>,
    env: Seq<(Seq<char>, Seq<char>)>,
)
    requires
        value.agents is Some,
    ensures
        spec_resolve_config(value, base, reg, known, env) matches Ok(c) ==> {
            let agents = value.agents->0@;
            &&& c.1.len() == agents.len()
            &&& forall|k: int|
                0 <= k < agents.len() ==> {
                    &&& (#[trigger] c.1[k]).0 == agents[k].0@
                    &&& c.1[k].1.1.len() == agents[k].1.directive@.len()
                    &&& forall|j: int|
                        0 <= j < agents[k].1.directive@.len() ==> spec_directive_from(
                            #[trigger] agents[k].1.directive@[j],
                            reg,
                        ) == Ok::<DirectiveView, Seq<char>>(c.1[k].1.1[j])
                }
        },
{
    let conns = match value.connectors {
        Some(c) => connectors_view(c@),
        None => base.0,
    };
    let models = match value.models {
        Some(m) => spec_resolve_models(m@, conns),
        None => Ok(base.3),
    };
    if let Ok(mv) = models {
        let agents = value.agents->0@;
        lemma_default_is_listed(agents, mv, reg, known);
        lemma_agents_keep_directives(agents, mv, reg, known);
        if let Ok((list, _)) = spec_resolve_agents(agents, mv, reg, known) {
            assert forall|k: int| 0 <= k < list.len() implies {
                let ds = (#[trigger] list[k]).1.1;
                &&& ds.len() == agents[k].1.directive@.len()
                &&& forall|j: int|
                    0 <= j < agents[k].1.directive@.len() ==> spec_directive_from(
                        #[trigger] agents[k].1.directive@[j],
                        reg,
                    ) == Ok::<DirectiveView, Seq<char>>(ds[j])
            } by {
                lemma_directives_each_built(agents[k].1.directive@, reg);
            }
        }
    }
}

impl TenonConfig {
    /// Resolves the user configuration `value` over the settings `base` (the
    /// defaults): written connectors replace the base's; each written model
    /// takes the provider of its connector; the written agents, of which
    /// there must be some and exactly one default, take their models, their
    /// directives (system ones from `registry`) and the choreographies among
    /// `choreo_ids`; the tools and the title take named models; the web
    /// search key is resolved in the environment `env`. Any unknown name is an
    /// `InvalidInput` error, the first in that order.
    pub fn try_from(
        value: TenonUserConfig,
        base: TenonConfig,
        registry: &DirectiveRegistry,
        choreo_ids: &Vec<String>,
        env: &Vec<(String, String)>,
    ) -> (r: Result<TenonConfig, Error>)
        ensures
            match spec_resolve_config(
                value,
                config_view(base),
                registry.entries@,
                strings_view(choreo_ids@),
                env_view(env@),
            ) {
                Ok(v) => r matches Ok(c) && config_view(c) == v,
                Err(m) => r matches Err(e) && e.kind == ErrorKind::InvalidInput && e.message@ == m,
            },
    {
        let connectors = match value.connectors {
            Some(c) => c,
            None => base.connectors,
        };
        let models = match value.models {
            Some(m) => match resolve_models(m, &connectors) {
                Ok(x) => x,
                Err(e) => return Err(e),
            },
            None => base.models,
        };
        let (agents, default_agent) = match value.agents {
            None => (base.agents, base.default_agent),
            Some(a) => {
                if a.len() == 0 {
                    return Err(config_error("agents cannot be empty".to_string()));
                }
                match resolve_agents(a, &models, registry, choreo_ids) {
                    Err(e) => return Err(e),
                    Ok((list, None)) => {
                        return Err(
                            config_error("at least one agent needs to be set as default".to_string()),
                        );
                    },
                    Ok((list, Some(d))) => (list, d),
                }
            },
        };
        let tools = match resolve_tools(value.tools, base.tools, &models, env) {
            Ok(t) => t,
            Err(e) => return Err(e),
        };
        let title = match resolve_title(value.title, base.title, &models) {
            Ok(t) => t,
            Err(e) => return Err(e),
        };
        let history = match value.history {
            Some(h) => HistoryConfig { directory: h.directory },
            None => base.history,
        };
        Ok(
            TenonConfig {
                connectors,
                agents,
                default_agent,
                models,
                tools,
                history,
                title,
            },
        )
    }
}

} // verus!
