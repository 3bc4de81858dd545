//! Model providers: how each is reached, the models they serve, and the two
//! rules that turn failed tool calls into results the model can read.
use vstd::prelude::*;

use crate::text::{spec_starts_with, str_starts_with, strings_view};

verus! {

/// `serde_json::Map`, known to the verifier as an opaque type.
#[verifier::external_type_specification]
#[verifier::external_body]
#[verifier::reject_recursive_types(K)]
#[verifier::reject_recursive_types(V)]
pub struct ExJsonMap<K, V>(serde_json::Map<K, V>);

/// `serde_json::Value`, known to the verifier as an opaque type.
#[verifier::external_type_specification]
#[verifier::external_body]
pub struct ExJsonValue(serde_json::Value);

/// Calls `Clone::clone` on a `serde_json::Map`, which copies every entry, so
/// the copy equals the map it copies.
#[verifier::external_body]
fn clone_parameters(m: &serde_json::Map<String, serde_json::Value>) -> (r: serde_json::Map<
    String,
    serde_json::Value,
>)
    ensures
        r == *m,
{
    m.clone()
}

/// An API key: the key itself, or the name of the environment variable that
/// holds it.
#[derive(Debug, Clone)]
pub enum ApiKey {
    /// The key itself.
    Value(String),
    /// The environment variable that holds the key.
    Env { env: String },
}

/// An API key as values: whether it names a variable, and the key or the
/// variable's name.
pub open spec fn api_key_view(k: ApiKey) -> (bool, Seq<char>) {
    match k {
        ApiKey::Value(v) => (false, v@),
        ApiKey::Env { env } => (true, env@),
    }
}

/// The value of variable `name` in an environment given as `(name, value)`
/// pairs: the first pair with that name.
pub open spec fn env_lookup(env: Seq<(Seq<char>, Seq<char>)>, name: Seq<char>) -> Option<Seq<char>>
    decreases env.len(),
{
    if env.len() == 0 {
        None
    } else if env[0].0 == name {
        Some(env[0].1)
    } else {
        env_lookup(env.drop_first(), name)
    }
}

/// An environment as values.
pub open spec fn env_view(env: Seq<(String, String)>) -> Seq<(Seq<char>, Seq<char>)> {
    env.map_values(|p: (String, String)| (p.0@, p.1@))
}

/// What resolving a key gives in an environment: the key itself, or the
/// variable's value, or an error that names the missing variable.
pub open spec fn spec_resolve_key(k: (bool, Seq<char>), env: Seq<(Seq<char>, Seq<char>)>) -> Result<Seq<char>, Seq<char>> {
    if !k.0 {
        Ok(k.1)
    } else {
        match env_lookup(env, k.1) {
            Some(v) => Ok(v),
            None => Err("Environment variable '"@ + k.1 + "' not set"@),
        }
    }
}

/// Looks `name` up in `env`.
fn env_get(env: &Vec<(String, String)>, name: &str) -> (r: Option<String>)
    ensures
        match r {
            Some(v) => env_lookup(env_view(env@), name@) == Some(v@),
            None => env_lookup(env_view(env@), name@) is None,
        },
{
    let mut i: usize = 0;
    let ghost ev = env_view(env@);
    assert(ev.skip(0) =~= ev);
    while i < env.len()
        invariant
            ev == env_view(env@),
            i <= env@.len(),
            env_lookup(ev.skip(i as int), name@) == env_lookup(ev, name@),
        decreases env@.len() - i,
    {
        assert(ev.skip(i as int)[0] == (env@[i as int].0@, env@[i as int].1@));
        assert(ev.skip(i as int).drop_first() =~= ev.skip(i + 1));
        if crate::text::str_eq(env[i].0.as_str(), name) {
            return Some(env[i].1.clone());
        }
        i += 1;
    }
    None
}

impl ApiKey {
    /// Resolves the key in the environment `env`, given as `(name, value)`
    /// pairs: a key given directly as itself; one in a variable as the
    /// variable's value, or an error when it is not set.
    pub fn resolve(&self, env: &Vec<(String, String)>) -> (r: Result<String, String>)
        ensures
            match spec_resolve_key(api_key_view(*self), env_view(env@)) {
                Ok(v) => r matches Ok(x) && x@ == v,
                Err(m) => r matches Err(x) && x@ == m,
            },
    {
        match self {
            ApiKey::Value(v) => Ok(v.clone()),
            ApiKey::Env { env: name } => match env_get(env, name.as_str()) {
                Some(v) => Ok(v),
                None => {
                    let mut m = "Environment variable '".to_string();
                    m.append(name.as_str());
                    m.append("' not set");
                    Err(m)
                },
            },
        }
    }

    /// A copy of the key.
    pub fn duplicate(&self) -> (r: ApiKey)
        ensures
            api_key_view(r) == api_key_view(*self),
    {
        match self {
            ApiKey::Value(v) => ApiKey::Value(v.clone()),
            ApiKey::Env { env } => ApiKey::Env { env: env.clone() },
        }
    }

    /// The key that names the variable `name`.
    fn named(name: &str) -> (r: ApiKey)
        ensures
            api_key_view(r) == (true, name@),
    {
        ApiKey::Env { env: name.to_string() }
    }
}

impl Default for ApiKey {
    /// The empty key.
    fn default() -> (r: ApiKey)
        ensures
            api_key_view(r) == (false, Seq::<char>::empty()),
    {
        ApiKey::Value(String::new())
    }
}

/// How to reach Anthropic.
#[derive(Debug, Clone)]
pub struct AnthropicProviderConfig {
    pub base_url: String,
    pub api_key: ApiKey,
}

/// How to reach Gemini.
#[derive(Debug, Clone)]
pub struct GeminiProviderConfig {
    pub base_url: String,
    pub api_key: ApiKey,
}

/// How to reach an Ollama server; the bearer token is optional.
#[derive(Debug, Clone)]
pub struct OllamaProviderConfig {
    pub base_url: String,
    pub bearer: Option<ApiKey>,
}

/// How to reach an OpenAI-compatible endpoint.
#[derive(Debug, Clone)]
pub struct OpenAIProviderConfig {
    pub base_url: String,
    pub api_key: ApiKey,
}

/// A provider configured wholly by its environment.
#[derive(Debug, Clone)]
pub struct NoProviderConfig;

/// The providers a connector can name.
#[derive(Debug, Clone)]
pub enum ProviderConfig {
    Ollama(OllamaProviderConfig),
    Gemini(GeminiProviderConfig),
    OpenAICompletion(OpenAIProviderConfig),
    OpenAIResponse(OpenAIProviderConfig),
    Anthropic(AnthropicProviderConfig),
    Bedrock(NoProviderConfig),
}

/// A provider as values: its kind (in the order of the variants), its base
/// URL and its key, if any.
pub open spec fn provider_view(p: ProviderConfig) -> (int, Seq<char>, Option<(bool, Seq<char>)>) {
    match p {
        ProviderConfig::Ollama(c) => (
            0,
            c.base_url@,
            match c.bearer {
                Some(k) => Some(api_key_view(k)),
                None => None,
            },
        ),
        ProviderConfig::Gemini(c) => (1, c.base_url@, Some(api_key_view(c.api_key))),
        ProviderConfig::OpenAICompletion(c) => (2, c.base_url@, Some(api_key_view(c.api_key))),
        ProviderConfig::OpenAIResponse(c) => (3, c.base_url@, Some(api_key_view(c.api_key))),
        ProviderConfig::Anthropic(c) => (4, c.base_url@, Some(api_key_view(c.api_key))),
        ProviderConfig::Bedrock(_) => (5, Seq::empty(), None),
    }
}

impl Default for AnthropicProviderConfig {
    /// Anthropic's API, with the key in `ANTHROPIC_API_KEY`.
    fn default() -> (r: AnthropicProviderConfig)
        ensures
            r.base_url@ == "https://api.anthropic.com"@,
            api_key_view(r.api_key) == (true, "ANTHROPIC_API_KEY"@),
    {
        AnthropicProviderConfig {
            base_url: "https://api.anthropic.com".to_string(),
            api_key: ApiKey::named("ANTHROPIC_API_KEY"),
        }
    }
}

impl Default for GeminiProviderConfig {
    /// Google's Generative Language API, with the key in `GEMINI_API_KEY`.
    fn default() -> (r: GeminiProviderConfig)
        ensures
            r.base_url@ == "https://generativelanguage.googleapis.com"@,
            api_key_view(r.api_key) == (true, "GEMINI_API_KEY"@),
    {
        GeminiProviderConfig {
            base_url: "https://generativelanguage.googleapis.com".to_string(),
            api_key: ApiKey::named("GEMINI_API_KEY"),
        }
    }
}

impl Default for OllamaProviderConfig {
    /// A local Ollama server, with the bearer token in `OLLAMA_API_KEY`.
    fn default() -> (r: OllamaProviderConfig)
        ensures
            r.base_url@ == "http://127.0.0.1:11434"@,
            r.bearer matches Some(k) && api_key_view(k) == (true, "OLLAMA_API_KEY"@),
    {
        OllamaProviderConfig {
            base_url: "http://127.0.0.1:11434".to_string(),
            bearer: Some(ApiKey::named("OLLAMA_API_KEY")),
        }
    }
}

impl Default for OpenAIProviderConfig {
    /// OpenAI's API, with the key in `OPENAI_API_KEY`.
    fn default() -> (r: OpenAIProviderConfig)
        ensures
            r.base_url@ == "https://api.openai.com/v1"@,
            api_key_view(r.api_key) == (true, "OPENAI_API_KEY"@),
    {
        OpenAIProviderConfig {
            base_url: "https://api.openai.com/v1".to_string(),
            api_key: ApiKey::named("OPENAI_API_KEY"),
        }
    }
}

impl ProviderConfig {
    /// A copy of the provider.
    pub fn duplicate(&self) -> (r: ProviderConfig)
        ensures
            provider_view(r) == provider_view(*self),
    {
        match self {
            ProviderConfig::Ollama(c) => ProviderConfig::Ollama(
                OllamaProviderConfig {
                    base_url: c.base_url.clone(),
                    bearer: match &c.bearer {
                        Some(k) => Some(k.duplicate()),
                        None => None,
                    },
                },
            ),
            ProviderConfig::Gemini(c) => ProviderConfig::Gemini(
                GeminiProviderConfig { base_url: c.base_url.clone(), api_key: c.api_key.duplicate() },
            ),
            ProviderConfig::OpenAICompletion(c) => ProviderConfig::OpenAICompletion(
                OpenAIProviderConfig { base_url: c.base_url.clone(), api_key: c.api_key.duplicate() },
            ),
            ProviderConfig::OpenAIResponse(c) => ProviderConfig::OpenAIResponse(
                OpenAIProviderConfig { base_url: c.base_url.clone(), api_key: c.api_key.duplicate() },
            ),
            ProviderConfig::Anthropic(c) => ProviderConfig::Anthropic(
                AnthropicProviderConfig {
                    base_url: c.base_url.clone(),
                    api_key: c.api_key.duplicate(),
                },
            ),
            ProviderConfig::Bedrock(_) => ProviderConfig::Bedrock(NoProviderConfig),
        }
    }
}

/// A model of a connector, with the parameters sent with every request.
#[derive(Debug)]
pub struct SupportedModels {
    pub connector_name: String,
    pub config: ProviderConfig,
    pub model_name: String,
    pub default_parameters: serde_json::Map<String, serde_json::Value>,
}

/// A model as values.
pub open spec fn model_view(m: SupportedModels) -> (
    Seq<char>,
    (int, Seq<char>, Option<(bool, Seq<char>)>),
    Seq<char>,
    serde_json::Map<String, serde_json::Value>,
) {
    (m.connector_name@, provider_view(m.config), m.model_name@, m.default_parameters)
}

impl SupportedModels {
    /// `"connector: model"`.
    pub fn display_name(&self) -> (r: String)
        ensures
            r@ == self.connector_name@ + ": "@ + self.model_name@,
    {
        let mut s = self.connector_name.clone();
        s.append(": ");
        s.append(self.model_name.as_str());
        s
    }

    /// A copy of the model.
    pub fn duplicate(&self) -> (r: SupportedModels)
        ensures
            model_view(r) == model_view(*self),
    {
        SupportedModels {
            connector_name: self.connector_name.clone(),
            config: self.config.duplicate(),
            model_name: self.model_name.clone(),
            default_parameters: clone_parameters(&self.default_parameters),
        }
    }
}

/// The prefix that marks a tool result as an error for the chat.
pub open spec fn tool_call_error_prefix() -> Seq<char> {
    "ToolCallError: "@
}

/// Answers a call of a tool that is not available with a result that names
/// the tools that are.
#[derive(Debug)]
pub struct InvalidToolCallHook;

/// Marks failed and refused tool results as errors for the chat.
#[derive(Debug)]
pub struct ToolErrorHook;

/// The names joined with `", "`.
fn join_names(names: &Vec<String>) -> (r: String)
    ensures
        r@ == crate::text::spec_join(strings_view(names@), ", "@),
{
    let mut s = String::new();
    let mut i: usize = 0;
    while i < names.len()
        invariant
            i <= names@.len(),
            s@ == crate::text::spec_join(strings_view(names@.subrange(0, i as int)), ", "@),
        decreases names@.len() - i,
    {
        proof {
            assert(strings_view(names@.subrange(0, i + 1)) =~= strings_view(
                names@.subrange(0, i as int),
            ).push(names@[i as int]@));
            crate::text::lemma_join_push(
                strings_view(names@.subrange(0, i as int)),
                ", "@,
                names@[i as int]@,
            );
        }
        if i > 0 {
            s.append(", ");
        }
        s.append(names[i].as_str());
        i += 1;
    }
    assert(names@.subrange(0, names@.len() as int) =~= names@);
    s
}

impl InvalidToolCallHook {
    /// The result given back for a call of `tool_name`, which is not among
    /// `available_tools`.
    pub fn message(tool_name: &str, available_tools: &Vec<String>) -> (r: String)
        ensures
            r@ == tool_call_error_prefix() + "`"@ + tool_name@ + "` is not an available tool. Call one of: "@
                + crate::text::spec_join(strings_view(available_tools@), ", "@) + "."@,
    {
        let mut s = "ToolCallError: `".to_string();
        s.append(tool_name);
        s.append("` is not an available tool. Call one of: ");
        let names = join_names(available_tools);
        s.append(names.as_str());
        s.append(".");
        proof {
            reveal_strlit("ToolCallError: `");
            reveal_strlit("ToolCallError: ");
            reveal_strlit("`");
            assert("ToolCallError: `"@ =~= "ToolCallError: "@ + "`"@);
        }
        s
    }
}

/// What becomes of a tool result: a result that is an error and does not
/// yet carry the prefix is rewritten with it; any other is kept (`None`).
pub open spec fn spec_rewrite(is_error: bool, text: Seq<char>) -> Option<Seq<char>> {
    if is_error && !spec_starts_with(text, tool_call_error_prefix()) {
        Some(tool_call_error_prefix() + text)
    } else {
        None
    }
}

impl ToolErrorHook {
    /// The rewritten text of a tool result whose presentation is `text`, or
    /// `None` to keep it as it is.
    pub fn rewrite(is_error: bool, text: &str) -> (r: Option<String>)
        ensures
            match spec_rewrite(is_error, text@) {
                Some(t) => r matches Some(x) && x@ == t,
                None => r is None,
            },
    {
        if is_error && !str_starts_with(text, "ToolCallError: ") {
            let mut s = "ToolCallError: ".to_string();
            s.append(text);
            Some(s)
        } else {
            None
        }
    }
}

/// An error result never carries the prefix twice: one that has it is kept,
/// and a rewritten one starts with it exactly once more than before, that is
/// from not having it to having it.
pub proof fn lemma_rewrite_prefixes_once(is_error: bool, text: Seq<char>)
    ensures
        spec_starts_with(text, tool_call_error_prefix()) ==> spec_rewrite(is_error, text) is None,
        spec_rewrite(is_error, text) matches Some(t) ==> spec_starts_with(t, tool_call_error_prefix())
            && t.subrange(tool_call_error_prefix().len() as int, t.len() as int) == text
            && !spec_starts_with(text, tool_call_error_prefix()),
        is_error ==> spec_starts_with(
            match spec_rewrite(is_error, text) {
                Some(t) => t,
                None => text,
            },
            tool_call_error_prefix(),
        ),
{
    let p = tool_call_error_prefix();
    if let Some(t) = spec_rewrite(is_error, text) {
        assert(t.subrange(0, p.len() as int) =~= p);
        assert(t.subrange(p.len() as int, t.len() as int) =~= text);
    }
}

/// The answer to an unavailable tool is itself marked as an error, so the
/// error rule keeps it as it is instead of marking it twice.
pub proof fn lemma_invalid_call_answer_kept(tool_name: Seq<char>, available: Seq<Seq<char>>)
    ensures
        ({
            let answer = tool_call_error_prefix() + "`"@ + tool_name
                + "` is not an available tool. Call one of: "@ + crate::text::spec_join(available, ", "@)
                + "."@;
            spec_rewrite(true, answer) is None
        }),
{
    let answer = tool_call_error_prefix() + "`"@ + tool_name
        + "` is not an available tool. Call one of: "@ + crate::text::spec_join(available, ", "@)
        + "."@;
    let p = tool_call_error_prefix();
    assert(answer.subrange(0, p.len() as int) =~= p);
}

} // verus!
