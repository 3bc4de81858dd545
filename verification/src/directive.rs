//! Directives: instructions given to an agent, from inline text, from files,
//! or from the built-in presets, rendered as `<directive>` tags.
use vstd::prelude::*;

use crate::config::{DirectiveConfig, DirectiveSourceConfig};
use crate::error::{error_view, Error, ErrorKind, FileRead};
use crate::paths::{path_join, spec_path_join};
use crate::text::{str_eq, strings_view};

verus! {

broadcast use vstd::string::group_string_axioms;

/// Where a directive's content comes from.
#[derive(Debug)]
pub enum DirectiveSource {
    /// An inline string.
    Text { value: String },
    /// File paths; each non-empty file yields its own tag.
    File { paths: Vec<String> },
    /// A built-in preset file identified by its registry id.
    Preset { id: String, path: String },
}

/// A directive with an optional condition for when it applies.
#[derive(Debug)]
pub struct Directive {
    /// When the directive applies, if not always.
    pub condition: Option<String>,
    /// Where its content comes from.
    pub source: DirectiveSource,
}

/// The `condition` attribute, or nothing when there is no condition.
pub open spec fn cond_attr(condition: Option<Seq<char>>) -> Seq<char> {
    match condition {
        Some(c) => " condition=\""@ + c + "\""@,
        None => seq![],
    }
}

/// The content read for the `i`-th file: present only when the file exists,
/// was read and is not empty.
pub open spec fn content_at(contents: Seq<FileRead>, i: int) -> Option<Seq<char>> {
    if 0 <= i < contents.len() {
        match contents[i] {
            Ok(Some(c)) => if c@.len() > 0 {
                Some(c@)
            } else {
                None
            },
            _ => None,
        }
    } else {
        None
    }
}

/// The error of reading the `i`-th file, if its read failed.
pub open spec fn read_error_at(contents: Seq<FileRead>, i: int) -> Option<(ErrorKind, Seq<char>)> {
    if 0 <= i < contents.len() {
        match contents[i] {
            Err(e) => Some(error_view(e)),
            _ => None,
        }
    } else {
        None
    }
}

/// The error of the first failed read among the first `n` files.
pub open spec fn first_read_error(contents: Seq<FileRead>, n: int) -> Option<(ErrorKind, Seq<char>)>
    decreases n,
{
    if n <= 0 {
        None
    } else {
        match first_read_error(contents, n - 1) {
            Some(e) => Some(e),
            None => read_error_at(contents, n - 1),
        }
    }
}

/// Once a read among the first `n` failed, it is the first failure of any
/// longer prefix.
pub proof fn lemma_first_read_error_stays(contents: Seq<FileRead>, n: int, m: int)
    requires
        n <= m,
        first_read_error(contents, n) is Some,
    ensures
        first_read_error(contents, m) == first_read_error(contents, n),
    decreases m - n,
{
    if m > n {
        lemma_first_read_error_stays(contents, n, m - 1);
    }
}

/// The tags of the files among `paths[0..n]` that have content, in order.
pub open spec fn file_tags(
    cond: Seq<char>,
    paths: Seq<String>,
    contents: Seq<FileRead>,
    n: int,
) -> Seq<Seq<char>>
    decreases n,
{
    if n <= 0 {
        seq![]
    } else {
        let prev = file_tags(cond, paths, contents, n - 1);
        match content_at(contents, n - 1) {
            Some(c) => prev.push(
                "<directive"@ + cond + " file=\""@ + paths[n - 1]@ + "\">"@ + c + "</directive>"@,
            ),
            None => prev,
        }
    }
}

/// A directive source rendered: `Ok` with its tags; `Err` with the error of
/// the first file that could not be read, or, of kind `NotFound`, when a
/// preset file is missing or empty.
pub open spec fn spec_resolve(
    source: DirectiveSource,
    condition: Option<Seq<char>>,
    contents: Seq<FileRead>,
) -> Result<Seq<char>, (ErrorKind, Seq<char>)> {
    let cond = cond_attr(condition);
    match source {
        DirectiveSource::Text { value } => Ok("<directive"@ + cond + ">"@ + value@ + "</directive>"@),
        DirectiveSource::File { paths } => match first_read_error(contents, paths@.len() as int) {
            Some(e) => Err(e),
            None => Ok(
                crate::text::spec_join(
                    file_tags(cond, paths@, contents, paths@.len() as int),
                    seq!['\n'],
                ),
            ),
        },
        DirectiveSource::Preset { id, path } => match read_error_at(contents, 0) {
            Some(e) => Err(e),
            None => match content_at(contents, 0) {
                Some(c) => Ok(
                    "<directive"@ + cond + " preset=\""@ + id@ + "\">"@ + c + "</directive>"@,
                ),
                None => Err((ErrorKind::NotFound, "Preset file not found or empty: "@ + path@)),
            },
        },
    }
}

/// Two sources of the same kind with the same texts.
pub open spec fn same_source(a: DirectiveSource, b: DirectiveSource) -> bool {
    match (a, b) {
        (DirectiveSource::Text { value: x }, DirectiveSource::Text { value: y }) => x@ == y@,
        (DirectiveSource::File { paths: x }, DirectiveSource::File { paths: y }) => strings_view(x@)
            == strings_view(y@),
        (DirectiveSource::Preset { id: i1, path: p1 }, DirectiveSource::Preset { id: i2, path: p2 }) => i1@
            == i2@ && p1@ == p2@,
        _ => false,
    }
}

/// Deep view of an optional string slice.
pub open spec fn opt_view(s: Option<&str>) -> Option<Seq<char>> {
    match s {
        Some(x) => Some(x@),
        None => None,
    }
}

/// Deep view of an optional string.
pub open spec fn opt_string_view(s: Option<String>) -> Option<Seq<char>> {
    match s {
        Some(x) => Some(x@),
        None => None,
    }
}

/// The `condition` attribute as a string.
fn make_cond_attr(condition: Option<&str>) -> (r: String)
    ensures
        r@ == cond_attr(opt_view(condition)),
{
    match condition {
        Some(c) => {
            let mut s = " condition=\"".to_string();
            s.append(c);
            s.append("\"");
            s
        },
        None => String::new(),
    }
}

/// The error of reading file `i`, when the read failed.
fn get_read_error(contents: &Vec<FileRead>, i: usize) -> (r: Option<Error>)
    ensures
        match r {
            Some(e) => read_error_at(contents@, i as int) == Some(error_view(e)),
            None => read_error_at(contents@, i as int) is None,
        },
{
    if i < contents.len() {
        match &contents[i] {
            Err(e) => Some(e.duplicate()),
            _ => None,
        }
    } else {
        None
    }
}

/// The content given for file `i`, when it is present and not empty.
fn get_content(contents: &Vec<FileRead>, i: usize) -> (r: Option<&String>)
    ensures
        match r {
            Some(c) => content_at(contents@, i as int) == Some(c@),
            None => content_at(contents@, i as int) is None,
        },
{
    if i < contents.len() {
        match &contents[i] {
            Ok(Some(c)) => if c.as_str().unicode_len() > 0 {
                Some(c)
            } else {
                None
            },
            _ => None,
        }
    } else {
        None
    }
}

impl DirectiveSource {
    /// Renders the source as `<directive>` tags, given what reading its files
    /// gave (`contents[i]` for the `i`-th path of `File`, `contents[0]` for
    /// the file of `Preset`; `Ok(None)` for a missing file).
    ///
    /// - `Text` yields a single `<directive>` tag.
    /// - `File` yields one `<directive file="...">` tag per file with content,
    ///   joined with newlines; missing or empty files yield no tag.
    /// - `Preset` yields a single `<directive preset="...">` tag; a missing or
    ///   empty preset file is an error of kind `NotFound`.
    /// - A file that exists but could not be read makes its read's error the
    ///   answer (the first such file of `File`).
    ///
    /// The condition, when present, is an attribute of every tag.
    #[verifier::loop_isolation(false)]
    pub fn resolve(&self, condition: Option<&str>, contents: &Vec<FileRead>) -> (r: Result<
        String,
        Error,
    >)
        ensures
            match spec_resolve(*self, opt_view(condition), contents@) {
                Ok(s) => r matches Ok(x) && x@ == s,
                Err(err) => r matches Err(e) && error_view(e) == err,
            },
    {
        let cond = make_cond_attr(condition);
        match self {
            DirectiveSource::Text { value } => {
                let mut s = "<directive".to_string();
                s.append(cond.as_str());
                s.append(">");
                s.append(value.as_str());
                s.append("</directive>");
                Ok(s)
            },
            DirectiveSource::File { paths } => {
                let ghost cv = cond@;
                let mut out = String::new();
                let mut any = false;
                let mut i: usize = 0;
                while i < paths.len()
                    invariant
                        i <= paths@.len(),
                        cv == cond@,
                        first_read_error(contents@, i as int) is None,
                        any == (file_tags(cv, paths@, contents@, i as int).len() > 0),
                        out@ == crate::text::spec_join(
                            file_tags(cv, paths@, contents@, i as int),
                            seq!['\n'],
                        ),
                    decreases paths@.len() - i,
                {
                    let ghost prev = file_tags(cv, paths@, contents@, i as int);
                    match get_read_error(contents, i) {
                        Some(e) => {
                            proof {
                                lemma_first_read_error_stays(
                                    contents@,
                                    i + 1,
                                    paths@.len() as int,
                                );
                            }
                            return Err(e);
                        },
                        None => {},
                    }
                    match get_content(contents, i) {
                        Some(c) => {
                            let mut tag = "<directive".to_string();
                            tag.append(cond.as_str());
                            tag.append(" file=\"");
                            tag.append(paths[i].as_str());
                            tag.append("\">");
                            tag.append(c.as_str());
                            tag.append("</directive>");
                            if any {
                                out.append("\n");
                            }
                            out.append(tag.as_str());
                            proof {
                                reveal_strlit("\n");
                                assert("\n"@ =~= seq!['\n']);
                                crate::text::lemma_join_push(prev, seq!['\n'], tag@);
                            }
                            any = true;
                        },
                        None => {},
                    }
                    i += 1;
                }
                Ok(out)
            },
            DirectiveSource::Preset { id, path } => {
                match get_read_error(contents, 0) {
                    Some(e) => {
                        return Err(e);
                    },
                    None => {},
                }
                match get_content(contents, 0) {
                    Some(c) => {
                        let mut s = "<directive".to_string();
                        s.append(cond.as_str());
                        s.append(" preset=\"");
                        s.append(id.as_str());
                        s.append("\">");
                        s.append(c.as_str());
                        s.append("</directive>");
                        Ok(s)
                    },
                    None => {
                        let mut m = "Preset file not found or empty: ".to_string();
                        m.append(path.as_str());
                        Err(Error { kind: ErrorKind::NotFound, message: m })
                    },
                }
            },
        }
    }

    /// A copy of the source.
    pub fn duplicate(&self) -> (r: DirectiveSource)
        ensures
            same_source(r, *self),
    {
        match self {
            DirectiveSource::Text { value } => DirectiveSource::Text { value: value.clone() },
            DirectiveSource::File { paths } => {
                let mut v: Vec<String> = Vec::new();
                let mut i: usize = 0;
                while i < paths.len()
                    invariant
                        i <= paths@.len(),
                        v@ == paths@.subrange(0, i as int),
                    decreases paths@.len() - i,
                {
                    v.push(paths[i].clone());
                    assert(v@ =~= paths@.subrange(0, i + 1));
                    i += 1;
                }
                assert(paths@.subrange(0, paths@.len() as int) =~= paths@);
                DirectiveSource::File { paths: v }
            },
            DirectiveSource::Preset { id, path } => DirectiveSource::Preset {
                id: id.clone(),
                path: path.clone(),
            },
        }
    }
}

impl Directive {
    /// Renders the directive: its source, with its condition as an attribute
    /// of every tag.
    pub fn resolve(&self, contents: &Vec<FileRead>) -> (r: Result<String, Error>)
        ensures
            match spec_resolve(self.source, opt_string_view(self.condition), contents@) {
                Ok(s) => r matches Ok(x) && x@ == s,
                Err(err) => r matches Err(e) && error_view(e) == err,
            },
    {
        let cond: Option<&str> = match &self.condition {
            Some(c) => Some(c.as_str()),
            None => None,
        };
        self.source.resolve(cond, contents)
    }
}

/// Two sources render alike when they have the same kind and texts.
pub proof fn lemma_same_source_resolves_alike(
    a: DirectiveSource,
    b: DirectiveSource,
    condition: Option<Seq<char>>,
    contents: Seq<FileRead>,
)
    requires
        same_source(a, b),
    ensures
        spec_resolve(a, condition, contents) == spec_resolve(b, condition, contents),
{
    match (a, b) {
        (DirectiveSource::File { paths: x }, DirectiveSource::File { paths: y }) => {
            assert(x@.len() == y@.len()) by {
                assert(strings_view(x@).len() == strings_view(y@).len());
            }
            lemma_file_tags_alike(cond_attr(condition), x@, y@, contents, x@.len() as int);
        },
        _ => {},
    }
}

proof fn lemma_file_tags_alike(
    cond: Seq<char>,
    x: Seq<String>,
    y: Seq<String>,
    contents: Seq<FileRead>,
    n: int,
)
    requires
        x.len() == y.len(),
        n <= x.len(),
        strings_view(x) == strings_view(y),
    ensures
        file_tags(cond, x, contents, n) == file_tags(cond, y, contents, n),
    decreases n,
{
    if n > 0 {
        lemma_file_tags_alike(cond, x, y, contents, n - 1);
        assert(strings_view(x)[n - 1] == strings_view(y)[n - 1]);
    }
}

/// The system directives that come from preset files: their ids and the
/// names of their files.
pub open spec fn system_preset_table() -> Seq<(Seq<char>, Seq<char>)> {
    seq![
        ("No Perfect Solution Attitude"@, "no_perfect_solution_attitude.md"@),
        ("Situation Sensitivity"@, "situation_sensitivity.md"@),
        ("Read First Attitude"@, "read_first_attitude.md"@),
        ("YAGNI Attitude"@, "yagni_attitude.md"@),
        ("Fix Software Bug Process"@, "fix_software_bug_process.md"@),
        ("Bug Isolation"@, "bug_isolation.md"@),
        ("Prompt Editing Basics"@, "prompt_editing_basics.md"@),
        ("Prompting Basics"@, "prompting_basics.md"@),
        ("Code Comment Basics"@, "code_comment_basics.md"@),
        ("Testing Basics"@, "testing_basics.md"@),
        ("Reduce Commentary"@, "reduce-commentary.md"@),
        ("Speak With Facts"@, "speak_with_facts.md"@),
        ("Tenon Constitution"@, "tenon_constitution.md"@),
    ]
}

/// The directory of the preset directive files under the plugin's root.
pub open spec fn spec_directive_base(plugin_root: Seq<char>) -> Seq<char> {
    spec_path_join(plugin_root, "markdown/directive"@)
}

/// The path of a preset directive file under the plugin's root.
pub open spec fn spec_directive_path(plugin_root: Seq<char>, relative: Seq<char>) -> Seq<char> {
    spec_path_join(spec_directive_base(plugin_root), relative)
}

/// Returns the path of a preset directive file: `relative` under
/// `markdown/directive` in the plugin's root.
pub fn directive_path(plugin_root: &str, relative: &str) -> (r: String)
    ensures
        r@ == spec_directive_path(plugin_root@, relative@),
{
    let base = path_join(plugin_root, "markdown/directive");
    path_join(base.as_str(), relative)
}

/// Named directives, looked up by name (the first entry of a name wins).
#[derive(Debug)]
pub struct DirectiveRegistry {
    pub entries: Vec<(String, Directive)>,
}

/// Index of the first entry named `name`, if any.
pub open spec fn first_index_of<T>(entries: Seq<(String, T)>, name: Seq<char>) -> Option<int>
    decreases entries.len(),
{
    if entries.len() == 0 {
        None
    } else {
        match first_index_of(entries.drop_last(), name) {
            Some(i) => Some(i),
            None => if entries.last().0@ == name {
                Some(entries.len() - 1)
            } else {
                None
            },
        }
    }
}

/// The first index of a name is an index of the entries.
pub proof fn lemma_first_index_in_range<T>(entries: Seq<(String, T)>, name: Seq<char>)
    ensures
        first_index_of(entries, name) matches Some(i) ==> 0 <= i < entries.len() && entries[i].0@
            == name,
    decreases entries.len(),
{
    if entries.len() > 0 {
        lemma_first_index_in_range(entries.drop_last(), name);
    }
}

proof fn lemma_first_index_prefix<T>(entries: Seq<(String, T)>, name: Seq<char>, i: int)
    requires
        0 <= i <= entries.len(),
        forall|j: int| 0 <= j < i ==> entries[j].0@ != name,
    ensures
        first_index_of(entries.subrange(0, i), name) is None,
    decreases i,
{
    if i > 0 {
        assert(entries.subrange(0, i).drop_last() =~= entries.subrange(0, i - 1));
        lemma_first_index_prefix(entries, name, i - 1);
    }
}

proof fn lemma_first_index_found<T>(entries: Seq<(String, T)>, name: Seq<char>, i: int, n: int)
    requires
        0 <= i < n <= entries.len(),
        forall|j: int| 0 <= j < i ==> entries[j].0@ != name,
        entries[i].0@ == name,
    ensures
        first_index_of(entries.subrange(0, n), name) == Some(i),
    decreases n,
{
    assert(entries.subrange(0, n).drop_last() =~= entries.subrange(0, n - 1));
    if n - 1 > i {
        lemma_first_index_found(entries, name, i, n - 1);
    } else {
        lemma_first_index_prefix(entries, name, i);
    }
}

/// Finds the index of the first entry named `name`.
pub fn find_entry<T>(entries: &Vec<(String, T)>, name: &str) -> (r: Option<usize>)
    ensures
        match r {
            Some(i) => i < entries@.len() && first_index_of(entries@, name@) == Some(i as int),
            None => first_index_of(entries@, name@) is None,
        },
{
    let mut i: usize = 0;
    while i < entries.len()
        invariant
            i <= entries@.len(),
            forall|j: int| 0 <= j < i ==> entries@[j].0@ != name@,
        decreases entries@.len() - i,
    {
        if str_eq(entries[i].0.as_str(), name) {
            proof {
                lemma_first_index_found(entries@, name@, i as int, entries@.len() as int);
                assert(entries@.subrange(0, entries@.len() as int) =~= entries@);
            }
            return Some(i);
        }
        i += 1;
    }
    proof {
        lemma_first_index_prefix(entries@, name@, entries@.len() as int);
        assert(entries@.subrange(0, entries@.len() as int) =~= entries@);
    }
    None
}

impl DirectiveRegistry {
    /// The directive registered under `name` (the first such entry).
    pub fn get(&self, name: &str) -> (r: Option<&Directive>)
        ensures
            match first_index_of(self.entries@, name@) {
                Some(i) => r == Some(&self.entries@[i].1),
                None => r is None,
            },
    {
        match find_entry(&self.entries, name) {
            Some(i) => Some(&self.entries[i].1),
            None => None,
        }
    }
}

/// A preset directive entry: its name, with a `Preset` source of that id.
fn preset_entry(base: &str, id: &str, file: &str) -> (r: (String, Directive))
    ensures
        r.0@ == id@,
        r.1.condition is None,
        r.1.source matches DirectiveSource::Preset { id: i, path: p } && i@ == id@ && p@
            == spec_path_join(base@, file@),
{
    (
        id.to_string(),
        Directive {
            condition: None,
            source: DirectiveSource::Preset { id: id.to_string(), path: path_join(base, file) },
        },
    )
}

/// Whether entry `e` is the system preset directive described by `row`.
pub open spec fn is_preset_row(plugin_root: Seq<char>, e: (String, Directive), row: (Seq<char>, Seq<char>)) -> bool {
    &&& e.0@ == row.0
    &&& e.1.condition is None
    &&& e.1.source matches DirectiveSource::Preset { id: i, path: p } && i@ == row.0 && p@
        == spec_directive_path(plugin_root, row.1)
}

/// Returns the built-in system directives: `AGENTS.md`, which reads the
/// project's `./AGENTS.md` and `./AGENTS.local.md`, and the presets, each a
/// `Preset` whose id is its name and whose file lies under
/// `markdown/directive` in the plugin's root.
pub fn load_system_directives(plugin_root: &str) -> (r: DirectiveRegistry)
    ensures
        r.entries@.len() == system_preset_table().len() + 1,
        r.entries@[0].0@ == "AGENTS.md"@,
        r.entries@[0].1.condition is None,
        r.entries@[0].1.source matches DirectiveSource::File { paths } && strings_view(paths@)
            == seq!["./AGENTS.md"@, "./AGENTS.local.md"@],
        forall|k: int|
            0 <= k < system_preset_table().len() ==> #[trigger] is_preset_row(
                plugin_root@,
                r.entries@[k + 1],
                system_preset_table()[k],
            ),
{
    let base = path_join(plugin_root, "markdown/directive");
    let mut entries: Vec<(String, Directive)> = Vec::new();
    let mut agents_paths: Vec<String> = Vec::new();
    agents_paths.push("./AGENTS.md".to_string());
    agents_paths.push("./AGENTS.local.md".to_string());
    assert(strings_view(agents_paths@) =~= seq!["./AGENTS.md"@, "./AGENTS.local.md"@]);
    entries.push(
        (
            "AGENTS.md".to_string(),
            Directive { condition: None, source: DirectiveSource::File { paths: agents_paths } },
        ),
    );
    entries.push(preset_entry(base.as_str(), "No Perfect Solution Attitude", "no_perfect_solution_attitude.md"));
    entries.push(preset_entry(base.as_str(), "Situation Sensitivity", "situation_sensitivity.md"));
    entries.push(preset_entry(base.as_str(), "Read First Attitude", "read_first_attitude.md"));
    entries.push(preset_entry(base.as_str(), "YAGNI Attitude", "yagni_attitude.md"));
    entries.push(preset_entry(base.as_str(), "Fix Software Bug Process", "fix_software_bug_process.md"));
    entries.push(preset_entry(base.as_str(), "Bug Isolation", "bug_isolation.md"));
    entries.push(preset_entry(base.as_str(), "Prompt Editing Basics", "prompt_editing_basics.md"));
    entries.push(preset_entry(base.as_str(), "Prompting Basics", "prompting_basics.md"));
    entries.push(preset_entry(base.as_str(), "Code Comment Basics", "code_comment_basics.md"));
    entries.push(preset_entry(base.as_str(), "Testing Basics", "testing_basics.md"));
    entries.push(preset_entry(base.as_str(), "Reduce Commentary", "reduce-commentary.md"));
    entries.push(preset_entry(base.as_str(), "Speak With Facts", "speak_with_facts.md"));
    entries.push(preset_entry(base.as_str(), "Tenon Constitution", "tenon_constitution.md"));
    assert forall|k: int| 0 <= k < system_preset_table().len() implies #[trigger] is_preset_row(
        plugin_root@,
        entries@[k + 1],
        system_preset_table()[k],
    ) by {
        assert(base@ == spec_directive_base(plugin_root@));
    }
    DirectiveRegistry { entries }
}

/// A directive source as values: its kind (in the order of the variants)
/// and its texts.
pub open spec fn source_view(s: DirectiveSource) -> (int, Seq<Seq<char>>) {
    match s {
        DirectiveSource::Text { value } => (0, seq![value@]),
        DirectiveSource::File { paths } => (1, strings_view(paths@)),
        DirectiveSource::Preset { id, path } => (2, seq![id@, path@]),
    }
}

/// A directive as values: its condition and its source.
pub open spec fn directive_view(d: Directive) -> (Option<Seq<char>>, (int, Seq<Seq<char>>)) {
    (opt_string_view(d.condition), source_view(d.source))
}

/// The directive that a configuration entry builds, as values, or the error
/// message for a system directive that `registry` lacks.
pub open spec fn spec_directive_from(config: DirectiveConfig, registry: Seq<(String, Directive)>) -> Result<
    (Option<Seq<char>>, (int, Seq<Seq<char>>)),
    Seq<char>,
> {
    match config.source {
        DirectiveSourceConfig::Text { value } => Ok(
            (opt_string_view(config.condition), (0, seq![value@])),
        ),
        DirectiveSourceConfig::File { paths } => Ok(
            (opt_string_view(config.condition), (1, strings_view(paths@))),
        ),
        DirectiveSourceConfig::System { name } => match first_index_of(registry, name@) {
            Some(i) => Ok((opt_string_view(config.condition), source_view(registry[i].1.source))),
            None => Err("System directive '"@ + name@ + "' not found"@),
        },
    }
}

impl Directive {
    /// Builds a directive from its configuration: inline text and file paths
    /// carry over; a `System` source takes the source of the system directive
    /// of that name from `registry`, and is an error of kind `NotFound` when
    /// there is none. The condition carries over.
    pub fn try_from(config: DirectiveConfig, registry: &DirectiveRegistry) -> (r: Result<Directive, Error>)
        ensures
            match config.source {
                DirectiveSourceConfig::Text { value } => {
                    &&& r matches Ok(d)
                    &&& d.condition == config.condition
                    &&& d.source matches DirectiveSource::Text { value: v }
                    &&& v@ == value@
                },
                DirectiveSourceConfig::File { paths } => {
                    &&& r matches Ok(d)
                    &&& d.condition == config.condition
                    &&& d.source matches DirectiveSource::File { paths: p }
                    &&& strings_view(p@) == strings_view(paths@)
                },
                DirectiveSourceConfig::System { name } => match first_index_of(registry.entries@, name@) {
                    Some(i) => {
                        &&& r matches Ok(d)
                        &&& d.condition == config.condition
                        &&& same_source(d.source, registry.entries@[i].1.source)
                    },
                    None => {
                        &&& r matches Err(e)
                        &&& e.kind == ErrorKind::NotFound
                        &&& e.message@ == "System directive '"@ + name@ + "' not found"@
                    },
                },
            },
            match spec_directive_from(config, registry.entries@) {
                Ok(v) => r matches Ok(d) && directive_view(d) == v,
                Err(m) => r matches Err(e) && e.kind == ErrorKind::NotFound && e.message@ == m,
            },
    {
        let source = match config.source {
            DirectiveSourceConfig::Text { value } => DirectiveSource::Text { value },
            DirectiveSourceConfig::File { paths } => DirectiveSource::File { paths },
            DirectiveSourceConfig::System { name } => {
                match registry.get(name.as_str()) {
                    Some(d) => {
                        proof {
                            lemma_first_index_in_range(registry.entries@, name@);
                        }
                        d.source.duplicate()
                    },
                    None => {
                        let mut m = "System directive '".to_string();
                        m.append(name.as_str());
                        m.append("' not found");
                        return Err(Error { kind: ErrorKind::NotFound, message: m });
                    },
                }
            },
        };
        Ok(Directive { condition: config.condition, source })
    }
}

} // verus!
