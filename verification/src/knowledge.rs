//! Knowledge: named reference material for an agent, from inline text or
//! files, rendered as one `<knowledge>` block.
use vstd::prelude::*;

use crate::directive::first_index_of;
use crate::error::{error_view, Error, ErrorKind, FileRead};
use crate::paths::{path_join, spec_path_join};
use crate::text::{char_vecs_view, join, lemma_char_vecs_view_push, spec_join, to_chars};

verus! {

broadcast use vstd::string::group_string_axioms;

/// A named body of knowledge made of one or more sources.
#[derive(Debug)]
pub struct Knowledge {
    pub name: String,
    pub sources: Vec<KnowledgeSource>,
}

/// Where a piece of knowledge comes from.
#[derive(Debug)]
pub enum KnowledgeSource {
    /// An inline string.
    Text { value: String },
    /// A file path; relative paths are taken from the working directory.
    File { path: String },
}

/// The content of a source: the inline text, or what reading its file gave
/// (`None` when nothing was read); empty content counts as none, and a read
/// that failed is its error.
pub open spec fn spec_source_content(source: KnowledgeSource, read: Option<FileRead>) -> Result<
    Option<Seq<char>>,
    (ErrorKind, Seq<char>),
> {
    match source {
        KnowledgeSource::Text { value } => Ok(non_empty(value@)),
        KnowledgeSource::File { path } => match read {
            Some(Err(e)) => Err(error_view(e)),
            Some(Ok(Some(x))) => Ok(non_empty(x@)),
            _ => Ok(None),
        },
    }
}

/// A text that is not empty, or none.
pub open spec fn non_empty(x: Seq<char>) -> Option<Seq<char>> {
    if x.len() > 0 {
        Some(x)
    } else {
        None
    }
}

/// What was read for source `i`, if anything.
pub open spec fn read_at(contents: Seq<FileRead>, i: int) -> Option<FileRead> {
    if 0 <= i < contents.len() {
        Some(contents[i])
    } else {
        None
    }
}

/// The contents of the first `n` sources that have content, in order; the
/// error of the first source whose file could not be read.
pub open spec fn non_empty_contents(
    sources: Seq<KnowledgeSource>,
    contents: Seq<FileRead>,
    n: int,
) -> Result<Seq<Seq<char>>, (ErrorKind, Seq<char>)>
    decreases n,
{
    if n <= 0 {
        Ok(seq![])
    } else {
        match non_empty_contents(sources, contents, n - 1) {
            Err(e) => Err(e),
            Ok(prev) => match spec_source_content(sources[n - 1], read_at(contents, n - 1)) {
                Err(e) => Err(e),
                Ok(Some(c)) => Ok(prev.push(c)),
                Ok(None) => Ok(prev),
            },
        }
    }
}

/// The knowledge block: the contents of the sources that have content, joined
/// by a `---` separator, inside a `<knowledge name="...">` element; the error
/// of the first source whose file could not be read.
pub open spec fn spec_knowledge_block(k: Knowledge, contents: Seq<FileRead>) -> Result<
    Seq<char>,
    (ErrorKind, Seq<char>),
> {
    match non_empty_contents(k.sources@, contents, k.sources@.len() as int) {
        Err(e) => Err(e),
        Ok(parts) => Ok(
            "<knowledge name=\""@ + k.name@ + "\">\n"@ + spec_join(parts, "\n\n---\n\n"@)
                + "\n</knowledge>"@,
        ),
    }
}

/// Once a source fails, the sources after it do not change the outcome.
proof fn lemma_contents_error_stays(
    sources: Seq<KnowledgeSource>,
    contents: Seq<FileRead>,
    n: int,
    m: int,
)
    requires
        n <= m,
        non_empty_contents(sources, contents, n) is Err,
    ensures
        non_empty_contents(sources, contents, m) == non_empty_contents(sources, contents, n),
    decreases m - n,
{
    if m > n {
        lemma_contents_error_stays(sources, contents, n, m - 1);
    }
}

impl KnowledgeSource {
    /// The source's content: the inline text, or what reading its file gave
    /// (`read`, `None` when nothing was read). `Ok(None)` when there is no
    /// content (empty text, missing or empty file); the read's error when
    /// the file could not be read.
    pub fn resolve(&self, read: Option<&FileRead>) -> (r: Result<Option<String>, Error>)
        ensures
            match spec_source_content(
                *self,
                match read {
                    Some(y) => Some(*y),
                    None => None,
                },
            ) {
                Ok(Some(c)) => r matches Ok(Some(x)) && x@ == c,
                Ok(None) => r matches Ok(None),
                Err(err) => r matches Err(e) && error_view(e) == err,
            },
    {
        let c: Option<&String> = match self {
            KnowledgeSource::Text { value } => Some(value),
            KnowledgeSource::File { path: _ } => match read {
                Some(Err(e)) => {
                    return Err(e.duplicate());
                },
                Some(Ok(Some(x))) => Some(x),
                _ => None,
            },
        };
        match c {
            Some(x) => if x.as_str().unicode_len() > 0 {
                Ok(Some(x.clone()))
            } else {
                Ok(None)
            },
            None => Ok(None),
        }
    }
}

impl Knowledge {
    /// Renders the knowledge as one block, given what reading its file
    /// sources gave (`contents[i]` for source `i`):
    /// `<knowledge name="...">`, the non-empty contents joined by
    /// `\n\n---\n\n`, and `</knowledge>`, each on its own line. A source whose
    /// file could not be read makes its read's error the answer (the first
    /// such source).
    pub fn resolve(&self, contents: &Vec<FileRead>) -> (r: Result<String, Error>)
        ensures
            match spec_knowledge_block(*self, contents@) {
                Ok(s) => r matches Ok(x) && x@ == s,
                Err(err) => r matches Err(e) && error_view(e) == err,
            },
    {
        let mut parts: Vec<Vec<char>> = Vec::new();
        let mut i: usize = 0;
        assert(char_vecs_view(parts@) =~= Seq::<Seq<char>>::empty());
        while i < self.sources.len()
            invariant
                i <= self.sources@.len(),
                non_empty_contents(self.sources@, contents@, i as int) == Ok::<
                    Seq<Seq<char>>,
                    (ErrorKind, Seq<char>),
                >(char_vecs_view(parts@)),
            decreases self.sources@.len() - i,
        {
            let read: Option<&FileRead> = if i < contents.len() {
                Some(&contents[i])
            } else {
                None
            };
            assert(match read {
                Some(y) => Some(*y),
                None => None,
            } == read_at(contents@, i as int));
            match self.sources[i].resolve(read) {
                Ok(Some(c)) => {
                    let cv = to_chars(c.as_str());
                    proof {
                        lemma_char_vecs_view_push(parts@, cv);
                    }
                    parts.push(cv);
                },
                Ok(None) => {},
                Err(e) => {
                    proof {
                        lemma_contents_error_stays(
                            self.sources@,
                            contents@,
                            i + 1,
                            self.sources@.len() as int,
                        );
                    }
                    return Err(e);
                },
            }
            i += 1;
        }
        let sep = to_chars("\n\n---\n\n");
        let body = join(&parts, &sep);
        let mut out = "<knowledge name=\"".to_string();
        out.append(self.name.as_str());
        out.append("\">\n");
        let mut k: usize = 0;
        let ghost before = out@;
        while k < body.len()
            invariant
                k <= body@.len(),
                out@ == before + body@.subrange(0, k as int),
            decreases body@.len() - k,
        {
            crate::text::push_char(&mut out, body[k]);
            k += 1;
            assert(out@ =~= before + body@.subrange(0, k as int));
        }
        assert(body@.subrange(0, body@.len() as int) =~= body@);
        out.append("\n</knowledge>");
        Ok(out)
    }
}

/// The system knowledge entries that come from files under the plugin's
/// `markdown/knowledge`: their names and file names.
pub open spec fn system_knowledge_table() -> Seq<(Seq<char>, Seq<char>)> {
    seq![
        ("Caveman Mode"@, "caveman_mode.md"@),
        ("Code Review Process"@, "code_review_process.md"@),
        ("Edit Prompt Process"@, "edit_prompt_process.md"@),
        ("No Perfect Solution Attitude"@, "no_perfect_solution_attitude.md"@),
        ("Read First Attitude"@, "read_first_attitude.md"@),
        ("YAGNI Attitude"@, "yagni_attitude.md"@),
        ("Fix Software Bug Process"@, "fix_software_bug_process.md"@),
        ("Bug Isolation"@, "bug_isolation.md"@),
        ("Prompt Editing Basics"@, "prompt_editing_basics.md"@),
        ("Prompting Basics"@, "prompting_basics.md"@),
    ]
}

/// The path of a knowledge file under the plugin's root.
pub open spec fn spec_knowledge_path(plugin_root: Seq<char>, relative: Seq<char>) -> Seq<char> {
    spec_path_join(spec_path_join(plugin_root, "markdown/knowledge"@), relative)
}

/// Returns the path of a knowledge file: `relative` under
/// `markdown/knowledge` in the plugin's root.
pub fn knowledge_path(plugin_root: &str, relative: &str) -> (r: String)
    ensures
        r@ == spec_knowledge_path(plugin_root@, relative@),
{
    let base = path_join(plugin_root, "markdown/knowledge");
    path_join(base.as_str(), relative)
}

/// Named knowledge, looked up by name (the first entry of a name wins).
#[derive(Debug)]
pub struct KnowledgeRegistry {
    pub entries: Vec<(String, Knowledge)>,
}

impl KnowledgeRegistry {
    /// The knowledge registered under `name` (the first such entry).
    pub fn get(&self, name: &str) -> (r: Option<&Knowledge>)
        ensures
            match first_index_of(self.entries@, name@) {
                Some(i) => r == Some(&self.entries@[i].1),
                None => r is None,
            },
    {
        match crate::directive::find_entry(&self.entries, name) {
            Some(i) => Some(&self.entries[i].1),
            None => None,
        }
    }
}

/// A knowledge entry made of one file.
fn file_entry(base: &str, name: &str, file: &str) -> (r: (String, Knowledge))
    ensures
        r.0@ == name@,
        r.1.name@ == name@,
        r.1.sources@.len() == 1,
        r.1.sources@[0] matches KnowledgeSource::File { path } && path@ == spec_path_join(base@, file@),
{
    let mut sources: Vec<KnowledgeSource> = Vec::new();
    sources.push(KnowledgeSource::File { path: path_join(base, file) });
    (name.to_string(), Knowledge { name: name.to_string(), sources })
}

/// Whether entry `e` is the system knowledge described by `row`.
pub open spec fn is_knowledge_row(plugin_root: Seq<char>, e: (String, Knowledge), row: (Seq<char>, Seq<char>)) -> bool {
    &&& e.0@ == row.0
    &&& e.1.name@ == row.0
    &&& e.1.sources@.len() == 1
    &&& e.1.sources@[0] matches KnowledgeSource::File { path } && path@ == spec_knowledge_path(
        plugin_root,
        row.1,
    )
}

/// Returns the built-in knowledge: `AGENTS.md`, made of the project's
/// `./AGENTS.md` and `./AGENTS.local.md`, and the entries whose single file
/// lies under `markdown/knowledge` in the plugin's root; each is registered
/// under its own name.
pub fn load_system_knowledge(plugin_root: &str) -> (r: KnowledgeRegistry)
    ensures
        r.entries@.len() == system_knowledge_table().len() + 1,
        r.entries@[0].0@ == "AGENTS.md"@,
        r.entries@[0].1.name@ == "AGENTS.md"@,
        r.entries@[0].1.sources@.len() == 2,
        r.entries@[0].1.sources@[0] matches KnowledgeSource::File { path } && path@ == "./AGENTS.md"@,
        r.entries@[0].1.sources@[1] matches KnowledgeSource::File { path } && path@
            == "./AGENTS.local.md"@,
        forall|k: int|
            0 <= k < system_knowledge_table().len() ==> #[trigger] is_knowledge_row(
                plugin_root@,
                r.entries@[k + 1],
                system_knowledge_table()[k],
            ),
{
    let base = path_join(plugin_root, "markdown/knowledge");
    let mut entries: Vec<(String, Knowledge)> = Vec::new();
    let mut agents: Vec<KnowledgeSource> = Vec::new();
    agents.push(KnowledgeSource::File { path: "./AGENTS.md".to_string() });
    agents.push(KnowledgeSource::File { path: "./AGENTS.local.md".to_string() });
    entries.push(("AGENTS.md".to_string(), Knowledge { name: "AGENTS.md".to_string(), sources: agents }));
    entries.push(file_entry(base.as_str(), "Caveman Mode", "caveman_mode.md"));
    entries.push(file_entry(base.as_str(), "Code Review Process", "code_review_process.md"));
    entries.push(file_entry(base.as_str(), "Edit Prompt Process", "edit_prompt_process.md"));
    entries.push(file_entry(base.as_str(), "No Perfect Solution Attitude", "no_perfect_solution_attitude.md"));
    entries.push(file_entry(base.as_str(), "Read First Attitude", "read_first_attitude.md"));
    entries.push(file_entry(base.as_str(), "YAGNI Attitude", "yagni_attitude.md"));
    entries.push(file_entry(base.as_str(), "Fix Software Bug Process", "fix_software_bug_process.md"));
    entries.push(file_entry(base.as_str(), "Bug Isolation", "bug_isolation.md"));
    entries.push(file_entry(base.as_str(), "Prompt Editing Basics", "prompt_editing_basics.md"));
    entries.push(file_entry(base.as_str(), "Prompting Basics", "prompting_basics.md"));
    KnowledgeRegistry { entries }
}

} // verus!
