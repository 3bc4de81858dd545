//! The file tools: reading a range of lines, creating, writing, removing,
//! listing by glob and moving paths. The file system is touched by the
//! caller; these are the checks, selections and answers.
use std::path::Path;

use vstd::prelude::*;
use vstd::string::*;

use crate::error::{Error, ErrorKind};
use crate::paths::{
    has_component,
    path_join,
    relative_to,
    spec_has_component,
    spec_path_join,
    spec_relative_to,
};
use crate::text::{
    char_vecs_view,
    decimal,
    join,
    lines,
    spec_decimal,
    spec_join,
    spec_find_char_from,
    spec_lines,
    string_from_chars,
    to_chars,
};

verus! {

broadcast use vstd::string::group_string_axioms;

/// `globset::GlobMatcher`, known to the verifier as an opaque type.
#[verifier::external_type_specification]
#[verifier::external_body]
pub struct ExGlobMatcher(globset::GlobMatcher);

/// What `GlobBuilder::new(pattern).literal_separator(true).build()` gives:
/// `Ok` when the glob compiles, else `Err` with the error's message.
pub uninterp spec fn glob_build_result(pattern: Seq<char>) -> Result<(), Seq<char>>;

/// What the compiled glob's `is_match` says of `path`.
pub uninterp spec fn glob_match_result(pattern: Seq<char>, path: Seq<char>) -> bool;

/// A compiled glob in which `*` does not cross `/`, with the pattern it was
/// built from.
#[derive(Debug)]
pub struct GlobPattern {
    matcher: globset::GlobMatcher,
    source: String,
}

impl GlobPattern {
    /// The pattern the glob was compiled from.
    pub closed spec fn source(&self) -> Seq<char> {
        self.source@
    }

    /// Compiles `pattern` with `GlobBuilder` (`literal_separator` on); the
    /// error's message when it does not compile.
    #[verifier::external_body]
    pub(crate) fn build(pattern: &str) -> (r: Result<GlobPattern, String>)
        ensures
            match glob_build_result(pattern@) {
                Ok(_) => r matches Ok(g) && g.source() == pattern@,
                Err(m) => r matches Err(x) && x@ == m,
            },
    {
        match globset::GlobBuilder::new(pattern).literal_separator(true).build() {
            Ok(g) => Ok(GlobPattern { matcher: g.compile_matcher(), source: pattern.to_string() }),
            Err(e) => Err(e.to_string()),
        }
    }

    /// Calls `GlobMatcher::is_match` on `path`.
    #[verifier::external_body]
    pub(crate) fn is_match(&self, path: &str) -> (r: bool)
        ensures
            r == glob_match_result(self.source(), path@),
    {
        self.matcher.is_match(Path::new(path))
    }
}

/// Compiles a glob argument of a tool (`*` does not cross `/`); one that does
/// not compile is an `InvalidInput` error that names it with the compiler's
/// message.
pub fn compile_glob(pattern: &str) -> (r: Result<GlobPattern, Error>)
    ensures
        match glob_build_result(pattern@) {
            Ok(_) => r matches Ok(g) && g.source() == pattern@,
            Err(m) => r matches Err(e) && e.kind == ErrorKind::InvalidInput && e.message@
                == "Invalid glob pattern '"@ + pattern@ + "': "@ + m,
        },
{
    match GlobPattern::build(pattern) {
        Ok(g) => Ok(g),
        Err(m) => {
            let mut msg = "Invalid glob pattern '".to_string();
            msg.append(pattern);
            msg.append("': ");
            msg.append(m.as_str());
            Err(Error { kind: ErrorKind::InvalidInput, message: msg })
        },
    }
}

// ---------------------------------------------------------------------------
// read_file
// ---------------------------------------------------------------------------

/// The arguments of `read_file`.
#[derive(Debug)]
pub struct ReadFileArgs {
    pub filepath: String,
    pub start_line: Option<usize>,
    pub end_line: Option<usize>,
}

/// The `read_file` tool.
#[derive(Debug)]
pub struct ReadFile;

/// The line bounds after swapping a reversed range.
pub open spec fn ordered_bounds(start: Option<usize>, end: Option<usize>) -> (Option<usize>, Option<usize>) {
    match (start, end) {
        (Some(s), Some(e)) => if e < s {
            (Some(e), Some(s))
        } else {
            (Some(s), Some(e))
        },
        _ => (start, end),
    }
}

/// The lines `start_line..=end_line` (1-based; a reversed range is swapped;
/// the start defaults to the first line and the end to the last) of
/// `content`, as `str::lines` splits it, joined with `'\n'`. Only an empty
/// text reads as empty: a selection that is one empty line reads as `"\n"`.
/// A start past the last line is an `InvalidInput` error.
pub open spec fn spec_read_lines(content: Seq<char>, start_line: Option<usize>, end_line: Option<usize>) -> Result<
    Seq<char>,
    (ErrorKind, Seq<char>),
> {
    let ls = spec_lines(content);
    let total = ls.len() as int;
    if total == 0 {
        Ok(seq![])
    } else {
        let (s, e) = ordered_bounds(start_line, end_line);
        let start: int = match s {
            Some(x) => if x >= 1 {
                x - 1
            } else {
                0
            },
            None => 0,
        };
        let end: int = match e {
            Some(x) => if x < total {
                x as int
            } else {
                total
            },
            None => total,
        };
        if start >= total {
            Err(
                (
                    ErrorKind::InvalidInput,
                    "start_line "@ + spec_decimal((start + 1) as nat) + " > file_len "@ + spec_decimal(
                        total as nat,
                    ),
                ),
            )
        } else {
            let joined = spec_join(ls.subrange(start, end), seq!['\n']);
            Ok(
                if joined.len() == 0 {
                    seq!['\n']
                } else {
                    joined
                },
            )
        }
    }
}

proof fn lemma_find_char_in_range(s: Seq<char>, c: char, from: int)
    ensures
        spec_find_char_from(s, c, from) matches Some(i) ==> 0 <= from <= i < s.len(),
    decreases s.len() - from,
{
    if 0 <= from < s.len() && s[from] != c {
        lemma_find_char_in_range(s, c, from + 1);
    }
}

/// Reading gives the empty text exactly when the file is empty, whatever
/// lines are asked for.
pub proof fn lemma_read_is_empty_only_for_empty_file(
    content: Seq<char>,
    start_line: Option<usize>,
    end_line: Option<usize>,
)
    ensures
        spec_read_lines(content, start_line, end_line) matches Ok(t) ==> (t.len() == 0 <==> content.len()
            == 0),
{
    if content.len() > 0 {
        lemma_find_char_in_range(content, '\n', 0);
        assert(spec_lines(content).len() > 0);
    } else {
        assert(spec_lines(content).len() == 0);
    }
}

impl ReadFile {
    /// The lines of `content` that the arguments select (see
    /// `spec_read_lines`).
    pub fn select_lines(content: &str, start_line: Option<usize>, end_line: Option<usize>) -> (r:
        Result<String, Error>)
        ensures
            match spec_read_lines(content@, start_line, end_line) {
                Ok(t) => r matches Ok(x) && x@ == t,
                Err((k, m)) => r matches Err(e) && e.kind == k && e.message@ == m,
            },
    {
        let chars = to_chars(content);
        let all = lines(&chars);
        let total = all.len();
        if total == 0 {
            return Ok(String::new());
        }
        let (s, e) = match (start_line, end_line) {
            (Some(s), Some(e)) => if e < s {
                (Some(e), Some(s))
            } else {
                (Some(s), Some(e))
            },
            other => other,
        };
        let start = match s {
            Some(x) => if x >= 1 {
                x - 1
            } else {
                0
            },
            None => 0,
        };
        let end = match e {
            Some(x) => if x < total {
                x
            } else {
                total
            },
            None => total,
        };
        if start >= total {
            let mut m = "start_line ".to_string();
            m.append(decimal(start + 1).as_str());
            m.append(" > file_len ");
            m.append(decimal(total).as_str());
            return Err(Error { kind: ErrorKind::InvalidInput, message: m });
        }
        assert(start <= end);
        let mut picked: Vec<Vec<char>> = Vec::new();
        let mut i = start;
        while i < end
            invariant
                start <= i <= end <= all@.len(),
                char_vecs_view(picked@) == char_vecs_view(all@).subrange(start as int, i as int),
            decreases end - i,
        {
            let line = all[i].clone();
            assert(line@ =~= all@[i as int]@);
            proof {
                crate::text::lemma_char_vecs_view_push(picked@, line);
                assert(char_vecs_view(all@).subrange(start as int, i + 1) =~= char_vecs_view(
                    all@,
                ).subrange(start as int, i as int).push(all@[i as int]@));
            }
            picked.push(line);
            i += 1;
        }
        let nl: Vec<char> = vec!['\n'];
        assert(nl@ =~= seq!['\n']);
        let joined = join(&picked, &nl);
        if joined.len() == 0 {
            proof {
                reveal_strlit("\n");
                assert("\n"@ =~= seq!['\n']);
            }
            return Ok("\n".to_string());
        }
        Ok(string_from_chars(&joined))
    }
}

// ---------------------------------------------------------------------------
// create_file, write_file, remove_path
// ---------------------------------------------------------------------------

/// The arguments of `create_file`.
#[derive(Debug)]
pub struct CreateFileArgs {
    pub filepath: String,
}

/// The `create_file` tool.
#[derive(Debug)]
pub struct CreateFile;

impl CreateFile {
    /// The check before creating: a path that exists is an `InvalidInput`
    /// error.
    pub fn check(filepath: &str, exists: bool) -> (r: Result<(), Error>)
        ensures
            exists ==> (r matches Err(e) && e.kind == ErrorKind::InvalidInput && e.message@
                == "exists: '"@ + filepath@ + "'"@),
            !exists ==> r is Ok,
    {
        if exists {
            let mut m = "exists: '".to_string();
            m.append(filepath);
            m.append("'");
            return Err(Error { kind: ErrorKind::InvalidInput, message: m });
        }
        Ok(())
    }

    /// The answer once the file is created.
    pub fn created_message(filepath: &str) -> (r: String)
        ensures
            r@ == "created '"@ + filepath@ + "'"@,
    {
        let mut s = "created '".to_string();
        s.append(filepath);
        s.append("'");
        s
    }
}

/// The arguments of `write_file`.
#[derive(Debug)]
pub struct WriteFileArgs {
    pub filepath: String,
    pub content: String,
}

/// The `write_file` tool.
#[derive(Debug)]
pub struct WriteFile;

impl WriteFile {
    /// The answer once the content is written: its size in bytes and the
    /// path.
    pub fn written_message(args: &WriteFileArgs) -> (r: String)
        ensures
            r@ == "wrote "@ + spec_decimal(vstd::utf8::encode_utf8(args.content@).len()) + "B → '"@
                + args.filepath@ + "'"@,
    {
        let mut s = "wrote ".to_string();
        s.append(decimal(args.content.as_str().as_bytes().len()).as_str());
        s.append("B → '");
        s.append(args.filepath.as_str());
        s.append("'");
        s
    }
}

/// The arguments of `remove_path`.
#[derive(Debug)]
pub struct RemovePathArgs {
    pub filepath: String,
}

/// The `remove_path` tool.
#[derive(Debug)]
pub struct RemovePath;

impl RemovePath {
    /// The check before removing: a path that does not exist is a
    /// `NotFound` error.
    pub fn check(filepath: &str, exists: bool) -> (r: Result<(), Error>)
        ensures
            !exists ==> (r matches Err(e) && e.kind == ErrorKind::NotFound && e.message@
                == "not found: '"@ + filepath@ + "'"@),
            exists ==> r is Ok,
    {
        if !exists {
            let mut m = "not found: '".to_string();
            m.append(filepath);
            m.append("'");
            return Err(Error { kind: ErrorKind::NotFound, message: m });
        }
        Ok(())
    }

    /// The answer once the path is removed.
    pub fn removed_message(filepath: &str) -> (r: String)
        ensures
            r@ == "removed '"@ + filepath@ + "'"@,
    {
        let mut s = "removed '".to_string();
        s.append(filepath);
        s.append("'");
        s
    }
}

// ---------------------------------------------------------------------------
// list_files
// ---------------------------------------------------------------------------

/// The arguments of `list_files`.
#[derive(Debug)]
pub struct ListFilesArgs {
    pub pattern: String,
    pub path: Option<String>,
    pub show_gitignored: Option<bool>,
    pub max_count: Option<usize>,
}

/// The `list_files` tool.
#[derive(Debug)]
pub struct ListFiles;

/// An entry that the directory walk found.
#[derive(Debug)]
pub struct WalkEntry {
    pub path: String,
    pub is_file: bool,
}

/// The files that a listing reports.
#[derive(Debug)]
pub struct Listing {
    /// The first matches, in walk order.
    pub files: Vec<String>,
    /// How many entries matched.
    pub total_matched: usize,
    /// Whether more matched than are reported.
    pub truncated: bool,
}

/// An entry counts when it is a file outside any `.git` directory whose
/// path relative to the searched directory matches the glob.
pub open spec fn entry_matches(e: WalkEntry, base: Seq<char>, glob: Seq<char>) -> bool {
    &&& e.is_file
    &&& !spec_has_component(e.path@, ".git"@)
    &&& glob_match_result(
        glob,
        match spec_relative_to(e.path@, base) {
            Some(r) => r,
            None => e.path@,
        },
    )
}

/// The paths of the matching entries, in walk order.
pub open spec fn matching_paths(entries: Seq<WalkEntry>, base: Seq<char>, glob: Seq<char>) -> Seq<Seq<char>>
    decreases entries.len(),
{
    if entries.len() == 0 {
        seq![]
    } else {
        let rest = matching_paths(entries.drop_last(), base, glob);
        if entry_matches(entries.last(), base, glob) {
            rest.push(entries.last().path@)
        } else {
            rest
        }
    }
}

/// The path of entry `e` as the glob sees it: relative to `base`.
pub open spec fn glob_path(e: WalkEntry, base: Seq<char>) -> Seq<char> {
    match spec_relative_to(e.path@, base) {
        Some(r) => r,
        None => e.path@,
    }
}

/// What `list_files` lists, whatever the walk gave: every listed path is the
/// path of a file of the walk that lies in no `.git` directory and whose path
/// relative to the searched directory matches the glob; and every such file
/// is listed.
pub proof fn lemma_listing_is_the_matching_files(entries: Seq<WalkEntry>, base: Seq<char>, glob: Seq<char>)
    ensures
        forall|k: int|
            0 <= k < matching_paths(entries, base, glob).len() ==> {
                let p = #[trigger] matching_paths(entries, base, glob)[k];
                &&& !spec_has_component(p, ".git"@)
                &&& exists|j: int|
                    0 <= j < entries.len() && entries[j].path@ == p && entries[j].is_file
                        && glob_match_result(glob, glob_path(entries[j], base))
            },
        forall|j: int|
            0 <= j < entries.len() && entries[j].is_file && !spec_has_component(
                entries[j].path@,
                ".git"@,
            ) && glob_match_result(glob, glob_path(entries[j], base)) ==> matching_paths(
                entries,
                base,
                glob,
            ).contains(#[trigger] entries[j].path@),
    decreases entries.len(),
{
    if entries.len() > 0 {
        let init = entries.drop_last();
        let last = entries.last();
        lemma_listing_is_the_matching_files(init, base, glob);
        let mp0 = matching_paths(init, base, glob);
        let mp = matching_paths(entries, base, glob);
        assert forall|k: int| 0 <= k < mp.len() implies {
            let p = #[trigger] mp[k];
            &&& !spec_has_component(p, ".git"@)
            &&& exists|j: int|
                0 <= j < entries.len() && entries[j].path@ == p && entries[j].is_file
                    && glob_match_result(glob, glob_path(entries[j], base))
        } by {
            if k < mp0.len() {
                assert(mp[k] == mp0[k]);
                let j = choose|j: int|
                    0 <= j < init.len() && init[j].path@ == mp0[k] && init[j].is_file
                        && glob_match_result(glob, glob_path(init[j], base));
                assert(entries[j] == init[j]);
            } else {
                assert(entry_matches(last, base, glob));
                assert(mp[k] == last.path@);
                assert(entries[entries.len() - 1] == last);
            }
        }
        assert forall|j: int|
            0 <= j < entries.len() && entries[j].is_file && !spec_has_component(
                entries[j].path@,
                ".git"@,
            ) && glob_match_result(glob, glob_path(entries[j], base)) implies mp.contains(
            #[trigger] entries[j].path@,
        ) by {
            if j < init.len() {
                assert(init[j] == entries[j]);
                assert(mp0.contains(init[j].path@));
                let k = choose|k: int| 0 <= k < mp0.len() && mp0[k] == init[j].path@;
                if entry_matches(last, base, glob) {
                    assert(mp[k] == mp0[k]);
                } else {
                    assert(mp == mp0);
                }
            } else {
                assert(entries[j] == last);
                assert(entry_matches(last, base, glob));
                assert(mp[mp.len() - 1] == last.path@);
            }
        }
    }
}

impl ListFiles {
    /// The listing of the walk's entries under `search_path`: the first
    /// `max_count` matching paths, the number of matches, and whether there
    /// were more; no match at all is a `NotFound` error that names the
    /// pattern as the user wrote it.
    pub fn select(
        entries: &Vec<WalkEntry>,
        search_path: &str,
        glob: &GlobPattern,
        pattern: &str,
        max_count: usize,
    ) -> (r: Result<Listing, Error>)
        ensures
            ({
                let all = matching_paths(entries@, search_path@, glob.source());
                &&& all.len() == 0 ==> (r matches Err(e) && e.kind == ErrorKind::NotFound && e.message@
                    == "No files found matching pattern '"@ + pattern@ + "'"@)
                &&& all.len() > 0 ==> (r matches Ok(l) && l.total_matched == all.len() && l.truncated
                    == (all.len() > max_count) && crate::text::strings_view(l.files@) == all.take(
                    if all.len() < max_count {
                        all.len() as int
                    } else {
                        max_count as int
                    },
                ))
            }),
    {
        let ghost want = matching_paths(entries@, search_path@, glob.source());
        let mut files: Vec<String> = Vec::new();
        let mut total: usize = 0;
        let mut i: usize = 0;
        while i < entries.len()
            invariant
                i <= entries@.len(),
                want == matching_paths(entries@, search_path@, glob.source()),
                total == matching_paths(entries@.take(i as int), search_path@, glob.source()).len(),
                total <= i,
                crate::text::strings_view(files@) == matching_paths(
                    entries@.take(i as int),
                    search_path@,
                    glob.source(),
                ).take(
                    if total < max_count {
                        total as int
                    } else {
                        max_count as int
                    },
                ),
            decreases entries@.len() - i,
        {
            let ghost es = entries@;
            assert(es.take(i + 1).drop_last() =~= es.take(i as int));
            assert(es.take(i + 1).last() == es[i as int]);
            let ghost prev = matching_paths(es.take(i as int), search_path@, glob.source());
            let e = &entries[i];
            let counted = if e.is_file && !has_component(e.path.as_str(), ".git") {
                let rel = match relative_to(e.path.as_str(), search_path) {
                    Some(r) => r,
                    None => e.path.clone(),
                };
                glob.is_match(rel.as_str())
            } else {
                false
            };
            assert(counted == entry_matches(es[i as int], search_path@, glob.source()));
            if counted {
                if total < max_count {
                    let ghost before = crate::text::strings_view(files@);
                    files.push(e.path.clone());
                    assert(crate::text::strings_view(files@) =~= before.push(e.path@));
                    assert(prev.push(e.path@).take(total + 1) =~= prev.push(e.path@));
                    assert(prev.take(total as int) =~= prev);
                } else {
                    assert(prev.push(e.path@).take(max_count as int) =~= prev.take(max_count as int));
                }
                total += 1;
            }
            i += 1;
        }
        assert(entries@.take(entries@.len() as int) =~= entries@);
        if total == 0 {
            let mut m = "No files found matching pattern '".to_string();
            m.append(pattern);
            m.append("'");
            return Err(Error { kind: ErrorKind::NotFound, message: m });
        }
        Ok(Listing { files, total_matched: total, truncated: total > max_count })
    }

    /// The answer when the directory to search does not exist.
    pub fn missing_directory(search_dir: &str) -> (r: Error)
        ensures
            r.kind == ErrorKind::NotFound,
            r.message@ == "Directory '"@ + search_dir@ + "' not found"@,
    {
        let mut m = "Directory '".to_string();
        m.append(search_dir);
        m.append("' not found");
        Error { kind: ErrorKind::NotFound, message: m }
    }
}

// ---------------------------------------------------------------------------
// move_path
// ---------------------------------------------------------------------------

/// The most moved files that an answer lists.
pub const MAX_MOVED_ENTRIES: usize = 20;

/// The arguments of `move_path`.
#[derive(Debug)]
pub struct MovePathArgs {
    pub source: String,
    pub destination: String,
}

/// The `move_path` tool.
#[derive(Debug)]
pub struct MovePath;

/// What a move reports: the first moved files (from, to), how many there
/// were, and whether the list was cut.
#[derive(Debug)]
pub struct MoveSummary {
    pub moved: Vec<(String, String)>,
    pub count: usize,
    pub truncated: bool,
}

/// Where a moved file ends up: under the destination at its place relative
/// to the moved directory, or the destination itself for a single file.
pub open spec fn moved_to(file: Seq<char>, source_is_dir: bool, source: Seq<char>, dest: Seq<char>) -> Seq<
    char,
> {
    if source_is_dir {
        spec_path_join(
            dest,
            match spec_relative_to(file, source) {
                Some(r) => r,
                None => file,
            },
        )
    } else {
        dest
    }
}

impl MovePath {
    /// The check that comes before anything is moved: a source that does
    /// not exist is a `NotFound` error.
    pub fn check_source(source: &str, exists: bool) -> (r: Result<(), Error>)
        ensures
            !exists ==> (r matches Err(e) && e.kind == ErrorKind::NotFound && e.message@ == "not found: '"@
                + source@ + "'"@),
            exists ==> r is Ok,
    {
        if !exists {
            let mut m = "not found: '".to_string();
            m.append(source);
            m.append("'");
            return Err(Error { kind: ErrorKind::NotFound, message: m });
        }
        Ok(())
    }

    /// Where the source goes: into an existing directory under the source's
    /// name; onto a path that does not exist; an existing file there is an
    /// `InvalidInput` error.
    pub fn destination(destination: &str, exists: bool, is_dir: bool, source_name: &str) -> (r: Result<
        String,
        Error,
    >)
        ensures
            exists && is_dir ==> (r matches Ok(d) && d@ == spec_path_join(destination@, source_name@)),
            exists && !is_dir ==> (r matches Err(e) && e.kind == ErrorKind::InvalidInput && e.message@
                == "dest exists: '"@ + destination@ + "'"@),
            !exists ==> (r matches Ok(d) && d@ == destination@),
    {
        if exists && is_dir {
            Ok(path_join(destination, source_name))
        } else if exists {
            let mut m = "dest exists: '".to_string();
            m.append(destination);
            m.append("'");
            Err(Error { kind: ErrorKind::InvalidInput, message: m })
        } else {
            Ok(destination.to_string())
        }
    }

    /// The check that a move changes something: the same path (as text) is
    /// an `InvalidInput` error.
    pub fn check_distinct(source_abs: &str, dest: &str, source_arg: &str) -> (r: Result<(), Error>)
        ensures
            source_abs@ == dest@ ==> (r matches Err(e) && e.kind == ErrorKind::InvalidInput && e.message@
                == "same path: '"@ + source_arg@ + "'"@),
            source_abs@ != dest@ ==> r is Ok,
    {
        if crate::text::str_eq(source_abs, dest) {
            let mut m = "same path: '".to_string();
            m.append(source_arg);
            m.append("'");
            return Err(Error { kind: ErrorKind::InvalidInput, message: m });
        }
        Ok(())
    }

    /// The summary of a move of `files` (found under `source_abs` before the
    /// move) to `dest_abs`: each file with where it went, the first
    /// `MAX_MOVED_ENTRIES` of them, their count, and whether more were moved.
    pub fn summary(files: &Vec<String>, source_is_dir: bool, source_abs: &str, dest_abs: &str) -> (r:
        MoveSummary)
        ensures
            r.count == files@.len(),
            r.truncated == (files@.len() > MAX_MOVED_ENTRIES),
            r.moved@.len() == if files@.len() < MAX_MOVED_ENTRIES {
                files@.len() as int
            } else {
                MAX_MOVED_ENTRIES as int
            },
            forall|k: int|
                0 <= k < r.moved@.len() ==> #[trigger] r.moved@[k].0@ == files@[k]@ && r.moved@[k].1@
                    == moved_to(files@[k]@, source_is_dir, source_abs@, dest_abs@),
    {
        let mut moved: Vec<(String, String)> = Vec::new();
        let mut i: usize = 0;
        while i < files.len() && i < MAX_MOVED_ENTRIES
            invariant
                i <= files@.len(),
                i <= MAX_MOVED_ENTRIES,
                moved@.len() == i,
                forall|k: int|
                    #![trigger moved@[k]]
                    0 <= k < i ==> moved@[k].0@ == files@[k]@ && moved@[k].1@ == moved_to(
                        files@[k]@,
                        source_is_dir,
                        source_abs@,
                        dest_abs@,
                    ),
            decreases files@.len() - i,
        {
            let f = &files[i];
            let to = if source_is_dir {
                let rel = match relative_to(f.as_str(), source_abs) {
                    Some(r) => r,
                    None => f.clone(),
                };
                path_join(dest_abs, rel.as_str())
            } else {
                dest_abs.to_string()
            };
            let from = f.clone();
            assert(from@ == files@[i as int]@);
            assert(to@ == moved_to(files@[i as int]@, source_is_dir, source_abs@, dest_abs@));
            let ghost old_moved = moved@;
            let ghost pair = (from, to);
            moved.push((from, to));
            proof {
                assert(moved@ == old_moved.push(pair));
                assert(moved@[i as int] == pair);
                assert(pair.0@ == files@[i as int]@);
                assert(pair.1@ == moved_to(files@[i as int]@, source_is_dir, source_abs@, dest_abs@));
                assert(old_moved.len() == i);
                assert forall|k: int| #![trigger moved@[k]] 0 <= k < i + 1 implies moved@[k].0@ == files@[k]@
                    && moved@[k].1@ == moved_to(files@[k]@, source_is_dir, source_abs@, dest_abs@) by {
                    if k < i {
                        assert(moved@[k] == old_moved[k]);
                    } else {
                        assert(moved@[k] == pair);
                    }
                }
            }
            i += 1;
        }
        MoveSummary { moved, count: files.len(), truncated: files.len() > MAX_MOVED_ENTRIES }
    }
}

} // verus!
