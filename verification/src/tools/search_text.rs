//! `search_text`: finding matches line by line, and shaping the results
//! (overlapping literal matches, line truncation, the match and file limits).
use vstd::prelude::*;
use vstd::string::*;
use vstd::utf8::*;

use crate::error::{Error, ErrorKind};
use crate::paths::{has_component, relative_to, spec_has_component, spec_relative_to};
use crate::tools::analyze_image::utf8_text;
use crate::tools::files::{glob_match_result, GlobPattern, WalkEntry};
use crate::pattern::{escape, regex_build_result, regex_escape_result, Pattern};
use crate::text::{
    char_vecs_view, lemma_text_le_total, lemma_text_le_transitive, lines, push_char, spec_lines,
    string_from_chars, text_le, text_le_exec, to_chars,
};

verus! {

broadcast use vstd::string::group_string_axioms, vstd::utf8::group_utf8_lib;

/// Longest line, in characters, before it is cut and marked with `…`.
pub const LINE_TRUNCATION_LIMIT: usize = 300;

/// Most matches reported; above it the files are listed without matches.
pub const MATCH_LIMIT: usize = 100;

/// The byte offset after the character that starts at `pos`, or the length
/// when `pos` is at the end.
pub open spec fn spec_next_char_boundary(bytes: Seq<u8>, pos: int) -> int {
    if pos >= bytes.len() {
        bytes.len() as int
    } else {
        pos + length_of_first_scalar(bytes.subrange(pos, bytes.len() as int))
    }
}

/// The character after a boundary ends at the next boundary.
pub proof fn lemma_next_char_boundary(bytes: Seq<u8>, pos: int)
    requires
        valid_utf8(bytes),
        is_char_boundary(bytes, pos),
        0 <= pos < bytes.len(),
    ensures
        valid_first_scalar(bytes.subrange(pos, bytes.len() as int)),
        pos < spec_next_char_boundary(bytes, pos) <= bytes.len(),
        is_char_boundary(bytes, spec_next_char_boundary(bytes, pos)),
{
    let s = bytes.subrange(pos, bytes.len() as int);
    assert(valid_utf8(s));
    assert(valid_first_scalar(s) && valid_utf8(pop_first_scalar(s)));
    let l = length_of_first_scalar(s);
    assert(l <= s.len());
    let nxt = pos + l;
    if nxt < bytes.len() {
        let rest = pop_first_scalar(s);
        assert(rest.len() > 0);
        assert(valid_first_scalar(rest));
        assert(rest[0] == bytes[nxt]);
        assert(is_char_boundary(bytes, nxt) <==> (is_leading_byte_width_1(bytes[nxt])
            || is_leading_byte_width_2(bytes[nxt]) || is_leading_byte_width_3(bytes[nxt])
            || is_leading_byte_width_4(bytes[nxt])));
    } else {
        assert(is_char_boundary(bytes, bytes.len() as int));
    }
}

/// The byte offset of the next character boundary after `pos` in `s`: `pos`
/// plus the UTF-8 width of the character starting at `pos`, or `s.len()` when
/// `pos` is at the end.
pub fn next_char_boundary(s: &str, pos: usize) -> (r: usize)
    requires
        pos <= s.spec_bytes().len(),
        is_char_boundary(s.spec_bytes(), pos as int),
    ensures
        r == spec_next_char_boundary(s.spec_bytes(), pos as int),
        is_char_boundary(s.spec_bytes(), r as int),
        pos < s.spec_bytes().len() ==> pos < r,
{
    let bytes = s.as_bytes();
    let len = bytes.len();
    if pos >= len {
        return len;
    }
    proof {
        lemma_next_char_boundary(s.spec_bytes(), pos as int);
    }
    let b = bytes[pos];
    let ghost rest = s.spec_bytes().subrange(pos as int, len as int);
    assert(rest[0] == b);
    let w: usize = if b < 0x80 {
        1
    } else if b >= 0xf0 {
        4
    } else if b >= 0xe0 {
        3
    } else {
        2
    };
    assert(w == length_of_first_scalar(rest));
    pos + w
}

/// A line as reported: longer than `LINE_TRUNCATION_LIMIT` characters, it is
/// cut to that many and ends with `…`.
pub open spec fn spec_truncate_line(line: Seq<char>) -> Seq<char> {
    if line.len() > LINE_TRUNCATION_LIMIT {
        line.subrange(0, LINE_TRUNCATION_LIMIT as int).push('…')
    } else {
        line
    }
}

/// Cuts a line longer than `LINE_TRUNCATION_LIMIT` characters to that many
/// characters followed by `…`; shorter lines are kept.
pub fn truncate_line(line: &str) -> (r: String)
    ensures
        r@ == spec_truncate_line(line@),
{
    let v = to_chars(line);
    truncate_chars(&v)
}

/// `truncate_line` on a line given as characters.
pub fn truncate_chars(v: &Vec<char>) -> (r: String)
    ensures
        r@ == spec_truncate_line(v@),
{
    if v.len() > LINE_TRUNCATION_LIMIT {
        let mut s = crate::text::string_of(v, 0, LINE_TRUNCATION_LIMIT);
        push_char(&mut s, '…');
        s
    } else {
        string_from_chars(v)
    }
}

/// Integer view of byte ranges.
pub open spec fn spans_view(v: Seq<(usize, usize)>) -> Seq<(int, int)> {
    v.map_values(|p: (usize, usize)| (p.0 as int, p.1 as int))
}

/// The overlapping matches of `re` in `line` from byte `pos` on: search from
/// `pos`; a match that starts before `pos` moves the search one character on;
/// an empty match moves it one character past its start; any other match is
/// kept and the search goes on one character past its start.
pub open spec fn spec_overlapping_from(re: Pattern, line: Seq<char>, pos: int) -> Seq<(int, int)>
    decreases encode_utf8(line).len() - pos,
{
    let bytes = encode_utf8(line);
    if pos < 0 || pos >= bytes.len() {
        seq![]
    } else {
        match re.spec_find_at(line, pos) {
            None => seq![],
            Some((s, e)) => {
                let from = if s < pos {
                    pos
                } else {
                    s
                };
                let n = spec_next_char_boundary(bytes, from);
                let rest = if pos < n <= bytes.len() {
                    spec_overlapping_from(re, line, n)
                } else {
                    seq![]
                };
                if s < pos || s == e {
                    rest
                } else {
                    seq![(s, e)] + rest
                }
            },
        }
    }
}

/// Finds the matches of `re` in `line`, overlapping ones included: after each
/// match the search resumes one character past the match's start. Empty
/// matches are skipped. Returns byte ranges.
pub fn find_overlapping_matches(re: &Pattern, line: &str) -> (r: Vec<(usize, usize)>)
    ensures
        spans_view(r@) == spec_overlapping_from(*re, line@, 0),
{
    let ghost bytes = line.spec_bytes();
    let len = line.as_bytes().len();
    let mut matches: Vec<(usize, usize)> = Vec::new();
    let mut pos: usize = 0;
    assert(spans_view(matches@) + spec_overlapping_from(*re, line@, 0) =~= spec_overlapping_from(
        *re,
        line@,
        0,
    ));
    while pos < len
        invariant
            len == bytes.len(),
            bytes == line.spec_bytes(),
            pos <= len,
            is_char_boundary(bytes, pos as int),
            spans_view(matches@) + spec_overlapping_from(*re, line@, pos as int)
                == spec_overlapping_from(*re, line@, 0),
        decreases len - pos,
    {
        match re.find_at(line, pos) {
            Some((s, e)) => {
                if s < pos {
                    let n = next_char_boundary(line, pos);
                    pos = n;
                } else if s == e {
                    let n = next_char_boundary(line, s);
                    pos = n;
                } else {
                    let n = next_char_boundary(line, s);
                    proof {
                        assert(spans_view(matches@.push((s, e))) =~= spans_view(matches@).push(
                            (s as int, e as int),
                        ));
                    }
                    matches.push((s, e));
                    pos = n;
                }
            },
            None => {
                return matches;
            },
        }
    }
    assert(spans_view(matches@) + spec_overlapping_from(*re, line@, pos as int) =~= spans_view(
        matches@,
    ));
    matches
}

/// The successive non-overlapping matches of `re` in `line`, as byte ranges.
pub fn find_nonoverlapping_matches(re: &Pattern, line: &str) -> (r: Vec<(usize, usize)>)
    ensures
        spans_view(r@) == re.spec_find_iter(line@),
{
    let r = re.find_iter(line);
    assert(spans_view(r@) =~= re.spec_find_iter(line@));
    r
}

/// One reported match.
#[derive(Debug)]
pub struct MatchEntry {
    /// 1-based line number.
    pub line_number: usize,
    /// Byte offset of the match's start in its line.
    pub column_start: usize,
    /// Byte offset of the match's end in its line.
    pub column_end: usize,
    /// The line, truncated.
    pub line: String,
    /// Up to `context_lines` lines before, each truncated.
    pub context_before: Vec<String>,
    /// Up to `context_lines` lines after, each truncated.
    pub context_after: Vec<String>,
}

/// The matches found in one file.
#[derive(Debug)]
pub struct FileEntry {
    pub path: String,
    pub matches: Vec<MatchEntry>,
}

/// The outcome of a search.
#[derive(Debug)]
pub struct SearchResult {
    /// The files with matches, by path, at most `max_files` of them.
    pub files: Vec<FileEntry>,
    /// Matches found in all files.
    pub total_matches: usize,
    /// Files with at least one match.
    pub files_with_matches: usize,
    /// Files searched.
    pub files_searched: usize,
    /// Files with matches left out by `max_files`.
    pub truncated_files: usize,
}

/// A reported match, abstractly.
pub struct MatchView {
    pub line_number: int,
    pub column_start: int,
    pub column_end: int,
    pub line: Seq<char>,
    pub context_before: Seq<Seq<char>>,
    pub context_after: Seq<Seq<char>>,
}

/// A file's matches, abstractly.
pub struct FileView {
    pub path: Seq<char>,
    pub matches: Seq<MatchView>,
}

impl MatchEntry {
    /// The match, abstractly.
    pub open spec fn view_of(&self) -> MatchView {
        MatchView {
            line_number: self.line_number as int,
            column_start: self.column_start as int,
            column_end: self.column_end as int,
            line: self.line@,
            context_before: crate::text::strings_view(self.context_before@),
            context_after: crate::text::strings_view(self.context_after@),
        }
    }
}

/// Abstract view of a list of matches.
pub open spec fn matches_view(v: Seq<MatchEntry>) -> Seq<MatchView> {
    v.map_values(|m: MatchEntry| m.view_of())
}

impl FileEntry {
    /// The file's matches, abstractly.
    pub open spec fn view_of(&self) -> FileView {
        FileView { path: self.path@, matches: matches_view(self.matches@) }
    }
}

/// Abstract view of a list of file entries.
pub open spec fn files_view(v: Seq<FileEntry>) -> Seq<FileView> {
    v.map_values(|f: FileEntry| f.view_of())
}

/// The matches of one line: all non-overlapping regex matches, or the
/// overlapping matches of a literal pattern.
pub open spec fn spec_line_spans(is_regex: bool, re: Pattern, line: Seq<char>) -> Seq<(int, int)> {
    if is_regex {
        re.spec_find_iter(line)
    } else {
        spec_overlapping_from(re, line, 0)
    }
}

/// Each line truncated.
pub open spec fn truncate_all(lines: Seq<Seq<char>>) -> Seq<Seq<char>> {
    lines.map_values(|l: Seq<char>| spec_truncate_line(l))
}

/// The (truncated) lines before line `i`: up to `ctx` of them.
pub open spec fn context_before(lines: Seq<Seq<char>>, i: int, ctx: int) -> Seq<Seq<char>> {
    if ctx > 0 {
        truncate_all(lines.subrange(if i >= ctx { i - ctx } else { 0 }, i))
    } else {
        seq![]
    }
}

/// The (truncated) lines after line `i`: up to `ctx` of them.
pub open spec fn context_after(lines: Seq<Seq<char>>, i: int, ctx: int) -> Seq<Seq<char>> {
    if ctx > 0 {
        truncate_all(lines.subrange(i + 1, if i + 1 + ctx < lines.len() { i + 1 + ctx } else { lines.len() as int }))
    } else {
        seq![]
    }
}

/// The reported match for byte range `sp` on line `i`.
pub open spec fn match_view_at(lines: Seq<Seq<char>>, i: int, sp: (int, int), ctx: int) -> MatchView {
    MatchView {
        line_number: i + 1,
        column_start: sp.0,
        column_end: sp.1,
        line: spec_truncate_line(lines[i]),
        context_before: context_before(lines, i, ctx),
        context_after: context_after(lines, i, ctx),
    }
}

/// The reported matches of line `i`, in order.
pub open spec fn line_match_views(lines: Seq<Seq<char>>, i: int, spans: Seq<(int, int)>, ctx: int) -> Seq<
    MatchView,
> {
    spans.map_values(|sp: (int, int)| match_view_at(lines, i, sp, ctx))
}

/// The reported matches of the first `n` lines, in order.
pub open spec fn file_match_views(
    lines: Seq<Seq<char>>,
    is_regex: bool,
    re: Pattern,
    ctx: int,
    n: int,
) -> Seq<MatchView>
    decreases n,
{
    if n <= 0 {
        seq![]
    } else {
        file_match_views(lines, is_regex, re, ctx, n - 1) + line_match_views(
            lines,
            n - 1,
            spec_line_spans(is_regex, re, lines[n - 1]),
            ctx,
        )
    }
}

/// The matches of a whole text.
pub open spec fn text_match_views(text: Seq<char>, is_regex: bool, re: Pattern, ctx: int) -> Seq<
    MatchView,
> {
    let ls = spec_lines(text);
    file_match_views(ls, is_regex, re, ctx, ls.len() as int)
}

/// The files among the first `n` with matches, in input order.
pub open spec fn spec_file_views(
    files: Seq<(String, String)>,
    is_regex: bool,
    re: Pattern,
    ctx: int,
    n: int,
) -> Seq<FileView>
    decreases n,
{
    if n <= 0 {
        seq![]
    } else {
        let prev = spec_file_views(files, is_regex, re, ctx, n - 1);
        let ms = text_match_views(files[n - 1].1@, is_regex, re, ctx);
        if ms.len() > 0 {
            prev.push(FileView { path: files[n - 1].0@, matches: ms })
        } else {
            prev
        }
    }
}

/// Number of matches in the files.
pub open spec fn total_matches_of(fs: Seq<FileView>) -> int
    decreases fs.len(),
{
    if fs.len() == 0 {
        0
    } else {
        total_matches_of(fs.drop_last()) + fs.last().matches.len()
    }
}

/// `x` inserted into `sorted` after every entry whose path is not greater.
pub open spec fn insert_by_path(sorted: Seq<FileView>, x: FileView) -> Seq<FileView>
    decreases sorted.len(),
{
    if sorted.len() == 0 {
        seq![x]
    } else if text_le(sorted.last().path, x.path) {
        sorted.push(x)
    } else {
        insert_by_path(sorted.drop_last(), x).push(sorted.last())
    }
}

/// The stable sort by path: ordered by path, equal paths in input order.
pub open spec fn sort_by_path(fs: Seq<FileView>) -> Seq<FileView>
    decreases fs.len(),
{
    if fs.len() == 0 {
        fs
    } else {
        insert_by_path(sort_by_path(fs.drop_last()), fs.last())
    }
}

/// The files with their match lists emptied.
pub open spec fn cleared(fs: Seq<FileView>) -> Seq<FileView> {
    fs.map_values(|f: FileView| FileView { path: f.path, matches: seq![] })
}

/// The outcome of a search, abstractly.
pub struct SearchView {
    pub files: Seq<FileView>,
    pub total_matches: int,
    pub files_with_matches: int,
    pub files_searched: int,
    pub truncated_files: int,
}

impl SearchResult {
    /// The outcome, abstractly.
    pub open spec fn view_of(&self) -> SearchView {
        SearchView {
            files: files_view(self.files@),
            total_matches: self.total_matches as int,
            files_with_matches: self.files_with_matches as int,
            files_searched: self.files_searched as int,
            truncated_files: self.truncated_files as int,
        }
    }
}

/// The search: the files with matches, sorted by path; every match list
/// emptied when there are more than `MATCH_LIMIT` matches in all; the list cut
/// to `max_files`; with the counts of matches, of files with matches, of
/// files searched and of files cut.
pub open spec fn spec_perform_search(
    files: Seq<(String, String)>,
    is_regex: bool,
    re: Pattern,
    ctx: int,
    max_files: Option<usize>,
) -> SearchView {
    let found = spec_file_views(files, is_regex, re, ctx, files.len() as int);
    let total = total_matches_of(found);
    let sorted = sort_by_path(found);
    let shown = if total > MATCH_LIMIT {
        cleared(sorted)
    } else {
        sorted
    };
    let n = shown.len() as int;
    SearchView {
        files: match max_files {
            Some(m) => if m < n {
                shown.subrange(0, m as int)
            } else {
                shown
            },
            None => shown,
        },
        total_matches: total,
        files_with_matches: n,
        files_searched: files.len() as int,
        truncated_files: match max_files {
            Some(m) => if m < n {
                n - m
            } else {
                0
            },
            None => 0,
        },
    }
}

/// A reported match of `lines` sits on one of its lines, shows that line
/// (truncated), and, with `ctx` lines of context, shows the `ctx` lines
/// before it and the `ctx` lines after it (fewer at the top and the bottom of
/// the text), each truncated, in order; with no context it shows none.
pub open spec fn shown_in_context(lines: Seq<Seq<char>>, ctx: int, m: MatchView) -> bool {
    let i = m.line_number - 1;
    let nb = if i < ctx {
        i
    } else {
        ctx
    };
    let na = if lines.len() - 1 - i < ctx {
        lines.len() - 1 - i
    } else {
        ctx
    };
    &&& 0 <= i < lines.len()
    &&& m.line == spec_truncate_line(lines[i])
    &&& ctx <= 0 ==> m.context_before.len() == 0 && m.context_after.len() == 0
    &&& ctx > 0 ==> m.context_before.len() == nb && forall|j: int|
        0 <= j < nb ==> #[trigger] m.context_before[j] == spec_truncate_line(lines[i - nb + j])
    &&& ctx > 0 ==> m.context_after.len() == na && forall|j: int|
        0 <= j < na ==> #[trigger] m.context_after[j] == spec_truncate_line(lines[i + 1 + j])
}

proof fn lemma_match_view_in_context(lines: Seq<Seq<char>>, i: int, sp: (int, int), ctx: int)
    requires
        0 <= i < lines.len(),
    ensures
        shown_in_context(lines, ctx, match_view_at(lines, i, sp, ctx)),
{
}

proof fn lemma_file_views_in_context(
    lines: Seq<Seq<char>>,
    is_regex: bool,
    re: Pattern,
    ctx: int,
    n: int,
)
    requires
        n <= lines.len(),
    ensures
        forall|k: int|
            0 <= k < file_match_views(lines, is_regex, re, ctx, n).len() ==> shown_in_context(
                lines,
                ctx,
                #[trigger] file_match_views(lines, is_regex, re, ctx, n)[k],
            ),
    decreases n,
{
    if n > 0 {
        lemma_file_views_in_context(lines, is_regex, re, ctx, n - 1);
        let prev = file_match_views(lines, is_regex, re, ctx, n - 1);
        let spans = spec_line_spans(is_regex, re, lines[n - 1]);
        let here = line_match_views(lines, n - 1, spans, ctx);
        let all = file_match_views(lines, is_regex, re, ctx, n);
        assert(all == prev + here);
        assert forall|k: int| 0 <= k < all.len() implies shown_in_context(lines, ctx, #[trigger] all[k]) by {
            if k < prev.len() {
                assert(all[k] == prev[k]);
            } else {
                assert(all[k] == here[k - prev.len()]);
                lemma_match_view_in_context(lines, n - 1, spans[k - prev.len()], ctx);
            }
        }
    }
}

/// Every match that a search reports in a text is shown in its context: on
/// its own line, with the lines around it that the context asks for and the
/// text has (see `shown_in_context`), whatever the pattern.
pub proof fn lemma_matches_are_shown_in_context(text: Seq<char>, is_regex: bool, re: Pattern, ctx: int)
    ensures
        forall|k: int|
            0 <= k < text_match_views(text, is_regex, re, ctx).len() ==> shown_in_context(
                spec_lines(text),
                ctx,
                #[trigger] text_match_views(text, is_regex, re, ctx)[k],
            ),
{
    let ls = spec_lines(text);
    lemma_file_views_in_context(ls, is_regex, re, ctx, ls.len() as int);
}

/// The files are in path order.
pub open spec fn paths_sorted(fs: Seq<FileView>) -> bool {
    forall|i: int, j: int| 0 <= i < j < fs.len() ==> text_le(#[trigger] fs[i].path, #[trigger] fs[j].path)
}

/// Every path of `fs` is at most `y`.
pub open spec fn paths_at_most(fs: Seq<FileView>, y: Seq<char>) -> bool {
    forall|i: int| 0 <= i < fs.len() ==> text_le(#[trigger] fs[i].path, y)
}

proof fn lemma_insert_by_path_sorted(s: Seq<FileView>, x: FileView, y: Seq<char>)
    requires
        paths_sorted(s),
    ensures
        paths_sorted(insert_by_path(s, x)),
        paths_at_most(s, y) && text_le(x.path, y) ==> paths_at_most(insert_by_path(s, x), y),
    decreases s.len(),
{
    if s.len() == 0 {
    } else if text_le(s.last().path, x.path) {
        let r = s.push(x);
        assert forall|i: int, j: int| 0 <= i < j < r.len() implies text_le(
            #[trigger] r[i].path,
            #[trigger] r[j].path,
        ) by {
            if j == s.len() && i < s.len() - 1 {
                lemma_text_le_transitive(s[i].path, s.last().path, x.path);
            }
        }
    } else {
        let d = s.drop_last();
        let last = s.last();
        lemma_text_le_total(last.path, x.path);
        assert(paths_sorted(d));
        assert(paths_at_most(d, last.path));
        lemma_insert_by_path_sorted(d, x, last.path);
        lemma_insert_by_path_sorted(d, x, y);
        let inner = insert_by_path(d, x);
        let r = inner.push(last);
        assert forall|i: int, j: int| 0 <= i < j < r.len() implies text_le(
            #[trigger] r[i].path,
            #[trigger] r[j].path,
        ) by {
            if j == inner.len() {
                assert(r[i] == inner[i]);
            }
        }
        if paths_at_most(s, y) && text_le(x.path, y) {
            assert(paths_at_most(d, y));
            assert forall|i: int| 0 <= i < r.len() implies text_le(#[trigger] r[i].path, y) by {
                if i < inner.len() {
                    assert(r[i] == inner[i]);
                }
            }
        }
    }
}

proof fn lemma_sort_by_path_sorted(fs: Seq<FileView>)
    ensures
        paths_sorted(sort_by_path(fs)),
    decreases fs.len(),
{
    if fs.len() > 0 {
        lemma_sort_by_path_sorted(fs.drop_last());
        lemma_insert_by_path_sorted(sort_by_path(fs.drop_last()), fs.last(), seq![]);
    }
}

/// The files that a search lists come in path order, whatever the files,
/// the pattern and the limits.
pub proof fn lemma_search_lists_files_by_path(
    files: Seq<(String, String)>,
    is_regex: bool,
    re: Pattern,
    ctx: int,
    max_files: Option<usize>,
)
    ensures
        paths_sorted(spec_perform_search(files, is_regex, re, ctx, max_files).files),
{
    let found = spec_file_views(files, is_regex, re, ctx, files.len() as int);
    let sorted = sort_by_path(found);
    lemma_sort_by_path_sorted(found);
    let shown = if total_matches_of(found) > MATCH_LIMIT {
        cleared(sorted)
    } else {
        sorted
    };
    assert(paths_sorted(shown)) by {
        if total_matches_of(found) > MATCH_LIMIT {
            assert forall|i: int, j: int| 0 <= i < j < shown.len() implies text_le(
                #[trigger] shown[i].path,
                #[trigger] shown[j].path,
            ) by {
                assert(shown[i].path == sorted[i].path);
                assert(shown[j].path == sorted[j].path);
            }
        }
    }
}

/// The lines `lines[from..to]`, each truncated.
fn truncated_lines(lines: &Vec<Vec<char>>, from: usize, to: usize) -> (r: Vec<String>)
    requires
        from <= to <= lines@.len(),
    ensures
        crate::text::strings_view(r@) == truncate_all(char_vecs_view(lines@).subrange(from as int, to as int)),
{
    let mut out: Vec<String> = Vec::new();
    let mut k = from;
    while k < to
        invariant
            from <= k <= to <= lines@.len(),
            crate::text::strings_view(out@) == truncate_all(
                char_vecs_view(lines@).subrange(from as int, k as int),
            ),
        decreases to - k,
    {
        let t = truncate_chars(&lines[k]);
        proof {
            crate::text::lemma_strings_view_push(out@, t);
            assert(truncate_all(char_vecs_view(lines@).subrange(from as int, k + 1)) =~= truncate_all(
                char_vecs_view(lines@).subrange(from as int, k as int),
            ).push(spec_truncate_line(lines@[k as int]@)));
        }
        out.push(t);
        k += 1;
    }
    out
}

/// Adds the reported matches of line `i` (byte ranges `spans`) to `out`.
fn push_line_matches(
    lines: &Vec<Vec<char>>,
    i: usize,
    spans: &Vec<(usize, usize)>,
    ctx: usize,
    out: &mut Vec<MatchEntry>,
)
    requires
        i < lines@.len(),
    ensures
        matches_view(final(out)@) == matches_view(old(out)@) + line_match_views(
            char_vecs_view(lines@),
            i as int,
            spans_view(spans@),
            ctx as int,
        ),
{
    let ghost ls = char_vecs_view(lines@);
    let ghost base = matches_view(out@);
    let nlines = lines.len();
    let mut k: usize = 0;
    assert(spans_view(spans@).subrange(0, 0) =~= Seq::<(int, int)>::empty());
    assert(line_match_views(ls, i as int, Seq::<(int, int)>::empty(), ctx as int) =~= Seq::<MatchView>::empty());
    assert(matches_view(out@) =~= base + Seq::<MatchView>::empty());
    while k < spans.len()
        invariant
            nlines == lines@.len(),
            i < lines@.len(),
            ls == char_vecs_view(lines@),
            k <= spans@.len(),
            matches_view(out@) == base + line_match_views(
                ls,
                i as int,
                spans_view(spans@).subrange(0, k as int),
                ctx as int,
            ),
        decreases spans@.len() - k,
    {
        let before = if ctx > 0 {
            let start = if i >= ctx {
                i - ctx
            } else {
                0
            };
            truncated_lines(lines, start, i)
        } else {
            Vec::new()
        };
        let after = if ctx > 0 {
            let end = if ctx >= lines.len() - (i + 1) {
                lines.len()
            } else {
                i + 1 + ctx
            };
            truncated_lines(lines, i + 1, end)
        } else {
            Vec::new()
        };
        let (cs, ce) = spans[k];
        let entry = MatchEntry {
            line_number: i + 1,
            column_start: cs,
            column_end: ce,
            line: truncate_chars(&lines[i]),
            context_before: before,
            context_after: after,
        };
        proof {
            assert(ls[i as int] == lines@[i as int]@);
            if ctx == 0 {
                assert(crate::text::strings_view(entry.context_before@) =~= Seq::<Seq<char>>::empty());
                assert(crate::text::strings_view(entry.context_after@) =~= Seq::<Seq<char>>::empty());
            }
            assert(entry.view_of() == match_view_at(ls, i as int, spans_view(spans@)[k as int], ctx as int));
            assert(matches_view(out@.push(entry)) =~= matches_view(out@).push(entry.view_of()));
            assert(line_match_views(ls, i as int, spans_view(spans@).subrange(0, k + 1), ctx as int)
                =~= line_match_views(ls, i as int, spans_view(spans@).subrange(0, k as int), ctx as int).push(
                match_view_at(ls, i as int, spans_view(spans@)[k as int], ctx as int),
            ));
        }
        out.push(entry);
        k += 1;
    }
    assert(spans_view(spans@).subrange(0, spans@.len() as int) =~= spans_view(spans@));
}

/// The reported matches of a whole text, line by line.
pub fn search_one_text(text: &str, is_regex: bool, re: &Pattern, ctx: usize) -> (r: Vec<MatchEntry>)
    ensures
        matches_view(r@) == text_match_views(text@, is_regex, *re, ctx as int),
{
    let chars = to_chars(text);
    let ls = lines(&chars);
    let ghost lv = char_vecs_view(ls@);
    let mut out: Vec<MatchEntry> = Vec::new();
    let mut i: usize = 0;
    assert(matches_view(out@) =~= Seq::<MatchView>::empty());
    while i < ls.len()
        invariant
            lv == char_vecs_view(ls@),
            lv == spec_lines(text@),
            i <= ls@.len(),
            matches_view(out@) == file_match_views(lv, is_regex, *re, ctx as int, i as int),
        decreases ls@.len() - i,
    {
        let line = string_from_chars(&ls[i]);
        let spans = if is_regex {
            find_nonoverlapping_matches(re, line.as_str())
        } else {
            find_overlapping_matches(re, line.as_str())
        };
        assert(lv[i as int] == line@);
        push_line_matches(&ls, i, &spans, ctx, &mut out);
        i += 1;
    }
    out
}

proof fn lemma_insert_by_path_at(s: Seq<FileView>, x: FileView, k: int)
    requires
        0 <= k <= s.len(),
        forall|j: int| k <= j < s.len() ==> !text_le(#[trigger] s[j].path, x.path),
        k > 0 ==> text_le(s[k - 1].path, x.path),
    ensures
        insert_by_path(s, x) == s.subrange(0, k).push(x) + s.subrange(k, s.len() as int),
    decreases s.len() - k,
{
    if k == s.len() {
        assert(s.subrange(0, k) =~= s);
        assert(s.subrange(k, s.len() as int) =~= Seq::<FileView>::empty());
        assert(s.push(x) + Seq::<FileView>::empty() =~= s.push(x));
    } else {
        let d = s.drop_last();
        lemma_insert_by_path_at(d, x, k);
        assert(d.subrange(0, k) =~= s.subrange(0, k));
        assert(s.subrange(0, k).push(x) + s.subrange(k, s.len() as int) =~= (s.subrange(0, k).push(x)
            + d.subrange(k, d.len() as int)).push(s.last()));
    }
}

/// Inserts `x` into `sorted` after every entry whose path is not greater.
fn insert_sorted(sorted: &mut Vec<FileEntry>, x: FileEntry)
    ensures
        files_view(final(sorted)@) == insert_by_path(files_view(old(sorted)@), x.view_of()),
{
    let ghost s = files_view(sorted@);
    let mut k = sorted.len();
    while k > 0 && !text_le_exec(sorted[k - 1].path.as_str(), x.path.as_str())
        invariant
            k <= sorted@.len(),
            s == files_view(sorted@),
            forall|j: int| k <= j < s.len() ==> !text_le(#[trigger] s[j].path, x.path@),
        decreases k,
    {
        k -= 1;
    }
    proof {
        lemma_insert_by_path_at(s, x.view_of(), k as int);
    }
    sorted.insert(k, x);
    assert(files_view(sorted@) =~= s.subrange(0, k as int).push(x.view_of()) + s.subrange(
        k as int,
        s.len() as int,
    ));
}

proof fn lemma_sort_len(fs: Seq<FileView>)
    ensures
        sort_by_path(fs).len() == fs.len(),
    decreases fs.len(),
{
    if fs.len() > 0 {
        lemma_sort_len(fs.drop_last());
        lemma_insert_len(sort_by_path(fs.drop_last()), fs.last());
    }
}

proof fn lemma_insert_len(s: Seq<FileView>, x: FileView)
    ensures
        insert_by_path(s, x).len() == s.len() + 1,
    decreases s.len(),
{
    if s.len() > 0 {
        lemma_insert_len(s.drop_last(), x);
    }
}

/// Searches the given files (path and text): every line's matches, with
/// `context_lines` lines of context; the files with matches sorted by path;
/// all match lists emptied when there are more than `MATCH_LIMIT` matches;
/// at most `max_files` files listed.
pub fn perform_search(
    files: Vec<(String, String)>,
    is_regex: bool,
    re: &Pattern,
    context_lines: usize,
    max_files: Option<usize>,
) -> (r: SearchResult)
    requires
        total_matches_of(spec_file_views(files@, is_regex, *re, context_lines as int, files@.len() as int))
            <= usize::MAX,
    ensures
        r.view_of() == spec_perform_search(files@, is_regex, *re, context_lines as int, max_files),
{
    let ghost fs = files@;
    let ghost ctx = context_lines as int;
    let files_searched = files.len();
    let mut files = files;
    let mut sorted: Vec<FileEntry> = Vec::new();
    let mut total: usize = 0;
    let mut i: usize = 0;
    assert(fs.skip(0) =~= fs);
    while files.len() > 0
        invariant
            files_searched == fs.len(),
            ctx == context_lines as int,
            i <= fs.len(),
            files@ == fs.skip(i as int),
            files_view(sorted@) == sort_by_path(spec_file_views(fs, is_regex, *re, ctx, i as int)),
            total == total_matches_of(spec_file_views(fs, is_regex, *re, ctx, i as int)),
            total_matches_of(spec_file_views(fs, is_regex, *re, ctx, fs.len() as int)) <= usize::MAX,
        decreases files@.len(),
    {
        let pair = files.remove(0);
        assert(pair == fs[i as int]);
        let (path, text) = pair;
        assert(text == fs[i as int].1);
        assert(path == fs[i as int].0);
        let ms = search_one_text(text.as_str(), is_regex, re, context_lines);
        proof {
            lemma_total_prefix(fs, is_regex, *re, ctx, i + 1, fs.len() as int);
            let prev = spec_file_views(fs, is_regex, *re, ctx, i as int);
            let x = FileView { path: fs[i as int].0@, matches: text_match_views(fs[i as int].1@, is_regex, *re, ctx) };
            assert(matches_view(ms@).len() == ms@.len());
            assert(text@ == fs[i as int].1@);
            assert(matches_view(ms@) == text_match_views(text@, is_regex, *re, context_lines as int));
            assert(ctx == context_lines as int);
            assert(text_match_views(fs[i as int].1@, is_regex, *re, ctx) == matches_view(ms@));
            if ms@.len() > 0 {
                assert(spec_file_views(fs, is_regex, *re, ctx, i + 1) == prev.push(x));
                assert(prev.push(x).drop_last() =~= prev);
                assert(sort_by_path(prev.push(x)) == insert_by_path(sort_by_path(prev), x));
            } else {
                assert(spec_file_views(fs, is_regex, *re, ctx, i + 1) == prev);
            }
        }
        if ms.len() > 0 {
            total = total + ms.len();
            let entry = FileEntry { path, matches: ms };
            assert(entry.view_of() == FileView { path: fs[i as int].0@, matches: text_match_views(fs[i as int].1@, is_regex, *re, ctx) });
            insert_sorted(&mut sorted, entry);
        }
        i += 1;
        assert(files@ =~= fs.skip(i as int));
    }
    let ghost found = spec_file_views(fs, is_regex, *re, ctx, fs.len() as int);
    proof {
        lemma_sort_len(found);
    }
    let mut shown: Vec<FileEntry> = if total > MATCH_LIMIT {
        let mut c: Vec<FileEntry> = Vec::new();
        let mut k: usize = 0;
        while k < sorted.len()
            invariant
                k <= sorted@.len(),
                files_view(c@) == cleared(files_view(sorted@)).subrange(0, k as int),
            decreases sorted@.len() - k,
        {
            let e = FileEntry { path: sorted[k].path.clone(), matches: Vec::new() };
            assert(matches_view(e.matches@) =~= Seq::<MatchView>::empty());
            assert(files_view(c@.push(e)) =~= files_view(c@).push(e.view_of()));
            c.push(e);
            k += 1;
            assert(files_view(c@) =~= cleared(files_view(sorted@)).subrange(0, k as int));
        }
        assert(cleared(files_view(sorted@)).subrange(0, sorted@.len() as int) =~= cleared(
            files_view(sorted@),
        ));
        c
    } else {
        sorted
    };
    let n = shown.len();
    let truncated_files = match max_files {
        Some(m) => {
            if m < n {
                let ghost before = files_view(shown@);
                shown.truncate(m);
                assert(files_view(shown@) =~= before.subrange(0, m as int));
                n - m
            } else {
                0
            }
        },
        None => 0,
    };
    SearchResult {
        files: shown,
        total_matches: total,
        files_with_matches: n,
        files_searched,
        truncated_files,
    }
}

proof fn lemma_total_monotone(fs: Seq<FileView>, k: int)
    requires
        0 <= k <= fs.len(),
    ensures
        total_matches_of(fs.subrange(0, k)) <= total_matches_of(fs),
    decreases fs.len() - k,
{
    if k < fs.len() {
        lemma_total_monotone(fs.drop_last(), if k < fs.len() - 1 { k } else { k });
        assert(fs.drop_last().subrange(0, k) =~= fs.subrange(0, k));
        if k == fs.len() - 1 {
            assert(fs.subrange(0, k) =~= fs.drop_last());
        }
    } else {
        assert(fs.subrange(0, k) =~= fs);
    }
}

proof fn lemma_total_prefix(
    files: Seq<(String, String)>,
    is_regex: bool,
    re: Pattern,
    ctx: int,
    i: int,
    n: int,
)
    requires
        0 <= i <= n,
    ensures
        total_matches_of(spec_file_views(files, is_regex, re, ctx, i)) <= total_matches_of(
            spec_file_views(files, is_regex, re, ctx, n),
        ),
    decreases n - i,
{
    if i < n {
        lemma_total_prefix(files, is_regex, re, ctx, i, n - 1);
        let prev = spec_file_views(files, is_regex, re, ctx, n - 1);
        let cur = spec_file_views(files, is_regex, re, ctx, n);
        if cur != prev {
            assert(cur.drop_last() =~= prev);
        }
    }
}

/// Arguments of the `search_text` tool.
#[derive(Debug)]
pub struct SearchTextArgs {
    pub pattern: String,
    pub path: Option<String>,
    pub glob: Option<String>,
    pub is_regex: Option<bool>,
    pub ignore_case: Option<bool>,
    pub context_lines: Option<usize>,
    pub max_files: Option<usize>,
}

/// The `search_text` tool.
#[derive(Debug)]
pub struct SearchText;

impl SearchText {
    /// The check that comes before a search: a directory to search that does
    /// not exist is a `NotFound` error.
    pub fn check_directory(search_dir: &str, exists: bool) -> (r: Result<(), Error>)
        ensures
            !exists ==> (r matches Err(e) && e.kind == ErrorKind::NotFound && e.message@ == "Directory '"@
                + search_dir@ + "' not found"@),
            exists ==> r is Ok,
    {
        if !exists {
            let mut m = "Directory '".to_string();
            m.append(search_dir);
            m.append("' not found");
            return Err(Error { kind: ErrorKind::NotFound, message: m });
        }
        Ok(())
    }
}

/// The regex text searched for: the pattern itself in regex mode, otherwise the
/// pattern escaped so that it matches literally.
pub open spec fn search_regex_text(pattern: Seq<char>, is_regex: bool) -> Seq<char> {
    if is_regex {
        pattern
    } else {
        regex_escape_result(pattern)
    }
}

/// Compiles what `search_text` searches for: the pattern (escaped unless
/// `is_regex`), case-insensitive when `ignore_case`. An invalid pattern is an
/// error of kind `InvalidInput` naming the pattern and the compiler's message.
pub fn build_search_pattern(pattern: &str, is_regex: bool, ignore_case: bool) -> (r: Result<
    Pattern,
    Error,
>)
    ensures
        match regex_build_result(search_regex_text(pattern@, is_regex), ignore_case, false) {
            Ok(_) => r matches Ok(p) && p.source() == search_regex_text(pattern@, is_regex)
                && p.case_insensitive() == ignore_case && !p.dot_matches_new_line(),
            Err(m) => r matches Err(e) && e.kind == ErrorKind::InvalidInput && e.message@
                == "Invalid regex pattern '"@ + pattern@ + "': "@ + m,
        },
{
    let text = if is_regex {
        pattern.to_string()
    } else {
        escape(pattern)
    };
    match Pattern::build(text.as_str(), ignore_case, false) {
        Ok(p) => Ok(p),
        Err(m) => {
            let mut msg = "Invalid regex pattern '".to_string();
            msg.append(pattern);
            msg.append("': ");
            msg.append(m.as_str());
            Err(Error { kind: ErrorKind::InvalidInput, message: msg })
        },
    }
}


/// Whether `search_text` reads the walk entry: a file outside any `.git`
/// directory whose path relative to `base` matches the glob, when one is
/// given.
pub open spec fn search_candidate(e: WalkEntry, base: Seq<char>, glob: Option<Seq<char>>) -> bool {
    &&& e.is_file
    &&& !spec_has_component(e.path@, ".git"@)
    &&& match glob {
        Some(g) => glob_match_result(
            g,
            match spec_relative_to(e.path@, base) {
                Some(r) => r,
                None => e.path@,
            },
        ),
        None => true,
    }
}

/// Whether `search_text` reads the walk entry (see `search_candidate`).
pub fn is_search_candidate(entry: &WalkEntry, search_path: &str, glob: Option<&GlobPattern>) -> (r:
    bool)
    ensures
        r == search_candidate(
            *entry,
            search_path@,
            match glob {
                Some(g) => Some(g.source()),
                None => None,
            },
        ),
{
    if !entry.is_file || has_component(entry.path.as_str(), ".git") {
        return false;
    }
    match glob {
        Some(g) => {
            let rel = match relative_to(entry.path.as_str(), search_path) {
                Some(r) => r,
                None => entry.path.clone(),
            };
            g.is_match(rel.as_str())
        },
        None => true,
    }
}

/// The text of a file as `search_text` reads it: none for a binary file
/// (one with a NUL byte) or one that is not UTF-8.
pub open spec fn searchable_text(bytes: Seq<u8>) -> Option<Seq<char>> {
    if bytes.contains(0u8) || !valid_utf8(bytes) {
        None
    } else {
        Some(decode_utf8(bytes))
    }
}

/// The text of a file's bytes (see `searchable_text`).
pub fn file_text(bytes: &[u8]) -> (r: Option<String>)
    ensures
        match searchable_text(bytes@) {
            Some(t) => r matches Some(x) && x@ == t,
            None => r is None,
        },
{
    let mut i: usize = 0;
    while i < bytes.len()
        invariant
            i <= bytes@.len(),
            forall|k: int| 0 <= k < i ==> bytes@[k] != 0u8,
        decreases bytes@.len() - i,
    {
        if bytes[i] == 0u8 {
            assert(bytes@[i as int] == 0u8);
            return None;
        }
        i += 1;
    }
    match utf8_text(bytes) {
        Some(s) => {
            proof {
                vstd::utf8::encode_utf8_decode_utf8(s@);
            }
            Some(s.to_string())
        },
        None => None,
    }
}

} // verus!
