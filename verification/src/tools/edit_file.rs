//! The `edit_file` tool: find and replace in a file's text, literally or by
//! regular expression, with the line of every edit reported.
use vstd::prelude::*;
use vstd::string::*;
use vstd::utf8::*;

use crate::error::{Error, ErrorKind};
use crate::offsets::{
    byte_to_char,
    byte_to_char_index,
    lemma_byte_to_char_monotone,
    lemma_byte_to_char_range,
};
use crate::pattern::{regex_build_result, regex_find_iter_result, valid_span, Pattern};
use crate::text::{
    chars_occur_at,
    decimal,
    extend_chars,
    occurs_at,
    newlines_before,
    count_newlines,
    spec_decimal,
    string_from_chars,
    string_of,
    to_chars,
};
use crate::tools::search_text::spans_view;

verus! {

broadcast use vstd::string::group_string_axioms, vstd::utf8::group_utf8_lib;

/// The most matches that one edit in `All` mode may replace.
pub const ALL_MODE_LIMIT: usize = 20;

/// How many matches an edit replaces.
#[derive(Clone, Copy, Debug, PartialEq, Eq, Structural)]
pub enum ReplaceMode {
    /// Exactly one match; more than one is an error.
    One,
    /// Every match, up to the limit.
    All,
}

/// How the search text is read.
#[derive(Clone, Copy, Debug, PartialEq, Eq, Structural)]
pub enum SearchMode {
    /// The search text itself.
    Literal,
    /// A regular expression in which `.` also matches `'\n'`.
    Regex,
}

/// One replaced match: the 1-based line where it starts and, for a regex
/// search, the text it replaced.
#[derive(Debug)]
pub struct EditInfo {
    pub line: usize,
    pub text_replaced: Option<String>,
}

/// The arguments of the `edit_file` tool.
#[derive(Debug)]
pub struct EditFileArgs {
    pub filepath: String,
    pub search: String,
    pub replace: String,
    pub replace_mode: Option<ReplaceMode>,
    pub search_mode: SearchMode,
}

/// The `edit_file` tool.
#[derive(Debug)]
pub struct EditFile;

/// What an edit gives back, as values: the new text and one `(line, text)`
/// record per replaced match, or the error's kind and message.
pub type EditOutcome = Result<(Seq<char>, Seq<(int, Option<Seq<char>>)>), (ErrorKind, Seq<char>)>;

/// An edit record as values.
pub open spec fn edit_info_view(e: EditInfo) -> (int, Option<Seq<char>>) {
    (
        e.line as int,
        match e.text_replaced {
            Some(t) => Some(t@),
            None => None,
        },
    )
}

/// An edit's result as values.
pub open spec fn outcome_view(r: Result<(String, Vec<EditInfo>), Error>) -> EditOutcome {
    match r {
        Ok((s, v)) => Ok((s@, v@.map_values(|e: EditInfo| edit_info_view(e)))),
        Err(e) => Err((e.kind, e.message@)),
    }
}

/// How far a literal search moves after a match: the pattern's length, or
/// one character for the empty pattern.
pub open spec fn pattern_step(p: Seq<char>) -> int {
    if p.len() == 0 {
        1
    } else {
        p.len() as int
    }
}

/// The character ranges where `p` matches in `c` from index `from` on, as
/// `str::match_indices` finds them: leftmost first and not overlapping; the
/// empty pattern matches at every index up to and including the end.
pub open spec fn literal_spans(c: Seq<char>, p: Seq<char>, from: int) -> Seq<(int, int)>
    decreases c.len() + 1 - from,
{
    if from < 0 || from > c.len() {
        seq![]
    } else if occurs_at(c, p, from) {
        seq![(from, from + p.len())] + literal_spans(c, p, from + pattern_step(p))
    } else {
        literal_spans(c, p, from + 1)
    }
}

/// Ranges that lie within `0..n`, each starting no earlier than the previous
/// one ended.
pub open spec fn spans_ordered(spans: Seq<(int, int)>, n: int) -> bool {
    &&& forall|i: int| 0 <= i < spans.len() ==> 0 <= #[trigger] spans[i].0 <= spans[i].1 <= n
    &&& forall|i: int, j: int|
        #![trigger spans[i], spans[j]]
        0 <= i < j < spans.len() ==> spans[i].1 <= spans[j].0
}

/// The text of a range of `c`.
pub open spec fn span_text(c: Seq<char>, s: (int, int)) -> Seq<char> {
    c.subrange(s.0, s.1)
}

/// The ranges whose text differs from the replacement: only those are edits.
pub open spec fn kept_spans(c: Seq<char>, spans: Seq<(int, int)>, r: Seq<char>) -> Seq<(int, int)>
    decreases spans.len(),
{
    if spans.len() == 0 {
        seq![]
    } else {
        let k = kept_spans(c, spans.drop_last(), r);
        if span_text(c, spans.last()) != r {
            k.push(spans.last())
        } else {
            k
        }
    }
}

/// `c` from index `from` on, with each range of `spans` replaced by `r`.
pub open spec fn splice(c: Seq<char>, spans: Seq<(int, int)>, r: Seq<char>, from: int) -> Seq<char>
    decreases spans.len(),
{
    if spans.len() == 0 {
        c.subrange(from, c.len() as int)
    } else {
        c.subrange(from, spans[0].0) + r + splice(c, spans.drop_first(), r, spans[0].1)
    }
}

/// The 1-based number of the line that holds character index `k`: one more
/// than the line breaks before it.
pub open spec fn line_of(c: Seq<char>, k: int) -> int {
    count_newlines(c.subrange(0, k)) as int + 1
}

/// The record of an edit at range `s`.
pub open spec fn edit_record(c: Seq<char>, s: (int, int), with_text: bool) -> (
    int,
    Option<Seq<char>>,
) {
    (
        line_of(c, s.0),
        if with_text {
            Some(span_text(c, s))
        } else {
            None
        },
    )
}

/// `s` with a `'\n'` added when the edit reached the end and `s` does not end
/// with one.
pub open spec fn with_final_newline(s: Seq<char>, at_end: bool) -> Seq<char> {
    if at_end && !(s.len() > 0 && s.last() == '\n') {
        s.push('\n')
    } else {
        s
    }
}

/// An edit of `c` at the matched ranges `spans`: the matches whose text is
/// not already `r` are the edits; none is an error, so are several in `One`
/// mode and more than the limit in `All` mode; otherwise every edit is
/// replaced by `r`, with a final `'\n'` ensured when `at_end`.
pub open spec fn spec_edit(
    c: Seq<char>,
    spans: Seq<(int, int)>,
    r: Seq<char>,
    mode: ReplaceMode,
    with_text: bool,
    at_end: bool,
) -> EditOutcome {
    let kept = kept_spans(c, spans, r);
    if kept.len() == 0 {
        Err(
            (
                ErrorKind::NotFound,
                if spans.len() > 0 {
                    "Matched text equals replacement"@
                } else {
                    "No match found"@
                },
            ),
        )
    } else if mode == ReplaceMode::One && kept.len() > 1 {
        Err(
            (
                ErrorKind::InvalidInput,
                spec_decimal(kept.len()) + " matches. Use 'all' or narrow search"@,
            ),
        )
    } else if mode == ReplaceMode::All && kept.len() > ALL_MODE_LIMIT {
        Err(
            (
                ErrorKind::InvalidInput,
                spec_decimal(kept.len()) + " matches exceed the 20-replacement limit for 'all' mode"@,
            ),
        )
    } else {
        Ok(
            (
                with_final_newline(splice(c, kept, r, 0), at_end),
                kept.map_values(|s: (int, int)| edit_record(c, s, with_text)),
            ),
        )
    }
}

/// Some edit ends at the end of `c`.
pub open spec fn edit_reaches_end(c: Seq<char>, kept: Seq<(int, int)>) -> bool {
    exists|k: int| 0 <= k < kept.len() && #[trigger] kept[k].1 == c.len()
}

/// A literal edit: the matches of `p`; the end is reached when an edit ends
/// there.
pub open spec fn spec_literal_edit(c: Seq<char>, p: Seq<char>, r: Seq<char>, mode: ReplaceMode) -> EditOutcome {
    let spans = literal_spans(c, p, 0);
    spec_edit(c, spans, r, mode, false, edit_reaches_end(c, kept_spans(c, spans, r)))
}

/// Byte ranges of the UTF-8 encoding of `c` as character ranges.
pub open spec fn char_spans(c: Seq<char>, byte_spans: Seq<(int, int)>) -> Seq<(int, int)> {
    byte_spans.map_values(|s: (int, int)| (byte_to_char(c, s.0), byte_to_char(c, s.1)))
}

/// A regex edit at the byte ranges that the search found; the end is reached
/// when an edit ends there.
pub open spec fn spec_regex_edit(
    c: Seq<char>,
    byte_spans: Seq<(int, int)>,
    r: Seq<char>,
    mode: ReplaceMode,
) -> EditOutcome {
    let spans = char_spans(c, byte_spans);
    spec_edit(c, spans, r, mode, true, edit_reaches_end(c, kept_spans(c, spans, r)))
}

/// Byte ranges within `bytes` with character-boundary ends, each starting no
/// earlier than the one before ended (what a regex search yields).
pub open spec fn byte_spans_valid(bytes: Seq<u8>, spans: Seq<(int, int)>) -> bool {
    &&& forall|i: int| 0 <= i < spans.len() ==> valid_span(bytes, #[trigger] spans[i].0, spans[i].1)
    &&& forall|i: int| 0 <= i < spans.len() - 1 ==> #[trigger] spans[i].1 <= spans[i + 1].0
}

// ---------------------------------------------------------------------------
// Lemmas
// ---------------------------------------------------------------------------

proof fn lemma_chain(spans: Seq<(int, int)>, i: int, j: int)
    requires
        forall|k: int| 0 <= k < spans.len() ==> #[trigger] spans[k].0 <= spans[k].1,
        forall|k: int| 0 <= k < spans.len() - 1 ==> #[trigger] spans[k].1 <= spans[k + 1].0,
        0 <= i < j < spans.len(),
    ensures
        spans[i].1 <= spans[j].0,
    decreases j - i,
{
    if j > i + 1 {
        lemma_chain(spans, i, j - 1);
        assert(spans[j - 1].0 <= spans[j - 1].1);
        assert(spans[j - 1].1 <= spans[j].0);
    }
}

/// Byte ranges that a regex search yields become ordered character ranges.
proof fn lemma_char_spans_ordered(c: Seq<char>, byte_spans: Seq<(int, int)>)
    requires
        byte_spans_valid(encode_utf8(c), byte_spans),
    ensures
        spans_ordered(char_spans(c, byte_spans), c.len() as int),
{
    let bytes = encode_utf8(c);
    let cs = char_spans(c, byte_spans);
    assert forall|i: int| 0 <= i < cs.len() implies 0 <= #[trigger] cs[i].0 <= cs[i].1 <= c.len() by {
        assert(valid_span(bytes, byte_spans[i].0, byte_spans[i].1));
        lemma_byte_to_char_range(c, byte_spans[i].0);
        lemma_byte_to_char_range(c, byte_spans[i].1);
        lemma_byte_to_char_monotone(c, byte_spans[i].0, byte_spans[i].1);
    }
    assert forall|i: int, j: int| 0 <= i < j < cs.len() implies #[trigger] cs[i].1 <= #[trigger] cs[j].0 by {
        assert forall|k: int| 0 <= k < byte_spans.len() implies #[trigger] byte_spans[k].0
            <= byte_spans[k].1 by {
            assert(valid_span(bytes, byte_spans[k].0, byte_spans[k].1));
        }
        assert forall|k: int| 0 <= k < byte_spans.len() - 1 implies #[trigger] byte_spans[k].1
            <= byte_spans[k + 1].0 by {
            assert(byte_spans[k].1 <= byte_spans[k + 1].0);
        }
        lemma_chain(byte_spans, i, j);
        assert(valid_span(bytes, byte_spans[i].0, byte_spans[i].1));
        assert(valid_span(bytes, byte_spans[j].0, byte_spans[j].1));
        lemma_byte_to_char_monotone(c, byte_spans[i].1, byte_spans[j].0);
    }
}

/// Literal matches are ordered occurrences of the pattern, none before
/// `from`.
proof fn lemma_literal_spans(c: Seq<char>, p: Seq<char>, from: int)
    requires
        0 <= from,
    ensures
        spans_ordered(literal_spans(c, p, from), c.len() as int),
        forall|k: int|
            0 <= k < literal_spans(c, p, from).len() ==> from <= #[trigger] literal_spans(
                c,
                p,
                from,
            )[k].0 && span_text(c, literal_spans(c, p, from)[k]) == p,
    decreases c.len() + 1 - from,
{
    if from > c.len() {
    } else if occurs_at(c, p, from) {
        let next = from + pattern_step(p);
        lemma_literal_spans(c, p, next);
        let rest = literal_spans(c, p, next);
        let all = literal_spans(c, p, from);
        assert(all == seq![(from, from + p.len())] + rest);
        assert forall|k: int| 0 <= k < all.len() implies from <= #[trigger] all[k].0 && span_text(
            c,
            all[k],
        ) == p by {
            if k > 0 {
                assert(all[k] == rest[k - 1]);
            }
        }
        assert forall|i: int, j: int| 0 <= i < j < all.len() implies all[i].1 <= all[j].0 by {
            assert(all[j] == rest[j - 1]);
            if i > 0 {
                assert(all[i] == rest[i - 1]);
            }
        }
    } else {
        lemma_literal_spans(c, p, from + 1);
    }
}

/// The kept ranges keep the order of the ranges they are taken from.
proof fn lemma_kept_ordered(c: Seq<char>, spans: Seq<(int, int)>, r: Seq<char>)
    requires
        spans_ordered(spans, c.len() as int),
    ensures
        spans_ordered(kept_spans(c, spans, r), c.len() as int),
        kept_spans(c, spans, r).len() <= spans.len(),
        kept_spans(c, spans, r).len() > 0 ==> spans.len() > 0 && kept_spans(c, spans, r).last().1
            <= spans.last().1,
        forall|k: int|
            0 <= k < kept_spans(c, spans, r).len() ==> span_text(
                c,
                #[trigger] kept_spans(c, spans, r)[k],
            ) != r,
    decreases spans.len(),
{
    if spans.len() > 0 {
        let init = spans.drop_last();
        assert(spans_ordered(init, c.len() as int)) by {
            assert forall|i: int, j: int| 0 <= i < j < init.len() implies init[i].1 <= init[j].0 by {
                assert(init[i] == spans[i] && init[j] == spans[j]);
            }
        }
        lemma_kept_ordered(c, init, r);
        let k = kept_spans(c, init, r);
        let last = spans.last();
        if span_text(c, last) != r {
            let kk = k.push(last);
            assert forall|i: int, j: int| 0 <= i < j < kk.len() implies kk[i].1 <= kk[j].0 by {
                if j == kk.len() - 1 {
                    assert(kk[j] == spans[spans.len() - 1]);
                    if k.len() > 0 {
                        assert(k.last().1 <= init.last().1);
                        assert(init.last() == spans[spans.len() - 2]);
                        assert(spans[spans.len() - 2].1 <= spans[spans.len() - 2].1);
                        assert(kk[i].1 <= k.last().1) by {
                            if i < k.len() - 1 {
                                assert(kk[i] == k[i]);
                                assert(k[i].1 <= k[k.len() - 1].0);
                                assert(k[k.len() - 1].0 <= k[k.len() - 1].1);
                            }
                        }
                        assert(spans[spans.len() - 2].1 <= spans[spans.len() - 1].0);
                    }
                } else {
                    assert(kk[i] == k[i] && kk[j] == k[j]);
                }
            }
            assert forall|i: int| 0 <= i < kk.len() implies 0 <= #[trigger] kk[i].0 <= kk[i].1
                <= c.len() by {
                if i < k.len() {
                    assert(kk[i] == k[i]);
                } else {
                    assert(kk[i] == spans[spans.len() - 1]);
                }
            }
            assert forall|m: int| 0 <= m < kk.len() implies span_text(c, #[trigger] kk[m]) != r by {
                if m < k.len() {
                    assert(kk[m] == k[m]);
                }
            }
        } else {
            if k.len() > 0 {
                assert(init.last() == spans[spans.len() - 2]);
                assert(spans[spans.len() - 2].1 <= spans[spans.len() - 1].0);
                assert(spans[spans.len() - 1].0 <= spans[spans.len() - 1].1);
            }
        }
    }
}

/// Ranges whose texts all equal `r` keep nothing.
proof fn lemma_kept_none(c: Seq<char>, spans: Seq<(int, int)>, r: Seq<char>)
    requires
        forall|k: int| 0 <= k < spans.len() ==> span_text(c, #[trigger] spans[k]) == r,
    ensures
        kept_spans(c, spans, r).len() == 0,
    decreases spans.len(),
{
    if spans.len() > 0 {
        let init = spans.drop_last();
        assert forall|k: int| 0 <= k < init.len() implies span_text(c, #[trigger] init[k]) == r by {
            assert(init[k] == spans[k]);
        }
        lemma_kept_none(c, init, r);
        assert(span_text(c, spans[spans.len() - 1]) == r);
    }
}

/// Replacing a text by itself is no edit: a literal search whose replacement
/// equals it fails with `NotFound`, whatever the content.
pub proof fn lemma_literal_noop_is_refused(c: Seq<char>, p: Seq<char>, mode: ReplaceMode)
    ensures
        spec_literal_edit(c, p, p, mode) matches Err((kind, _)) && kind == ErrorKind::NotFound,
{
    lemma_literal_spans(c, p, 0);
    lemma_kept_none(c, literal_spans(c, p, 0), p);
}

/// No edit is ever reported at a match whose text is already the
/// replacement, and a successful edit replaces exactly one match in `One`
/// mode and at most the limit in `All` mode.
pub proof fn lemma_edit_counts(
    c: Seq<char>,
    spans: Seq<(int, int)>,
    r: Seq<char>,
    mode: ReplaceMode,
    with_text: bool,
    at_end: bool,
)
    requires
        spans_ordered(spans, c.len() as int),
    ensures
        spec_edit(c, spans, r, mode, with_text, at_end) matches Ok((_, edits)) ==> {
            &&& 1 <= edits.len() <= spans.len()
            &&& mode == ReplaceMode::One ==> edits.len() == 1
            &&& mode == ReplaceMode::All ==> edits.len() <= ALL_MODE_LIMIT
            &&& forall|k: int|
                0 <= k < edits.len() ==> exists|j: int|
                    0 <= j < spans.len() && span_text(c, #[trigger] spans[j]) != r && #[trigger] edits[k]
                        == edit_record(c, spans[j], with_text)
        },
{
    lemma_kept_ordered(c, spans, r);
    lemma_kept_within(c, spans, r);
}

/// Every edit is reported at the line where its replaced text starts: one
/// more than the line breaks before the start of the match, whatever the
/// match spans; a regex edit also carries the text it replaced. There is one
/// record for each replaced match, in order.
pub proof fn lemma_edits_are_reported_where_they_start(
    c: Seq<char>,
    spans: Seq<(int, int)>,
    r: Seq<char>,
    mode: ReplaceMode,
    with_text: bool,
    at_end: bool,
)
    ensures
        spec_edit(c, spans, r, mode, with_text, at_end) matches Ok((_, edits)) ==> {
            let kept = kept_spans(c, spans, r);
            &&& edits.len() == kept.len()
            &&& forall|k: int|
                0 <= k < edits.len() ==> (#[trigger] edits[k]).0 == count_newlines(
                    c.subrange(0, kept[k].0),
                ) + 1 && edits[k].1 == if with_text {
                    Some(c.subrange(kept[k].0, kept[k].1))
                } else {
                    None
                }
        },
{
}

/// Every kept range is one of the ranges.
proof fn lemma_kept_within(c: Seq<char>, spans: Seq<(int, int)>, r: Seq<char>)
    ensures
        forall|k: int|
            0 <= k < kept_spans(c, spans, r).len() ==> exists|j: int|
                0 <= j < spans.len() && #[trigger] kept_spans(c, spans, r)[k] == spans[j],
    decreases spans.len(),
{
    if spans.len() > 0 {
        let init = spans.drop_last();
        lemma_kept_within(c, init, r);
        let kk = kept_spans(c, spans, r);
        let k0 = kept_spans(c, init, r);
        assert forall|k: int| 0 <= k < kk.len() implies exists|j: int|
            0 <= j < spans.len() && #[trigger] kk[k] == spans[j] by {
            if k < k0.len() {
                assert(kk[k] == k0[k]);
                let j = choose|j: int| 0 <= j < init.len() && #[trigger] k0[k] == init[j];
                assert(init[j] == spans[j]);
            } else {
                assert(kk[k] == spans[spans.len() - 1]);
            }
        }
    }
}

/// An edit that reaches the end of the text leaves it ending with `'\n'`.
pub proof fn lemma_edit_at_end_ends_with_newline(
    c: Seq<char>,
    spans: Seq<(int, int)>,
    r: Seq<char>,
    mode: ReplaceMode,
    with_text: bool,
)
    ensures
        spec_edit(c, spans, r, mode, with_text, true) matches Ok((t, _)) ==> t.len() > 0 && t.last()
            == '\n',
{
}

/// Creating a file: in an empty text, the empty search matches once, at the
/// start of line 1, and the result is the replacement with a final `'\n'`.
pub proof fn lemma_empty_search_creates(r: Seq<char>, mode: ReplaceMode)
    requires
        r.len() > 0,
    ensures
        spec_literal_edit(seq![], seq![], r, mode) == Ok::<
            (Seq<char>, Seq<(int, Option<Seq<char>>)>),
            (ErrorKind, Seq<char>),
        >((with_final_newline(r, true), seq![(1int, None::<Seq<char>>)])),
{
    let c: Seq<char> = seq![];
    let p: Seq<char> = seq![];
    assert(occurs_at(c, p, 0)) by {
        assert(c.subrange(0, 0) =~= p);
    }
    assert(literal_spans(c, p, 1) == Seq::<(int, int)>::empty());
    let spans = literal_spans(c, p, 0);
    assert(spans =~= seq![(0int, 0int)]);
    assert(spans.drop_last() =~= Seq::<(int, int)>::empty());
    assert(span_text(c, (0, 0)) =~= Seq::<char>::empty());
    assert(kept_spans(c, spans.drop_last(), r) =~= Seq::<(int, int)>::empty());
    assert(spans.last() == (0int, 0int));
    assert(span_text(c, spans.last()) != r);
    let kept = kept_spans(c, spans, r);
    assert(kept =~= seq![(0int, 0int)]);
    assert(kept.drop_first() =~= Seq::<(int, int)>::empty());
    assert(splice(c, kept.drop_first(), r, 0) =~= Seq::<char>::empty());
    assert(c.subrange(0, 0) + r + Seq::<char>::empty() =~= r);
    assert(splice(c, kept, r, 0) =~= r);
    assert(c.subrange(0, 0) =~= Seq::<char>::empty());
    assert(kept.map_values(|s: (int, int)| edit_record(c, s, false)) =~= seq![(1int, None::<Seq<char>>)]);
    assert(kept[0].1 == c.len());
    assert(edit_reaches_end(c, kept));
}

// ---------------------------------------------------------------------------
// Executable parts
// ---------------------------------------------------------------------------

/// The 1-based line of character index `k` in `c`.
fn line_at(c: &Vec<char>, k: usize) -> (r: usize)
    requires
        k <= c@.len(),
        c@.len() < usize::MAX,
    ensures
        r == line_of(c@, k as int),
{
    let n = newlines_before(c, k);
    n + 1
}

/// Whether `c[s..e]` is the text `r`.
fn span_is(c: &Vec<char>, s: usize, e: usize, r: &Vec<char>) -> (b: bool)
    requires
        s <= e <= c@.len(),
    ensures
        b == (span_text(c@, (s as int, e as int)) == r@),
{
    if e - s != r.len() {
        return false;
    }
    chars_occur_at(c, r, s)
}

/// The matches of `p` in `c`, as character ranges.
fn literal_match_spans(c: &Vec<char>, p: &Vec<char>) -> (r: Vec<(usize, usize)>)
    requires
        c@.len() < usize::MAX,
    ensures
        spans_view(r@) == literal_spans(c@, p@, 0),
{
    let n = c.len();
    let step: usize = if p.len() == 0 {
        1
    } else {
        p.len()
    };
    let mut out: Vec<(usize, usize)> = Vec::new();
    let mut i: usize = 0;
    assert(spans_view(out@) + literal_spans(c@, p@, 0) =~= literal_spans(c@, p@, 0));
    while i <= n
        invariant
            n == c@.len(),
            n < usize::MAX,
            step == pattern_step(p@),
            i <= n + 1,
            spans_view(out@) + literal_spans(c@, p@, i as int) == literal_spans(c@, p@, 0),
        decreases n + 1 - i,
    {
        if chars_occur_at(c, p, i) {
            let ghost before = spans_view(out@);
            out.push((i, i + p.len()));
            proof {
                assert(spans_view(out@) =~= before.push((i as int, i + p@.len())));
                assert(spans_view(out@) + literal_spans(c@, p@, i + step) =~= before + (seq![
                    (i as int, i + p@.len()),
                ] + literal_spans(c@, p@, i + step)));
            }
            i = i + step;
        } else {
            i = i + 1;
        }
    }
    assert(spans_view(out@) =~= spans_view(out@) + literal_spans(c@, p@, i as int));
    out
}

/// The ranges whose text is not `r`.
fn keep_changing(c: &Vec<char>, spans: &Vec<(usize, usize)>, r: &Vec<char>) -> (k: Vec<(usize, usize)>)
    requires
        spans_ordered(spans_view(spans@), c@.len() as int),
    ensures
        spans_view(k@) == kept_spans(c@, spans_view(spans@), r@),
{
    let mut k: Vec<(usize, usize)> = Vec::new();
    let mut i: usize = 0;
    while i < spans.len()
        invariant
            i <= spans@.len(),
            spans_ordered(spans_view(spans@), c@.len() as int),
            spans_view(k@) == kept_spans(c@, spans_view(spans@).take(i as int), r@),
        decreases spans@.len() - i,
    {
        let ghost sv = spans_view(spans@);
        assert(sv.take(i + 1).drop_last() =~= sv.take(i as int));
        assert(sv[i as int] == (spans@[i as int].0 as int, spans@[i as int].1 as int));
        let (s, e) = spans[i];
        if !span_is(c, s, e, r) {
            k.push((s, e));
            assert(spans_view(k@) =~= kept_spans(c@, sv.take(i as int), r@).push(sv[i as int]));
        }
        i += 1;
    }
    assert(spans_view(spans@).take(spans@.len() as int) =~= spans_view(spans@));
    k
}

/// `c` with each range of `spans` replaced by `r`.
fn splice_chars(c: &Vec<char>, spans: &Vec<(usize, usize)>, r: &Vec<char>) -> (out: Vec<char>)
    requires
        spans_ordered(spans_view(spans@), c@.len() as int),
    ensures
        out@ == splice(c@, spans_view(spans@), r@, 0),
{
    let ghost sv = spans_view(spans@);
    let mut out: Vec<char> = Vec::new();
    let mut last: usize = 0;
    let mut i: usize = 0;
    assert(sv.skip(0) =~= sv);
    while i < spans.len()
        invariant
            sv == spans_view(spans@),
            spans_ordered(sv, c@.len() as int),
            i <= sv.len(),
            last <= c@.len(),
            i == 0 ==> last == 0,
            i > 0 ==> last == sv[i - 1].1,
            out@ + splice(c@, sv.skip(i as int), r@, last as int) == splice(c@, sv, r@, 0),
        decreases sv.len() - i,
    {
        let (s, e) = spans[i];
        assert(sv[i as int] == (s as int, e as int));
        if i > 0 {
            assert(sv[i - 1].1 <= sv[i as int].0);
        }
        let ghost before = out@;
        proof {
            let rest = sv.skip(i as int);
            assert(rest[0] == sv[i as int]);
            assert(rest.drop_first() =~= sv.skip(i + 1));
        }
        extend_chars(&mut out, c, last, s);
        extend_chars(&mut out, r, 0, r.len());
        proof {
            assert(r@.subrange(0, r@.len() as int) =~= r@);
            assert(out@ == before + c@.subrange(last as int, s as int) + r@);
            assert(out@ + splice(c@, sv.skip(i + 1), r@, e as int) =~= before + splice(
                c@,
                sv.skip(i as int),
                r@,
                last as int,
            ));
        }
        last = e;
        i += 1;
    }
    extend_chars(&mut out, c, last, c.len());
    proof {
        assert(sv.skip(i as int).len() == 0);
    }
    out
}

/// One record per kept range.
fn edit_records(c: &Vec<char>, kept: &Vec<(usize, usize)>, with_text: bool) -> (v: Vec<EditInfo>)
    requires
        spans_ordered(spans_view(kept@), c@.len() as int),
        c@.len() < usize::MAX,
    ensures
        v@.map_values(|e: EditInfo| edit_info_view(e)) == spans_view(kept@).map_values(
            |s: (int, int)| edit_record(c@, s, with_text),
        ),
{
    let ghost sv = spans_view(kept@);
    let mut v: Vec<EditInfo> = Vec::new();
    let mut i: usize = 0;
    while i < kept.len()
        invariant
            sv == spans_view(kept@),
            spans_ordered(sv, c@.len() as int),
            c@.len() < usize::MAX,
            i <= kept@.len(),
            v@.len() == i,
            forall|j: int|
                0 <= j < i ==> edit_info_view(#[trigger] v@[j]) == edit_record(c@, sv[j], with_text),
        decreases kept@.len() - i,
    {
        let (s, e) = kept[i];
        assert(sv[i as int] == (s as int, e as int));
        let line = line_at(c, s);
        let text = if with_text {
            Some(string_of(c, s, e))
        } else {
            None
        };
        v.push(EditInfo { line, text_replaced: text });
        i += 1;
    }
    assert(v@.map_values(|e: EditInfo| edit_info_view(e)) =~= sv.map_values(
        |s: (int, int)| edit_record(c@, s, with_text),
    ));
    v
}

/// Whether some range ends at `n`.
fn reaches(spans: &Vec<(usize, usize)>, n: usize) -> (b: bool)
    ensures
        b == exists|k: int| 0 <= k < spans@.len() && #[trigger] spans_view(spans@)[k].1 == n,
{
    let mut i: usize = 0;
    while i < spans.len()
        invariant
            i <= spans@.len(),
            forall|k: int| 0 <= k < i ==> #[trigger] spans_view(spans@)[k].1 != n,
        decreases spans@.len() - i,
    {
        assert(spans_view(spans@)[i as int].1 == spans@[i as int].1);
        if spans[i].1 == n {
            return true;
        }
        i += 1;
    }
    false
}

/// The edit at the matched ranges `spans`, as `spec_edit` states it.
fn edit_at(
    c: &Vec<char>,
    spans: &Vec<(usize, usize)>,
    r: &Vec<char>,
    mode: &ReplaceMode,
    with_text: bool,
    at_end: bool,
) -> (res: Result<(String, Vec<EditInfo>), Error>)
    requires
        spans_ordered(spans_view(spans@), c@.len() as int),
        c@.len() < usize::MAX,
    ensures
        outcome_view(res) == spec_edit(c@, spans_view(spans@), r@, *mode, with_text, at_end),
{
    let kept = keep_changing(c, spans, r);
    proof {
        lemma_kept_ordered(c@, spans_view(spans@), r@);
    }
    let count = kept.len();
    if count == 0 {
        let message = if spans.len() > 0 {
            "Matched text equals replacement".to_string()
        } else {
            "No match found".to_string()
        };
        return Err(Error { kind: ErrorKind::NotFound, message });
    }
    if *mode == ReplaceMode::One && count > 1 {
        let mut message = decimal(count);
        message.append(" matches. Use 'all' or narrow search");
        return Err(Error { kind: ErrorKind::InvalidInput, message });
    }
    if *mode == ReplaceMode::All && count > ALL_MODE_LIMIT {
        let mut message = decimal(count);
        message.append(" matches exceed the 20-replacement limit for 'all' mode");
        return Err(Error { kind: ErrorKind::InvalidInput, message });
    }
    let edits = edit_records(c, &kept, with_text);
    let mut out = splice_chars(c, &kept, r);
    let n = out.len();
    if at_end && !(n > 0 && out[n - 1] == '\n') {
        out.push('\n');
    }
    proof {
        let spliced = splice(c@, spans_view(kept@), r@, 0);
        if n > 0 {
            assert(spliced.last() == spliced[n - 1]);
        }
    }
    let text = string_from_chars(&out);
    Ok((text, edits))
}

/// An edit of `content` at the byte ranges `matches` that a regex search
/// found: each range is replaced by `replace` unless its text already is
/// `replace`, with the rules of `spec_edit`; every record carries the text it
/// replaced.
pub fn edit_with_matches(
    content: &str,
    matches: &Vec<(usize, usize)>,
    replace: &str,
    replace_mode: &ReplaceMode,
) -> (res: Result<(String, Vec<EditInfo>), Error>)
    requires
        content@.len() < usize::MAX,
        byte_spans_valid(content.spec_bytes(), spans_view(matches@)),
    ensures
        outcome_view(res) == spec_regex_edit(content@, spans_view(matches@), replace@, *replace_mode),
{
    let c = to_chars(content);
    let r = to_chars(replace);
    let ghost bv = spans_view(matches@);
    let ghost want = char_spans(c@, bv);
    proof {
        lemma_char_spans_ordered(c@, bv);
    }
    let mut spans: Vec<(usize, usize)> = Vec::new();
    let mut i: usize = 0;
    while i < matches.len()
        invariant
            c@ == content@,
            bv == spans_view(matches@),
            want == char_spans(c@, bv),
            byte_spans_valid(encode_utf8(c@), bv),
            i <= matches@.len(),
            spans_view(spans@) == want.take(i as int),
        decreases matches@.len() - i,
    {
        let (bs, be) = matches[i];
        assert(bv[i as int] == (bs as int, be as int));
        assert(valid_span(encode_utf8(c@), bv[i as int].0, bv[i as int].1));
        let s = byte_to_char_index(&c, bs);
        let e = byte_to_char_index(&c, be);
        let ghost before = spans_view(spans@);
        spans.push((s, e));
        assert(want[i as int] == (s as int, e as int));
        assert(spans_view(spans@) =~= before.push((s as int, e as int)));
        assert(want.take(i + 1) =~= want.take(i as int).push(want[i as int]));
        i += 1;
    }
    assert(want.take(matches@.len() as int) =~= want);
    let kept = keep_changing(&c, &spans, &r);
    proof {
        lemma_kept_ordered(c@, want, r@);
    }
    let at_end = reaches(&kept, c.len());
    proof {
        let kv = kept_spans(c@, want, r@);
        assert(spans_view(kept@) == kv);
        if at_end {
            let k = choose|k: int| 0 <= k < kept@.len() && #[trigger] spans_view(kept@)[k].1 == c@.len();
            assert(kv[k].1 == c@.len());
        }
        if edit_reaches_end(c@, kv) {
            let k = choose|k: int| 0 <= k < kv.len() && #[trigger] kv[k].1 == c@.len();
            assert(spans_view(kept@)[k].1 == c@.len());
        }
    }
    edit_at(&c, &spans, &r, replace_mode, true, at_end)
}

/// Finds and replaces in `content`: `search` read literally or as a regular
/// expression (in which `.` matches `'\n'`), with the rules of `spec_edit`.
/// A pattern that does not compile is an `InvalidInput` error.
pub fn perform_edit(
    content: &str,
    search: &str,
    replace: &str,
    replace_mode: &ReplaceMode,
    search_mode: &SearchMode,
) -> (res: Result<(String, Vec<EditInfo>), Error>)
    requires
        content@.len() < usize::MAX,
    ensures
        *search_mode == SearchMode::Literal ==> outcome_view(res) == spec_literal_edit(
            content@,
            search@,
            replace@,
            *replace_mode,
        ),
        *search_mode == SearchMode::Regex ==> match regex_build_result(search@, false, true) {
            Err(m) => outcome_view(res) == Err::<(Seq<char>, Seq<(int, Option<Seq<char>>)>), (ErrorKind, Seq<char>)>((ErrorKind::InvalidInput, "Bad regex: "@ + m)),
            Ok(_) => outcome_view(res) == spec_regex_edit(
                content@,
                regex_find_iter_result(search@, false, true, content@),
                replace@,
                *replace_mode,
            ),
        },
{
    match search_mode {
        SearchMode::Literal => {
            let c = to_chars(content);
            let p = to_chars(search);
            let r = to_chars(replace);
            let spans = literal_match_spans(&c, &p);
            proof {
                lemma_literal_spans(c@, p@, 0);
            }
            let kept = keep_changing(&c, &spans, &r);
            let at_end = reaches(&kept, c.len());
            proof {
                let kv = kept_spans(c@, spans_view(spans@), r@);
                assert(spans_view(kept@) == kv);
                if at_end {
                    let k = choose|k: int|
                        0 <= k < kept@.len() && #[trigger] spans_view(kept@)[k].1 == c@.len();
                    assert(kv[k].1 == c@.len());
                }
                if edit_reaches_end(c@, kv) {
                    let k = choose|k: int| 0 <= k < kv.len() && #[trigger] kv[k].1 == c@.len();
                    assert(spans_view(kept@)[k].1 == c@.len());
                }
            }
            edit_at(&c, &spans, &r, replace_mode, false, at_end)
        },
        SearchMode::Regex => {
            match Pattern::build(search, false, true) {
                Err(m) => {
                    let mut message = "Bad regex: ".to_string();
                    message.append(m.as_str());
                    Err(Error { kind: ErrorKind::InvalidInput, message })
                },
                Ok(re) => {
                    let found = re.find_iter(content);
                    let ghost want = regex_find_iter_result(search@, false, true, content@);
                    proof {
                        assert(spans_view(found@) =~= want);
                        assert forall|i: int| 0 <= i < want.len() implies valid_span(
                            content.spec_bytes(),
                            #[trigger] want[i].0,
                            want[i].1,
                        ) by {
                            assert(valid_span(
                                content.spec_bytes(),
                                regex_find_iter_result(re.source(), re.case_insensitive(), re.dot_matches_new_line(), content@)[i].0,
                                regex_find_iter_result(re.source(), re.case_insensitive(), re.dot_matches_new_line(), content@)[i].1,
                            ));
                        }
                        assert forall|i: int| 0 <= i < want.len() - 1 implies #[trigger] want[i].1
                            <= want[i + 1].0 by {
                            assert(regex_find_iter_result(re.source(), re.case_insensitive(), re.dot_matches_new_line(), content@)[i].1
                                <= regex_find_iter_result(re.source(), re.case_insensitive(), re.dot_matches_new_line(), content@)[i + 1].0);
                        }
                    }
                    edit_with_matches(content, &found, replace, replace_mode)
                },
            }
        },
    }
}

impl EditFile {
    /// The tool's edit of a file's `content` (the empty text for a file that
    /// does not exist yet): `perform_edit` with the arguments, in `One` mode
    /// when none is given.
    pub fn apply(args: &EditFileArgs, content: &str) -> (res: Result<(String, Vec<EditInfo>), Error>)
        requires
            content@.len() < usize::MAX,
        ensures
            ({
                let mode = match args.replace_mode {
                    Some(m) => m,
                    None => ReplaceMode::One,
                };
                &&& args.search_mode == SearchMode::Literal ==> outcome_view(res) == spec_literal_edit(
                    content@,
                    args.search@,
                    args.replace@,
                    mode,
                )
                &&& args.search_mode == SearchMode::Regex ==> match regex_build_result(
                    args.search@,
                    false,
                    true,
                ) {
                    Err(m) => outcome_view(res) == Err::<(Seq<char>, Seq<(int, Option<Seq<char>>)>), (ErrorKind, Seq<char>)>((ErrorKind::InvalidInput, "Bad regex: "@ + m)),
                    Ok(_) => outcome_view(res) == spec_regex_edit(
                        content@,
                        regex_find_iter_result(args.search@, false, true, content@),
                        args.replace@,
                        mode,
                    ),
                }
            }),
    {
        let mode = match args.replace_mode {
            Some(m) => m,
            None => ReplaceMode::One,
        };
        perform_edit(content, args.search.as_str(), args.replace.as_str(), &mode, &args.search_mode)
    }
}

} // verus!
