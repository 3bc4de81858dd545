//! Compiled regular expressions (the `regex` crate) and what their searches
//! return.
use vstd::prelude::*;
use vstd::string::*;
use vstd::utf8::*;

verus! {

broadcast use vstd::string::group_string_axioms;

/// `regex::Regex`, known to the verifier as an opaque type.
#[verifier::external_type_specification]
#[verifier::external_body]
pub struct ExRegex(regex::Regex);

/// What `RegexBuilder::build` returns for a pattern with the two options:
/// `Ok` when it compiles, otherwise `Err` with the error's message.
pub uninterp spec fn regex_build_result(
    pattern: Seq<char>,
    case_insensitive: bool,
    dot_matches_new_line: bool,
) -> Result<(), Seq<char>>;

/// What `Regex::find_at` returns for the compiled pattern on `haystack` from
/// byte offset `start`: the byte range of the match, if any.
pub uninterp spec fn regex_find_at_result(
    pattern: Seq<char>,
    case_insensitive: bool,
    dot_matches_new_line: bool,
    haystack: Seq<char>,
    start: int,
) -> Option<(int, int)>;

/// What `Regex::find_iter` yields for the compiled pattern on `haystack`: the
/// byte ranges of its successive matches.
pub uninterp spec fn regex_find_iter_result(
    pattern: Seq<char>,
    case_insensitive: bool,
    dot_matches_new_line: bool,
    haystack: Seq<char>,
) -> Seq<(int, int)>;

/// What `regex::escape` returns: the text with every regex meta character
/// escaped.
pub uninterp spec fn regex_escape_result(text: Seq<char>) -> Seq<char>;

/// A byte range inside `bytes` whose ends are character boundaries.
pub open spec fn valid_span(bytes: Seq<u8>, s: int, e: int) -> bool {
    0 <= s <= e <= bytes.len() && is_char_boundary(bytes, s) && is_char_boundary(bytes, e)
}

/// A compiled regular expression with the pattern and options it was built
/// from.
#[derive(Debug)]
pub struct Pattern {
    re: regex::Regex,
    source: String,
    case_insensitive: bool,
    dot_matches_new_line: bool,
}

impl Pattern {
    /// The pattern text this was compiled from.
    pub closed spec fn source(&self) -> Seq<char> {
        self.source@
    }

    /// Whether it matches case-insensitively.
    pub closed spec fn case_insensitive(&self) -> bool {
        self.case_insensitive
    }

    /// Whether `.` matches `\n` too.
    pub closed spec fn dot_matches_new_line(&self) -> bool {
        self.dot_matches_new_line
    }

    /// The byte ranges of the successive matches in `haystack`.
    pub open spec fn spec_find_iter(&self, haystack: Seq<char>) -> Seq<(int, int)> {
        regex_find_iter_result(
            self.source(),
            self.case_insensitive(),
            self.dot_matches_new_line(),
            haystack,
        )
    }

    /// The first match in `haystack` from byte offset `start`.
    pub open spec fn spec_find_at(&self, haystack: Seq<char>, start: int) -> Option<(int, int)> {
        regex_find_at_result(
            self.source(),
            self.case_insensitive(),
            self.dot_matches_new_line(),
            haystack,
            start,
        )
    }

    /// Compiles `pattern` with `RegexBuilder` and the two options; the error's
    /// message when it does not compile.
    #[verifier::external_body]
    pub(crate) fn build(pattern: &str, case_insensitive: bool, dot_matches_new_line: bool) -> (r: Result<
        Pattern,
        String,
    >)
        ensures
            match regex_build_result(pattern@, case_insensitive, dot_matches_new_line) {
                Ok(_) => r matches Ok(p) && p.source() == pattern@ && p.case_insensitive()
                    == case_insensitive && p.dot_matches_new_line() == dot_matches_new_line,
                Err(m) => r matches Err(x) && x@ == m,
            },
    {
        match regex::RegexBuilder::new(pattern)
            .case_insensitive(case_insensitive)
            .dot_matches_new_line(dot_matches_new_line)
            .build()
        {
            Ok(re) => Ok(Pattern {
                re,
                source: pattern.to_string(),
                case_insensitive,
                dot_matches_new_line,
            }),
            Err(e) => Err(e.to_string()),
        }
    }

    /// Calls `Regex::find_at`: the first match in `haystack` at or after byte
    /// offset `start`. As the crate documents, a match's start is at most its
    /// end and both are character boundaries of the haystack.
    #[verifier::external_body]
    pub(crate) fn find_at(&self, haystack: &str, start: usize) -> (r: Option<(usize, usize)>)
        requires
            start <= haystack.spec_bytes().len(),
        ensures
            match regex_find_at_result(self.source(), self.case_insensitive(), self.dot_matches_new_line(), haystack@, start as int) {
                Some((s, e)) => r == Some((s as usize, e as usize)) && valid_span(
                    haystack.spec_bytes(),
                    s,
                    e,
                ),
                None => r is None,
            },
    {
        self.re.find_at(haystack, start).map(|m| (m.start(), m.end()))
    }

    /// Calls `Regex::find_iter`: the byte ranges of the successive
    /// non-overlapping matches in `haystack`. As the crate documents, each
    /// range lies within the haystack with character-boundary ends, and each
    /// match ends at or before the next one starts.
    #[verifier::external_body]
    pub(crate) fn find_iter(&self, haystack: &str) -> (r: Vec<(usize, usize)>)
        ensures
            r@.len() == regex_find_iter_result(self.source(), self.case_insensitive(), self.dot_matches_new_line(), haystack@).len(),
            forall|i: int|
                0 <= i < r@.len() ==> r@[i].0 == regex_find_iter_result(self.source(), self.case_insensitive(), self.dot_matches_new_line(), haystack@)[i].0 && r@[i].1
                    == regex_find_iter_result(self.source(), self.case_insensitive(), self.dot_matches_new_line(), haystack@)[i].1,
            forall|i: int|
                0 <= i < r@.len() ==> valid_span(
                    haystack.spec_bytes(),
                    #[trigger] regex_find_iter_result(self.source(), self.case_insensitive(), self.dot_matches_new_line(), haystack@)[i].0,
                    regex_find_iter_result(self.source(), self.case_insensitive(), self.dot_matches_new_line(), haystack@)[i].1,
                ),
            forall|i: int|
                0 <= i < r@.len() - 1 ==> #[trigger] regex_find_iter_result(self.source(), self.case_insensitive(), self.dot_matches_new_line(), haystack@)[i].1
                    <= regex_find_iter_result(self.source(), self.case_insensitive(), self.dot_matches_new_line(), haystack@)[i + 1].0,
    {
        self.re.find_iter(haystack).map(|m| (m.start(), m.end())).collect()
    }
}

/// Calls `regex::escape`: `text` with every regex meta character escaped, so
/// that the result matches `text` literally.
#[verifier::external_body]
pub(crate) fn escape(text: &str) -> (r: String)
    ensures
        r@ == regex_escape_result(text@),
{
    regex::escape(text)
}

} // verus!
