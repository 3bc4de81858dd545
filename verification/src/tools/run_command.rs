//! `run_command`: whitelist matching of exec-form commands and the shaping of
//! their output (line filters and the output cap).
use std::collections::HashMap;

use vstd::prelude::*;
use vstd::string::*;
use vstd::utf8::*;

use crate::text::{
    char_vecs_view, chars_contains, lemma_char_vecs_view_push, lemma_strings_view_push,
    lemma_strings_view_subrange, chars_ends_with, chars_eq, join, lines, spec_contains, spec_ends_with,
    spec_join, spec_lines, spec_trim, str_eq, string_from_chars, strings_view, to_chars, trim,
};

verus! {

broadcast use vstd::string::group_string_axioms;

/// Hard cap on the size of each output stream, in bytes.
pub const OUTPUT_CAP: usize = 32768;

/// Arguments of the `run_command` tool.
#[derive(Debug)]
pub struct RunCommandArgs {
    pub argv: Vec<String>,
    pub path: Option<String>,
    pub timeout: Option<u64>,
    pub filter: Option<String>,
    pub head: Option<usize>,
    pub tail: Option<usize>,
    pub env: Option<HashMap<String, String>>,
}

/// The `run_command` tool.
#[derive(Debug)]
pub struct RunCommand;

/// How many arguments a whitelist pattern admits beyond its own tokens.
#[derive(Clone, Copy, Debug, PartialEq, Eq, Structural)]
pub enum ArgAllowance {
    /// No additional arguments.
    Exact,
    /// Exactly one additional argument.
    OneArg,
    /// Any number of additional arguments.
    AnyArgs,
}

/// What `shlex::split` returns for the given text: the words of a POSIX
/// shell command line, or `None` when the quoting is malformed.
pub uninterp spec fn shlex_split_result(s: Seq<char>) -> Option<Seq<Seq<char>>>;

/// Deep view of an optional list of strings.
pub open spec fn opt_strings_view(v: Option<Vec<String>>) -> Option<Seq<Seq<char>>> {
    match v {
        Some(w) => Some(strings_view(w@)),
        None => None,
    }
}

/// Calls `shlex::split`; the result is what `shlex_split_result` names for the
/// same text.
#[verifier::external_body]
pub(crate) fn shlex_split(s: &str) -> (r: Option<Vec<String>>)
    ensures
        opt_strings_view(r) == shlex_split_result(s@),
{
    shlex::split(s)
}

/// The allowance a trimmed pattern asks for: `"*"` or a trailing `" *"` for any
/// arguments, a trailing `" ?"` for one, otherwise none.
pub open spec fn spec_allowance(trimmed: Seq<char>) -> ArgAllowance {
    if trimmed == seq!['*'] || spec_ends_with(trimmed, seq![' ', '*']) {
        ArgAllowance::AnyArgs
    } else if spec_ends_with(trimmed, seq![' ', '?']) {
        ArgAllowance::OneArg
    } else {
        ArgAllowance::Exact
    }
}

/// The pattern's command tokens: the split words without a trailing `*` or `?`.
pub open spec fn spec_pattern_tokens(words: Seq<Seq<char>>) -> Seq<Seq<char>> {
    if words.len() > 0 && (words.last() == seq!['*'] || words.last() == seq!['?']) {
        words.drop_last()
    } else {
        words
    }
}

/// The words that `shlex::split` gives, or none when it fails.
pub open spec fn words_or_empty(w: Option<Seq<Seq<char>>>) -> Seq<Seq<char>> {
    match w {
        Some(v) => v,
        None => seq![],
    }
}

/// A whitelist pattern, parsed: its command tokens and its allowance.
pub open spec fn spec_parse_whitelist_pattern(pattern: Seq<char>) -> (Seq<Seq<char>>, ArgAllowance) {
    let trimmed = spec_trim(pattern);
    (spec_pattern_tokens(words_or_empty(shlex_split_result(trimmed))), spec_allowance(trimmed))
}

/// Whether a command's tokens match parsed pattern tokens and allowance: the
/// pattern tokens lead the command, and the count of the remaining arguments
/// is what the allowance admits.
pub open spec fn spec_tokens_match(
    command: Seq<Seq<char>>,
    pattern: Seq<Seq<char>>,
    allowance: ArgAllowance,
) -> bool {
    &&& pattern.len() <= command.len()
    &&& command.subrange(0, pattern.len() as int) == pattern
    &&& match allowance {
        ArgAllowance::Exact => command.len() == pattern.len(),
        ArgAllowance::OneArg => command.len() == pattern.len() + 1,
        ArgAllowance::AnyArgs => true,
    }
}

/// A command matches a whitelist when some pattern of it matches.
pub open spec fn spec_command_matches_whitelist(command: Seq<Seq<char>>, whitelist: Seq<Seq<char>>) -> bool {
    exists|i: int|
        0 <= i < whitelist.len() && #[trigger] spec_tokens_match(
            command,
            spec_parse_whitelist_pattern(whitelist[i]).0,
            spec_parse_whitelist_pattern(whitelist[i]).1,
        )
}

fn allowance_of(trimmed: &Vec<char>) -> (a: ArgAllowance)
    ensures
        a == spec_allowance(trimmed@),
{
    let star: Vec<char> = vec!['*'];
    let space_star: Vec<char> = vec![' ', '*'];
    let space_q: Vec<char> = vec![' ', '?'];
    assert(star@ =~= seq!['*']);
    assert(space_star@ =~= seq![' ', '*']);
    assert(space_q@ =~= seq![' ', '?']);
    if chars_eq(trimmed, &star) || chars_ends_with(trimmed, &space_star) {
        ArgAllowance::AnyArgs
    } else if chars_ends_with(trimmed, &space_q) {
        ArgAllowance::OneArg
    } else {
        ArgAllowance::Exact
    }
}

/// The pattern tokens and allowance for a trimmed pattern, given the words
/// that splitting it produced (`None` when splitting failed).
pub fn whitelist_pattern_from_words(trimmed: &str, words: Option<Vec<String>>) -> (r: (
    Vec<String>,
    ArgAllowance,
))
    ensures
        strings_view(r.0@) == spec_pattern_tokens(words_or_empty(opt_strings_view(words))),
        r.1 == spec_allowance(trimmed@),
{
    let tv = to_chars(trimmed);
    let allowance = allowance_of(&tv);
    let mut tokens: Vec<String> = match words {
        Some(w) => w,
        None => Vec::new(),
    };
    assert(strings_view(tokens@) =~= words_or_empty(opt_strings_view(words)));
    let n = tokens.len();
    if n > 0 {
        let last = to_chars(tokens[n - 1].as_str());
        let star: Vec<char> = vec!['*'];
        let q: Vec<char> = vec!['?'];
        assert(star@ =~= seq!['*']);
        assert(q@ =~= seq!['?']);
        proof {
            assert(strings_view(tokens@).last() == tokens@[n - 1]@);
        }
        if chars_eq(&last, &star) || chars_eq(&last, &q) {
            let ghost before = tokens@;
            tokens.pop();
            proof {
                assert(strings_view(tokens@) =~= strings_view(before).drop_last());
            }
        }
    }
    (tokens, allowance)
}

/// Parses a whitelist pattern into its command tokens and allowance:
/// `"make"` is `(["make"], Exact)`, `"make ?"` is `(["make"], OneArg)`,
/// `"git log *"` is `(["git", "log"], AnyArgs)`, and `"*"` admits any command.
pub fn parse_whitelist_pattern(pattern: &str) -> (r: (Vec<String>, ArgAllowance))
    ensures
        strings_view(r.0@) == spec_parse_whitelist_pattern(pattern@).0,
        r.1 == spec_parse_whitelist_pattern(pattern@).1,
{
    let trimmed = trim(pattern);
    let words = shlex_split(trimmed.as_str());
    whitelist_pattern_from_words(trimmed.as_str(), words)
}

/// Whether the leading tokens of `command` are `pattern` and the remaining
/// count is what `allowance` admits.
pub fn tokens_match(command: &[String], pattern: &Vec<String>, allowance: &ArgAllowance) -> (r: bool)
    ensures
        r == spec_tokens_match(strings_view(command@), strings_view(pattern@), *allowance),
{
    let ghost c = strings_view(command@);
    let ghost p = strings_view(pattern@);
    if command.len() < pattern.len() {
        return false;
    }
    let mut k: usize = 0;
    while k < pattern.len()
        invariant
            c == strings_view(command@),
            p == strings_view(pattern@),
            pattern@.len() <= command@.len(),
            k <= pattern@.len(),
            forall|j: int| 0 <= j < k ==> c[j] == p[j],
        decreases pattern@.len() - k,
    {
        if !str_eq(command[k].as_str(), pattern[k].as_str()) {
            assert(c.subrange(0, p.len() as int)[k as int] != p[k as int]);
            return false;
        }
        k += 1;
    }
    assert(c.subrange(0, p.len() as int) =~= p);
    let extra = command.len() - pattern.len();
    match allowance {
        ArgAllowance::Exact => extra == 0,
        ArgAllowance::OneArg => extra == 1,
        ArgAllowance::AnyArgs => true,
    }
}

/// Whether the command's tokens match any whitelist pattern.
pub fn command_matches_whitelist(command_tokens: &[String], whitelist: &[String]) -> (r: bool)
    ensures
        r == spec_command_matches_whitelist(strings_view(command_tokens@), strings_view(whitelist@)),
{
    let ghost c = strings_view(command_tokens@);
    let ghost w = strings_view(whitelist@);
    let mut i: usize = 0;
    while i < whitelist.len()
        invariant
            c == strings_view(command_tokens@),
            w == strings_view(whitelist@),
            i <= whitelist@.len(),
            forall|j: int|
                0 <= j < i ==> !#[trigger] spec_tokens_match(
                    c,
                    spec_parse_whitelist_pattern(w[j]).0,
                    spec_parse_whitelist_pattern(w[j]).1,
                ),
        decreases whitelist@.len() - i,
    {
        let (pattern_tokens, allowance) = parse_whitelist_pattern(whitelist[i].as_str());
        if tokens_match(command_tokens, &pattern_tokens, &allowance) {
            assert(spec_tokens_match(
                c,
                spec_parse_whitelist_pattern(w[i as int]).0,
                spec_parse_whitelist_pattern(w[i as int]).1,
            ));
            return true;
        }
        i += 1;
    }
    false
}

/// Whether a line passes an optional substring filter.
pub open spec fn line_kept(filter: Option<Seq<char>>, line: Seq<char>) -> bool {
    match filter {
        Some(f) => spec_contains(line, f),
        None => true,
    }
}

/// The predicate that keeps the lines passing `filter`.
pub open spec fn kept_by(filter: Option<Seq<char>>) -> spec_fn(Seq<char>) -> bool {
    |l: Seq<char>| line_kept(filter, l)
}

/// The lines kept by a `head` or `tail` limit (`head` wins when both are set).
pub open spec fn spec_head_tail(lines: Seq<Seq<char>>, head: Option<usize>, tail: Option<usize>) -> Seq<Seq<char>> {
    match head {
        Some(n) => if n < lines.len() {
            lines.subrange(0, n as int)
        } else {
            lines
        },
        None => match tail {
            Some(n) => if n < lines.len() {
                lines.subrange(lines.len() - n, lines.len() as int)
            } else {
                lines
            },
            None => lines,
        },
    }
}

/// Output after the filters: the lines containing `filter`, cut to the first
/// `head` or else the last `tail` of them, joined with `'\n'`.
pub open spec fn spec_apply_output_filters(
    output: Seq<char>,
    filter: Option<Seq<char>>,
    head: Option<usize>,
    tail: Option<usize>,
) -> Seq<char> {
    spec_join(
        spec_head_tail(spec_lines(output).filter(kept_by(filter)), head, tail),
        seq!['\n'],
    )
}

/// Deep view of an optional string slice.
pub open spec fn opt_str_view(s: Option<&str>) -> Option<Seq<char>> {
    match s {
        Some(x) => Some(x@),
        None => None,
    }
}

/// The lines of `lines` for which `line_kept` holds, in order.
pub fn filter_lines(lines: Vec<Vec<char>>, filter: Option<&str>) -> (r: Vec<Vec<char>>)
    ensures
        char_vecs_view(r@) == char_vecs_view(lines@).filter(kept_by(opt_str_view(filter))),
{
    let fv: Option<Vec<char>> = match filter {
        Some(f) => Some(to_chars(f)),
        None => None,
    };
    let ghost fs = opt_str_view(filter);
    let ghost pred = kept_by(fs);
    let ghost all = char_vecs_view(lines@);
    let mut out: Vec<Vec<char>> = Vec::new();
    let mut i: usize = 0;
    while i < lines.len()
        invariant
            i <= lines@.len(),
            all == char_vecs_view(lines@),
            pred == kept_by(fs),
            fs == opt_str_view(filter),
            match fv {
                Some(v) => fs == Some(v@),
                None => fs is None,
            },
            char_vecs_view(out@) == all.subrange(0, i as int).filter(pred),
        decreases lines@.len() - i,
    {
        reveal_with_fuel(Seq::<_>::filter, 1);
        let keep = match &fv {
            Some(f) => chars_contains(&lines[i], f),
            None => true,
        };
        assert(all.subrange(0, i + 1).drop_last() =~= all.subrange(0, i as int));
        assert(all.subrange(0, i + 1).last() == lines@[i as int]@);
        if keep {
            out.push(lines[i].clone());
            assert(char_vecs_view(out@) =~= char_vecs_view(out@.drop_last()).push(lines@[i as int]@));
        }
        i += 1;
    }
    assert(all.subrange(0, lines@.len() as int) =~= all);
    out
}

/// Applies the stdout filters: keeps the lines that contain `filter`, then the
/// first `head` lines, or else the last `tail` lines, and joins them with
/// `'\n'`.
pub fn apply_output_filters(
    output: &str,
    filter: Option<&str>,
    head: Option<usize>,
    tail: Option<usize>,
) -> (r: String)
    ensures
        r@ == spec_apply_output_filters(output@, opt_str_view(filter), head, tail),
{
    let chars = to_chars(output);
    let all = lines(&chars);
    let mut kept = filter_lines(all, filter);
    let ghost k0 = char_vecs_view(kept@);
    match head {
        Some(n) => {
            if n < kept.len() {
                kept.truncate(n);
                assert(char_vecs_view(kept@) =~= k0.subrange(0, n as int));
            }
        },
        None => match tail {
            Some(n) => {
                if n < kept.len() {
                    let start = kept.len() - n;
                    let rest = kept.split_off(start);
                    kept = rest;
                    assert(char_vecs_view(kept@) =~= k0.subrange(k0.len() - n, k0.len() as int));
                }
            },
            None => {},
        },
    }
    let nl: Vec<char> = vec!['\n'];
    assert(nl@ =~= seq!['\n']);
    let joined = join(&kept, &nl);
    string_from_chars(&joined)
}

/// Cuts output to `OUTPUT_CAP` bytes; reports whether it was cut.
pub fn truncate_output(output: &str) -> (r: (String, bool))
    requires
        output.spec_bytes().len() > OUTPUT_CAP ==> is_char_boundary(output.spec_bytes(), OUTPUT_CAP as int),
    ensures
        r.1 == (output.spec_bytes().len() > OUTPUT_CAP),
        !r.1 ==> r.0@ == output@,
        r.1 ==> encode_utf8(r.0@) == output.spec_bytes().subrange(0, OUTPUT_CAP as int),
{
    if output.as_bytes().len() <= OUTPUT_CAP {
        return (output.to_owned(), false);
    }
    let (head, _rest) = output.split_at(OUTPUT_CAP);
    (head.to_owned(), true)
}

/// Law: a whitelist that holds the pattern `*` admits every command (given
/// that splitting the text `*` yields the single word `*`).
pub proof fn lemma_wildcard_admits_every_command(
    command: Seq<Seq<char>>,
    whitelist: Seq<Seq<char>>,
    i: int,
)
    requires
        0 <= i < whitelist.len(),
        whitelist[i] == seq!['*'],
        shlex_split_result(seq!['*']) == Some(seq![seq!['*']]),
    ensures
        spec_command_matches_whitelist(command, whitelist),
{
    let star = seq!['*'];
    assert(!crate::text::is_white_space('*'));
    assert(crate::text::spec_trim_start(star) == star);
    assert(crate::text::spec_trim_end(star) == star);
    assert(spec_trim(star) == star);
    let parsed = spec_parse_whitelist_pattern(whitelist[i]);
    assert(seq![star].drop_last() =~= Seq::<Seq<char>>::empty());
    assert(parsed.0 == Seq::<Seq<char>>::empty());
    assert(command.subrange(0, 0) =~= Seq::<Seq<char>>::empty());
    assert(spec_tokens_match(command, parsed.0, parsed.1));
}

/// Why `run_command` refuses a call before running anything, or why the
/// command was not allowed.
#[derive(Debug)]
pub enum RunCommandError {
    /// The arguments are malformed.
    InvalidArgs(String),
    /// The command may not run.
    PermissionDenied(String),
    /// A safety check could not be completed.
    Other(String),
}

/// The validated form of a `run_command` call.
#[derive(Debug)]
pub struct RunCommandPlan {
    /// The executable, `argv[0]`.
    pub program: String,
    /// Its arguments, `argv[1..]`.
    pub args: Vec<String>,
    /// Seconds before the command is abandoned (30 when not given).
    pub timeout_secs: u64,
    /// `argv` joined with spaces, as shown to the safety check.
    pub full_command: String,
    /// Whether the command matched no whitelist pattern, so that the safety
    /// check must allow it before it runs.
    pub needs_safety_check: bool,
}

/// Number of the mutually exclusive output filters that are set.
pub open spec fn filters_set(args: RunCommandArgs) -> int {
    (if args.filter is Some { 1int } else { 0int }) + (if args.head is Some { 1int } else { 0int }) + (
    if args.tail is Some {
        1int
    } else {
        0int
    })
}

/// Whether `argv` has a non-blank executable.
pub open spec fn has_executable(argv: Seq<String>) -> bool {
    argv.len() > 0 && spec_trim(argv[0]@).len() > 0
}

/// Joins strings with a separator.
pub fn join_strings(parts: &[String], sep: &str) -> (r: String)
    ensures
        r@ == spec_join(strings_view(parts@), sep@),
{
    let mut vs: Vec<Vec<char>> = Vec::new();
    let mut i: usize = 0;
    while i < parts.len()
        invariant
            i <= parts@.len(),
            char_vecs_view(vs@) == strings_view(parts@.subrange(0, i as int)),
        decreases parts@.len() - i,
    {
        let c = to_chars(parts[i].as_str());
        proof {
            lemma_char_vecs_view_push(vs@, c);
            assert(parts@.subrange(0, i + 1) =~= parts@.subrange(0, i as int).push(parts@[i as int]));
            lemma_strings_view_push(parts@.subrange(0, i as int), parts@[i as int]);
        }
        vs.push(c);
        i += 1;
    }
    assert(parts@.subrange(0, parts@.len() as int) =~= parts@);
    let sv = to_chars(sep);
    let joined = join(&vs, &sv);
    string_from_chars(&joined)
}

/// Validates a `run_command` call and decides whether it needs the safety
/// check: at most one of `filter`, `head`, `tail` may be set, and `argv` must
/// name an executable; the command needs the check unless it matches the
/// whitelist.
pub fn plan_run_command(args: &RunCommandArgs, whitelist: &[String]) -> (r: Result<
    RunCommandPlan,
    RunCommandError,
>)
    ensures
        filters_set(*args) > 1 ==> (r matches Err(RunCommandError::InvalidArgs(m)) && m@
            == "filter, head, and tail are mutually exclusive. Use only one."@),
        filters_set(*args) <= 1 && !has_executable(args.argv@) ==> (r matches Err(
            RunCommandError::InvalidArgs(m),
        ) && m@ == "Empty argv"@),
        filters_set(*args) <= 1 && has_executable(args.argv@) ==> (r matches Ok(plan) && {
            &&& plan.program@ == args.argv@[0]@
            &&& strings_view(plan.args@) == strings_view(args.argv@).drop_first()
            &&& plan.timeout_secs == match args.timeout {
                Some(t) => t,
                None => 30,
            }
            &&& plan.full_command@ == spec_join(strings_view(args.argv@), seq![' '])
            &&& plan.needs_safety_check == !spec_command_matches_whitelist(
                strings_view(args.argv@),
                strings_view(whitelist@),
            )
        }),
{
    let count: usize = (if args.filter.is_some() { 1usize } else { 0usize }) + (if args.head.is_some() {
        1usize
    } else {
        0usize
    }) + (if args.tail.is_some() { 1usize } else { 0usize });
    if count > 1 {
        return Err(
            RunCommandError::InvalidArgs(
                "filter, head, and tail are mutually exclusive. Use only one.".to_string(),
            ),
        );
    }
    if args.argv.len() == 0 {
        return Err(RunCommandError::InvalidArgs("Empty argv".to_string()));
    }
    let first = trim(args.argv[0].as_str());
    if first.as_str().unicode_len() == 0 {
        return Err(RunCommandError::InvalidArgs("Empty argv".to_string()));
    }
    let full_command = join_strings(args.argv.as_slice(), " ");
    proof {
        reveal_strlit(" ");
        assert(" "@ =~= seq![' ']);
    }
    let needs_safety_check = !command_matches_whitelist(args.argv.as_slice(), whitelist);
    let mut rest: Vec<String> = Vec::new();
    let mut i: usize = 1;
    while i < args.argv.len()
        invariant
            1 <= i <= args.argv@.len(),
            strings_view(rest@) == strings_view(args.argv@.subrange(1, i as int)),
        decreases args.argv@.len() - i,
    {
        let x = args.argv[i].clone();
        proof {
            lemma_strings_view_push(rest@, x);
            assert(args.argv@.subrange(1, i + 1) =~= args.argv@.subrange(1, i as int).push(x));
            lemma_strings_view_push(args.argv@.subrange(1, i as int), x);
        }
        rest.push(x);
        i += 1;
    }
    proof {
        lemma_strings_view_subrange(args.argv@, 1, args.argv@.len() as int);
    }
    assert(strings_view(args.argv@).subrange(1, args.argv@.len() as int) =~= strings_view(
        args.argv@,
    ).drop_first());
    let timeout_secs = match args.timeout {
        Some(t) => t,
        None => 30,
    };
    Ok(
        RunCommandPlan {
            program: args.argv[0].clone(),
            args: rest,
            timeout_secs,
            full_command,
            needs_safety_check,
        },
    )
}

/// What one model's safety check came back with: `Ok((allowed, reason))`, or
/// the error that ended its attempts.
pub type SafetyOutcome = Result<(bool, Option<String>), String>;

/// The verdict on a command that needs the safety check, from the models'
/// outcomes in the order they arrived: refused when no model is configured;
/// otherwise the first outcome that is a denial or an error decides, and the
/// command is allowed when every model allowed it.
pub fn safety_verdict(outcomes: &Vec<SafetyOutcome>) -> (r: Result<(), RunCommandError>)
    ensures
        outcomes@.len() == 0 ==> (r matches Err(RunCommandError::PermissionDenied(m)) && m@
            == "Command not in whitelist and no check_models configured for LLM safety check"@),
        outcomes@.len() > 0 && (forall|i: int| 0 <= i < outcomes@.len() ==> #[trigger] outcomes@[i]
            matches Ok((true, _))) ==> r is Ok,
        outcomes@.len() > 0 && (exists|i: int| 0 <= i < outcomes@.len() && !(#[trigger] outcomes@[i]
            matches Ok((true, _)))) ==> {
            let k = choose|k: int|
                0 <= k < outcomes@.len() && !(#[trigger] outcomes@[k] matches Ok((true, _))) && forall|
                    j: int,
                | 0 <= j < k ==> #[trigger] outcomes@[j] matches Ok((true, _));
            match outcomes@[k] {
                Ok((_, reason)) => (r matches Err(RunCommandError::PermissionDenied(m)) && m@ == "Command denied by safety check: "@
                    + match reason {
                    Some(x) => x@,
                    None => "Unknown reason"@,
                }),
                Err(e) => (r matches Err(RunCommandError::Other(m)) && m@ == e@),
            }
        },
{
    if outcomes.len() == 0 {
        return Err(
            RunCommandError::PermissionDenied(
                "Command not in whitelist and no check_models configured for LLM safety check".to_string(),
            ),
        );
    }
    let mut i: usize = 0;
    while i < outcomes.len()
        invariant
            i <= outcomes@.len(),
            forall|j: int| 0 <= j < i ==> #[trigger] outcomes@[j] matches Ok((true, _)),
        decreases outcomes@.len() - i,
    {
        match &outcomes[i] {
            Ok((allowed, reason)) => {
                if !*allowed {
                    let ghost k = choose|k: int|
                        0 <= k < outcomes@.len() && !(#[trigger] outcomes@[k] matches Ok((true, _)))
                            && forall|j: int| 0 <= j < k ==> #[trigger] outcomes@[j] matches Ok((true, _));
                    proof {
                        assert(k == i) by {
                            if k < i {
                            } else if k > i {
                                assert(outcomes@[i as int] matches Ok((true, _)));
                            }
                        }
                    }
                    let why = match reason {
                        Some(x) => x.clone(),
                        None => "Unknown reason".to_string(),
                    };
                    let msg = "Command denied by safety check: ".to_string().concat(why.as_str());
                    return Err(RunCommandError::PermissionDenied(msg));
                }
            },
            Err(e) => {
                let ghost k = choose|k: int|
                    0 <= k < outcomes@.len() && !(#[trigger] outcomes@[k] matches Ok((true, _)))
                        && forall|j: int| 0 <= j < k ==> #[trigger] outcomes@[j] matches Ok((true, _));
                proof {
                    assert(k == i) by {
                        if k < i {
                        } else if k > i {
                            assert(outcomes@[i as int] matches Ok((true, _)));
                        }
                    }
                }
                return Err(RunCommandError::Other(e.clone()));
            },
        }
        i += 1;
    }
    Ok(())
}

} // verus!
