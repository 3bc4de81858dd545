//! The `run` tool: a command line without shell features, checked against
//! the whitelist, with its stdout filtered by line.
use std::collections::HashMap;

use vstd::prelude::*;
use vstd::string::*;

use crate::error::{Error, ErrorKind};
use crate::text::{
    chars_ends_with,
    char_vecs_view,
    is_white_space,
    is_whitespace,
    join,
    lemma_trim_start_skip,
    lines,
    spec_contains,
    spec_ends_with,
    spec_join,
    spec_lines,
    spec_trim,
    spec_trim_start,
    str_contains,
    str_eq,
    string_from_chars,
    strings_view,
    to_chars,
    trim,
};
use crate::tools::run_command::{
    filter_lines,
    kept_by,
    opt_str_view,
    shlex_split,
    shlex_split_result,
    spec_pattern_tokens,
    spec_tokens_match,
    tokens_match,
    whitelist_pattern_from_words,
    words_or_empty,
    ArgAllowance,
};

verus! {

broadcast use vstd::string::group_string_axioms;

/// The size, in bytes, beyond which the combined output is reported as
/// truncated.
pub const RUN_OUTPUT_CAP: usize = 65536;

/// Arguments of the `run` tool.
#[derive(Debug)]
pub struct RunArgs {
    pub command: String,
    pub cwd: Option<String>,
    pub timeout: Option<u64>,
    pub filter: Option<String>,
    pub direction: Option<String>,
    pub limit: Option<usize>,
    pub env: Option<HashMap<String, String>>,
}

/// The `run` tool.
#[derive(Debug)]
pub struct Run;

/// A validated `run` call.
#[derive(Debug)]
pub struct RunPlan {
    /// The program, the first word.
    pub program: String,
    /// Its arguments, the other words.
    pub args: Vec<String>,
    /// Seconds before the command is abandoned (30 when not given).
    pub timeout_secs: u64,
    /// Whether no whitelist pattern admits the command, so that the safety
    /// check must allow it first.
    pub needs_safety_check: bool,
}

/// The shell metacharacters that the tool refuses, in the order they are
/// looked for.
pub open spec fn metacharacters() -> Seq<Seq<char>> {
    seq!["|"@, "&&"@, ";"@, ">"@, "<"@, "$("@]
}

/// The first metacharacter from index `from` of the list that occurs in `s`.
pub open spec fn first_metacharacter(s: Seq<char>, from: int) -> Option<Seq<char>>
    decreases metacharacters().len() - from,
{
    if from < 0 || from >= metacharacters().len() {
        None
    } else if spec_contains(s, metacharacters()[from]) {
        Some(metacharacters()[from])
    } else {
        first_metacharacter(s, from + 1)
    }
}

/// The first metacharacter of the list that occurs in `command`, if any.
pub fn find_shell_metacharacter(command: &str) -> (r: Option<&'static str>)
    ensures
        match first_metacharacter(command@, 0) {
            Some(m) => r matches Some(x) && x@ == m,
            None => r is None,
        },
{
    proof {
        reveal_strlit("|");
        reveal_strlit("&&");
        reveal_strlit(";");
        reveal_strlit(">");
        reveal_strlit("<");
        reveal_strlit("$(");
        reveal_with_fuel(first_metacharacter, 7);
    }
    if str_contains(command, "|") {
        return Some("|");
    }
    if str_contains(command, "&&") {
        return Some("&&");
    }
    if str_contains(command, ";") {
        return Some(";");
    }
    if str_contains(command, ">") {
        return Some(">");
    }
    if str_contains(command, "<") {
        return Some("<");
    }
    if str_contains(command, "$(") {
        return Some("$(");
    }
    None
}

/// The first white-space-separated word of `s` holds an `'='`: after the
/// leading white space, some `'='` comes before any white space.
pub open spec fn spec_has_env_var_prefix(s: Seq<char>) -> bool {
    let t = spec_trim_start(s);
    exists|k: int|
        0 <= k < t.len() && t[k] == '=' && forall|m: int| 0 <= m <= k ==> !is_white_space(#[trigger] t[m])
}

/// Whether the command starts with a `VAR=value` word.
pub fn has_env_var_prefix(command: &str) -> (r: bool)
    ensures
        r == spec_has_env_var_prefix(command@),
{
    let v = to_chars(command);
    let n = v.len();
    let mut i: usize = 0;
    while i < n && is_whitespace(v[i])
        invariant
            n == v@.len(),
            i <= n,
            forall|k: int| 0 <= k < i ==> is_white_space(v@[k]),
        decreases n - i,
    {
        i += 1;
    }
    proof {
        lemma_trim_start_skip(v@, i as int);
        let rest = v@.subrange(i as int, n as int);
        if rest.len() > 0 {
            assert(rest[0] == v@[i as int]);
        }
        assert(spec_trim_start(rest) == rest);
    }
    let ghost t = v@.subrange(i as int, n as int);
    let mut j = i;
    while j < n && !is_whitespace(v[j])
        invariant
            n == v@.len(),
            v@ == command@,
            i <= j <= n,
            t == v@.subrange(i as int, n as int),
            spec_trim_start(v@) == t,
            forall|m: int| 0 <= m < j - i ==> !is_white_space(#[trigger] t[m]) && t[m] != '=',
        decreases n - j,
    {
        if v[j] == '=' {
            proof {
                let k = j - i;
                assert(t[k] == v@[j as int]);
                assert(!is_white_space(t[k]));
                assert(forall|m: int| 0 <= m <= k ==> !is_white_space(#[trigger] t[m]));
                assert(spec_has_env_var_prefix(v@));
            }
            return true;
        }
        j += 1;
    }
    proof {
        if spec_has_env_var_prefix(v@) {
            let k = choose|k: int|
                0 <= k < t.len() && t[k] == '=' && forall|m: int|
                    0 <= m <= k ==> !is_white_space(#[trigger] t[m]);
            if k < j - i {
            } else if j < n {
                assert(is_white_space(t[j - i]));
                assert(!is_white_space(t[j - i]));
            }
        }
    }
    false
}

/// The allowance of a trimmed `run` whitelist pattern: a trailing `" *"` for
/// any arguments, a trailing `" ?"` for one, otherwise none (a lone `"*"`
/// admits nothing beyond an empty command here).
pub open spec fn spec_run_allowance(trimmed: Seq<char>) -> ArgAllowance {
    if spec_ends_with(trimmed, seq![' ', '*']) {
        ArgAllowance::AnyArgs
    } else if spec_ends_with(trimmed, seq![' ', '?']) {
        ArgAllowance::OneArg
    } else {
        ArgAllowance::Exact
    }
}

/// A `run` whitelist pattern, parsed: its command tokens and its allowance.
pub open spec fn spec_parse_run_pattern(pattern: Seq<char>) -> (Seq<Seq<char>>, ArgAllowance) {
    let trimmed = spec_trim(pattern);
    (spec_pattern_tokens(words_or_empty(shlex_split_result(trimmed))), spec_run_allowance(trimmed))
}

/// A command matches the `run` whitelist when some pattern of it matches.
pub open spec fn spec_run_whitelisted(command: Seq<Seq<char>>, whitelist: Seq<Seq<char>>) -> bool {
    exists|i: int|
        0 <= i < whitelist.len() && #[trigger] spec_tokens_match(
            command,
            spec_parse_run_pattern(whitelist[i]).0,
            spec_parse_run_pattern(whitelist[i]).1,
        )
}

/// Parses a `run` whitelist pattern: `"make"` admits exactly `make`,
/// `"make ?"` one more argument, `"git log *"` any more.
pub fn parse_whitelist_pattern(pattern: &str) -> (r: (Vec<String>, ArgAllowance))
    ensures
        strings_view(r.0@) == spec_parse_run_pattern(pattern@).0,
        r.1 == spec_parse_run_pattern(pattern@).1,
{
    let trimmed = trim(pattern);
    let words = shlex_split(trimmed.as_str());
    let (tokens, _any) = whitelist_pattern_from_words(trimmed.as_str(), words);
    let tv = to_chars(trimmed.as_str());
    let space_star: Vec<char> = vec![' ', '*'];
    let space_q: Vec<char> = vec![' ', '?'];
    assert(space_star@ =~= seq![' ', '*']);
    assert(space_q@ =~= seq![' ', '?']);
    let allowance = if chars_ends_with(&tv, &space_star) {
        ArgAllowance::AnyArgs
    } else if chars_ends_with(&tv, &space_q) {
        ArgAllowance::OneArg
    } else {
        ArgAllowance::Exact
    };
    (tokens, allowance)
}

/// Whether some `run` whitelist pattern admits the command's words.
pub fn command_matches_whitelist(command_tokens: &[String], whitelist: &[String]) -> (r: bool)
    ensures
        r == spec_run_whitelisted(strings_view(command_tokens@), strings_view(whitelist@)),
{
    let ghost c = strings_view(command_tokens@);
    let ghost w = strings_view(whitelist@);
    let mut i: usize = 0;
    while i < whitelist.len()
        invariant
            c == strings_view(command_tokens@),
            w == strings_view(whitelist@),
            i <= whitelist@.len(),
            forall|j: int|
                0 <= j < i ==> !#[trigger] spec_tokens_match(
                    c,
                    spec_parse_run_pattern(w[j]).0,
                    spec_parse_run_pattern(w[j]).1,
                ),
        decreases whitelist@.len() - i,
    {
        let (pattern_tokens, allowance) = parse_whitelist_pattern(whitelist[i].as_str());
        if tokens_match(command_tokens, &pattern_tokens, &allowance) {
            assert(spec_tokens_match(
                c,
                spec_parse_run_pattern(w[i as int]).0,
                spec_parse_run_pattern(w[i as int]).1,
            ));
            return true;
        }
        i += 1;
    }
    false
}

/// The lines kept by a limit: the last `limit` of them unless `direction`
/// is `"head"` (then the first); all when there is no limit.
pub open spec fn spec_limit_lines(
    lines: Seq<Seq<char>>,
    direction: Option<Seq<char>>,
    limit: Option<usize>,
) -> Seq<Seq<char>> {
    match limit {
        None => lines,
        Some(n) => if n >= lines.len() {
            lines
        } else if direction matches Some(d) && d != "head"@ {
            lines.subrange(lines.len() - n, lines.len() as int)
        } else {
            lines.subrange(0, n as int)
        },
    }
}

/// The stdout that `run` reports: the lines containing `filter`, cut by
/// `direction` and `limit`, joined with `'\n'`.
pub open spec fn spec_run_filters(
    stdout: Seq<char>,
    filter: Option<Seq<char>>,
    direction: Option<Seq<char>>,
    limit: Option<usize>,
) -> Seq<char> {
    spec_join(
        spec_limit_lines(spec_lines(stdout).filter(kept_by(filter)), direction, limit),
        seq!['\n'],
    )
}

/// Filters stdout by line as `spec_run_filters` states.
pub fn apply_output_filters(
    stdout: &str,
    filter: Option<&str>,
    direction: Option<&str>,
    limit: Option<usize>,
) -> (r: String)
    ensures
        r@ == spec_run_filters(stdout@, opt_str_view(filter), opt_str_view(direction), limit),
{
    let chars = to_chars(stdout);
    let all = lines(&chars);
    let mut kept = filter_lines(all, filter);
    let ghost k0 = char_vecs_view(kept@);
    match limit {
        None => {},
        Some(n) => {
            if n < kept.len() {
                let from_end = match direction {
                    Some(d) => {
                        proof {
                            reveal_strlit("head");
                        }
                        !str_eq(d, "head")
                    },
                    None => false,
                };
                if from_end {
                    let start = kept.len() - n;
                    let rest = kept.split_off(start);
                    kept = rest;
                    assert(char_vecs_view(kept@) =~= k0.subrange(k0.len() - n, k0.len() as int));
                } else {
                    kept.truncate(n);
                    assert(char_vecs_view(kept@) =~= k0.subrange(0, n as int));
                }
            }
        },
    }
    let nl: Vec<char> = vec!['\n'];
    assert(nl@ =~= seq!['\n']);
    let joined = join(&kept, &nl);
    string_from_chars(&joined)
}

/// Whether the filtered stdout and the stderr together exceed the cap, in
/// bytes.
pub fn output_truncated(stdout: &str, stderr: &str) -> (r: bool)
    ensures
        r == (stdout.spec_bytes().len() + stderr.spec_bytes().len() > RUN_OUTPUT_CAP),
{
    let a = stdout.as_bytes().len();
    let b = stderr.as_bytes().len();
    a > RUN_OUTPUT_CAP || b > RUN_OUTPUT_CAP - a
}

/// The message for a refused metacharacter.
pub open spec fn metacharacter_message(m: Seq<char>) -> Seq<char> {
    "Shell metacharacter '"@ + m
        + "' not allowed. No shell features (pipes, &&, redirects, $()). Use filter/limit/direction."@
}

impl Run {
    /// Validates a `run` call before anything runs: no shell metacharacter,
    /// no `VAR=value` prefix, words that split, at least one word; the plan
    /// runs the first word with the others, and needs the safety check
    /// unless the whitelist admits the words. Every refusal is an
    /// `InvalidInput` error.
    pub fn plan(args: &RunArgs, whitelist: &[String]) -> (r: Result<RunPlan, Error>)
        ensures
            match first_metacharacter(args.command@, 0) {
                Some(m) => r matches Err(e) && e.kind == ErrorKind::InvalidInput && e.message@
                    == metacharacter_message(m),
                None => if spec_has_env_var_prefix(args.command@) {
                    r matches Err(e) && e.kind == ErrorKind::InvalidInput && e.message@
                        == "Env var prefix not allowed. No shell features (VAR=value cmd). Use env field."@
                } else {
                    match shlex_split_result(args.command@) {
                        None => r matches Err(e) && e.kind == ErrorKind::InvalidInput && e.message@
                            == "Failed to parse command: '"@ + args.command@ + "'"@,
                        Some(words) => if words.len() == 0 {
                            r matches Err(e) && e.kind == ErrorKind::InvalidInput && e.message@
                                == "Empty command"@
                        } else {
                            r matches Ok(p) && p.program@ == words[0] && strings_view(p.args@)
                                == words.drop_first() && p.timeout_secs == match args.timeout {
                                Some(t) => t,
                                None => 30,
                            } && p.needs_safety_check == !spec_run_whitelisted(
                                words,
                                strings_view(whitelist@),
                            )
                        },
                    }
                }
            },
    {
        if let Some(mc) = find_shell_metacharacter(args.command.as_str()) {
            let mut m = "Shell metacharacter '".to_string();
            m.append(mc);
            m.append(
                "' not allowed. No shell features (pipes, &&, redirects, $()). Use filter/limit/direction.",
            );
            return Err(Error { kind: ErrorKind::InvalidInput, message: m });
        }
        if has_env_var_prefix(args.command.as_str()) {
            return Err(
                Error {
                    kind: ErrorKind::InvalidInput,
                    message: "Env var prefix not allowed. No shell features (VAR=value cmd). Use env field.".to_string(),
                },
            );
        }
        let words = match shlex_split(args.command.as_str()) {
            Some(w) => w,
            None => {
                let mut m = "Failed to parse command: '".to_string();
                m.append(args.command.as_str());
                m.append("'");
                return Err(Error { kind: ErrorKind::InvalidInput, message: m });
            },
        };
        if words.len() == 0 {
            return Err(Error { kind: ErrorKind::InvalidInput, message: "Empty command".to_string() });
        }
        let needs_safety_check = !command_matches_whitelist(words.as_slice(), whitelist);
        let mut rest: Vec<String> = Vec::new();
        let mut i: usize = 1;
        while i < words.len()
            invariant
                1 <= i <= words@.len(),
                strings_view(rest@) == strings_view(words@).subrange(1, i as int),
            decreases words@.len() - i,
        {
            let ghost before = strings_view(rest@);
            let x = words[i].clone();
            rest.push(x);
            proof {
                assert(strings_view(rest@) =~= before.push(words@[i as int]@));
                assert(strings_view(words@).subrange(1, i + 1) =~= strings_view(words@).subrange(
                    1,
                    i as int,
                ).push(words@[i as int]@));
            }
            i += 1;
        }
        assert(strings_view(words@).subrange(1, words@.len() as int) =~= strings_view(
            words@,
        ).drop_first());
        let timeout_secs = match args.timeout {
            Some(t) => t,
            None => 30,
        };
        Ok(RunPlan { program: words[0].clone(), args: rest, timeout_secs, needs_safety_check })
    }
}

} // verus!
