//! The agent's tools, how they are classified, and how a list of tool
//! selectors picks tools by name.
use vstd::prelude::*;

use crate::directive::{find_entry, first_index_of};
use crate::paths::spec_trim_slashes;
use crate::text::{
    lines, spec_contains, spec_join, spec_lines, spec_starts_with, str_contains, str_eq,
    str_starts_with, string_from_chars, strings_view, to_chars,
};
use crate::tools::run_command::join_strings;

pub mod analyze_image;
pub mod edit_file;
pub mod fetch_webpage;
pub mod files;
pub mod record_thought;
pub mod run;
pub mod run_command;
pub mod search_dependency_code;
pub mod search_text;
pub mod session;
pub mod web_search;

verus! {

broadcast use vstd::string::group_string_axioms;

/// How a tool behaves when it is run again.
#[derive(Clone, Copy, Debug, PartialEq, Eq, Structural)]
pub enum ToolClassification {
    /// Read-only, reproducible results.
    Idempotent,
    /// Read-only, results may differ between runs.
    NonMutating,
    /// Changes state when run.
    Mutating,
    /// Tenon's workflow management tools.
    System,
    /// Any other tool (for instance an MCP tool).
    Unknown,
}

/// The fixed classification of the built-in tools; every other name is
/// `Unknown`.
pub open spec fn spec_tool_classification(name: Seq<char>) -> ToolClassification {
    if name == "read_file"@ || name == "list_files"@ || name == "search_text"@ || name
        == "search_dependency_code"@ {
        ToolClassification::Idempotent
    } else if name == "web_search"@ || name == "fetch_webpage"@ || name == "record_thought"@
        || name == "analyze_image"@ || name == "ask_question"@ {
        ToolClassification::NonMutating
    } else if name == "edit_file"@ || name == "move_path"@ || name == "remove_path"@ || name
        == "run_command"@ {
        ToolClassification::Mutating
    } else if name == "start_workflow"@ || name == "navigate_workflow"@ || name
        == "end_workflow"@ {
        ToolClassification::System
    } else {
        ToolClassification::Unknown
    }
}

/// Returns the classification of a tool by its name.
pub fn get_tool_classification(name: &str) -> (r: ToolClassification)
    ensures
        r == spec_tool_classification(name@),
{
    if str_eq(name, "read_file") || str_eq(name, "list_files") || str_eq(name, "search_text")
        || str_eq(name, "search_dependency_code") {
        ToolClassification::Idempotent
    } else if str_eq(name, "web_search") || str_eq(name, "fetch_webpage") || str_eq(
        name,
        "record_thought",
    ) || str_eq(name, "analyze_image") || str_eq(name, "ask_question") {
        ToolClassification::NonMutating
    } else if str_eq(name, "edit_file") || str_eq(name, "move_path") || str_eq(name, "remove_path")
        || str_eq(name, "run_command") {
        ToolClassification::Mutating
    } else if str_eq(name, "start_workflow") || str_eq(name, "navigate_workflow") || str_eq(
        name,
        "end_workflow",
    ) {
        ToolClassification::System
    } else {
        ToolClassification::Unknown
    }
}

/// The separator between an MCP server's name and its tool's name.
pub open spec fn mcp_separator() -> Seq<char> {
    seq!['_', '_', '_', '_']
}

/// Whether tool `name` is chosen by one selector: a selector that holds the
/// separator `____` chooses only the tool of that exact name; any other
/// selector chooses the tool of its name and every tool named
/// `<selector>____...` (all tools of that MCP server).
pub open spec fn selector_matches(name: Seq<char>, selector: Seq<char>) -> bool {
    if spec_contains(selector, mcp_separator()) {
        selector == name
    } else {
        selector == name || spec_starts_with(name, selector + mcp_separator())
    }
}

/// Whether some selector chooses tool `name`.
pub open spec fn spec_tool_matches_selectors(name: Seq<char>, selectors: Seq<Seq<char>>) -> bool {
    exists|i: int| 0 <= i < selectors.len() && #[trigger] selector_matches(name, selectors[i])
}

/// Deep view of a slice of string slices.
pub open spec fn strs_view(v: Seq<&str>) -> Seq<Seq<char>> {
    v.map_values(|x: &str| x@)
}

/// Whether tool `name` is chosen by `selector` (see `selector_matches`).
pub fn matches_selector(name: &str, selector: &str) -> (r: bool)
    ensures
        r == selector_matches(name@, selector@),
{
    proof {
        reveal_strlit("____");
        assert("____"@ =~= mcp_separator());
    }
    if str_contains(selector, "____") {
        str_eq(selector, name)
    } else {
        if str_eq(selector, name) {
            true
        } else {
            let mut prefix = selector.to_string();
            prefix.append("____");
            str_starts_with(name, prefix.as_str())
        }
    }
}

/// Checks whether tool `name` is chosen by any of `selectors`: a selector
/// holding `____` must equal the name; any other selector chooses the tool of
/// its name and the tools of the MCP server of that name.
pub fn tool_matches_selectors(name: &str, selectors: &[&str]) -> (r: bool)
    ensures
        r == spec_tool_matches_selectors(name@, strs_view(selectors@)),
{
    let ghost sv = strs_view(selectors@);
    let mut i: usize = 0;
    while i < selectors.len()
        invariant
            sv == strs_view(selectors@),
            i <= selectors@.len(),
            forall|j: int| 0 <= j < i ==> !#[trigger] selector_matches(name@, sv[j]),
        decreases selectors@.len() - i,
    {
        if matches_selector(name, selectors[i]) {
            assert(selector_matches(name@, sv[i as int]));
            return true;
        }
        i += 1;
    }
    false
}

/// The built-in selectable tools, in their listed order.
pub open spec fn builtin_tool_names() -> Seq<Seq<char>> {
    seq![
        "edit_file"@,
        "fetch_webpage"@,
        "list_files"@,
        "move_path"@,
        "read_file"@,
        "remove_path"@,
        "run_command"@,
        "search_dependency_code"@,
        "search_text"@,
        "analyze_image"@,
    ]
}

/// Returns the names of all selectable tools: the built-in ones, then
/// `web_search` when a search provider is configured, then the MCP tools.
pub fn all_tool_names(web_search_enabled: bool, mcp_tool_names: Vec<String>) -> (r: Vec<String>)
    ensures
        strings_view(r@) == builtin_tool_names() + (if web_search_enabled {
            seq!["web_search"@]
        } else {
            seq![]
        }) + strings_view(mcp_tool_names@),
{
    let mut names: Vec<String> = Vec::new();
    names.push("edit_file".to_string());
    names.push("fetch_webpage".to_string());
    names.push("list_files".to_string());
    names.push("move_path".to_string());
    names.push("read_file".to_string());
    names.push("remove_path".to_string());
    names.push("run_command".to_string());
    names.push("search_dependency_code".to_string());
    names.push("search_text".to_string());
    names.push("analyze_image".to_string());
    if web_search_enabled {
        names.push("web_search".to_string());
    }
    let ghost before = strings_view(names@);
    assert(before =~= builtin_tool_names() + (if web_search_enabled {
        seq!["web_search"@]
    } else {
        seq![]
    }));
    let mut i: usize = 0;
    while i < mcp_tool_names.len()
        invariant
            i <= mcp_tool_names@.len(),
            strings_view(names@) == before + strings_view(mcp_tool_names@.subrange(0, i as int)),
        decreases mcp_tool_names@.len() - i,
    {
        let x = mcp_tool_names[i].clone();
        assert(strings_view(names@.push(x)) =~= strings_view(names@).push(x@));
        assert(strings_view(mcp_tool_names@.subrange(0, i + 1)) =~= strings_view(
            mcp_tool_names@.subrange(0, i as int),
        ).push(x@));
        names.push(x);
        i += 1;
    }
    assert(mcp_tool_names@.subrange(0, mcp_tool_names@.len() as int) =~= mcp_tool_names@);
    names
}

/// Resolves tool selectors into the concrete names they choose, in the order
/// of `all_names` (the names that `all_tool_names` lists).
pub fn resolve_tool_names(names: &[&str], all_names: &[String]) -> (r: Vec<String>)
    ensures
        strings_view(r@) == strings_view(all_names@).filter(
            |n: Seq<char>| spec_tool_matches_selectors(n, strs_view(names@)),
        ),
{
    let ghost sels = strs_view(names@);
    let ghost pred = |n: Seq<char>| spec_tool_matches_selectors(n, sels);
    let ghost all = strings_view(all_names@);
    let mut out: Vec<String> = Vec::new();
    let mut i: usize = 0;
    while i < all_names.len()
        invariant
            i <= all_names@.len(),
            sels == strs_view(names@),
            pred == (|n: Seq<char>| spec_tool_matches_selectors(n, sels)),
            all == strings_view(all_names@),
            strings_view(out@) == all.subrange(0, i as int).filter(pred),
        decreases all_names@.len() - i,
    {
        reveal_with_fuel(Seq::<_>::filter, 1);
        assert(all.subrange(0, i + 1).drop_last() =~= all.subrange(0, i as int));
        assert(all.subrange(0, i + 1).last() == all_names@[i as int]@);
        if tool_matches_selectors(all_names[i].as_str(), names) {
            let x = all_names[i].clone();
            assert(strings_view(out@.push(x)) =~= strings_view(out@).push(x@));
            out.push(x);
        }
        i += 1;
    }
    assert(all.subrange(0, all_names@.len() as int) =~= all);
    out
}

/// Whether an entry is still present and chosen by `selector`.
pub open spec fn entry_hit<T>(e: Option<(String, T)>, selector: Seq<char>) -> bool {
    match e {
        Some((n, _)) => selector_matches(n@, selector),
        None => false,
    }
}

/// The values of the entries that `selector` chooses, in entry order.
pub open spec fn taken_by<T>(entries: Seq<Option<(String, T)>>, selector: Seq<char>) -> Seq<T>
    decreases entries.len(),
{
    if entries.len() == 0 {
        seq![]
    } else {
        let rest = taken_by(entries.drop_last(), selector);
        match entries.last() {
            Some((n, v)) => if selector_matches(n@, selector) {
                rest.push(v)
            } else {
                rest
            },
            None => rest,
        }
    }
}

/// The entries with those that `selector` chooses taken out.
pub open spec fn cleared_by<T>(entries: Seq<Option<(String, T)>>, selector: Seq<char>) -> Seq<
    Option<(String, T)>,
> {
    entries.map_values(
        |e: Option<(String, T)>|
            if entry_hit(e, selector) {
                None
            } else {
                e
            },
    )
}

/// Selection by selectors in order: each selector, in turn, takes the
/// remaining entries it chooses, in entry order; returns what is left and
/// what was taken.
pub open spec fn spec_select_in_order<T>(
    entries: Seq<Option<(String, T)>>,
    selectors: Seq<Seq<char>>,
) -> (Seq<Option<(String, T)>>, Seq<T>)
    decreases selectors.len(),
{
    if selectors.len() == 0 {
        (entries, seq![])
    } else {
        let prev = spec_select_in_order(entries, selectors.drop_last());
        (cleared_by(prev.0, selectors.last()), prev.1 + taken_by(prev.0, selectors.last()))
    }
}

/// Number of entries still present.
pub open spec fn count_present<T>(entries: Seq<Option<(String, T)>>) -> nat
    decreases entries.len(),
{
    if entries.len() == 0 {
        0
    } else {
        count_present(entries.drop_last()) + if entries.last() is Some {
            1nat
        } else {
            0nat
        }
    }
}

proof fn lemma_one_selector_conserves<T>(entries: Seq<Option<(String, T)>>, selector: Seq<char>)
    ensures
        taken_by(entries, selector).len() + count_present(cleared_by(entries, selector))
            == count_present(entries),
    decreases entries.len(),
{
    if entries.len() > 0 {
        lemma_one_selector_conserves(entries.drop_last(), selector);
        assert(cleared_by(entries, selector).drop_last() =~= cleared_by(
            entries.drop_last(),
            selector,
        ));
    }
}

/// Law: selection takes every tool at most once; each tool taken leaves the
/// pool, so what was taken and what is left add up to what was there.
pub proof fn lemma_select_in_order_takes_each_at_most_once<T>(
    entries: Seq<Option<(String, T)>>,
    selectors: Seq<Seq<char>>,
)
    ensures
        spec_select_in_order(entries, selectors).1.len() + count_present(
            spec_select_in_order(entries, selectors).0,
        ) == count_present(entries),
        spec_select_in_order(entries, selectors).1.len() <= count_present(entries),
    decreases selectors.len(),
{
    if selectors.len() > 0 {
        lemma_select_in_order_takes_each_at_most_once(entries, selectors.drop_last());
        let prev = spec_select_in_order(entries, selectors.drop_last());
        lemma_one_selector_conserves(prev.0, selectors.last());
    }
}

/// One pass of a selector over the entries.
fn select_pass<T>(tools: Vec<Option<(String, T)>>, selector: &str, result: &mut Vec<T>) -> (r: Vec<
    Option<(String, T)>,
>)
    ensures
        r@ == cleared_by(tools@, selector@),
        final(result)@ == old(result)@ + taken_by(tools@, selector@),
{
    let ghost orig = tools@;
    let ghost base = result@;
    let mut tools = tools;
    let mut next: Vec<Option<(String, T)>> = Vec::new();
    let mut k: usize = 0;
    let n = tools.len();
    assert(orig.subrange(0, 0) =~= Seq::<Option<(String, T)>>::empty());
    assert(orig.skip(0) =~= orig);
    while tools.len() > 0
        invariant
            n == orig.len(),
            k <= orig.len(),
            tools@ == orig.skip(k as int),
            next@ == cleared_by(orig.subrange(0, k as int), selector@),
            result@ == base + taken_by(orig.subrange(0, k as int), selector@),
        decreases tools@.len(),
    {
        let e = tools.remove(0);
        assert(e == orig[k as int]);
        let ghost pre = orig.subrange(0, k as int);
        assert(orig.subrange(0, k + 1) =~= pre.push(e));
        assert(orig.subrange(0, k + 1).drop_last() =~= pre);
        match e {
            Some((name, v)) => {
                if matches_selector(name.as_str(), selector) {
                    result.push(v);
                    next.push(None);
                } else {
                    next.push(Some((name, v)));
                }
            },
            None => {
                next.push(None);
            },
        }
        assert(next@ =~= cleared_by(orig.subrange(0, k + 1), selector@));
        assert(result@ =~= base + taken_by(orig.subrange(0, k + 1), selector@));
        k += 1;
        assert(tools@ =~= orig.skip(k as int));
    }
    assert(orig.subrange(0, orig.len() as int) =~= orig);
    next
}

/// Selects the tools chosen by `selectors`, in selector order: each selector
/// contributes its matches consecutively, at its own position, and a tool is
/// taken at most once (the first selector that chooses it wins).
pub fn select_in_order<T>(tools: Vec<Option<(String, T)>>, selectors: &[&str]) -> (r: Vec<T>)
    ensures
        r@ == spec_select_in_order(tools@, strs_view(selectors@)).1,
{
    let ghost orig = tools@;
    let ghost sels = strs_view(selectors@);
    let mut tools = tools;
    let mut result: Vec<T> = Vec::new();
    let mut i: usize = 0;
    assert(sels.subrange(0, 0) =~= Seq::<Seq<char>>::empty());
    while i < selectors.len()
        invariant
            i <= selectors@.len(),
            sels == strs_view(selectors@),
            tools@ == spec_select_in_order(orig, sels.subrange(0, i as int)).0,
            result@ == spec_select_in_order(orig, sels.subrange(0, i as int)).1,
        decreases selectors@.len() - i,
    {
        assert(sels.subrange(0, i + 1).drop_last() =~= sels.subrange(0, i as int));
        assert(sels.subrange(0, i + 1).last() == selectors@[i as int]@);
        tools = select_pass(tools, selectors[i], &mut result);
        i += 1;
    }
    assert(sels.subrange(0, selectors@.len() as int) =~= sels);
    result
}


// ---------------------------------------------------------------------------
// The one-line summary of a tool call
// ---------------------------------------------------------------------------

/// What the summary of a tool call reads of its JSON arguments: the
/// arguments whose values are strings, as `(key, value)`, and, when `args`
/// is an array, its elements that are strings, in order.
#[derive(Debug)]
pub struct ToolCallArgs {
    pub strings: Vec<(String, String)>,
    pub arg_list: Option<Vec<String>>,
}

/// The string value of argument `key`, if it has one.
pub open spec fn arg_value(args: ToolCallArgs, key: Seq<char>) -> Option<Seq<char>> {
    match first_index_of(args.strings@, key) {
        Some(i) => Some(args.strings@[i].1@),
        None => None,
    }
}

/// The argument that stands for a call of the tool `name` in its summary.
pub open spec fn core_arg(name: Seq<char>) -> Option<Seq<char>> {
    if name == "web_search"@ {
        Some("query"@)
    } else if name == "read_file"@ || name == "edit_file"@ || name == "remove_path"@ {
        Some("filepath"@)
    } else if name == "move_path"@ {
        Some("source"@)
    } else if name == "list_files"@ || name == "search_text"@ {
        Some("pattern"@)
    } else if name == "search_dependency_code"@ {
        Some("dependency"@)
    } else if name == "fetch_webpage"@ {
        Some("url"@)
    } else if name == "analyze_image"@ {
        Some("image"@)
    } else if name == "ask_question"@ {
        Some("question"@)
    } else if name == "navigate_workflow"@ {
        Some("step"@)
    } else {
        None
    }
}

/// `s` on one line: its lines joined with `↵`.
pub open spec fn one_line(s: Seq<char>) -> Seq<char> {
    spec_join(spec_lines(s), seq!['\u{21b5}'])
}

/// A path shown relative to the working directory `cwd`: `./` and the rest
/// without leading `/`s when the path starts with `cwd`; else as it is.
pub open spec fn relative_display(x: Seq<char>, cwd: Option<Seq<char>>) -> Seq<char> {
    match cwd {
        Some(c) => if spec_starts_with(x, c) {
            "./"@ + spec_trim_slashes(x.subrange(c.len() as int, x.len() as int))
        } else {
            x
        },
        None => x,
    }
}

/// The summary of a call of tool `name`: for `run_command`, `command: ` and
/// the command with its string arguments; for the tools that have a core
/// argument, `<arg>: ` and its value (a path relative to `cwd`); on one
/// line. `None` for another tool or when the argument is not a string.
pub open spec fn spec_tool_display_summary(name: Seq<char>, args: ToolCallArgs, cwd: Option<Seq<char>>) -> Option<
    Seq<char>,
> {
    if name == "run_command"@ {
        match arg_value(args, "command"@) {
            None => None,
            Some(command) => {
                let display = match args.arg_list {
                    Some(l) => {
                        let joined = spec_join(strings_view(l@), " "@);
                        if joined.len() == 0 {
                            command
                        } else {
                            command + " "@ + joined
                        }
                    },
                    None => command,
                };
                Some("command: "@ + one_line(display))
            },
        }
    } else {
        match core_arg(name) {
            None => None,
            Some(k) => match arg_value(args, k) {
                None => None,
                Some(x) => {
                    let d = if k == "filepath"@ || k == "source"@ {
                        relative_display(x, cwd)
                    } else {
                        x
                    };
                    Some(k + ": "@ + one_line(d))
                },
            },
        }
    }
}

/// The argument that stands for a call of the tool `name`.
fn core_arg_of(name: &str) -> (r: Option<&'static str>)
    ensures
        match core_arg(name@) {
            Some(k) => r matches Some(x) && x@ == k,
            None => r is None,
        },
{
    if str_eq(name, "web_search") {
        Some("query")
    } else if str_eq(name, "read_file") || str_eq(name, "edit_file") || str_eq(name, "remove_path") {
        Some("filepath")
    } else if str_eq(name, "move_path") {
        Some("source")
    } else if str_eq(name, "list_files") || str_eq(name, "search_text") {
        Some("pattern")
    } else if str_eq(name, "search_dependency_code") {
        Some("dependency")
    } else if str_eq(name, "fetch_webpage") {
        Some("url")
    } else if str_eq(name, "analyze_image") {
        Some("image")
    } else if str_eq(name, "ask_question") {
        Some("question")
    } else if str_eq(name, "navigate_workflow") {
        Some("step")
    } else {
        None
    }
}

/// The string value of argument `key`.
fn arg_value_of(args: &ToolCallArgs, key: &str) -> (r: Option<String>)
    ensures
        match arg_value(*args, key@) {
            Some(v) => r matches Some(x) && x@ == v,
            None => r is None,
        },
{
    match find_entry(&args.strings, key) {
        Some(i) => Some(args.strings[i].1.clone()),
        None => None,
    }
}

/// `s` on one line (see `one_line`).
fn on_one_line(s: &str) -> (r: String)
    ensures
        r@ == one_line(s@),
{
    let v = to_chars(s);
    let ls = lines(&v);
    let sep: Vec<char> = vec!['\u{21b5}'];
    assert(sep@ =~= seq!['\u{21b5}']);
    let joined = crate::text::join(&ls, &sep);
    string_from_chars(&joined)
}

/// A path shown relative to `cwd` (see `relative_display`).
fn shown_relative(x: &str, cwd: Option<&str>) -> (r: String)
    ensures
        r@ == relative_display(
            x@,
            match cwd {
                Some(c) => Some(c@),
                None => None,
            },
        ),
{
    match cwd {
        Some(c) => {
            if str_starts_with(x, c) {
                let v = to_chars(x);
                let n = v.len();
                let start = c.unicode_len();
                let mut i = start;
                while i < n && v[i] == '/'
                    invariant
                        start <= i <= n == v@.len(),
                        spec_trim_slashes(v@.subrange(start as int, n as int)) == spec_trim_slashes(
                            v@.subrange(i as int, n as int),
                        ),
                    decreases n - i,
                {
                    assert(v@.subrange(i as int, n as int).drop_first() =~= v@.subrange(
                        i + 1,
                        n as int,
                    ));
                    i += 1;
                }
                proof {
                    let rest = v@.subrange(i as int, n as int);
                    if rest.len() > 0 {
                        assert(rest[0] == v@[i as int]);
                    }
                    assert(spec_trim_slashes(rest) == rest);
                }
                let mut s = "./".to_string();
                crate::text::push_chars(&mut s, &v, i, n);
                s
            } else {
                x.to_string()
            }
        },
        None => x.to_string(),
    }
}

/// The one-line summary of a tool call that the chat shows (see
/// `spec_tool_display_summary`); `cwd` is the working directory, if known.
pub fn tool_display_summary(name: &str, args: &ToolCallArgs, cwd: Option<&str>) -> (r: Option<String>)
    ensures
        match spec_tool_display_summary(
            name@,
            *args,
            match cwd {
                Some(c) => Some(c@),
                None => None,
            },
        ) {
            Some(t) => r matches Some(x) && x@ == t,
            None => r is None,
        },
{
    if str_eq(name, "run_command") {
        let command = match arg_value_of(args, "command") {
            Some(c) => c,
            None => return None,
        };
        let display = match &args.arg_list {
            Some(l) => {
                let joined = join_strings(l.as_slice(), " ");
                if joined.unicode_len() == 0 {
                    command
                } else {
                    let mut d = command;
                    d.append(" ");
                    d.append(joined.as_str());
                    d
                }
            },
            None => command,
        };
        let mut s = "command: ".to_string();
        s.append(on_one_line(display.as_str()).as_str());
        return Some(s);
    }
    let k = match core_arg_of(name) {
        Some(k) => k,
        None => return None,
    };
    let x = match arg_value_of(args, k) {
        Some(x) => x,
        None => return None,
    };
    let d = if str_eq(k, "filepath") || str_eq(k, "source") {
        shown_relative(x.as_str(), cwd)
    } else {
        x
    };
    let mut s = k.to_string();
    s.append(": ");
    s.append(on_one_line(d.as_str()).as_str());
    Some(s)
}

} // verus!
