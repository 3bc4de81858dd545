//! The text of the editor actions: picker labels for chats, histories,
//! models and hooks, the title a rename sets, and the snippet that inserting
//! a selection adds to the chat input.
use vstd::prelude::*;

use crate::clients::SupportedModels;
use crate::config::TenonAgent;
use crate::hooks::{Hook, HookType};
use crate::text::{
    chars_starts_with,
    decimal,
    lemma_text_le_total,
    lemma_text_le_transitive,
    lines,
    occurs_at,
    spec_decimal,
    spec_join,
    spec_lines,
    spec_starts_with,
    spec_trim,
    str_eq,
    string_from_chars,
    strings_view,
    text_le,
    text_le_exec,
    to_chars,
    trim,
};

verus! {

broadcast use vstd::string::group_string_axioms;

/// `s` cut to its first `w` characters, or padded with spaces on the right
/// to `w` characters.
pub open spec fn fit_right(s: Seq<char>, w: nat) -> Seq<char> {
    if s.len() > w {
        s.subrange(0, w as int)
    } else {
        s + Seq::new((w - s.len()) as nat, |i: int| ' ')
    }
}

/// `s` padded with spaces on the left to `w` characters (`{:>w}`).
pub open spec fn pad_left(s: Seq<char>, w: nat) -> Seq<char> {
    if s.len() >= w {
        s
    } else {
        Seq::new((w - s.len()) as nat, |i: int| ' ') + s
    }
}

/// `n` spaces.
fn spaces(n: usize) -> (r: Vec<char>)
    ensures
        r@ == Seq::new(n as nat, |i: int| ' '),
{
    let mut v: Vec<char> = Vec::new();
    let mut i: usize = 0;
    while i < n
        invariant
            i <= n,
            v@ == Seq::new(i as nat, |k: int| ' '),
        decreases n - i,
    {
        v.push(' ');
        i += 1;
        assert(v@ =~= Seq::new(i as nat, |k: int| ' '));
    }
    v
}

/// The label of a model in the model picker: its name fitted to 20
/// characters, then `connector/model`.
pub open spec fn spec_model_label(name: Seq<char>, connector: Seq<char>, model: Seq<char>) -> Seq<char> {
    fit_right(name, 20) + " | "@ + connector + "/"@ + model
}

/// The label of a model in the model picker.
pub fn format_model_display(name: &str, model: &SupportedModels) -> (r: String)
    ensures
        r@ == spec_model_label(name@, model.connector_name@, model.model_name@),
{
    let v = to_chars(name);
    let mut fixed: Vec<char> = Vec::new();
    if v.len() > 20 {
        let mut i: usize = 0;
        while i < 20
            invariant
                i <= 20 < v@.len(),
                fixed@ == v@.subrange(0, i as int),
            decreases 20 - i,
        {
            fixed.push(v[i]);
            i += 1;
            assert(fixed@ =~= v@.subrange(0, i as int));
        }
    } else {
        let pad = spaces(20 - v.len());
        fixed = v;
        let mut i: usize = 0;
        let ghost base = fixed@;
        while i < pad.len()
            invariant
                i <= pad@.len(),
                fixed@ == base + pad@.subrange(0, i as int),
            decreases pad@.len() - i,
        {
            fixed.push(pad[i]);
            i += 1;
            assert(fixed@ =~= base + pad@.subrange(0, i as int));
        }
        assert(pad@.subrange(0, pad@.len() as int) =~= pad@);
    }
    let mut s = string_from_chars(&fixed);
    s.append(" | ");
    s.append(model.connector_name.as_str());
    s.append("/");
    s.append(model.model_name.as_str());
    s
}

/// The labels of the model picker, one for each named model in order.
pub fn model_options(entries: &Vec<(String, SupportedModels)>) -> (r: Vec<String>)
    ensures
        r@.len() == entries@.len(),
        forall|k: int|
            0 <= k < r@.len() ==> #[trigger] r@[k]@ == spec_model_label(
                entries@[k].0@,
                entries@[k].1.connector_name@,
                entries@[k].1.model_name@,
            ),
{
    let mut out: Vec<String> = Vec::new();
    let mut i: usize = 0;
    while i < entries.len()
        invariant
            i <= entries@.len(),
            out@.len() == i,
            forall|k: int|
                0 <= k < i ==> #[trigger] out@[k]@ == spec_model_label(
                    entries@[k].0@,
                    entries@[k].1.connector_name@,
                    entries@[k].1.model_name@,
                ),
        decreases entries@.len() - i,
    {
        out.push(format_model_display(entries[i].0.as_str(), &entries[i].1));
        i += 1;
    }
    out
}

/// The label of the first model in `entries` that is the `current` one
/// (same connector and model name), if any.
pub open spec fn spec_current_label(entries: Seq<(String, SupportedModels)>, current: SupportedModels) -> Option<
    Seq<char>,
>
    decreases entries.len(),
{
    if entries.len() == 0 {
        None
    } else {
        let (name, m) = entries[0];
        if m.connector_name@ == current.connector_name@ && m.model_name@ == current.model_name@ {
            Some(spec_model_label(name@, m.connector_name@, m.model_name@))
        } else {
            spec_current_label(entries.drop_first(), current)
        }
    }
}

/// The picker label of the model in use.
pub fn current_model_display(entries: &Vec<(String, SupportedModels)>, current: &SupportedModels) -> (r:
    Option<String>)
    ensures
        match spec_current_label(entries@, *current) {
            Some(l) => r matches Some(x) && x@ == l,
            None => r is None,
        },
{
    let mut i: usize = 0;
    assert(entries@.skip(0) =~= entries@);
    while i < entries.len()
        invariant
            i <= entries@.len(),
            spec_current_label(entries@.skip(i as int), *current) == spec_current_label(
                entries@,
                *current,
            ),
        decreases entries@.len() - i,
    {
        assert(entries@.skip(i as int)[0] == entries@[i as int]);
        assert(entries@.skip(i as int).drop_first() =~= entries@.skip(i + 1));
        let (name, m) = (&entries[i].0, &entries[i].1);
        if str_eq(m.connector_name.as_str(), current.connector_name.as_str()) && str_eq(
            m.model_name.as_str(),
            current.model_name.as_str(),
        ) {
            return Some(format_model_display(name.as_str(), m));
        }
        i += 1;
    }
    None
}

/// The label of the `index`-th chat (counted from 0) in the chat picker:
/// its number from 1 and its title.
pub open spec fn spec_chat_label(index: nat, title: Option<Seq<char>>) -> Seq<char> {
    "Chat "@ + spec_decimal(index + 1) + " | "@ + match title {
        Some(t) => t,
        None => "Untitled"@,
    }
}

/// The label of the `index`-th chat (counted from 0) in the chat picker.
pub fn chat_option_label(index: usize, title: Option<&str>) -> (r: String)
    requires
        index < usize::MAX,
    ensures
        r@ == spec_chat_label(
            index as nat,
            match title {
                Some(t) => Some(t@),
                None => None,
            },
        ),
{
    let mut s = "Chat ".to_string();
    s.append(decimal(index + 1).as_str());
    s.append(" | ");
    match title {
        Some(t) => s.append(t),
        None => s.append("Untitled"),
    }
    s
}

/// The chat picker's labels for chats with these titles, in order.
pub open spec fn chat_labels(titles: Seq<Option<Seq<char>>>) -> Seq<Seq<char>> {
    Seq::new(titles.len(), |i: int| spec_chat_label(i as nat, titles[i]))
}

/// The labels of the chat picker, one for each chat in order.
pub fn chat_options(titles: &Vec<Option<String>>) -> (r: Vec<String>)
    requires
        titles@.len() < usize::MAX,
    ensures
        strings_view(r@) == chat_labels(
            titles@.map_values(
                |t: Option<String>|
                    match t {
                        Some(x) => Some(x@),
                        None => None,
                    },
            ),
        ),
{
    let ghost tv = titles@.map_values(
        |t: Option<String>|
            match t {
                Some(x) => Some(x@),
                None => None,
            },
    );
    let mut out: Vec<String> = Vec::new();
    let mut i: usize = 0;
    while i < titles.len()
        invariant
            i <= titles@.len() < usize::MAX,
            tv == titles@.map_values(
                |t: Option<String>|
                    match t {
                        Some(x) => Some(x@),
                        None => None,
                    },
            ),
            strings_view(out@) == chat_labels(tv).take(i as int),
        decreases titles@.len() - i,
    {
        let title: Option<&str> = match &titles[i] {
            Some(t) => Some(t.as_str()),
            None => None,
        };
        let label = chat_option_label(i, title);
        let ghost before = out@;
        out.push(label);
        proof {
            crate::text::lemma_strings_view_push(before, label);
            assert(chat_labels(tv).take(i + 1) =~= chat_labels(tv).take(i as int).push(label@));
        }
        i += 1;
    }
    assert(chat_labels(tv).take(titles@.len() as int) =~= chat_labels(tv));
    out
}

/// The first position of `selected` among `options`.
pub open spec fn first_position(options: Seq<Seq<char>>, selected: Seq<char>) -> Option<int>
    decreases options.len(),
{
    if options.len() == 0 {
        None
    } else {
        match first_position(options.drop_last(), selected) {
            Some(i) => Some(i),
            None => if options.last() == selected {
                Some(options.len() - 1)
            } else {
                None
            },
        }
    }
}

proof fn lemma_first_position_at(options: Seq<Seq<char>>, selected: Seq<char>, k: int)
    requires
        0 <= k < options.len(),
        options[k] == selected,
        forall|j: int| 0 <= j < k ==> options[j] != selected,
    ensures
        first_position(options, selected) == Some(k),
    decreases options.len(),
{
    if options.len() - 1 > k {
        lemma_first_position_at(options.drop_last(), selected, k);
    } else {
        lemma_first_position_none(options.drop_last(), selected);
    }
}

proof fn lemma_first_position_none(options: Seq<Seq<char>>, selected: Seq<char>)
    requires
        forall|j: int| 0 <= j < options.len() ==> options[j] != selected,
    ensures
        first_position(options, selected) is None,
    decreases options.len(),
{
    if options.len() > 0 {
        lemma_first_position_none(options.drop_last(), selected);
    }
}

/// The position of the selected label among the picker's options (the first
/// one equal to it).
pub fn option_position(options: &Vec<String>, selected: &str) -> (r: Option<usize>)
    ensures
        match first_position(strings_view(options@), selected@) {
            Some(i) => r == Some(i as usize),
            None => r is None,
        },
{
    let ghost ov = strings_view(options@);
    let mut i: usize = 0;
    while i < options.len()
        invariant
            i <= options@.len(),
            ov == strings_view(options@),
            forall|j: int| 0 <= j < i ==> ov[j] != selected@,
        decreases options@.len() - i,
    {
        if str_eq(options[i].as_str(), selected) {
            proof {
                lemma_first_position_at(ov, selected@, i as int);
            }
            return Some(i);
        }
        i += 1;
    }
    proof {
        lemma_first_position_none(ov, selected@);
    }
    None
}

/// Two chats never share a label: the labels start with different numbers.
pub proof fn lemma_chat_labels_differ(i: nat, j: nat, t1: Option<Seq<char>>, t2: Option<Seq<char>>)
    requires
        i != j,
    ensures
        spec_chat_label(i, t1) != spec_chat_label(j, t2),
{
    let d1 = spec_decimal(i + 1);
    let d2 = spec_decimal(j + 1);
    let l1 = spec_chat_label(i, t1);
    let l2 = spec_chat_label(j, t2);
    reveal_strlit("Chat ");
    reveal_strlit(" | ");
    crate::text::lemma_decimal_digits(i + 1);
    crate::text::lemma_decimal_digits(j + 1);
    if l1 == l2 {
        assert(l1 =~= "Chat "@ + (d1 + (" | "@ + match t1 {
            Some(t) => t,
            None => "Untitled"@,
        })));
        assert(l2 =~= "Chat "@ + (d2 + (" | "@ + match t2 {
            Some(t) => t,
            None => "Untitled"@,
        })));
        if d1.len() == d2.len() {
            assert forall|m: int| 0 <= m < d1.len() implies d1[m] == d2[m] by {
                assert(l1[5 + m] == d1[m]);
                assert(l2[5 + m] == d2[m]);
            }
            assert(d1 =~= d2);
            crate::text::lemma_decimal_injective(i + 1, j + 1);
        } else if d1.len() < d2.len() {
            assert(l1[5 + d1.len() as int] == ' ');
            assert(l2[5 + d1.len() as int] == d2[d1.len() as int]);
            assert(crate::text::is_digit(d2[d1.len() as int]));
        } else {
            assert(l2[5 + d2.len() as int] == ' ');
            assert(l1[5 + d2.len() as int] == d1[d2.len() as int]);
            assert(crate::text::is_digit(d1[d2.len() as int]));
        }
    }
}

/// Selecting a chat's own label in the chat picker gives back that chat,
/// whatever the titles.
pub proof fn lemma_chat_label_selects_its_chat(titles: Seq<Option<Seq<char>>>, k: int)
    requires
        0 <= k < titles.len(),
    ensures
        first_position(chat_labels(titles), chat_labels(titles)[k]) == Some(k),
{
    let ls = chat_labels(titles);
    assert forall|j: int| 0 <= j < k implies ls[j] != ls[k] by {
        lemma_chat_labels_differ(j as nat, k as nat, titles[j], titles[k]);
    }
    lemma_first_position_at(ls, ls[k], k);
}

/// The date and time of a history id `<datetime>_<suffix>`: the part before
/// the last `_`, with `T` shown as a space; the whole id when it has no `_`.
pub open spec fn history_datetime(id: Seq<char>) -> Seq<char> {
    if exists|i: int| 0 <= i < id.len() && id[i] == '_' {
        let k = choose|i: int| 0 <= i < id.len() && id[i] == '_' && forall|j: int| i < j < id.len() ==> id[j] != '_';
        id.subrange(0, k).map_values(|c: char| if c == 'T' { ' ' } else { c })
    } else {
        id
    }
}

/// The label of a saved chat in the history picker.
pub open spec fn spec_history_label(
    id: Seq<char>,
    title: Option<Seq<char>>,
    messages: nat,
    agent: Seq<char>,
    model: Seq<char>,
) -> Seq<char> {
    history_datetime(id) + " \u{2502} "@ + pad_left(spec_decimal(messages), 3) + " msg \u{2502} "@
        + match title {
        Some(t) => t,
        None => "Untitled"@,
    } + " (\u{f06a9}  "@ + agent + ", "@ + model + ")"@
}

/// The label of a saved chat in the history picker.
pub fn history_option_label(
    id: &str,
    title: Option<&str>,
    messages: usize,
    agent: &str,
    model: &str,
) -> (r: String)
    ensures
        r@ == spec_history_label(
            id@,
            match title {
                Some(t) => Some(t@),
                None => None,
            },
            messages as nat,
            agent@,
            model@,
        ),
{
    let v = to_chars(id);
    let n = v.len();
    let mut last: Option<usize> = None;
    let mut i: usize = 0;
    while i < n
        invariant
            n == v@.len(),
            i <= n,
            match last {
                Some(k) => k < i && v@[k as int] == '_' && forall|j: int| k < j < i ==> v@[j] != '_',
                None => forall|j: int| 0 <= j < i ==> v@[j] != '_',
            },
        decreases n - i,
    {
        if v[i] == '_' {
            last = Some(i);
        }
        i += 1;
    }
    let mut dt: Vec<char> = Vec::new();
    match last {
        Some(k) => {
            let mut j: usize = 0;
            while j < k
                invariant
                    j <= k < v@.len(),
                    dt@ == v@.subrange(0, j as int).map_values(|c: char| if c == 'T' { ' ' } else { c }),
                decreases k - j,
            {
                let c = v[j];
                dt.push(if c == 'T' { ' ' } else { c });
                j += 1;
                assert(dt@ =~= v@.subrange(0, j as int).map_values(|c: char| if c == 'T' { ' ' } else { c }));
            }
            proof {
                let kk = choose|x: int| 0 <= x < v@.len() && v@[x] == '_' && forall|j: int| x < j < v@.len() ==> v@[j] != '_';
                assert(kk == k) by {
                    if kk < k {
                        assert(v@[k as int] == '_');
                    } else if kk > k {
                        assert(v@[kk] != '_');
                    }
                }
            }
        },
        None => {
            dt = v;
        },
    }
    let count = decimal(messages);
    let cv = to_chars(count.as_str());
    let mut padded: Vec<char> = if cv.len() >= 3 {
        Vec::new()
    } else {
        spaces(3 - cv.len())
    };
    let ghost pre = padded@;
    let mut k: usize = 0;
    while k < cv.len()
        invariant
            k <= cv@.len(),
            padded@ == pre + cv@.subrange(0, k as int),
        decreases cv@.len() - k,
    {
        padded.push(cv[k]);
        k += 1;
        assert(padded@ =~= pre + cv@.subrange(0, k as int));
    }
    assert(cv@.subrange(0, cv@.len() as int) =~= cv@);
    assert(padded@ =~= pad_left(spec_decimal(messages as nat), 3));
    let mut s = string_from_chars(&dt);
    s.append(" \u{2502} ");
    s.append(string_from_chars(&padded).as_str());
    s.append(" msg \u{2502} ");
    match title {
        Some(t) => s.append(t),
        None => s.append("Untitled"),
    }
    s.append(" (\u{f06a9}  ");
    s.append(agent);
    s.append(", ");
    s.append(model);
    s.append(")");
    s
}

/// The title that a rename sets: the input trimmed, or none when it is
/// blank.
pub fn rename_title(input: &str) -> (r: Option<String>)
    ensures
        spec_trim(input@).len() == 0 ==> r is None,
        spec_trim(input@).len() > 0 ==> (r matches Some(t) && t@ == spec_trim(input@)),
{
    let t = trim(input);
    if t.as_str().unicode_len() == 0 {
        None
    } else {
        Some(t)
    }
}

/// The label of a hook type.
pub open spec fn spec_hook_type_label(t: HookType) -> Seq<char> {
    match t {
        HookType::NeedsAttention => "needs_attention"@,
    }
}

/// The label of a hook in the hook picker: `type | name`.
pub open spec fn spec_hook_label(t: HookType, name: Seq<char>) -> Seq<char> {
    spec_hook_type_label(t) + " | "@ + name
}

/// The label of a hook in the hook picker.
pub fn hook_option_label(hook: &Hook) -> (r: String)
    ensures
        r@ == spec_hook_label(hook.hook_type, hook.name@),
{
    let mut s = match hook.hook_type {
        HookType::NeedsAttention => "needs_attention".to_string(),
    };
    s.append(" | ");
    s.append(hook.name.as_str());
    s
}

/// The text after the first `" | "` of a picker label, if any.
pub open spec fn spec_label_name(label: Seq<char>) -> Option<Seq<char>> {
    if exists|i: int| #[trigger] occurs_at(label, " | "@, i) {
        let k = choose|i: int|
            #[trigger] occurs_at(label, " | "@, i) && forall|j: int| 0 <= j < i ==> !#[trigger] occurs_at(
                label,
                " | "@,
                j,
            );
        Some(label.subrange(k + 3, label.len() as int))
    } else {
        None
    }
}

/// The hook name of a selected label (`str::split_once(" | ")`).
pub fn hook_name_from_label(label: &str) -> (r: Option<String>)
    ensures
        match spec_label_name(label@) {
            Some(n) => r matches Some(x) && x@ == n,
            None => r is None,
        },
{
    let v = to_chars(label);
    let sep = to_chars(" | ");
    proof {
        reveal_strlit(" | ");
        assert(sep@.len() == 3);
    }
    match crate::text::chars_find_from(&v, &sep, 0) {
        Some(k) => {
            let n = v.len();
            assert(k + 3 <= n);
            proof {
                let kk = choose|i: int|
                    #[trigger] occurs_at(label@, " | "@, i) && forall|j: int|
                        0 <= j < i ==> !#[trigger] occurs_at(label@, " | "@, j);
                assert(kk == k) by {
                    if kk < k {
                    } else if kk > k {
                        assert(occurs_at(label@, " | "@, k as int));
                    }
                }
            }
            Some(crate::text::string_of(&v, k + 3, n))
        },
        None => None,
    }
}

/// Selecting a hook's own label gives back its name, whatever the name.
pub proof fn lemma_hook_label_round_trip(t: HookType, name: Seq<char>)
    ensures
        spec_label_name(spec_hook_label(t, name)) == Some(name),
{
    let label = spec_hook_label(t, name);
    let k: int = 15;
    reveal_strlit("needs_attention");
    reveal_strlit(" | ");
    assert(label.subrange(k, k + 3) =~= " | "@);
    assert(occurs_at(label, " | "@, k));
    assert forall|j: int| 0 <= j < k implies !#[trigger] occurs_at(label, " | "@, j) by {
        if occurs_at(label, " | "@, j) {
            assert(label.subrange(j, j + 3)[0] == label[j]);
            assert(label.subrange(j, j + 3)[1] == label[j + 1]);
            assert(label[j] == ' ');
            assert(label[j + 1] == '|');
        }
    }
    let kk = choose|i: int|
        #[trigger] occurs_at(label, " | "@, i) && forall|j: int|
            0 <= j < i ==> !#[trigger] occurs_at(label, " | "@, j);
    assert(kk == k) by {
        if kk < k {
        } else if kk > k {
        }
    }
    assert(label.subrange(k + 3, label.len() as int) =~= name);
}


/// The selected lines as the snippet shows them: `...` before the first
/// when it is cut at its start, and after the last when it is cut at its end.
pub open spec fn snippet_lines(ls: Seq<Seq<char>>, first_full: bool, last_full: bool) -> Seq<Seq<char>> {
    Seq::new(
        ls.len(),
        |i: int|
            {
                let a = if i == 0 && !first_full {
                    "..."@ + ls[i]
                } else {
                    ls[i]
                };
                if i == ls.len() - 1 && !last_full {
                    a + "..."@
                } else {
                    a
                }
            },
    )
}

/// A line of a code block, with a leading fence ```` ``` ```` escaped so
/// that it does not close the block.
pub open spec fn escape_fence(l: Seq<char>) -> Seq<char> {
    if spec_starts_with(l, "```"@) {
        "\\`\\`\\`"@ + l.subrange(3, l.len() as int)
    } else {
        l
    }
}

/// The header line of a code snippet.
pub open spec fn snippet_header(filename: Option<Seq<char>>, start_line: usize, end_line: usize) -> Seq<char> {
    let lines_part = if start_line == end_line {
        " Line "@ + spec_decimal(start_line as nat)
    } else {
        " Lines "@ + spec_decimal(start_line as nat) + "-"@ + spec_decimal(end_line as nat)
    };
    match filename {
        Some(n) => "Snippet from "@ + n + lines_part,
        None => "Snippet"@ + lines_part,
    }
}

/// What inserting a selection adds to the chat input: nothing for an empty
/// selection; for a scratch buffer (`nofile`) the snippet as a block quote;
/// otherwise a header line and the snippet in a code block of the buffer's
/// file type.
pub open spec fn spec_selection_markdown(
    text_lines: Seq<Seq<char>>,
    start_col: Option<usize>,
    end_col: Option<usize>,
    last_line_len: usize,
    buftype: Seq<char>,
    filename: Option<Seq<char>>,
    filetype: Seq<char>,
    start_line: usize,
    end_line: usize,
) -> Option<Seq<char>> {
    if text_lines.len() == 0 {
        None
    } else {
        let first_full = match start_col {
            Some(c) => c <= 1,
            None => true,
        };
        let last_full = match end_col {
            Some(c) => c >= last_line_len,
            None => true,
        };
        let text = spec_join(snippet_lines(text_lines, first_full, last_full), seq!['\n']);
        if buftype == "nofile"@ {
            Some(
                spec_join(spec_lines(text).map_values(|l: Seq<char>| "> "@ + l), seq!['\n']) + seq![
                    '\n',
                ],
            )
        } else {
            Some(
                snippet_header(filename, start_line, end_line) + "\n```"@ + filetype + seq!['\n']
                    + spec_join(spec_lines(text).map_values(|l: Seq<char>| escape_fence(l)), seq!['\n'])
                    + "\n```\n"@,
            )
        }
    }
}

/// The characters of `a` followed by those of `b`.
fn concat_chars(a: &Vec<char>, b: &Vec<char>) -> (r: Vec<char>)
    ensures
        r@ == a@ + b@,
{
    let mut r: Vec<char> = Vec::new();
    crate::text::extend_chars(&mut r, a, 0, a.len());
    crate::text::extend_chars(&mut r, b, 0, b.len());
    assert(a@.subrange(0, a@.len() as int) =~= a@);
    assert(b@.subrange(0, b@.len() as int) =~= b@);
    assert(r@ =~= a@ + b@);
    r
}

/// The selected lines with their `...` marks, joined with `'\n'`.
fn snippet_text(text_lines: &Vec<String>, first_full: bool, last_full: bool) -> (r: Vec<char>)
    ensures
        r@ == spec_join(
            snippet_lines(crate::text::strings_view(text_lines@), first_full, last_full),
            seq!['\n'],
        ),
{
    let n = text_lines.len();
    let ghost tl = crate::text::strings_view(text_lines@);
    let dots = to_chars("...");
    let mut parts: Vec<Vec<char>> = Vec::new();
    let mut i: usize = 0;
    while i < n
        invariant
            n == text_lines@.len(),
            tl == crate::text::strings_view(text_lines@),
            dots@ == "..."@,
            i <= n,
            crate::text::char_vecs_view(parts@) == snippet_lines(tl, first_full, last_full).take(
                i as int,
            ),
        decreases n - i,
    {
        let mut line = to_chars(text_lines[i].as_str());
        if i == 0 && !first_full {
            line = concat_chars(&dots, &line);
        }
        if i == n - 1 && !last_full {
            line = concat_chars(&line, &dots);
        }
        proof {
            crate::text::lemma_char_vecs_view_push(parts@, line);
            assert(snippet_lines(tl, first_full, last_full).take(i + 1) =~= snippet_lines(
                tl,
                first_full,
                last_full,
            ).take(i as int).push(line@));
        }
        parts.push(line);
        i += 1;
    }
    assert(snippet_lines(tl, first_full, last_full).take(n as int) =~= snippet_lines(
        tl,
        first_full,
        last_full,
    ));
    let nl: Vec<char> = vec!['\n'];
    assert(nl@ =~= seq!['\n']);
    crate::text::join(&parts, &nl)
}

/// The lines of `text` as the snippet shows them: quoted with `> ` in a
/// scratch buffer, with a leading fence escaped otherwise; joined with
/// `'\n'`.
fn shown_body(text: &Vec<char>, nofile: bool) -> (r: String)
    ensures
        r@ == spec_join(
            if nofile {
                spec_lines(text@).map_values(|l: Seq<char>| "> "@ + l)
            } else {
                spec_lines(text@).map_values(|l: Seq<char>| escape_fence(l))
            },
            seq!['\n'],
        ),
{
    let text_lines2 = lines(text);
    let prefix = if nofile {
        to_chars("> ")
    } else {
        Vec::new()
    };
    let mut shown: Vec<Vec<char>> = Vec::new();
    let fence = to_chars("```");
    let escaped_fence = to_chars("\\`\\`\\`");
    let ghost sl = crate::text::char_vecs_view(text_lines2@);
    let mut j: usize = 0;
    while j < text_lines2.len()
        invariant
            j <= text_lines2@.len(),
            sl == crate::text::char_vecs_view(text_lines2@),
            prefix@ == if nofile { "> "@ } else { Seq::<char>::empty() },
            fence@ == "```"@,
            escaped_fence@ == "\\`\\`\\`"@,
            crate::text::char_vecs_view(shown@) == if nofile {
                sl.map_values(|l: Seq<char>| "> "@ + l).take(j as int)
            } else {
                sl.map_values(|l: Seq<char>| escape_fence(l)).take(j as int)
            },
        decreases text_lines2@.len() - j,
    {
        let l = &text_lines2[j];
        assert(sl[j as int] == l@);
        let out = if nofile {
            concat_chars(&prefix, l)
        } else if chars_starts_with(l, &fence) {
            proof {
                reveal_strlit("```");
            }
            let mut rest: Vec<char> = Vec::new();
            crate::text::extend_chars(&mut rest, l, 3, l.len());
            concat_chars(&escaped_fence, &rest)
        } else {
            l.clone()
        };
        proof {
            if !nofile && !spec_starts_with(l@, "```"@) {
                assert(out@ =~= l@);
            }
            crate::text::lemma_char_vecs_view_push(shown@, out);
            if nofile {
                assert(sl.map_values(|l: Seq<char>| "> "@ + l).take(j + 1) =~= sl.map_values(
                    |l: Seq<char>| "> "@ + l,
                ).take(j as int).push(out@));
            } else {
                assert(sl.map_values(|l: Seq<char>| escape_fence(l)).take(j + 1) =~= sl.map_values(
                    |l: Seq<char>| escape_fence(l),
                ).take(j as int).push(out@));
            }
        }
        shown.push(out);
        j += 1;
    }
    proof {
        assert(sl.map_values(|l: Seq<char>| "> "@ + l).take(sl.len() as int) =~= sl.map_values(
            |l: Seq<char>| "> "@ + l,
        ));
        assert(sl.map_values(|l: Seq<char>| escape_fence(l)).take(sl.len() as int) =~= sl.map_values(
            |l: Seq<char>| escape_fence(l),
        ));
    }
    let nl: Vec<char> = vec!['\n'];
    assert(nl@ =~= seq!['\n']);
    let body = crate::text::join(&shown, &nl);
    string_from_chars(&body)
}

/// The header line of a code snippet.
fn header_line(filename: Option<&str>, start_line: usize, end_line: usize) -> (r: String)
    ensures
        r@ == snippet_header(
            match filename {
                Some(f) => Some(f@),
                None => None,
            },
            start_line,
            end_line,
        ),
{
    let mut s = match filename {
        Some(f) => {
            let mut h = "Snippet from ".to_string();
            h.append(f);
            h
        },
        None => "Snippet".to_string(),
    };
    if start_line == end_line {
        s.append(" Line ");
        s.append(decimal(start_line).as_str());
    } else {
        s.append(" Lines ");
        s.append(decimal(start_line).as_str());
        s.append("-");
        s.append(decimal(end_line).as_str());
    }
    s
}

/// The snippet that inserting a selection adds to the chat input (see
/// `spec_selection_markdown`); `None` for an empty selection.
pub fn selection_markdown(
    text_lines: &Vec<String>,
    start_col: Option<usize>,
    end_col: Option<usize>,
    last_line_len: usize,
    buftype: &str,
    filename: Option<&str>,
    filetype: &str,
    start_line: usize,
    end_line: usize,
) -> (r: Option<String>)
    ensures
        match spec_selection_markdown(
            crate::text::strings_view(text_lines@),
            start_col,
            end_col,
            last_line_len,
            buftype@,
            match filename {
                Some(f) => Some(f@),
                None => None,
            },
            filetype@,
            start_line,
            end_line,
        ) {
            Some(m) => r matches Some(x) && x@ == m,
            None => r is None,
        },
{
    if text_lines.len() == 0 {
        return None;
    }
    let first_full = match start_col {
        Some(c) => c <= 1,
        None => true,
    };
    let last_full = match end_col {
        Some(c) => c >= last_line_len,
        None => true,
    };
    let text = snippet_text(text_lines, first_full, last_full);
    let nofile = str_eq(buftype, "nofile");
    let body_s = shown_body(&text, nofile);
    proof {
        reveal_strlit("\n");
        assert("\n"@ =~= seq!['\n']);
    }
    if nofile {
        let mut s = body_s;
        s.append("\n");
        Some(s)
    } else {
        let mut s = header_line(filename, start_line, end_line);
        s.append("\n```");
        s.append(filetype);
        s.append("\n");
        s.append(body_s.as_str());
        s.append("\n```\n");
        Some(s)
    }
}


// ---------------------------------------------------------------------------
// The agent picker
// ---------------------------------------------------------------------------

/// No text of `s` comes after one that stands later in it, in the order of
/// `str`'s `Ord` (see `text_le`).
pub open spec fn sorted_texts(s: Seq<Seq<char>>) -> bool {
    forall|i: int, j: int| 0 <= i < j < s.len() ==> text_le(#[trigger] s[i], #[trigger] s[j])
}

/// The names sorted by `text_le`, each kept as often as it occurs.
pub fn sorted_names(names: &Vec<String>) -> (r: Vec<String>)
    ensures
        strings_view(r@).to_multiset() == strings_view(names@).to_multiset(),
        sorted_texts(strings_view(r@)),
{
    let mut out: Vec<String> = Vec::new();
    let mut i: usize = 0;
    assert(strings_view(out@) =~= Seq::<Seq<char>>::empty());
    assert(strings_view(names@.take(0)) =~= Seq::<Seq<char>>::empty());
    while i < names.len()
        invariant
            i <= names@.len(),
            strings_view(out@).to_multiset() == strings_view(names@.take(i as int)).to_multiset(),
            sorted_texts(strings_view(out@)),
        decreases names@.len() - i,
    {
        let x = &names[i];
        let mut j: usize = 0;
        let mut stop = false;
        while j < out.len() && !stop
            invariant
                j <= out@.len(),
                forall|k: int| 0 <= k < j ==> text_le(#[trigger] out@[k]@, x@),
                stop ==> j < out@.len() && !text_le(out@[j as int]@, x@),
            decreases out@.len() - j + (if stop {
                0int
            } else {
                1int
            }),
        {
            if text_le_exec(out[j].as_str(), x.as_str()) {
                j += 1;
            } else {
                stop = true;
            }
        }
        let ghost before = strings_view(out@);
        let ghost xs = x@;
        proof {
            if stop {
                lemma_text_le_total(before[j as int], xs);
            }
        }
        out.insert(j, x.clone());
        proof {
            assert(strings_view(out@) =~= before.insert(j as int, xs));
            assert(names@.take(i + 1) =~= names@.take(i as int).push(names@[i as int]));
            assert(strings_view(names@.take(i + 1)) =~= strings_view(names@.take(i as int)).push(
                xs,
            ));
            vstd::seq_lib::to_multiset_insert(before, j as int, xs);
            vstd::seq_lib::to_multiset_build(strings_view(names@.take(i as int)), xs);
            let after = strings_view(out@);
            assert forall|a: int, b: int| 0 <= a < b < after.len() implies text_le(
                #[trigger] after[a],
                #[trigger] after[b],
            ) by {
                if a < j && b == j {
                    assert(text_le(out@[a]@, xs));
                } else if a < j && b > j {
                    assert(after[b] == before[b - 1]);
                } else if a == j {
                    assert(after[b] == before[b - 1]);
                    if b - 1 > j {
                        assert(text_le(before[j as int], before[b - 1]));
                        lemma_text_le_transitive(xs, before[j as int], before[b - 1]);
                    }
                } else if b < j {
                } else {
                    assert(after[a] == before[a - 1]);
                    assert(after[b] == before[b - 1]);
                }
            }
        }
        i += 1;
    }
    assert(names@.take(names@.len() as int) =~= names@);
    out
}

/// The options of the agent picker: the agents' names, sorted.
pub fn agent_options(agents: &Vec<(String, TenonAgent)>) -> (r: Vec<String>)
    ensures
        strings_view(r@).to_multiset() == agents@.map_values(|e: (String, TenonAgent)| e.0@).to_multiset(),
        sorted_texts(strings_view(r@)),
{
    let mut names: Vec<String> = Vec::new();
    let mut i: usize = 0;
    assert(strings_view(names@) =~= agents@.take(0).map_values(|e: (String, TenonAgent)| e.0@));
    while i < agents.len()
        invariant
            i <= agents@.len(),
            strings_view(names@) == agents@.take(i as int).map_values(|e: (String, TenonAgent)| e.0@),
        decreases agents@.len() - i,
    {
        let ghost old_names = names@;
        let name = agents[i].0.clone();
        names.push(name);
        proof {
            crate::text::lemma_strings_view_push(old_names, name);
            assert(agents@.take(i + 1) =~= agents@.take(i as int).push(agents@[i as int]));
            assert(strings_view(names@) =~= agents@.take(i + 1).map_values(
                |e: (String, TenonAgent)| e.0@,
            ));
        }
        i += 1;
    }
    assert(agents@.take(agents@.len() as int) =~= agents@);
    sorted_names(&names)
}

} // verus!
