//! Hooks: user commands run when the agent needs attention.
use vstd::prelude::*;

use crate::text::{str_eq, strings_view};

verus! {

broadcast use vstd::string::group_string_axioms;

/// When a hook fires.
#[derive(Clone, Copy, Debug, PartialEq, Eq, Structural)]
pub enum HookType {
    /// The streaming loop ended, or the agent waits for the user.
    NeedsAttention,
}

/// A user hook.
#[derive(Debug)]
pub struct Hook {
    pub name: String,
    pub command: String,
    pub enabled: bool,
    pub hook_type: HookType,
}

/// One hook to run: its name (for error reports), the command for `bash -c`,
/// and the value of `TENON_CHAT_TITLE` in its environment.
#[derive(Debug)]
pub struct HookInvocation {
    pub name: String,
    pub command: String,
    pub chat_title: String,
}

/// The chat title a hook sees: `Untitled` for an empty title.
pub open spec fn spec_hook_title(chat_title: Seq<char>) -> Seq<char> {
    if chat_title.len() == 0 {
        "Untitled"@
    } else {
        chat_title
    }
}

/// Whether the hook fires when the agent needs attention with these hooks
/// active.
pub open spec fn fires(h: Hook, active: Seq<Seq<char>>) -> bool {
    active.contains(h.name@) && h.hook_type == HookType::NeedsAttention
}

/// Whether `inv` runs hook `h` for this chat title.
pub open spec fn invokes(inv: HookInvocation, h: Hook, chat_title: Seq<char>) -> bool {
    &&& inv.name@ == h.name@
    &&& inv.command@ == h.command@
    &&& inv.chat_title@ == spec_hook_title(chat_title)
}

/// The hooks among the first `n` that fire, in order.
pub open spec fn firing_hooks(hooks: Seq<Hook>, active: Seq<Seq<char>>, n: int) -> Seq<Hook>
    decreases n,
{
    if n <= 0 {
        seq![]
    } else {
        let prev = firing_hooks(hooks, active, n - 1);
        if fires(hooks[n - 1], active) {
            prev.push(hooks[n - 1])
        } else {
            prev
        }
    }
}

impl Hook {
    /// How the hook runs for a chat: its command, with the chat title exposed
    /// as `TENON_CHAT_TITLE` (`Untitled` when the title is empty).
    pub fn invocation(&self, chat_title: &str) -> (r: HookInvocation)
        ensures
            invokes(r, *self, chat_title@),
    {
        proof {
            reveal_strlit("Untitled");
        }
        let title = if chat_title.unicode_len() == 0 {
            "Untitled".to_string()
        } else {
            chat_title.to_string()
        };
        HookInvocation { name: self.name.clone(), command: self.command.clone(), chat_title: title }
    }
}

/// Whether `name` is one of `active`.
fn is_active(active: &[String], name: &str) -> (r: bool)
    ensures
        r == strings_view(active@).contains(name@),
{
    let mut i: usize = 0;
    while i < active.len()
        invariant
            i <= active@.len(),
            forall|j: int| 0 <= j < i ==> active@[j]@ != name@,
        decreases active@.len() - i,
    {
        if str_eq(active[i].as_str(), name) {
            assert(strings_view(active@)[i as int] == name@);
            return true;
        }
        i += 1;
    }
    assert forall|j: int| 0 <= j < strings_view(active@).len() implies strings_view(active@)[j]
        != name@ by {
        assert(active@[j]@ != name@);
    }
    false
}

/// The `NeedsAttention` hooks whose names are in `active`, in order, each
/// prepared to run for `chat_title`.
pub fn run_needs_attention_hooks(hooks: &[Hook], active: &[String], chat_title: &str) -> (r: Vec<
    HookInvocation,
>)
    ensures
        r@.len() == firing_hooks(hooks@, strings_view(active@), hooks@.len() as int).len(),
        forall|i: int|
            0 <= i < r@.len() ==> #[trigger] invokes(
                r@[i],
                firing_hooks(hooks@, strings_view(active@), hooks@.len() as int)[i],
                chat_title@,
            ),
{
    let ghost act = strings_view(active@);
    let mut out: Vec<HookInvocation> = Vec::new();
    let mut i: usize = 0;
    while i < hooks.len()
        invariant
            i <= hooks@.len(),
            act == strings_view(active@),
            out@.len() == firing_hooks(hooks@, act, i as int).len(),
            forall|j: int|
                0 <= j < out@.len() ==> #[trigger] invokes(
                    out@[j],
                    firing_hooks(hooks@, act, i as int)[j],
                    chat_title@,
                ),
        decreases hooks@.len() - i,
    {
        let h = &hooks[i];
        if is_active(active, h.name.as_str()) && h.hook_type == HookType::NeedsAttention {
            out.push(h.invocation(chat_title));
        }
        i += 1;
    }
    out
}

} // verus!
