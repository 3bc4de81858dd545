//! How the chat window shows a message.
use vstd::prelude::*;

use crate::text::{char_vecs_view, lines, spec_lines, string_from_chars, strings_view, to_chars};

verus! {

broadcast use vstd::string::group_string_axioms;

/// Who a message of the conversation is from.
#[derive(Clone, Copy, Debug, PartialEq, Eq, Structural)]
pub enum ChatRole {
    User,
    Assistant,
    System,
    ToolResult,
}

/// The text a message shows in the chat: a heading for its author, the
/// content and a rule; system messages and tool results are not shown.
pub open spec fn spec_chat_string(role: ChatRole, content: Seq<char>) -> Option<Seq<char>> {
    match role {
        ChatRole::User => Some("# User\n\n"@ + content + "\n\n---\n"@),
        ChatRole::Assistant => Some("# Assistant\n\n"@ + content + "\n\n---\n"@),
        ChatRole::System => None,
        ChatRole::ToolResult => None,
    }
}

/// The text a message shows in the chat (see `spec_chat_string`).
pub fn as_chat_string(role: ChatRole, content: &str) -> (r: Option<String>)
    ensures
        match spec_chat_string(role, content@) {
            Some(s) => r matches Some(x) && x@ == s,
            None => r is None,
        },
{
    let heading = match role {
        ChatRole::User => "# User\n\n",
        ChatRole::Assistant => "# Assistant\n\n",
        ChatRole::System => {
            return None;
        },
        ChatRole::ToolResult => {
            return None;
        },
    };
    let mut s = heading.to_string();
    s.append(content);
    s.append("\n\n---\n");
    Some(s)
}

/// The buffer lines a message shows as: the lines of its text, none when it
/// is not shown.
pub fn as_chat_lines(role: ChatRole, content: &str) -> (r: Vec<String>)
    ensures
        strings_view(r@) == match spec_chat_string(role, content@) {
            Some(s) => spec_lines(s),
            None => Seq::<Seq<char>>::empty(),
        },
{
    match as_chat_string(role, content) {
        Some(s) => {
            let chars = to_chars(s.as_str());
            let ls = lines(&chars);
            let mut out: Vec<String> = Vec::new();
            let mut i: usize = 0;
            while i < ls.len()
                invariant
                    i <= ls@.len(),
                    strings_view(out@) == char_vecs_view(ls@).take(i as int),
                decreases ls@.len() - i,
            {
                let ghost before = out@;
                let line = string_from_chars(&ls[i]);
                out.push(line);
                proof {
                    crate::text::lemma_strings_view_push(before, line);
                    assert(char_vecs_view(ls@).take(i + 1) =~= char_vecs_view(ls@).take(i as int).push(
                        ls@[i as int]@,
                    ));
                }
                i += 1;
            }
            assert(char_vecs_view(ls@).take(ls@.len() as int) =~= char_vecs_view(ls@));
            out
        },
        None => Vec::new(),
    }
}

} // verus!
