//! The `record_thought` tool: when a thought is long enough to be
//! summarized, and which summaries are kept.
use vstd::prelude::*;
use vstd::string::*;

use crate::text::{spec_trim, trim};

verus! {

broadcast use vstd::string::group_string_axioms;

/// Thoughts shorter than this, in bytes, are recorded without a summary.
pub const SUMMARY_MIN_BYTES: usize = 100;

/// The arguments of `record_thought`.
#[derive(Debug)]
pub struct RecordThoughtArgs {
    pub thought: String,
}

/// The `record_thought` tool.
#[derive(Debug)]
pub struct RecordThought;

impl RecordThought {
    /// Whether the thought is long enough to be summarized.
    pub fn needs_summary(thought: &str) -> (r: bool)
        ensures
            r == (thought.spec_bytes().len() >= SUMMARY_MIN_BYTES),
    {
        thought.as_bytes().len() >= SUMMARY_MIN_BYTES
    }

    /// The summary that is kept: one that is not blank.
    pub fn usable_summary(summary: Option<String>) -> (r: Option<String>)
        ensures
            match summary {
                Some(s) => if spec_trim(s@).len() > 0 {
                    r matches Some(x) && x@ == s@
                } else {
                    r is None
                },
                None => r is None,
            },
    {
        match summary {
            Some(s) => {
                let t = trim(s.as_str());
                if t.as_str().unicode_len() > 0 {
                    Some(s)
                } else {
                    None
                }
            },
            None => None,
        }
    }

    /// The message that asks for the summary of `thought`.
    pub fn summary_request(thought: &str) -> (r: String)
        ensures
            r@ == "Thought to summarize:\n```\n"@ + thought@ + "\n```"@,
    {
        let mut s = "Thought to summarize:\n```\n".to_string();
        s.append(thought);
        s.append("\n```");
        s
    }
}

} // verus!
