//! The `fetch_webpage` tool: recognizing PDF responses and asking the model
//! about a page.
use vstd::prelude::*;

use crate::text::{chars_contains, spec_ascii_lowercase, spec_contains, to_chars};

verus! {

broadcast use vstd::string::group_string_axioms;

/// The arguments of `fetch_webpage`.
#[derive(Debug)]
pub struct FetchWebpageArgs {
    pub url: String,
    pub prompt: Option<String>,
}

/// The `fetch_webpage` tool.
#[derive(Debug)]
pub struct FetchWebpage;

/// The content type names a PDF: it holds `application/pdf` in any case.
/// (Only ASCII letters can take part in such a match, so ignoring ASCII case
/// is ignoring case.)
pub open spec fn spec_is_pdf(content_type: Option<Seq<char>>) -> bool {
    match content_type {
        Some(ct) => spec_contains(spec_ascii_lowercase(ct), "application/pdf"@),
        None => false,
    }
}

/// Whether a response with this `Content-Type` is a PDF document.
pub fn is_pdf_content_type(content_type: Option<&str>) -> (r: bool)
    ensures
        r == spec_is_pdf(
            match content_type {
                Some(c) => Some(c@),
                None => None,
            },
        ),
{
    match content_type {
        None => false,
        Some(ct) => {
            let v = to_chars(ct);
            let mut lower: Vec<char> = Vec::new();
            let mut i: usize = 0;
            while i < v.len()
                invariant
                    i <= v@.len(),
                    lower@ == spec_ascii_lowercase(v@).subrange(0, i as int),
                decreases v@.len() - i,
            {
                let c = v[i];
                let l = if 'A' <= c && c <= 'Z' {
                    (((c as u32) + 32) as u8) as char
                } else {
                    c
                };
                proof {
                    if 'A' <= c && c <= 'Z' {
                        assert((((c as u32) + 32) as u8) as char == ((c as u32) + 32) as char);
                    }
                }
                lower.push(l);
                assert(lower@ =~= spec_ascii_lowercase(v@).subrange(0, i + 1));
                i += 1;
            }
            assert(spec_ascii_lowercase(v@).subrange(0, v@.len() as int) =~= spec_ascii_lowercase(v@));
            let needle = to_chars("application/pdf");
            chars_contains(&lower, &needle)
        },
    }
}

impl FetchWebpage {
    /// The message that asks the model `prompt` about the page's `markdown`.
    pub fn question(prompt: &str, markdown: &str) -> (r: String)
        ensures
            r@ == prompt@ + "\n\nWebpage content:\n\n"@ + markdown@,
    {
        let mut s = prompt.to_string();
        s.append("\n\nWebpage content:\n\n");
        s.append(markdown);
        s
    }
}

} // verus!
