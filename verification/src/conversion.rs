//! Document-conversion requests: the bodies sent to the generation API and
//! the assembly of its response text. The HTTP round trip itself lives in
//! the shell; retries follow the shared policy.

use vstd::prelude::*;
use vstd::string::StringExecFns;
use crate::orchestrator::spec_join;
use crate::text::spec_trim;

verus! {

/// The request body of a LaTeX-to-Markdown conversion.
pub open spec fn spec_markdown_body(prompt: Seq<char>, latex: Seq<char>) -> Seq<char> {
    "Instructions:\n"@ + prompt + "\n\nLaTeX:\n"@ + latex
}

/// The request body of a LaTeX-to-Markdown conversion. An input that is
/// blank needs no request at all: the caller returns empty output directly.
pub fn latex_to_markdown_body(prompt: &str, latex: &str) -> (r: Option<String>)
    ensures
        match r {
            Some(body) => spec_trim(latex@).len() > 0 && body@ == spec_markdown_body(
                prompt@,
                latex@,
            ),
            None => spec_trim(latex@).len() == 0,
        },
{
    let trimmed = crate::text::trim(latex);
    if trimmed.as_str().unicode_len() == 0 {
        return None;
    }
    let mut body = String::from_str("Instructions:\n");
    body.append(prompt);
    body.append("\n\nLaTeX:\n");
    body.append(latex);
    Some(body)
}

/// The request body of a conversion to JSON: the source rides in a fenced
/// block.
pub open spec fn spec_json_body(prompt: Seq<char>, text: Seq<char>) -> Seq<char> {
    "Instructions:\n"@ + prompt + "\n\n```\n"@ + text + "\n```"@
}

/// The request body of a conversion to JSON. A blank input needs no
/// request: the caller returns an empty JSON array directly.
pub fn to_json_body(prompt: &str, text: &str) -> (r: Option<String>)
    ensures
        match r {
            Some(body) => spec_trim(text@).len() > 0 && body@ == spec_json_body(prompt@, text@),
            None => spec_trim(text@).len() == 0,
        },
{
    let trimmed = crate::text::trim(text);
    if trimmed.as_str().unicode_len() == 0 {
        return None;
    }
    let mut body = String::from_str("Instructions:\n");
    body.append(prompt);
    body.append("\n\n```\n");
    body.append(text);
    body.append("\n```");
    Some(body)
}

/// The candidate text of a response: its text parts joined with newlines,
/// or nothing when the response carried no text at all.
pub fn extract_text(parts: &Vec<String>) -> (r: Option<String>)
    ensures
        match r {
            Some(text) => parts@.len() > 0 && text@ == spec_join(
                parts@.map_values(|t: String| t@),
                "\n"@,
            ),
            None => parts@.len() == 0,
        },
{
    if parts.len() == 0 {
        return None;
    }
    let ghost all = parts@.map_values(|t: String| t@);
    let mut out = String::new();
    let n = parts.len();
    let mut k: usize = 0;
    while k < n
        invariant
            0 < n == parts@.len(),
            0 <= k <= n,
            all == parts@.map_values(|t: String| t@),
            out@ == spec_join(all.subrange(0, k as int), "\n"@),
        decreases n - k,
    {
        let ghost sofar = all.subrange(0, k as int);
        if k > 0 {
            out.append("\n");
        }
        out.append(parts[k].as_str());
        proof {
            assert(all.subrange(0, k as int + 1) =~= sofar.push(all[k as int]));
            crate::orchestrator::lemma_join_push(sofar, "\n"@, all[k as int]);
            if k == 0 {
                assert(out@ =~= all[0]);
            }
        }
        k += 1;
    }
    proof {
        assert(all.subrange(0, n as int) =~= all);
    }
    Some(out)
}

} // verus!
