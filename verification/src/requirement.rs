//! Requirement identifiers and the output of the Braingrid tool.
use vstd::prelude::*;
use crate::text;
use crate::text::{chars_of, find_from, slice, starts_with, string_from_chars};

verus! {

/// The requirement id given does not have the form `REQ-XXX`.
#[derive(Debug, Clone, Copy, PartialEq, Eq)]
pub struct InvalidRequirementId;

/// Checks that a requirement id has the form `REQ-XXX` (starts with `REQ-`).
pub fn check_requirement_id(req_id: &str) -> (r: Result<(), InvalidRequirementId>)
    ensures
        r is Ok <==> "REQ-"@.is_prefix_of(req_id@),
{
    let id = chars_of(req_id);
    let prefix = chars_of("REQ-");
    if starts_with(&id, &prefix) {
        Ok(())
    } else {
        Err(InvalidRequirementId)
    }
}

/// The JSON document in the tool's output: from its first `{` on, the whole
/// output when there is none (a spinner may precede the document).
pub open spec fn json_payload_of(out: Seq<char>) -> Seq<char> {
    match text::find_first(out, seq!['{'], 0) {
        Some(i) => out.skip(i),
        None => out,
    }
}

/// The JSON document in the tool's output, past any spinner animation.
pub fn json_payload(stdout: &str) -> (r: String)
    ensures
        r@ == json_payload_of(stdout@),
{
    let out = chars_of(stdout);
    let brace = vec!['{'];
    assert(brace@ =~= seq!['{']);
    proof {
        text::lemma_find_first(out@, brace@, 0);
    }
    match find_from(&out, &brace, 0) {
        Some(i) => {
            let rest = slice(&out, i, out.len());
            assert(rest@ =~= out@.skip(i as int));
            string_from_chars(&rest)
        },
        None => String::from_str(stdout),
    }
}

impl InvalidRequirementId {
    /// The message shown for the error.
    pub fn message(&self) -> (r: String)
        ensures
            r@ == "Invalid requirement ID format. Expected format: REQ-XXX (e.g., REQ-173)"@,
    {
        String::from_str("Invalid requirement ID format. Expected format: REQ-XXX (e.g., REQ-173)")
    }
}

} // verus!
