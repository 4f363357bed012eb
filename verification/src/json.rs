//! Reading a text member out of a JSON document.

use vstd::prelude::*;
use crate::error::PipelineError;

verus! {

/// The text under `key` in the JSON document that `document` spells: there
/// is one where the document is valid JSON, is an object, has a member
/// called `key`, and that member is a string.
pub uninterp spec fn json_text_member(document: Seq<char>, key: Seq<char>) -> Option<Seq<char>>;

/// Parses `document` with `serde_json::from_str`, looks `key` up with
/// `Value::get` and reads the member with `Value::as_str`. Each of the three
/// gives nothing rather than fail, so the outcome is the text of that member
/// or nothing, and depends on the two arguments alone.
#[verifier::external_body]
pub(crate) fn text_member(document: &str, key: &str) -> (text: Option<String>)
    ensures
        text is Some <==> json_text_member(document@, key@) is Some,
        text matches Some(found) ==> json_text_member(document@, key@) == Some(found@),
{
    let value: serde_json::Value = serde_json::from_str(document).ok()?;
    Some(value.get(key)?.as_str()?.to_string())
}

/// The text that a reply must hold: a reply without it is malformed.
pub fn required_text(found: Option<String>) -> (text: Result<String, PipelineError>)
    ensures
        match found {
            Some(held) => text == Ok::<String, PipelineError>(held),
            None => text == Err::<String, PipelineError>(
                PipelineError::MalformedStructuredReply,
            ),
        },
{
    match found {
        Some(held) => Ok(held),
        None => Err(PipelineError::MalformedStructuredReply),
    }
}

} // verus!
