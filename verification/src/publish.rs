//! What is sent to the social feed: the two endpoints, the form of a status
//! post, and the handle that an upload gives back.

use vstd::prelude::*;
use vstd::string::StringExecFns;
use crate::error::PipelineError;
use crate::json::{json_text_member, required_text, text_member};

verus! {

/// The address to which media are uploaded on `instance`.
pub open spec fn media_url(instance: Seq<char>) -> Seq<char> {
    "https://"@ + instance + "/api/v2/media"@
}

/// The address to which statuses are posted on `instance`.
pub open spec fn status_url(instance: Seq<char>) -> Seq<char> {
    "https://"@ + instance + "/api/v1/statuses"@
}

/// The address to which media are uploaded on `instance`.
pub fn media_endpoint(instance: &str) -> (url: String)
    ensures
        url@ == media_url(instance@),
{
    "https://".to_owned().concat(instance).concat("/api/v2/media")
}

/// The address to which statuses are posted on `instance`.
pub fn status_endpoint(instance: &str) -> (url: String)
    ensures
        url@ == status_url(instance@),
{
    "https://".to_owned().concat(instance).concat("/api/v1/statuses")
}

/// The MIME type under which a rendered image is uploaded.
pub fn media_mime() -> (mime: String)
    ensures
        mime@ == "image/jpeg"@,
{
    "image/jpeg".to_owned()
}

/// One parameter of a form: its name and its value.
#[derive(Debug)]
pub struct FormField {
    pub name: String,
    pub value: String,
}

/// The names of a form's parameters, in order.
pub open spec fn form_names(form: Seq<FormField>) -> Seq<Seq<char>> {
    form.map_values(|f: FormField| f.name@)
}

/// The values of a form's parameters, in order.
pub open spec fn form_values(form: Seq<FormField>) -> Seq<Seq<char>> {
    form.map_values(|f: FormField| f.value@)
}

/// The value of the media parameter: the handle, or the empty text where
/// the post has no media.
pub open spec fn media_value(media_id: Option<Seq<char>>) -> Seq<char> {
    match media_id {
        Some(id) => id,
        None => Seq::empty(),
    }
}

/// The form of a status post: a public post in English with the given text
/// and, where there is one, the given media attached.
pub fn status_form(text: &str, media_id: Option<String>) -> (form: Vec<FormField>)
    ensures
        form_names(form@) == seq!["status"@, "visibility"@, "language"@, "media_ids[]"@],
        form_values(form@) == seq![
            text@,
            "public"@,
            "en"@,
            media_value(
                match media_id {
                    Some(id) => Some(id@),
                    None => None,
                },
            ),
        ],
{
    let media = match media_id {
        Some(id) => id,
        None => String::new(),
    };
    let mut form: Vec<FormField> = Vec::new();
    form.push(FormField { name: "status".to_owned(), value: text.to_owned() });
    form.push(FormField { name: "visibility".to_owned(), value: "public".to_owned() });
    form.push(FormField { name: "language".to_owned(), value: "en".to_owned() });
    form.push(FormField { name: "media_ids[]".to_owned(), value: media });
    assert(form_names(form@) =~= seq!["status"@, "visibility"@, "language"@, "media_ids[]"@]);
    assert(form_values(form@) =~= seq![text@, "public"@, "en"@, media@]);
    form
}

/// The handle of an uploaded medium: the text under `id` in the reply to the
/// upload. A reply without one is malformed.
pub fn media_id_from_reply(reply: &str) -> (id: Result<String, PipelineError>)
    ensures
        match id {
            Ok(handle) => json_text_member(reply@, "id"@) == Some(handle@),
            Err(e) => e == PipelineError::MalformedStructuredReply && json_text_member(
                reply@,
                "id"@,
            ) is None,
        },
{
    required_text(text_member(reply, "id"))
}

} // verus!
