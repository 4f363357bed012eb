use memegen::error::PipelineError;
use memegen::publish::{
    media_endpoint, media_id_from_reply, media_mime, status_endpoint, status_form, FormField,
};

fn pairs(form: &[FormField]) -> Vec<(&str, &str)> {
    form.iter().map(|f| (f.name.as_str(), f.value.as_str())).collect()
}

#[test]
fn endpoints() {
    assert_eq!(media_endpoint("example.social"), "https://example.social/api/v2/media");
    assert_eq!(status_endpoint("example.social"), "https://example.social/api/v1/statuses");
    assert_eq!(media_mime(), "image/jpeg");
}

#[test]
fn text_post_has_no_media() {
    let form = status_form("I like dogs", None);
    assert_eq!(
        pairs(&form),
        vec![("status", "I like dogs"), ("visibility", "public"), ("language", "en"), ("media_ids[]", "")]
    );
}

#[test]
fn image_post_carries_the_handle() {
    let form = status_form("", Some("12345".to_string()));
    assert_eq!(
        pairs(&form),
        vec![("status", ""), ("visibility", "public"), ("language", "en"), ("media_ids[]", "12345")]
    );
}

#[test]
fn handle_is_read_from_the_upload_reply() {
    assert_eq!(media_id_from_reply(r#"{"id": "109", "type": "image"}"#), Ok("109".to_string()));
}

#[test]
fn upload_reply_without_handle_is_malformed() {
    for reply in ["", "{}", r#"{"id": 109}"#, r#"["id"]"#, r#"{"error": "unauthorized"}"#] {
        assert_eq!(media_id_from_reply(reply), Err(PipelineError::MalformedStructuredReply), "{:?}", reply);
    }
}
