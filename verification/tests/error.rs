use memegen::error::PipelineError;

#[test]
fn every_failure_has_its_message() {
    assert_eq!(PipelineError::EmptyCatalog.message(), "fill-in catalog has no entries");
    assert_eq!(PipelineError::NoCompletionChoice.message(), "No first item in response");
    assert_eq!(
        PipelineError::MalformedStructuredReply.message(),
        "reply does not match the requested shape"
    );
    assert_eq!(
        PipelineError::MalformedImagePrompt.message(),
        "image prompt names no image between quotes"
    );
    assert_eq!(PipelineError::RenderError.message(), "caption does not fit on the image");
}
