//! The failures that the library itself reports.

use vstd::prelude::*;

verus! {

/// Why a run of the pipeline stopped. Every failure is final: nothing is
/// retried and no partial result is handed out.
#[derive(Clone, Copy, Debug, PartialEq, Eq, Structural)]
pub enum PipelineError {
    /// A fill-in catalog held no candidate once its comment lines were taken out.
    EmptyCatalog,
    /// The completion provider returned no candidate.
    NoCompletionChoice,
    /// The provider's reply does not have the shape that was asked for.
    MalformedStructuredReply,
    /// An image prompt does not name its base image between two double quotes.
    MalformedImagePrompt,
    /// A caption cannot be placed on the image.
    RenderError,
}

impl PipelineError {
    /// The text of the message for each failure.
    pub open spec fn message_text(self) -> Seq<char> {
        match self {
            PipelineError::EmptyCatalog => "fill-in catalog has no entries"@,
            PipelineError::NoCompletionChoice => "No first item in response"@,
            PipelineError::MalformedStructuredReply => "reply does not match the requested shape"@,
            PipelineError::MalformedImagePrompt => "image prompt names no image between quotes"@,
            PipelineError::RenderError => "caption does not fit on the image"@,
        }
    }

    /// A message for people, one per failure.
    pub fn message(&self) -> (text: String)
        ensures
            text@ == self.message_text(),
    {
        match self {
            PipelineError::EmptyCatalog => "fill-in catalog has no entries".to_owned(),
            PipelineError::NoCompletionChoice => "No first item in response".to_owned(),
            PipelineError::MalformedStructuredReply => "reply does not match the requested shape".to_owned(),
            PipelineError::MalformedImagePrompt => "image prompt names no image between quotes".to_owned(),
            PipelineError::RenderError => "caption does not fit on the image".to_owned(),
        }
    }
}

} // verus!
