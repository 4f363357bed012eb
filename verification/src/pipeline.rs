//! The decisions of one run: which model answers, and what is done with the
//! answer.

use vstd::prelude::*;
use crate::completion::{ResponseView, StructuredResponse};
use crate::error::PipelineError;
use crate::moderation::ModerationConfig;
use crate::random::weighted_coin;
use crate::render::{get_image_from_prompt, quoted_image_id, RenderRequest};

verus! {

/// The two models between which a run chooses, and the odds of the choice:
/// the fast one is taken `fast_weight` times in `total_weight`.
#[derive(Debug)]
pub struct ModelPolicy {
    fast_model: String,
    capable_model: String,
    fast_weight: u32,
    total_weight: u32,
}

impl ModelPolicy {
    #[verifier::type_invariant]
    spec fn well_formed(self) -> bool {
        self.total_weight > 0 && self.fast_weight <= self.total_weight
    }

    /// The model of the fast, cheap tier.
    pub closed spec fn fast(&self) -> Seq<char> {
        self.fast_model@
    }

    /// The model of the capable tier.
    pub closed spec fn capable(&self) -> Seq<char> {
        self.capable_model@
    }

    /// The share of the fast model: `weights().0` times in `weights().1`.
    pub closed spec fn weights(&self) -> (u32, u32) {
        (self.fast_weight, self.total_weight)
    }

    /// The model that a draw selects.
    pub open spec fn model_of(&self, fast: bool) -> Seq<char> {
        if fast {
            self.fast()
        } else {
            self.capable()
        }
    }

    /// A policy with the given models and odds, where the odds make sense:
    /// the total is not zero and the share of the fast model is no more
    /// than it.
    pub fn new(
        fast_model: String,
        capable_model: String,
        fast_weight: u32,
        total_weight: u32,
    ) -> (policy: Option<ModelPolicy>)
        ensures
            policy is Some <==> total_weight > 0 && fast_weight <= total_weight,
            policy matches Some(p) ==> p.fast() == fast_model@ && p.capable() == capable_model@
                && p.weights() == (fast_weight, total_weight),
    {
        if total_weight > 0 && fast_weight <= total_weight {
            Some(ModelPolicy { fast_model, capable_model, fast_weight, total_weight })
        } else {
            None
        }
    }

    /// The policy in use by default: `gpt-3.5-turbo` 95 times in 100,
    /// `gpt-4` the other 5.
    pub fn standard() -> (policy: ModelPolicy)
        ensures
            policy.fast() == "gpt-3.5-turbo"@,
            policy.capable() == "gpt-4"@,
            policy.weights() == (95u32, 100u32),
    {
        ModelPolicy {
            fast_model: "gpt-3.5-turbo".to_owned(),
            capable_model: "gpt-4".to_owned(),
            fast_weight: 95,
            total_weight: 100,
        }
    }

    /// The model that a draw selects: the fast one on `true`.
    pub fn model_for(&self, fast: bool) -> (model: String)
        ensures
            model@ == self.model_of(fast),
    {
        if fast {
            self.fast_model.clone()
        } else {
            self.capable_model.clone()
        }
    }

    /// The model for one run, selected by a weighted coin. It is one of the
    /// two; with all the weight on one side it is that one.
    pub fn select_model(&self) -> (model: String)
        ensures
            model@ == self.fast() || model@ == self.capable(),
            self.weights().0 == self.weights().1 ==> model@ == self.fast(),
            self.weights().0 == 0 ==> model@ == self.capable(),
    {
        proof {
            use_type_invariant(self);
        }
        let fast = weighted_coin(self.fast_weight, self.total_weight);
        self.model_for(fast)
    }
}

/// What a run publishes.
#[derive(Debug)]
pub enum Publication {
    /// A status with this text and no media.
    Status { text: String },
    /// An image macro rendered from this request, posted with an empty status.
    Meme { request: RenderRequest },
}

/// What a `Publication` holds, as plain values.
pub enum PublicationView {
    Status { text: Seq<char> },
    Meme { base_image_id: Seq<char>, top_caption: Seq<char>, bottom_caption: Seq<char> },
}

impl View for Publication {
    type V = PublicationView;

    open spec fn view(&self) -> PublicationView {
        match self {
            Publication::Status { text } => PublicationView::Status { text: text@ },
            Publication::Meme { request } => PublicationView::Meme {
                base_image_id: request.base_image_id@,
                top_caption: request.top_caption@,
                bottom_caption: request.bottom_caption@,
            },
        }
    }
}

/// An answer with each of its texts moderated.
pub open spec fn moderated(response: ResponseView, config: &ModerationConfig) -> ResponseView {
    match response {
        ResponseView::Text { text } => ResponseView::Text { text: config.sanitized(text) },
        ResponseView::Image { top_text, bottom_text } => ResponseView::Image {
            top_text: config.sanitized(top_text),
            bottom_text: config.sanitized(bottom_text),
        },
    }
}

/// What is published for an answer as it stands: its text as a status, or
/// its two captions on the image that the resolved prompt names. An image
/// prompt that names no image cannot be published.
pub open spec fn publication_from(response: ResponseView, prompt: Seq<char>) -> Result<
    PublicationView,
    PipelineError,
> {
    match response {
        ResponseView::Text { text } => Ok(PublicationView::Status { text }),
        ResponseView::Image { top_text, bottom_text } => match quoted_image_id(prompt) {
            Some(id) => Ok(
                PublicationView::Meme {
                    base_image_id: id,
                    top_caption: top_text,
                    bottom_caption: bottom_text,
                },
            ),
            None => Err(PipelineError::MalformedImagePrompt),
        },
    }
}

/// What is published for an answer: the answer is moderated, then published
/// by its kind.
pub open spec fn publication_of(
    response: ResponseView,
    prompt: Seq<char>,
    config: &ModerationConfig,
) -> Result<PublicationView, PipelineError> {
    publication_from(moderated(response, config), prompt)
}

/// The plan as plain values.
pub open spec fn plan_view(plan: Result<Publication, PipelineError>) -> Result<
    PublicationView,
    PipelineError,
> {
    match plan {
        Ok(publication) => Ok(publication@),
        Err(e) => Err(e),
    }
}

/// What to publish for `response`, the answer to the resolved `prompt`. A
/// text answer always gives a status, an image answer a meme or a failure.
/// With a configuration that filters no word the texts are published as
/// they came.
pub fn plan_publication(
    response: &StructuredResponse,
    prompt: &str,
    config: &ModerationConfig,
) -> (plan: Result<Publication, PipelineError>)
    ensures
        plan_view(plan) == publication_of(response@, prompt@, config),
        config.words() == Set::<Seq<char>>::empty() ==> plan_view(plan) == publication_from(
            response@,
            prompt@,
        ),
        response is Text ==> plan is Ok && plan->Ok_0 is Status,
        response is Image && plan is Ok ==> plan->Ok_0 is Meme,
{
    match response {
        StructuredResponse::Text { text } => Ok(
            Publication::Status { text: config.sanitize(text.as_str()) },
        ),
        StructuredResponse::Image { top_text, bottom_text } => {
            let top_caption = config.sanitize(top_text.as_str());
            let bottom_caption = config.sanitize(bottom_text.as_str());
            match get_image_from_prompt(prompt) {
                Ok(base_image_id) => Ok(
                    Publication::Meme {
                        request: RenderRequest { base_image_id, top_caption, bottom_caption },
                    },
                ),
                Err(e) => Err(e),
            }
        },
    }
}

} // verus!
