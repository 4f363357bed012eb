//! What goes to the completion provider, and what is made of its reply.

use vstd::prelude::*;
use crate::error::PipelineError;
use crate::json::{json_text_member, text_member};
use crate::prompt::PromptType;
use crate::schema::{
    field_names, function_name, get_function_call, get_functions, required_fields, schema_of,
    FieldSpec, FieldSpecView,
};
use crate::text::texts_of;

verus! {

/// The most tokens that the provider may generate for one answer.
pub const MAX_TOKENS: u16 = 768;

/// One request to the provider: a single user message, the contract for the
/// answer, and the function that the answer must call.
#[derive(Debug)]
pub struct CompletionRequest {
    pub model: String,
    pub prompt: String,
    pub functions: FieldSpec,
    pub function_call: String,
    pub max_tokens: u16,
}

/// What a `CompletionRequest` holds, as plain values.
pub struct CompletionRequestView {
    pub model: Seq<char>,
    pub prompt: Seq<char>,
    pub functions: FieldSpecView,
    pub function_call: Seq<char>,
    pub max_tokens: u16,
}

impl View for CompletionRequest {
    type V = CompletionRequestView;

    open spec fn view(&self) -> CompletionRequestView {
        CompletionRequestView {
            model: self.model@,
            prompt: self.prompt@,
            functions: self.functions@,
            function_call: self.function_call@,
            max_tokens: self.max_tokens,
        }
    }
}

/// The request for a prompt of the given kind: its contract and function
/// follow from the kind alone.
pub open spec fn request_of(
    kind: PromptType,
    model: Seq<char>,
    prompt: Seq<char>,
) -> CompletionRequestView {
    CompletionRequestView {
        model,
        prompt,
        functions: schema_of(kind),
        function_call: function_name(kind),
        max_tokens: MAX_TOKENS,
    }
}

/// The request that puts `prompt` to `model` for an answer of the shape that
/// `kind` asks for.
pub fn query_request(kind: PromptType, model: String, prompt: String) -> (request:
    CompletionRequest)
    ensures
        request@ == request_of(kind, model@, prompt@),
{
    CompletionRequest {
        model,
        prompt,
        functions: get_functions(kind),
        function_call: get_function_call(kind),
        max_tokens: MAX_TOKENS,
    }
}

/// The provider's answer, in the shape of the prompt's kind.
#[derive(Debug)]
pub enum StructuredResponse {
    Text { text: String },
    Image { top_text: String, bottom_text: String },
}

/// What a `StructuredResponse` holds, as plain values.
pub enum ResponseView {
    Text { text: Seq<char> },
    Image { top_text: Seq<char>, bottom_text: Seq<char> },
}

impl View for StructuredResponse {
    type V = ResponseView;

    open spec fn view(&self) -> ResponseView {
        match self {
            StructuredResponse::Text { text } => ResponseView::Text { text: text@ },
            StructuredResponse::Image { top_text, bottom_text } => ResponseView::Image {
                top_text: top_text@,
                bottom_text: bottom_text@,
            },
        }
    }
}

impl ResponseView {
    /// The kind of prompt that this answers.
    pub open spec fn kind(self) -> PromptType {
        match self {
            ResponseView::Text { .. } => PromptType::Text,
            ResponseView::Image { .. } => PromptType::Image,
        }
    }
}

/// What each of a sequence of optional strings holds.
pub open spec fn optional_texts(found: Seq<Option<String>>) -> Seq<Option<Seq<char>>> {
    found.map_values(
        |o: Option<String>|
            match o {
                Some(s) => Some(s@),
                None => None,
            },
    )
}

/// The answer that the texts found for the fields of `kind` make, where
/// `found[i]` is what was found for field number `i`: none unless there is a
/// text for every field.
pub open spec fn reply_from(kind: PromptType, found: Seq<Option<Seq<char>>>) -> Option<
    ResponseView,
> {
    match kind {
        PromptType::Text => if found.len() == 1 && found[0] is Some {
            Some(ResponseView::Text { text: found[0]->0 })
        } else {
            None
        },
        PromptType::Image => if found.len() == 2 && found[0] is Some && found[1] is Some {
            Some(ResponseView::Image { top_text: found[0]->0, bottom_text: found[1]->0 })
        } else {
            None
        },
    }
}

/// What a JSON document holds for each field of `kind`.
pub open spec fn members_of(kind: PromptType, document: Seq<char>) -> Seq<Option<Seq<char>>> {
    field_names(kind).map_values(|key: Seq<char>| json_text_member(document, key))
}

/// The answer that a JSON document spells for a prompt of `kind`.
pub open spec fn reply_of(kind: PromptType, document: Seq<char>) -> Option<ResponseView> {
    reply_from(kind, members_of(kind, document))
}

/// The answer made of the texts found for the fields of `kind`, in the order
/// in which `kind` declares them. A field without a text makes the reply
/// malformed, and so does a wrong number of fields.
pub fn assemble_reply(kind: PromptType, found: &Vec<Option<String>>) -> (reply: Result<
    StructuredResponse,
    PipelineError,
>)
    ensures
        match reply {
            Ok(response) => reply_from(kind, optional_texts(found@)) == Some(response@)
                && response@.kind() == kind,
            Err(e) => e == PipelineError::MalformedStructuredReply && reply_from(
                kind,
                optional_texts(found@),
            ) is None,
        },
{
    match kind {
        PromptType::Text => {
            if found.len() != 1 {
                return Err(PipelineError::MalformedStructuredReply);
            }
            match &found[0] {
                Some(text) => Ok(StructuredResponse::Text { text: text.clone() }),
                None => Err(PipelineError::MalformedStructuredReply),
            }
        },
        PromptType::Image => {
            if found.len() != 2 {
                return Err(PipelineError::MalformedStructuredReply);
            }
            match (&found[0], &found[1]) {
                (Some(top), Some(bottom)) => Ok(
                    StructuredResponse::Image { top_text: top.clone(), bottom_text: bottom.clone() },
                ),
                _ => Err(PipelineError::MalformedStructuredReply),
            }
        },
    }
}

/// The answer that `arguments`, the arguments of the provider's function
/// call, spell for a prompt of `kind`. They must be a JSON object with a
/// string under every field of the kind.
pub fn parse_reply(kind: PromptType, arguments: &str) -> (reply: Result<
    StructuredResponse,
    PipelineError,
>)
    ensures
        match reply {
            Ok(response) => reply_of(kind, arguments@) == Some(response@) && response@.kind()
                == kind,
            Err(e) => e == PipelineError::MalformedStructuredReply && reply_of(kind, arguments@)
                is None,
        },
{
    let names = required_fields(kind);
    let mut found: Vec<Option<String>> = Vec::new();
    let mut i: usize = 0;
    while i < names.len()
        invariant
            i <= names.len(),
            texts_of(names@) == field_names(kind),
            optional_texts(found@) == members_of(kind, arguments@).take(i as int),
        decreases names.len() - i,
    {
        let ghost before = optional_texts(found@);
        assert(texts_of(names@)[i as int] == names@[i as int]@);
        let member = text_member(arguments, names[i].as_str());
        found.push(member);
        assert(optional_texts(found@) =~= before.push(
            json_text_member(arguments@, names@[i as int]@),
        ));
        assert(optional_texts(found@) =~= members_of(kind, arguments@).take(i + 1));
        i += 1;
    }
    assert(members_of(kind, arguments@).take(names.len() as int) =~= members_of(
        kind,
        arguments@,
    ));
    assemble_reply(kind, &found)
}

/// What the first candidate of a completion holds: `choices[i]` is the
/// arguments of the function call of candidate number `i`, or nothing where
/// that candidate calls no function.
pub open spec fn first_call(choices: Seq<Option<Seq<char>>>) -> Result<Seq<char>, PipelineError> {
    if choices.len() == 0 {
        Err(PipelineError::NoCompletionChoice)
    } else {
        match choices[0] {
            Some(arguments) => Ok(arguments),
            None => Err(PipelineError::MalformedStructuredReply),
        }
    }
}

/// The arguments of the function call of the first candidate.
pub fn first_function_call(choices: &Vec<Option<String>>) -> (arguments: Result<
    String,
    PipelineError,
>)
    ensures
        match arguments {
            Ok(text) => first_call(optional_texts(choices@)) == Ok::<Seq<char>, PipelineError>(
                text@,
            ),
            Err(e) => first_call(optional_texts(choices@)) == Err::<Seq<char>, PipelineError>(e),
        },
{
    if choices.len() == 0 {
        return Err(PipelineError::NoCompletionChoice);
    }
    match &choices[0] {
        Some(arguments) => Ok(arguments.clone()),
        None => Err(PipelineError::MalformedStructuredReply),
    }
}

/// The answer that a completion gives to a prompt of `kind`: that of its
/// first candidate.
pub fn read_completion(kind: PromptType, choices: &Vec<Option<String>>) -> (reply: Result<
    StructuredResponse,
    PipelineError,
>)
    ensures
        match reply {
            Ok(response) => first_call(optional_texts(choices@)) matches Ok(arguments)
                && reply_of(kind, arguments) == Some(response@) && response@.kind() == kind,
            Err(e) => match first_call(optional_texts(choices@)) {
                Ok(arguments) => e == PipelineError::MalformedStructuredReply && reply_of(
                    kind,
                    arguments,
                ) is None,
                Err(first) => e == first,
            },
        },
{
    match first_function_call(choices) {
        Ok(arguments) => parse_reply(kind, arguments.as_str()),
        Err(e) => Err(e),
    }
}

} // verus!
