//! The shape of the answer that each kind of prompt asks the completion
//! provider for.

use vstd::prelude::*;
use crate::prompt::PromptType;
use crate::text::texts_of;

verus! {

/// The type of a field of the answer. Every field is a string so far.
#[derive(Clone, Copy, Debug, PartialEq, Eq, Structural)]
pub enum FieldType {
    Text,
}

impl FieldType {
    /// The name of the type in the schema that goes to the provider.
    pub open spec fn schema_name(self) -> Seq<char> {
        match self {
            FieldType::Text => "string"@,
        }
    }

    /// The name of the type in the schema that goes to the provider.
    pub fn name(&self) -> (name: String)
        ensures
            name@ == self.schema_name(),
    {
        match self {
            FieldType::Text => "string".to_owned(),
        }
    }
}

/// One field of the answer.
#[derive(Debug)]
pub struct Field {
    pub name: String,
    pub field_type: FieldType,
}

/// What a `Field` holds, as plain values.
pub struct FieldView {
    pub name: Seq<char>,
    pub field_type: FieldType,
}

impl View for Field {
    type V = FieldView;

    open spec fn view(&self) -> FieldView {
        FieldView { name: self.name@, field_type: self.field_type }
    }
}

/// The contract that the provider's answer must honour: the function it is
/// told to call, and the fields of that function's arguments.
#[derive(Debug)]
pub struct FieldSpec {
    pub name: String,
    pub description: String,
    pub fields: Vec<Field>,
    pub required: Vec<String>,
}

/// What a `FieldSpec` holds, as plain values.
pub struct FieldSpecView {
    pub name: Seq<char>,
    pub description: Seq<char>,
    pub fields: Seq<FieldView>,
    pub required: Seq<Seq<char>>,
}

impl View for FieldSpec {
    type V = FieldSpecView;

    open spec fn view(&self) -> FieldSpecView {
        FieldSpecView {
            name: self.name@,
            description: self.description@,
            fields: self.fields@.map_values(|f: Field| f@),
            required: texts_of(self.required@),
        }
    }
}

impl FieldSpecView {
    /// The names of the declared fields, in the order of their declaration.
    pub open spec fn declared_names(self) -> Seq<Seq<char>> {
        self.fields.map_values(|f: FieldView| f.name)
    }

    /// Every required field is declared.
    pub open spec fn well_formed(self) -> bool {
        forall|i: int|
            0 <= i < self.required.len() ==> self.declared_names().contains(
                #[trigger] self.required[i],
            )
    }
}

/// The function that the provider is told to call for a prompt of this kind.
pub open spec fn function_name(kind: PromptType) -> Seq<char> {
    match kind {
        PromptType::Text => "set_text"@,
        PromptType::Image => "set_meme"@,
    }
}

/// What the provider is told that function does.
pub open spec fn function_description(kind: PromptType) -> Seq<char> {
    match kind {
        PromptType::Text => "Set the current text to display to user"@,
        PromptType::Image => "Set the current meme to display to user"@,
    }
}

/// The fields of the answer to a prompt of this kind, in the order in which
/// they are declared. All of them are required.
pub open spec fn field_names(kind: PromptType) -> Seq<Seq<char>> {
    match kind {
        PromptType::Text => seq!["text"@],
        PromptType::Image => seq!["top_text"@, "bottom_text"@],
    }
}

/// The contract for a prompt of this kind: each of its fields a string, each
/// required.
pub open spec fn schema_of(kind: PromptType) -> FieldSpecView {
    FieldSpecView {
        name: function_name(kind),
        description: function_description(kind),
        fields: field_names(kind).map_values(
            |name: Seq<char>| FieldView { name, field_type: FieldType::Text },
        ),
        required: field_names(kind),
    }
}

/// The name of the function that the provider must call.
pub fn get_function_call(kind: PromptType) -> (name: String)
    ensures
        name@ == function_name(kind),
{
    match kind {
        PromptType::Text => "set_text".to_owned(),
        PromptType::Image => "set_meme".to_owned(),
    }
}

/// The names of the fields that an answer to a prompt of this kind holds.
pub fn required_fields(kind: PromptType) -> (names: Vec<String>)
    ensures
        texts_of(names@) == field_names(kind),
{
    let mut names: Vec<String> = Vec::new();
    match kind {
        PromptType::Text => {
            names.push("text".to_owned());
        },
        PromptType::Image => {
            names.push("top_text".to_owned());
            names.push("bottom_text".to_owned());
        },
    }
    assert(texts_of(names@) =~= field_names(kind));
    names
}

/// The contract that goes to the provider with a prompt of this kind.
pub fn get_functions(kind: PromptType) -> (contract: FieldSpec)
    ensures
        contract@ == schema_of(kind),
        contract@.well_formed(),
{
    let required = required_fields(kind);
    let mut fields: Vec<Field> = Vec::new();
    let mut i: usize = 0;
    while i < required.len()
        invariant
            i <= required.len(),
            fields@.len() == i,
            forall|j: int|
                0 <= j < i ==> (#[trigger] fields@[j])@ == (FieldView {
                    name: required@[j]@,
                    field_type: FieldType::Text,
                }),
        decreases required.len() - i,
    {
        fields.push(Field { name: required[i].clone(), field_type: FieldType::Text });
        i += 1;
    }
    let description = match kind {
        PromptType::Text => "Set the current text to display to user".to_owned(),
        PromptType::Image => "Set the current meme to display to user".to_owned(),
    };
    let contract = FieldSpec { name: get_function_call(kind), description, fields, required };
    assert(contract@.fields =~= schema_of(kind).fields);
    proof {
        let view = contract@;
        assert forall|i: int| 0 <= i < view.required.len() implies view.declared_names().contains(
            #[trigger] view.required[i],
        ) by {
            assert(view.declared_names()[i] == view.required[i]);
        }
    }
    contract
}

} // verus!
