//! Prompt templates and the store they are read from.

use vstd::prelude::*;
use vstd::std_specs::convert::FromSpecImpl;
use crate::catalog::{is_comment, is_comment_line};
use crate::random::pick_one;
use crate::template::Interpolation;
use crate::text::{
    chars_of, find_char, first_index_of, lemma_first_index_of, slice_of, string_of, texts_of, trim,
    trimmed,
};

verus! {

/// The character that parts the two fields of a line of the prompt store.
pub const FIELD_DELIMITER: char = ';';

/// What a prompt asks for: a text to post, or captions for an image.
#[derive(Clone, Copy, Debug, PartialEq, Eq, Structural)]
pub enum PromptType {
    Text,
    Image,
}

/// The kind that a name stands for. Every name but `image` stands for `Text`.
pub open spec fn prompt_type_of(name: Seq<char>) -> PromptType {
    if name == "image"@ {
        PromptType::Image
    } else {
        PromptType::Text
    }
}

impl<'a> From<&'a str> for PromptType {
    fn from(value: &'a str) -> (kind: PromptType) {
        if value.to_owned() == "image".to_owned() {
            PromptType::Image
        } else {
            PromptType::Text
        }
    }
}

impl<'a> FromSpecImpl<&'a str> for PromptType {
    open spec fn obeys_from_spec() -> bool {
        true
    }

    open spec fn from_spec(value: &'a str) -> PromptType {
        prompt_type_of(value@)
    }
}

/// A template: its kind and its body, in which placeholders may stand.
#[derive(Debug)]
pub struct Prompt {
    pub prompt_type: PromptType,
    pub prompt: String,
}

/// What a `Prompt` holds, as plain values.
pub struct PromptView {
    pub prompt_type: PromptType,
    pub prompt: Seq<char>,
}

impl View for Prompt {
    type V = PromptView;

    open spec fn view(&self) -> PromptView {
        PromptView { prompt_type: self.prompt_type, prompt: self.prompt@ }
    }
}

/// What each of a sequence of prompts holds.
pub open spec fn prompts_of(prompts: Seq<Prompt>) -> Seq<PromptView> {
    prompts.map_values(|p: Prompt| p@)
}

/// The prompt that two fields make: the first names the kind, the second is
/// the body, both without the white space around them.
pub open spec fn prompt_of_fields(kind: Seq<char>, body: Seq<char>) -> PromptView {
    PromptView { prompt_type: prompt_type_of(trimmed(kind)), prompt: trimmed(body) }
}

/// A line of the store holds a prompt where it is no comment and the
/// delimiter stands in it.
pub open spec fn holds_prompt(line: Seq<char>) -> bool {
    !is_comment(line) && line.contains(FIELD_DELIMITER)
}

/// The prompt that a line of the store holds. The line is parted at the
/// first delimiter: what stands before it names the kind, all that stands
/// after it, further delimiters included, is the body. A comment holds no
/// prompt, and neither does a line without a delimiter.
pub open spec fn prompt_of_line(line: Seq<char>) -> Option<PromptView> {
    match first_index_of(line, FIELD_DELIMITER) {
        Some(at) => if is_comment(line) {
            None
        } else {
            Some(
                prompt_of_fields(line.subrange(0, at), line.subrange(at + 1, line.len() as int)),
            )
        },
        None => None,
    }
}

/// A line holds a prompt if and only if it is no comment and the delimiter
/// stands in it, once or more often.
pub proof fn lemma_prompt_lines(line: Seq<char>)
    ensures
        prompt_of_line(line) is Some <==> holds_prompt(line),
{
    lemma_first_index_of(line, FIELD_DELIMITER);
}

/// The prompts that the lines of a store hold: one for each line that holds
/// a prompt, in the order of the store.
pub open spec fn prompts_of_lines(lines: Seq<Seq<char>>) -> Seq<PromptView> {
    lines.filter(|line: Seq<char>| holds_prompt(line)).map_values(
        |line: Seq<char>| prompt_of_line(line)->0,
    )
}

impl Prompt {
    /// The prompt with the kind that `kind` names and with `body`, both taken
    /// without the white space around them.
    pub fn from_fields(kind: &Vec<char>, body: &Vec<char>) -> (prompt: Prompt)
        ensures
            prompt@ == prompt_of_fields(kind@, body@),
    {
        let name = string_of(&trim(kind));
        let text = string_of(&trim(body));
        Prompt { prompt_type: PromptType::from(name.as_str()), prompt: text }
    }

    /// A run that resolves the placeholders of this prompt's body.
    pub fn interpolation(&self) -> (run: Interpolation)
        ensures
            run.body() == self.prompt@,
            run.drawn() == Seq::<Seq<char>>::empty(),
            run.text() == self.prompt@,
    {
        Interpolation::begin(self.prompt.as_str())
    }

    /// The prompt that one line of the store holds, if it holds one.
    pub fn from_line(line: &str) -> (prompt: Option<Prompt>)
        ensures
            prompt is Some <==> holds_prompt(line@),
            match prompt {
                Some(p) => prompt_of_line(line@) == Some(p@),
                None => prompt_of_line(line@) is None,
            },
    {
        proof {
            lemma_prompt_lines(line@);
        }
        if is_comment_line(line) {
            return None;
        }
        let text = chars_of(line);
        match find_char(&text, FIELD_DELIMITER) {
            Some(at) => {
                let kind = slice_of(&text, 0, at);
                let body = slice_of(&text, at + 1, text.len());
                Some(Prompt::from_fields(&kind, &body))
            },
            None => None,
        }
    }
}

/// The path of the prompt store.
pub fn prompts_path() -> (path: String)
    ensures
        path@ == "resources/prompts.txt"@,
{
    "resources/prompts.txt".to_owned()
}

/// The prompts that the lines of the prompt store hold: one for each line
/// that is no comment and holds the delimiter, in the order of the store.
/// Comments and lines without a delimiter are passed over.
pub fn load_prompts(lines: &Vec<String>) -> (prompts: Vec<Prompt>)
    ensures
        prompts_of(prompts@) == prompts_of_lines(texts_of(lines@)),
        prompts@.len() == texts_of(lines@).filter(|line: Seq<char>| holds_prompt(line)).len(),
        prompts@.len() <= lines@.len(),
{
    let mut prompts: Vec<Prompt> = Vec::new();
    let mut i: usize = 0;
    assert(texts_of(lines@).take(0) =~= Seq::<Seq<char>>::empty());
    assert(prompts_of(prompts@) =~= prompts_of_lines(texts_of(lines@).take(0)));
    while i < lines.len()
        invariant
            i <= lines.len(),
            prompts@.len() <= i,
            prompts_of(prompts@) == prompts_of_lines(texts_of(lines@).take(i as int)),
        decreases lines.len() - i,
    {
        let ghost before = prompts_of(prompts@);
        let ghost seen = texts_of(lines@).take(i as int);
        let ghost next = texts_of(lines@).take(i + 1);
        let ghost holds = |line: Seq<char>| holds_prompt(line);
        proof {
            reveal(Seq::filter);
            assert(next.drop_last() =~= seen);
            assert(next.last() == lines@[i as int]@);
            assert(next.filter(holds) == if holds_prompt(next.last()) {
                seen.filter(holds).push(next.last())
            } else {
                seen.filter(holds)
            });
        }
        match Prompt::from_line(lines[i].as_str()) {
            Some(prompt) => {
                prompts.push(prompt);
                assert(prompts_of(prompts@) =~= before.push(prompt@));
                assert(prompts_of_lines(next) =~= prompts_of_lines(seen).push(prompt@));
            },
            None => {},
        }
        i += 1;
    }
    assert(texts_of(lines@).take(lines.len() as int) =~= texts_of(lines@));
    prompts
}

/// One of the prompts, picked at random with every prompt as likely as the
/// next; nothing where there is no prompt to pick.
pub fn choose_prompt(prompts: &Vec<Prompt>) -> (picked: Option<&Prompt>)
    ensures
        prompts@.len() == 0 <==> picked is None,
        picked matches Some(prompt) ==> prompts@.contains(*prompt),
{
    pick_one(prompts)
}

} // verus!
