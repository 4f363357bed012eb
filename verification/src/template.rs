//! Placeholders in a template body: what counts as one, where they stand, and
//! how a body is resolved by putting one value in place of each.

use vstd::prelude::*;
use crate::catalog::{candidates, choose_random_item, fill_ins};
use crate::error::PipelineError;
use crate::text::{chars_of, replace_first, replace_first_in, slice_of, string_of, texts_of};

verus! {

/// A character that the name of a placeholder may hold: a lower-case ASCII
/// letter, an underscore or a hyphen.
pub open spec fn is_name_char(c: char) -> bool {
    ('a' <= c && c <= 'z') || c == '_' || c == '-'
}

/// Whether `c` may stand in the name of a placeholder.
pub fn is_name_character(c: char) -> (name: bool)
    ensures
        name == is_name_char(c),
{
    ('a' <= c && c <= 'z') || c == '_' || c == '-'
}

/// The stretch of a text that one placeholder takes: from `start` up to, not
/// including, `end`.
pub struct Span {
    pub start: int,
    pub end: int,
}

/// The stretch of a body that one placeholder takes, as the scanner reports it.
#[derive(Clone, Copy, Debug, PartialEq, Eq, Structural)]
pub struct Token {
    pub start: usize,
    pub end: usize,
}

impl View for Token {
    type V = Span;

    open spec fn view(&self) -> Span {
        Span { start: self.start as int, end: self.end as int }
    }
}

/// The stretches that a sequence of tokens stands for.
pub open spec fn spans_of(tokens: Seq<Token>) -> Seq<Span> {
    tokens.map_values(|t: Token| t@)
}

/// The characters of `text` from `from` up to `to` are a placeholder: an
/// opening brace, one or more name characters, a closing brace.
pub open spec fn is_token(text: Seq<char>, from: int, to: int) -> bool {
    &&& 0 <= from
    &&& from + 3 <= to <= text.len()
    &&& text[from] == '{'
    &&& text[to - 1] == '}'
    &&& forall|i: int| from < i < to - 1 ==> is_name_char(#[trigger] text[i])
}

/// The index at which the run of name characters that starts at `from` ends.
pub open spec fn name_end(text: Seq<char>, from: int) -> int
    decreases text.len() - from,
{
    if 0 <= from < text.len() && is_name_char(text[from]) {
        name_end(text, from + 1)
    } else {
        from
    }
}

/// The end of the placeholder that begins at `from`, where one begins there.
pub open spec fn token_end(text: Seq<char>, from: int) -> Option<int> {
    let stop = name_end(text, from + 1);
    if 0 <= from < text.len() && text[from] == '{' && from + 1 < stop < text.len() && text[stop]
        == '}' {
        Some(stop + 1)
    } else {
        None
    }
}

/// A run of name characters ends at or after its start and inside the text,
/// every character of it is a name character, and the one after it is not.
pub proof fn lemma_name_end(text: Seq<char>, from: int)
    requires
        0 <= from <= text.len(),
    ensures
        from <= name_end(text, from) <= text.len(),
        forall|i: int| from <= i < name_end(text, from) ==> is_name_char(#[trigger] text[i]),
        name_end(text, from) < text.len() ==> !is_name_char(text[name_end(text, from)]),
    decreases text.len() - from,
{
    if from < text.len() && is_name_char(text[from]) {
        lemma_name_end(text, from + 1);
    }
}

/// A stretch of name characters that cannot be extended is the run that
/// starts where it starts.
pub proof fn lemma_name_end_is(text: Seq<char>, from: int, to: int)
    requires
        0 <= from <= to <= text.len(),
        forall|i: int| from <= i < to ==> is_name_char(#[trigger] text[i]),
        to < text.len() ==> !is_name_char(text[to]),
    ensures
        name_end(text, from) == to,
    decreases to - from,
{
    if from < to {
        lemma_name_end_is(text, from + 1, to);
    }
}

/// `token_end` finds exactly the placeholders: one begins at `from` and ends
/// at `to` if and only if `token_end` says so.
pub proof fn lemma_token_end(text: Seq<char>, from: int, to: int)
    ensures
        is_token(text, from, to) <==> token_end(text, from) == Some(to),
{
    if is_token(text, from, to) {
        lemma_name_end_is(text, from + 1, to - 1);
    }
    if token_end(text, from) == Some(to) {
        lemma_name_end(text, from + 1);
    }
}

/// The placeholders of `text` that begin at or after `from`, from left to right.
pub open spec fn tokens_from(text: Seq<char>, from: int) -> Seq<Span>
    decreases text.len() - from,
{
    if from < 0 || from >= text.len() {
        Seq::empty()
    } else {
        match token_end(text, from) {
            Some(end) => {
                proof {
                    lemma_name_end(text, from + 1);
                }
                seq![Span { start: from, end }] + tokens_from(text, end)
            },
            None => tokens_from(text, from + 1),
        }
    }
}

/// The placeholders of `text`, from left to right.
pub open spec fn tokens_of(text: Seq<char>) -> Seq<Span> {
    tokens_from(text, 0)
}

/// The characters of the placeholder that `span` marks in `text`, braces included.
pub open spec fn span_text(text: Seq<char>, span: Span) -> Seq<char> {
    text.subrange(span.start, span.end)
}

/// The name between the braces of the placeholder that `span` marks in `text`.
pub open spec fn span_name(text: Seq<char>, span: Span) -> Seq<char> {
    text.subrange(span.start + 1, span.end - 1)
}

/// Every stretch that the scan from `from` reports is a placeholder at or
/// after `from`, and each ends before the next begins.
pub proof fn lemma_tokens_from_sound(text: Seq<char>, from: int)
    requires
        0 <= from,
    ensures
        forall|k: int|
            0 <= k < tokens_from(text, from).len() ==> {
                let span = #[trigger] tokens_from(text, from)[k];
                is_token(text, span.start, span.end) && from <= span.start
            },
        forall|j: int, k: int|
            0 <= j < k < tokens_from(text, from).len() ==> (#[trigger] tokens_from(
                text,
                from,
            )[j]).end <= (#[trigger] tokens_from(text, from)[k]).start,
    decreases text.len() - from,
{
    if from < text.len() {
        match token_end(text, from) {
            Some(end) => {
                lemma_token_end(text, from, end);
                lemma_tokens_from_sound(text, end);
                let first = seq![Span { start: from, end }];
                let rest = tokens_from(text, end);
                assert(tokens_from(text, from) == first + rest);
                assert forall|k: int| 0 <= k < tokens_from(text, from).len() implies {
                    let span = #[trigger] tokens_from(text, from)[k];
                    is_token(text, span.start, span.end) && from <= span.start
                } by {
                    if k > 0 {
                        assert(tokens_from(text, from)[k] == rest[k - 1]);
                    }
                }
                assert forall|j: int, k: int|
                    0 <= j < k < tokens_from(text, from).len() implies (#[trigger] tokens_from(
                    text,
                    from,
                )[j]).end <= (#[trigger] tokens_from(text, from)[k]).start by {
                    assert(tokens_from(text, from)[k] == rest[k - 1]);
                    if j > 0 {
                        assert(tokens_from(text, from)[j] == rest[j - 1]);
                    }
                }
            },
            None => {
                lemma_tokens_from_sound(text, from + 1);
                assert(tokens_from(text, from) == tokens_from(text, from + 1));
            },
        }
    }
}

/// No placeholder begins inside another: past its opening brace a placeholder
/// holds name characters and its closing brace only.
pub proof fn lemma_tokens_do_not_overlap(text: Seq<char>, a: int, b: int, c: int, d: int)
    requires
        is_token(text, a, b),
        is_token(text, c, d),
        a < c,
    ensures
        b <= c,
{
    if c < b {
        if c < b - 1 {
            assert(is_name_char(text[c]));
        }
    }
}

/// The scan from `from` misses no placeholder that begins at or after `from`.
pub proof fn lemma_tokens_from_complete(text: Seq<char>, from: int, start: int, end: int)
    requires
        0 <= from <= start,
        is_token(text, start, end),
    ensures
        tokens_from(text, from).contains(Span { start, end }),
    decreases text.len() - from,
{
    let wanted = Span { start, end };
    match token_end(text, from) {
        Some(stop) => {
            lemma_token_end(text, from, stop);
            let rest = tokens_from(text, stop);
            if start == from {
                lemma_token_end(text, start, end);
                assert(tokens_from(text, from)[0] == wanted);
            } else {
                lemma_tokens_do_not_overlap(text, from, stop, start, end);
                lemma_tokens_from_complete(text, stop, start, end);
                let k = choose|k: int| 0 <= k < rest.len() && rest[k] == wanted;
                assert(tokens_from(text, from)[k + 1] == wanted);
            }
        },
        None => {
            lemma_token_end(text, from, end);
            lemma_tokens_from_complete(text, from + 1, start, end);
        },
    }
}

/// What `tokens_of` means: its stretches are placeholders, they come from
/// left to right without overlap, and every placeholder of the text is among
/// them.
pub proof fn lemma_tokens_of(text: Seq<char>)
    ensures
        forall|k: int|
            0 <= k < tokens_of(text).len() ==> is_token(
                text,
                (#[trigger] tokens_of(text)[k]).start,
                tokens_of(text)[k].end,
            ),
        forall|j: int, k: int|
            0 <= j < k < tokens_of(text).len() ==> (#[trigger] tokens_of(text)[j]).end <= (
            #[trigger] tokens_of(text)[k]).start,
        forall|start: int, end: int|
            #[trigger] is_token(text, start, end) ==> tokens_of(text).contains(Span { start, end }),
{
    lemma_tokens_from_sound(text, 0);
    assert forall|start: int, end: int| #[trigger] is_token(text, start, end) implies tokens_of(
        text,
    ).contains(Span { start, end }) by {
        lemma_tokens_from_complete(text, 0, start, end);
    }
}

/// The end of the placeholder that begins at `at`, where one begins there.
fn scan_token(text: &Vec<char>, at: usize) -> (end: Option<usize>)
    requires
        at < text.len(),
    ensures
        match end {
            Some(e) => token_end(text@, at as int) == Some(e as int) && at < e <= text.len(),
            None => token_end(text@, at as int) is None,
        },
{
    if text[at] != '{' {
        return None;
    }
    let mut stop: usize = at + 1;
    while stop < text.len() && is_name_character(text[stop])
        invariant
            at + 1 <= stop <= text.len(),
            name_end(text@, at + 1) == name_end(text@, stop as int),
        decreases text.len() - stop,
    {
        stop += 1;
    }
    if stop > at + 1 && stop < text.len() && text[stop] == '}' {
        Some(stop + 1)
    } else {
        None
    }
}

/// The placeholders of `text`, from left to right.
pub fn find_tokens(text: &Vec<char>) -> (tokens: Vec<Token>)
    ensures
        spans_of(tokens@) == tokens_of(text@),
{
    let mut tokens: Vec<Token> = Vec::new();
    let mut at: usize = 0;
    assert(spans_of(tokens@) + tokens_from(text@, 0) =~= tokens_of(text@));
    while at < text.len()
        invariant
            at <= text.len(),
            tokens_of(text@) == spans_of(tokens@) + tokens_from(text@, at as int),
        decreases text.len() - at,
    {
        let ghost found = spans_of(tokens@);
        match scan_token(text, at) {
            Some(end) => {
                let token = Token { start: at, end };
                tokens.push(token);
                assert(spans_of(tokens@) + tokens_from(text@, end as int) =~= found + tokens_from(
                    text@,
                    at as int,
                ));
                at = end;
            },
            None => {
                at += 1;
            },
        }
    }
    assert(spans_of(tokens@) + tokens_from(text@, at as int) =~= spans_of(tokens@));
    tokens
}

/// The characters of placeholder number `k` of `body`, braces included.
pub open spec fn token_text(body: Seq<char>, k: int) -> Seq<char> {
    span_text(body, tokens_of(body)[k])
}

/// The name of placeholder number `k` of `body`: the catalog that resolves it.
pub open spec fn token_name(body: Seq<char>, k: int) -> Seq<char> {
    span_name(body, tokens_of(body)[k])
}

/// `body` after its first `count` placeholders have been resolved, one after
/// the other, with the first `count` of `values`. Each step replaces the
/// leftmost occurrence of the placeholder's characters in the text as it
/// stands by then.
pub open spec fn resolved(body: Seq<char>, values: Seq<Seq<char>>, count: nat) -> Seq<char>
    decreases count,
{
    if count == 0 {
        body
    } else {
        replace_first(
            resolved(body, values, (count - 1) as nat),
            token_text(body, count - 1),
            values[count - 1],
        )
    }
}

/// `body` with every placeholder resolved: placeholder number `k` with `values[k]`.
pub open spec fn interpolated(body: Seq<char>, values: Seq<Seq<char>>) -> Seq<char> {
    resolved(body, values, tokens_of(body).len())
}

/// Only the values that were used matter.
pub proof fn lemma_resolved_uses_prefix(
    body: Seq<char>,
    values: Seq<Seq<char>>,
    others: Seq<Seq<char>>,
    count: nat,
)
    requires
        count <= values.len(),
        count <= others.len(),
        values.take(count as int) == others.take(count as int),
    ensures
        resolved(body, values, count) == resolved(body, others, count),
    decreases count,
{
    if count > 0 {
        assert(values.take(count - 1) =~= values.take(count as int).take(count - 1));
        assert(others.take(count - 1) =~= others.take(count as int).take(count - 1));
        lemma_resolved_uses_prefix(body, values, others, (count - 1) as nat);
        assert(values[count - 1] == values.take(count as int)[count - 1]);
        assert(others[count - 1] == others.take(count as int)[count - 1]);
    }
}

/// How far a run has come: the text as it stands and the values drawn so far.
struct Progress {
    text: Vec<char>,
    position: usize,
    drawn: Ghost<Seq<Seq<char>>>,
}

/// One run of resolving a template. The caller asks which catalog is needed
/// next, fetches its lines, and hands them over; the run draws a value and
/// puts it in place of the placeholder. Placeholders are taken from left to
/// right as they stand in the body.
pub struct Interpolation {
    body: Vec<char>,
    tokens: Vec<Token>,
    progress: Progress,
}

impl Interpolation {
    #[verifier::type_invariant]
    spec fn well_formed(self) -> bool {
        &&& spans_of(self.tokens@) == tokens_of(self.body@)
        &&& self.progress.position <= self.tokens@.len()
        &&& self.progress.drawn@.len() == self.progress.position
        &&& self.progress.text@ == resolved(
            self.body@,
            self.progress.drawn@,
            self.progress.position as nat,
        )
    }

    /// The body of the template, as it was given.
    pub closed spec fn body(&self) -> Seq<char> {
        self.body@
    }

    /// The values drawn so far, one for each placeholder resolved.
    pub closed spec fn drawn(&self) -> Seq<Seq<char>> {
        self.progress.drawn@
    }

    /// The number of placeholders resolved so far.
    pub open spec fn position(&self) -> nat {
        self.drawn().len()
    }

    /// No placeholder is left to resolve.
    pub open spec fn is_complete(&self) -> bool {
        self.position() >= tokens_of(self.body()).len()
    }

    /// The text as it stands.
    pub open spec fn text(&self) -> Seq<char> {
        resolved(self.body(), self.drawn(), self.position())
    }

    /// A run on `body` of which nothing is resolved yet.
    pub fn begin(body: &str) -> (run: Interpolation)
        ensures
            run.body() == body@,
            run.drawn() == Seq::<Seq<char>>::empty(),
            run.text() == body@,
            tokens_of(body@).len() == 0 ==> run.is_complete(),
    {
        let chars = chars_of(body);
        let tokens = find_tokens(&chars);
        let text = slice_of(&chars, 0, chars.len());
        assert(chars@.subrange(0, chars@.len() as int) =~= chars@);
        Interpolation {
            body: chars,
            tokens,
            progress: Progress { text, position: 0, drawn: Ghost(Seq::empty()) },
        }
    }

    /// The name of the catalog that the next placeholder asks for; nothing
    /// when every placeholder is resolved.
    pub fn pending(&self) -> (name: Option<String>)
        ensures
            self.position() <= tokens_of(self.body()).len(),
            name is None <==> self.is_complete(),
            name matches Some(catalog) ==> catalog@ == token_name(
                self.body(),
                self.position() as int,
            ),
    {
        proof {
            use_type_invariant(self);
            lemma_tokens_of(self.body@);
        }
        if self.progress.position < self.tokens.len() {
            let token = self.tokens[self.progress.position];
            assert(token@ == spans_of(self.tokens@)[self.progress.position as int]);
            assert(is_token(self.body@, token.start as int, token.end as int));
            let name = slice_of(&self.body, token.start + 1, token.end - 1);
            Some(string_of(&name))
        } else {
            None
        }
    }

    /// Puts `value` in place of the next placeholder: the leftmost occurrence
    /// of its characters in the text as it stands. A complete run stays as
    /// it is.
    pub fn substitute(&mut self, value: &str)
        ensures
            final(self).body() == old(self).body(),
            old(self).is_complete() ==> final(self).drawn() == old(self).drawn(),
            !old(self).is_complete() ==> final(self).drawn() == old(self).drawn().push(value@),
            !old(self).is_complete() ==> final(self).text() == replace_first(
                old(self).text(),
                token_text(old(self).body(), old(self).position() as int),
                value@,
            ),
    {
        proof {
            use_type_invariant(&*self);
            lemma_tokens_of(self.body@);
        }
        if self.progress.position < self.tokens.len() {
            let token = self.tokens[self.progress.position];
            assert(token@ == spans_of(self.tokens@)[self.progress.position as int]);
            assert(is_token(self.body@, token.start as int, token.end as int));
            let pattern = slice_of(&self.body, token.start, token.end);
            let text = replace_first_in(&self.progress.text, &pattern, &chars_of(value));
            let ghost drawn = self.progress.drawn@.push(value@);
            proof {
                let count = self.progress.position as int;
                assert(self.progress.drawn@.take(count) =~= drawn.take(count));
                lemma_resolved_uses_prefix(
                    self.body@,
                    self.progress.drawn@,
                    drawn,
                    self.progress.position as nat,
                );
            }
            self.progress = Progress {
                text,
                position: self.progress.position + 1,
                drawn: Ghost(drawn),
            };
        }
    }

    /// Resolves the next placeholder with a value drawn at random from the
    /// candidates among `lines`, the lines of the catalog it asks for. Fails,
    /// and changes nothing, where there is no candidate. A complete run
    /// stays as it is.
    pub fn resolve(&mut self, lines: &Vec<String>) -> (outcome: Result<(), PipelineError>)
        ensures
            final(self).body() == old(self).body(),
            outcome is Err <==> !old(self).is_complete() && candidates(texts_of(lines@)).len()
                == 0,
            outcome matches Err(e) ==> e == PipelineError::EmptyCatalog && final(self).drawn()
                == old(self).drawn(),
            outcome is Ok && old(self).is_complete() ==> final(self).drawn() == old(self).drawn(),
            outcome is Ok && !old(self).is_complete() ==> {
                &&& final(self).position() == old(self).position() + 1
                &&& final(self).drawn().drop_last() == old(self).drawn()
                &&& candidates(texts_of(lines@)).contains(final(self).drawn().last())
            },
    {
        proof {
            use_type_invariant(&*self);
        }
        if self.progress.position >= self.tokens.len() {
            return Ok(());
        }
        let entries = fill_ins(lines);
        match choose_random_item(&entries) {
            Ok(value) => {
                self.substitute(value.as_str());
                assert(self.drawn().drop_last() =~= old(self).drawn());
                Ok(())
            },
            Err(e) => Err(e),
        }
    }

    /// The number of placeholders that are left to resolve.
    pub fn remaining(&self) -> (left: usize)
        ensures
            self.position() <= tokens_of(self.body()).len(),
            left == tokens_of(self.body()).len() - self.position(),
            left == 0 <==> self.is_complete(),
    {
        proof {
            use_type_invariant(self);
        }
        self.tokens.len() - self.progress.position
    }

    /// The text as it stands: the resolved prompt once the run is complete.
    pub fn finish(self) -> (text: String)
        ensures
            text@ == self.text(),
            self.is_complete() ==> text@ == interpolated(self.body(), self.drawn()),
    {
        proof {
            use_type_invariant(&self);
        }
        string_of(&self.progress.text)
    }
}

/// The smaller of two numbers.
pub open spec fn least(a: nat, b: nat) -> nat {
    if a <= b {
        a
    } else {
        b
    }
}

/// A body without placeholders resolves to itself, whatever the values.
pub proof fn lemma_no_tokens_unchanged(body: Seq<char>, values: Seq<Seq<char>>)
    requires
        tokens_of(body).len() == 0,
    ensures
        interpolated(body, values) == body,
{
}

/// `body` with its placeholders resolved from left to right, placeholder
/// number `k` with `values[k]`. Where the values run out the placeholders
/// that are left stay; values beyond the last placeholder are not used. A
/// body without placeholders comes back as it is.
pub fn interpolate_with(body: &str, values: &Vec<String>) -> (text: String)
    ensures
        text@ == resolved(
            body@,
            texts_of(values@),
            least(tokens_of(body@).len(), values@.len()),
        ),
        values@.len() >= tokens_of(body@).len() ==> text@ == interpolated(
            body@,
            texts_of(values@),
        ),
        tokens_of(body@).len() == 0 ==> text@ == body@,
{
    let mut run = Interpolation::begin(body);
    let mut i: usize = 0;
    assert(texts_of(values@).take(0) =~= Seq::<Seq<char>>::empty());
    while i < values.len() && run.remaining() > 0
        invariant
            i <= values.len(),
            i <= tokens_of(body@).len(),
            run.body() == body@,
            run.drawn() == texts_of(values@).take(i as int),
        decreases values.len() - i,
    {
        let ghost before = run.drawn();
        run.substitute(values[i].as_str());
        assert(before.push(values@[i as int]@) =~= texts_of(values@).take(i + 1));
        i += 1;
    }
    proof {
        assert(i == least(tokens_of(body@).len(), values@.len()));
        assert(texts_of(values@).take(i as int).take(i as int) =~= texts_of(values@).take(
            i as int,
        ));
        lemma_resolved_uses_prefix(
            body@,
            texts_of(values@).take(i as int),
            texts_of(values@),
            i as nat,
        );
    }
    run.finish()
}

} // verus!
