//! What resolving a template guarantees, proved of every body and every
//! choice of values.

use vstd::prelude::*;
use crate::template::{
    interpolated, is_name_char, is_token, lemma_tokens_of, resolved, token_text, tokens_of, Span,
};
use crate::text::{
    is_first_occurrence, lemma_first_occurrence_is, occurs, occurs_at, replace_first, splice,
};

verus! {

/// Where the characters of a placeholder stand, a placeholder stands.
pub proof fn lemma_occurrence_is_token(text: Seq<char>, from: int, to: int, at: int)
    requires
        is_token(text, from, to),
        occurs_at(text, text.subrange(from, to), at),
    ensures
        is_token(text, at, at + (to - from)),
{
    let width = to - from;
    let here = text.subrange(at, at + width);
    let there = text.subrange(from, to);
    assert(here == there);
    assert(text[at] == '{') by {
        assert(here[0] == text[at]);
        assert(there[0] == text[from]);
    }
    assert(text[at + width - 1] == '}') by {
        assert(here[width - 1] == text[at + width - 1]);
        assert(there[width - 1] == text[to - 1]);
    }
    assert forall|i: int| at < i < at + width - 1 implies is_name_char(#[trigger] text[i]) by {
        let j = i - at;
        assert(here[j] == text[i]);
        assert(there[j] == text[from + j]);
    }
}

/// A body with a single placeholder resolves to what stands before the
/// placeholder, the value, and what stands after it. The characters of the
/// placeholder occur neither before the value nor after it.
pub proof fn lemma_single_placeholder(body: Seq<char>, value: Seq<char>)
    requires
        tokens_of(body).len() == 1,
    ensures
        ({
            let span = tokens_of(body)[0];
            let before = body.subrange(0, span.start);
            let after = body.subrange(span.end, body.len() as int);
            &&& 0 <= span.start < span.end <= body.len()
            &&& interpolated(body, seq![value]) == before + value + after
            &&& !occurs(before, token_text(body, 0))
            &&& !occurs(after, token_text(body, 0))
        }),
{
    lemma_tokens_of(body);
    let span = tokens_of(body)[0];
    let token = token_text(body, 0);
    let before = body.subrange(0, span.start);
    let after = body.subrange(span.end, body.len() as int);
    assert(is_token(body, span.start, span.end));
    assert forall|at: int| occurs_at(body, token, at) implies at == span.start by {
        lemma_occurrence_is_token(body, span.start, span.end, at);
        let found = Span { start: at, end: at + (span.end - span.start) };
        assert(is_token(body, found.start, found.end));
        assert(tokens_of(body).contains(found));
        let k = choose|k: int| 0 <= k < tokens_of(body).len() && tokens_of(body)[k] == found;
        assert(k == 0);
    }
    assert(occurs_at(body, token, span.start)) by {
        assert(body.subrange(span.start, span.start + token.len()) =~= token);
    }
    assert(is_first_occurrence(body, token, span.start));
    lemma_first_occurrence_is(body, token, span.start);
    assert(resolved(body, seq![value], 0) == body);
    assert(resolved(body, seq![value], 1) == replace_first(body, token, value));
    assert(splice(body, span.start, token.len() as int, value) =~= before + value + after);
    if occurs(before, token) {
        let at = choose|at: int| occurs_at(before, token, at);
        assert(before.subrange(at, at + token.len()) =~= body.subrange(at, at + token.len()));
        assert(occurs_at(body, token, at));
    }
    if occurs(after, token) {
        let at = choose|at: int| occurs_at(after, token, at);
        assert(after.subrange(at, at + token.len()) =~= body.subrange(
            span.end + at,
            span.end + at + token.len(),
        ));
        assert(occurs_at(body, token, span.end + at));
    }
}

/// Where piece number `k` of the literal text of `body` begins: at the start
/// of the body, or where placeholder number `k - 1` ends.
pub open spec fn gap_start(body: Seq<char>, k: int) -> int {
    if k <= 0 {
        0
    } else {
        tokens_of(body)[k - 1].end
    }
}

/// Where piece number `k` of the literal text of `body` ends: where
/// placeholder number `k` begins, or at the end of the body.
pub open spec fn gap_end(body: Seq<char>, k: int) -> int {
    if k < tokens_of(body).len() {
        tokens_of(body)[k].start
    } else {
        body.len() as int
    }
}

/// Piece number `k` of the literal text of `body`: what stands between
/// placeholder number `k - 1` and placeholder number `k`.
pub open spec fn literal(body: Seq<char>, k: int) -> Seq<char> {
    body.subrange(gap_start(body, k), gap_end(body, k))
}

/// The literal text of `body` up to placeholder number `count`, with each of
/// the placeholders before it replaced, where it stands, by its value.
pub open spec fn filled(body: Seq<char>, values: Seq<Seq<char>>, count: nat) -> Seq<char>
    decreases count,
{
    if count == 0 {
        literal(body, 0)
    } else {
        filled(body, values, (count - 1) as nat) + values[count - 1] + literal(body, count as int)
    }
}

/// `body` with each placeholder replaced, where it stands, by its value.
pub open spec fn filled_in_place(body: Seq<char>, values: Seq<Seq<char>>) -> Seq<char> {
    filled(body, values, tokens_of(body).len())
}

/// The characters of placeholder number `k` do not occur in what stands
/// before it once the values of the placeholders before it are in place.
pub open spec fn clear_before(body: Seq<char>, values: Seq<Seq<char>>, k: int) -> bool {
    !occurs(filled(body, values, k as nat), token_text(body, k))
}

/// The pieces of the literal text lie in the body, one after the other.
pub proof fn lemma_gaps(body: Seq<char>, k: int)
    requires
        0 <= k <= tokens_of(body).len(),
    ensures
        0 <= gap_start(body, k) <= gap_end(body, k) <= body.len(),
        k < tokens_of(body).len() ==> is_token(body, gap_end(body, k), gap_start(body, k + 1)),
{
    lemma_tokens_of(body);
    if k > 0 {
        assert(is_token(body, tokens_of(body)[k - 1].start, tokens_of(body)[k - 1].end));
    }
    if k < tokens_of(body).len() {
        assert(is_token(body, tokens_of(body)[k].start, tokens_of(body)[k].end));
    }
}

/// No piece of the literal text holds the characters of a placeholder of the
/// body: where they stand, a placeholder stands.
pub proof fn lemma_literal_holds_no_placeholder(body: Seq<char>, k: int, j: int)
    requires
        0 <= k <= tokens_of(body).len(),
        0 <= j < tokens_of(body).len(),
    ensures
        !occurs(literal(body, k), token_text(body, j)),
{
    lemma_tokens_of(body);
    lemma_gaps(body, k);
    let piece = literal(body, k);
    let token = token_text(body, j);
    let span = tokens_of(body)[j];
    assert(is_token(body, span.start, span.end));
    if occurs(piece, token) {
        let inner = choose|at: int| occurs_at(piece, token, at);
        let at = gap_start(body, k) + inner;
        assert(piece.subrange(inner, inner + token.len()) =~= body.subrange(
            at,
            at + token.len(),
        ));
        assert(occurs_at(body, token, at));
        lemma_occurrence_is_token(body, span.start, span.end, at);
        let found = Span { start: at, end: at + (span.end - span.start) };
        assert(is_token(body, found.start, found.end));
        assert(tokens_of(body).contains(found));
        let m = choose|m: int| 0 <= m < tokens_of(body).len() && tokens_of(body)[m] == found;
        if m < k {
            if m < k - 1 {
                assert(tokens_of(body)[m].end <= tokens_of(body)[k - 1].start);
                assert(is_token(body, tokens_of(body)[k - 1].start, tokens_of(body)[k - 1].end));
            }
            assert(false);
        } else {
            if k < m {
                assert(tokens_of(body)[k].end <= tokens_of(body)[m].start);
                assert(is_token(body, tokens_of(body)[k].start, tokens_of(body)[k].end));
            }
            assert(false);
        }
    }
}

/// Where, for each of the first `count` placeholders, its characters do not
/// occur in what stands before it by then, the first `count` steps of
/// resolving put each value where its placeholder stood and leave the rest
/// of the body as it was.
pub proof fn lemma_resolved_in_place(body: Seq<char>, values: Seq<Seq<char>>, count: nat)
    requires
        count <= tokens_of(body).len(),
        forall|k: int| 0 <= k < count ==> #[trigger] clear_before(body, values, k),
    ensures
        resolved(body, values, count) == filled(body, values, count) + body.subrange(
            gap_end(body, count as int),
            body.len() as int,
        ),
    decreases count,
{
    lemma_gaps(body, count as int);
    if count == 0 {
        assert(body =~= literal(body, 0) + body.subrange(gap_end(body, 0), body.len() as int));
    } else {
        let k = count - 1;
        lemma_resolved_in_place(body, values, k as nat);
        lemma_gaps(body, k);
        let head = filled(body, values, k as nat);
        let start = gap_end(body, k);
        let end = gap_start(body, k + 1);
        let token = token_text(body, k);
        let text = resolved(body, values, k as nat);
        let value = values[k];
        let width = token.len() as int;
        assert(is_token(body, start, end));
        assert(token == body.subrange(start, end));
        assert(text == head + body.subrange(start, body.len() as int));
        assert(text.subrange(head.len() as int, head.len() + width) =~= token);
        assert(clear_before(body, values, k));
        assert forall|earlier: int| 0 <= earlier < head.len() implies !occurs_at(
            text,
            token,
            earlier,
        ) by {
            if occurs_at(text, token, earlier) {
                let here = text.subrange(earlier, earlier + width);
                if earlier + width <= head.len() {
                    assert(head.subrange(earlier, earlier + width) =~= here);
                    assert(occurs_at(head, token, earlier));
                } else {
                    let j = head.len() - earlier;
                    assert(here[j] == text[head.len() as int]);
                    assert(text[head.len() as int] == body[start]);
                    assert(token[j] == body[start + j]);
                    if j < width - 1 {
                        assert(is_name_char(body[start + j]));
                    }
                }
            }
        }
        assert(is_first_occurrence(text, token, head.len() as int));
        lemma_first_occurrence_is(text, token, head.len() as int);
        assert(splice(text, head.len() as int, width, value) =~= filled(body, values, count)
            + body.subrange(gap_end(body, count as int), body.len() as int));
    }
}

/// Where the characters of each placeholder do not occur in what stands
/// before it once the earlier values are in place, resolving the body one
/// occurrence at a time puts each value where its placeholder stood: value
/// number `k` for placeholder number `k`, also where two placeholders have
/// the same name.
pub proof fn lemma_interpolated_in_place(body: Seq<char>, values: Seq<Seq<char>>)
    requires
        forall|k: int| 0 <= k < tokens_of(body).len() ==> #[trigger] clear_before(body, values, k),
    ensures
        interpolated(body, values) == filled_in_place(body, values),
{
    lemma_resolved_in_place(body, values, tokens_of(body).len());
    assert(body.subrange(body.len() as int, body.len() as int) =~= Seq::<char>::empty());
    assert(interpolated(body, values) =~= filled_in_place(body, values));
}

/// A body that holds the same placeholder twice takes one value for each of
/// the two, the first where the first stood and the second where the second
/// stood, where the placeholder's characters do not occur in what stands
/// before the second once the first value is in place. The two values may
/// differ or be the same. Both occurrences are gone: in the result the
/// placeholder's characters stand only where the second value, with the
/// text beside it, spells them.
pub proof fn lemma_same_placeholder_twice(body: Seq<char>, first: Seq<char>, second: Seq<char>)
    requires
        tokens_of(body).len() == 2,
        token_text(body, 0) == token_text(body, 1),
        !occurs(literal(body, 0) + first + literal(body, 1), token_text(body, 0)),
    ensures
        ({
            let out = interpolated(body, seq![first, second]);
            let token = token_text(body, 0);
            let before = literal(body, 0) + first + literal(body, 1);
            &&& out == before + second + literal(body, 2)
            &&& forall|at: int| #[trigger]
                occurs_at(out, token, at) ==> before.len() < at + token.len() && at < before.len()
                    + second.len()
        }),
{
    let values = seq![first, second];
    let token = token_text(body, 0);
    let before = literal(body, 0) + first + literal(body, 1);
    let after = literal(body, 2);
    assert(filled(body, values, 0) == literal(body, 0));
    assert(filled(body, values, 1) == before);
    assert(filled(body, values, 2) == before + second + after);
    lemma_literal_holds_no_placeholder(body, 0, 0);
    assert forall|k: int| 0 <= k < tokens_of(body).len() implies #[trigger] clear_before(
        body,
        values,
        k,
    ) by {}
    lemma_interpolated_in_place(body, values);
    let out = interpolated(body, values);
    assert(out == before + second + after);
    lemma_literal_holds_no_placeholder(body, 2, 0);
    assert forall|at: int| #[trigger] occurs_at(out, token, at) implies before.len() < at
        + token.len() && at < before.len() + second.len() by {
        if at + token.len() <= before.len() {
            assert(before.subrange(at, at + token.len()) =~= out.subrange(at, at + token.len()));
            assert(occurs_at(before, token, at));
        }
        if at >= before.len() + second.len() {
            let inner = at - before.len() - second.len();
            assert(after.subrange(inner, inner + token.len()) =~= out.subrange(
                at,
                at + token.len(),
            ));
            assert(occurs_at(after, token, inner));
        }
    }
}

/// `text` holds no opening brace.
pub open spec fn has_no_opening_brace(text: Seq<char>) -> bool {
    forall|i: int| 0 <= i < text.len() ==> #[trigger] text[i] != '{'
}

/// Every opening brace of `body` begins a placeholder, and none of the
/// values that are used holds one.
pub open spec fn braces_only_open_placeholders(body: Seq<char>, values: Seq<Seq<char>>) -> bool {
    &&& forall|k: int|
        0 <= k <= tokens_of(body).len() ==> has_no_opening_brace(#[trigger] literal(body, k))
    &&& forall|k: int| 0 <= k < tokens_of(body).len() ==> has_no_opening_brace(#[trigger] values[k])
}

/// With opening braces at the placeholders only, what is filled in holds no
/// opening brace.
proof fn lemma_filled_is_plain(body: Seq<char>, values: Seq<Seq<char>>, count: nat)
    requires
        count <= tokens_of(body).len(),
        braces_only_open_placeholders(body, values),
    ensures
        has_no_opening_brace(filled(body, values, count)),
    decreases count,
{
    assert(has_no_opening_brace(literal(body, count as int)));
    if count > 0 {
        lemma_filled_is_plain(body, values, (count - 1) as nat);
        let head = filled(body, values, (count - 1) as nat);
        let value = values[count - 1];
        let next = filled(body, values, count);
        assert(has_no_opening_brace(value));
        assert forall|i: int| 0 <= i < next.len() implies #[trigger] next[i] != '{' by {
            if i < head.len() {
                assert(next[i] == head[i]);
            } else if i < head.len() + value.len() {
                assert(next[i] == value[i - head.len()]);
            } else {
                assert(next[i] == literal(body, count as int)[i - head.len() - value.len()]);
            }
        }
    }
}

/// A case that is easy to recognise: where every opening brace of the body
/// begins a placeholder and no value holds one, each value stands where its
/// placeholder stood, and nothing of any placeholder is left in the result.
pub proof fn lemma_no_placeholder_is_left(body: Seq<char>, values: Seq<Seq<char>>)
    ensures
        braces_only_open_placeholders(body, values) ==> {
            &&& interpolated(body, values) == filled_in_place(body, values)
            &&& has_no_opening_brace(interpolated(body, values))
            &&& tokens_of(interpolated(body, values)).len() == 0
            &&& forall|k: int|
                0 <= k < tokens_of(body).len() ==> !occurs(
                    interpolated(body, values),
                    #[trigger] token_text(body, k),
                )
        },
{
    if braces_only_open_placeholders(body, values) {
        lemma_tokens_of(body);
        assert forall|k: int| 0 <= k < tokens_of(body).len() implies #[trigger] clear_before(
            body,
            values,
            k,
        ) by {
            lemma_filled_is_plain(body, values, k as nat);
            let head = filled(body, values, k as nat);
            let token = token_text(body, k);
            let span = tokens_of(body)[k];
            assert(is_token(body, span.start, span.end));
            assert(token[0] == body[span.start]);
            if occurs(head, token) {
                let at = choose|at: int| occurs_at(head, token, at);
                assert(head.subrange(at, at + token.len())[0] == head[at]);
            }
        }
        lemma_interpolated_in_place(body, values);
        lemma_filled_is_plain(body, values, tokens_of(body).len());
        let out = interpolated(body, values);
        lemma_tokens_of(out);
        if tokens_of(out).len() > 0 {
            let span = tokens_of(out)[0];
            assert(is_token(out, span.start, span.end));
            assert(out[span.start] != '{');
        }
        assert forall|k: int| 0 <= k < tokens_of(body).len() implies !occurs(
            out,
            #[trigger] token_text(body, k),
        ) by {
            let span = tokens_of(body)[k];
            let token = token_text(body, k);
            assert(is_token(body, span.start, span.end));
            assert(token[0] == body[span.start]);
            if occurs(out, token) {
                let at = choose|at: int| occurs_at(out, token, at);
                assert(out.subrange(at, at + token.len())[0] == out[at]);
            }
        }
    }
}

} // verus!
