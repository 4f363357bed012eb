//! Character sequences: the model of every string in this crate, and the
//! executable helpers that search, cut and rebuild them.

use vstd::prelude::*;

verus! {

/// `pattern` stands in `text` at index `at`.
pub open spec fn occurs_at(text: Seq<char>, pattern: Seq<char>, at: int) -> bool {
    &&& 0 <= at
    &&& at + pattern.len() <= text.len()
    &&& text.subrange(at, at + pattern.len()) == pattern
}

/// `pattern` stands somewhere in `text`.
pub open spec fn occurs(text: Seq<char>, pattern: Seq<char>) -> bool {
    exists|at: int| occurs_at(text, pattern, at)
}

/// `at` is the leftmost index at which `pattern` stands in `text`.
pub open spec fn is_first_occurrence(text: Seq<char>, pattern: Seq<char>, at: int) -> bool {
    &&& occurs_at(text, pattern, at)
    &&& forall|earlier: int| 0 <= earlier < at ==> !occurs_at(text, pattern, earlier)
}

/// The leftmost index at which `pattern` stands in `text`, if it stands there at all.
pub open spec fn first_occurrence(text: Seq<char>, pattern: Seq<char>) -> Option<int> {
    if exists|at: int| is_first_occurrence(text, pattern, at) {
        Some(choose|at: int| is_first_occurrence(text, pattern, at))
    } else {
        None
    }
}

/// `text` with `value` in place of the `width` characters from index `at` on.
pub open spec fn splice(text: Seq<char>, at: int, width: int, value: Seq<char>) -> Seq<char> {
    text.subrange(0, at) + value + text.subrange(at + width, text.len() as int)
}

/// `text` with the leftmost occurrence of `pattern` replaced by `value`;
/// `text` itself where `pattern` does not occur.
pub open spec fn replace_first(text: Seq<char>, pattern: Seq<char>, value: Seq<char>) -> Seq<
    char,
> {
    match first_occurrence(text, pattern) {
        Some(at) => splice(text, at, pattern.len() as int, value),
        None => text,
    }
}

/// A leftmost occurrence is the leftmost occurrence.
pub proof fn lemma_first_occurrence_is(text: Seq<char>, pattern: Seq<char>, at: int)
    requires
        is_first_occurrence(text, pattern, at),
    ensures
        first_occurrence(text, pattern) == Some(at),
{
    let found = choose|i: int| is_first_occurrence(text, pattern, i);
    assert(is_first_occurrence(text, pattern, found));
    if found < at {
        assert(!occurs_at(text, pattern, found));
    } else if at < found {
        assert(!occurs_at(text, pattern, at));
    }
}

/// Where `pattern` stands nowhere in `text`, there is no leftmost occurrence.
pub proof fn lemma_first_occurrence_none(text: Seq<char>, pattern: Seq<char>)
    requires
        !occurs(text, pattern),
    ensures
        first_occurrence(text, pattern) is None,
{
    assert forall|at: int| !is_first_occurrence(text, pattern, at) by {
        if is_first_occurrence(text, pattern, at) {
            assert(occurs_at(text, pattern, at));
        }
    }
}

/// Where `pattern` stands in `text` at `at`, it has a leftmost occurrence,
/// at `at` or before it.
pub proof fn lemma_first_occurrence_exists(text: Seq<char>, pattern: Seq<char>, at: int)
    requires
        occurs_at(text, pattern, at),
    ensures
        first_occurrence(text, pattern) matches Some(first) && first <= at && is_first_occurrence(
            text,
            pattern,
            first,
        ),
    decreases at,
{
    if exists|earlier: int| 0 <= earlier < at && occurs_at(text, pattern, earlier) {
        let earlier = choose|earlier: int| 0 <= earlier < at && occurs_at(text, pattern, earlier);
        lemma_first_occurrence_exists(text, pattern, earlier);
    } else {
        lemma_first_occurrence_is(text, pattern, at);
    }
}

/// The characters of a string slice, one vector element each.
pub fn chars_of(s: &str) -> (chars: Vec<char>)
    ensures
        chars@ == s@,
{
    let mut chars: Vec<char> = Vec::new();
    for c in it: s.chars()
        invariant
            chars@ == it.seq().take(it.index() as int),
            it.seq() == s@,
    {
        chars.push(c);
    }
    chars
}

/// `String::push` appends one character to the end of the string.
pub assume_specification[ String::push ](s: &mut String, c: char)
    ensures
        final(s)@ == old(s)@.push(c),
;

/// The string that holds exactly the characters of `chars`.
pub fn string_of(chars: &Vec<char>) -> (s: String)
    ensures
        s@ == chars@,
{
    let mut s = String::new();
    let mut i: usize = 0;
    while i < chars.len()
        invariant
            i <= chars.len(),
            s@ == chars@.take(i as int),
        decreases chars.len() - i,
    {
        s.push(chars[i]);
        i += 1;
    }
    s
}

/// Whether `pattern` stands in `text` at index `at`.
pub fn matches_at(text: &Vec<char>, pattern: &Vec<char>, at: usize) -> (hit: bool)
    ensures
        hit == occurs_at(text@, pattern@, at as int),
{
    if pattern.len() > text.len() || at > text.len() - pattern.len() {
        return false;
    }
    let mut k: usize = 0;
    while k < pattern.len()
        invariant
            k <= pattern.len(),
            at + pattern.len() <= text.len(),
            forall|j: int| 0 <= j < k ==> text@[at + j] == pattern@[j],
        decreases pattern.len() - k,
    {
        if text[at + k] != pattern[k] {
            assert(text@.subrange(at as int, at + pattern.len())[k as int] != pattern@[k as int]);
            return false;
        }
        k += 1;
    }
    assert(text@.subrange(at as int, at + pattern.len()) =~= pattern@);
    true
}

/// The index of the leftmost occurrence of `pattern` in `text`.
pub fn find_first(text: &Vec<char>, pattern: &Vec<char>) -> (found: Option<usize>)
    ensures
        found is Some <==> occurs(text@, pattern@),
        match found {
            Some(at) => first_occurrence(text@, pattern@) == Some(at as int)
                && is_first_occurrence(text@, pattern@, at as int)
                && at + pattern.len() <= text.len(),
            None => first_occurrence(text@, pattern@) is None,
        },
{
    if pattern.len() > text.len() {
        proof {
            lemma_first_occurrence_none(text@, pattern@);
        }
        return None;
    }
    let last: usize = text.len() - pattern.len();
    let mut at: usize = 0;
    loop
        invariant
            at <= last,
            last == text.len() - pattern.len(),
            forall|earlier: int| 0 <= earlier < at ==> !occurs_at(text@, pattern@, earlier),
        decreases last - at,
    {
        if matches_at(text, pattern, at) {
            proof {
                lemma_first_occurrence_is(text@, pattern@, at as int);
            }
            return Some(at);
        }
        if at == last {
            proof {
                lemma_first_occurrence_none(text@, pattern@);
            }
            return None;
        }
        at += 1;
    }
}

/// The leftmost index at which the character `c` stands in `text`, if it
/// stands there at all.
pub open spec fn first_index_of(text: Seq<char>, c: char) -> Option<int> {
    first_occurrence(text, seq![c])
}

/// A single character occurs where it stands.
pub proof fn lemma_char_occurs(text: Seq<char>, c: char, at: int)
    ensures
        occurs_at(text, seq![c], at) <==> 0 <= at < text.len() && text[at] == c,
{
    if 0 <= at < text.len() {
        assert(text.subrange(at, at + 1)[0] == text[at]);
        if text[at] == c {
            assert(text.subrange(at, at + 1) =~= seq![c]);
        }
    }
}

/// What the leftmost index of a character means: the character stands
/// there and nowhere before; there is none where the text does not hold the
/// character.
pub proof fn lemma_first_index_of(text: Seq<char>, c: char)
    ensures
        first_index_of(text, c) is Some <==> text.contains(c),
        first_index_of(text, c) matches Some(at) ==> 0 <= at < text.len() && text[at] == c
            && !text.subrange(0, at).contains(c),
{
    let pattern = seq![c];
    if text.contains(c) {
        let i = choose|i: int| 0 <= i < text.len() && text[i] == c;
        lemma_char_occurs(text, c, i);
        lemma_first_occurrence_exists(text, pattern, i);
    }
    if first_index_of(text, c) is Some {
        let at = first_index_of(text, c)->0;
        assert(is_first_occurrence(text, pattern, at));
        lemma_char_occurs(text, c, at);
        assert(text.contains(c));
        let before = text.subrange(0, at);
        if before.contains(c) {
            let j = choose|j: int| 0 <= j < before.len() && before[j] == c;
            lemma_char_occurs(text, c, j);
        }
    }
}

/// An index at which `c` stands with no `c` before it is the leftmost index
/// of `c`.
pub proof fn lemma_first_index_is(text: Seq<char>, c: char, at: int)
    requires
        0 <= at < text.len(),
        text[at] == c,
        forall|j: int| 0 <= j < at ==> text[j] != c,
    ensures
        first_index_of(text, c) == Some(at),
{
    lemma_char_occurs(text, c, at);
    assert forall|earlier: int| 0 <= earlier < at implies !occurs_at(text, seq![c], earlier) by {
        lemma_char_occurs(text, c, earlier);
    }
    lemma_first_occurrence_is(text, seq![c], at);
}

/// The index of the leftmost `c` in `text`.
pub fn find_char(text: &Vec<char>, c: char) -> (found: Option<usize>)
    ensures
        found is Some <==> text@.contains(c),
        match found {
            Some(at) => first_index_of(text@, c) == Some(at as int) && at < text.len()
                && text@[at as int] == c,
            None => first_index_of(text@, c) is None,
        },
{
    let mut at: usize = 0;
    while at < text.len()
        invariant
            at <= text.len(),
            forall|j: int| 0 <= j < at ==> text@[j] != c,
        decreases text.len() - at,
    {
        if text[at] == c {
            proof {
                lemma_first_index_is(text@, c, at as int);
            }
            return Some(at);
        }
        at += 1;
    }
    proof {
        lemma_first_index_of(text@, c);
    }
    None
}

/// A copy of the characters of `text` from index `from` up to, not including, `to`.
pub fn slice_of(text: &Vec<char>, from: usize, to: usize) -> (part: Vec<char>)
    requires
        from <= to <= text.len(),
    ensures
        part@ == text@.subrange(from as int, to as int),
{
    let mut part: Vec<char> = Vec::new();
    let mut i: usize = from;
    while i < to
        invariant
            from <= i <= to,
            to <= text.len(),
            part@ == text@.subrange(from as int, i as int),
        decreases to - i,
    {
        part.push(text[i]);
        i += 1;
    }
    part
}

/// Appends the characters of `tail` to `head`.
pub fn append_chars(head: &mut Vec<char>, tail: &Vec<char>)
    ensures
        final(head)@ == old(head)@ + tail@,
{
    let mut i: usize = 0;
    while i < tail.len()
        invariant
            i <= tail.len(),
            head@ == old(head)@ + tail@.take(i as int),
        decreases tail.len() - i,
    {
        head.push(tail[i]);
        i += 1;
    }
}

/// `text` with the leftmost occurrence of `pattern` replaced by `value`.
pub fn replace_first_in(text: &Vec<char>, pattern: &Vec<char>, value: &Vec<char>) -> (out: Vec<
    char,
>)
    ensures
        out@ == replace_first(text@, pattern@, value@),
{
    match find_first(text, pattern) {
        Some(at) => {
            let mut out = slice_of(text, 0, at);
            append_chars(&mut out, value);
            let rest = slice_of(text, at + pattern.len(), text.len());
            append_chars(&mut out, &rest);
            out
        },
        None => slice_of(text, 0, text.len()),
    }
}

/// Whether a character has the Unicode property White_Space: the controls
/// from U+0009 to U+000D, the space, U+0085, U+00A0, U+1680, the spaces from
/// U+2000 to U+200A, U+2028, U+2029, U+202F, U+205F and U+3000.
pub open spec fn is_white_space(c: char) -> bool {
    ||| ('\u{0009}' <= c && c <= '\u{000D}')
    ||| c == '\u{0020}'
    ||| c == '\u{0085}'
    ||| c == '\u{00A0}'
    ||| c == '\u{1680}'
    ||| ('\u{2000}' <= c && c <= '\u{200A}')
    ||| c == '\u{2028}'
    ||| c == '\u{2029}'
    ||| c == '\u{202F}'
    ||| c == '\u{205F}'
    ||| c == '\u{3000}'
}

/// Whether `c` is white space.
pub fn is_whitespace(c: char) -> (space: bool)
    ensures
        space == is_white_space(c),
{
    ('\u{0009}' <= c && c <= '\u{000D}') || c == '\u{0020}' || c == '\u{0085}' || c == '\u{00A0}'
        || c == '\u{1680}' || ('\u{2000}' <= c && c <= '\u{200A}') || c == '\u{2028}' || c
        == '\u{2029}' || c == '\u{202F}' || c == '\u{205F}' || c == '\u{3000}'
}

/// `text` without the white space it begins with.
pub open spec fn skip_leading_space(text: Seq<char>) -> Seq<char>
    decreases text.len(),
{
    if text.len() > 0 && is_white_space(text[0]) {
        skip_leading_space(text.subrange(1, text.len() as int))
    } else {
        text
    }
}

/// `text` without the white space it ends with.
pub open spec fn skip_trailing_space(text: Seq<char>) -> Seq<char>
    decreases text.len(),
{
    if text.len() > 0 && is_white_space(text.last()) {
        skip_trailing_space(text.drop_last())
    } else {
        text
    }
}

/// `text` without the white space at either end.
pub open spec fn trimmed(text: Seq<char>) -> Seq<char> {
    skip_trailing_space(skip_leading_space(text))
}

/// Where the white space that `text` begins with ends: what is skipped is
/// white space, and what is left does not begin with any.
pub proof fn lemma_skip_leading_space(text: Seq<char>) -> (from: int)
    ensures
        0 <= from <= text.len(),
        skip_leading_space(text) == text.subrange(from, text.len() as int),
        forall|i: int| 0 <= i < from ==> is_white_space(#[trigger] text[i]),
        from < text.len() ==> !is_white_space(text[from]),
    decreases text.len(),
{
    if text.len() > 0 && is_white_space(text[0]) {
        let rest = text.subrange(1, text.len() as int);
        let inner = lemma_skip_leading_space(rest);
        assert(rest.subrange(inner, rest.len() as int) =~= text.subrange(
            inner + 1,
            text.len() as int,
        ));
        assert forall|i: int| 0 <= i < inner + 1 implies is_white_space(#[trigger] text[i]) by {
            if i > 0 {
                assert(text[i] == rest[i - 1]);
            }
        }
        inner + 1
    } else {
        assert(text.subrange(0, text.len() as int) =~= text);
        0
    }
}

/// Where the white space that `text` ends with begins: what is skipped is
/// white space, and what is left does not end with any.
pub proof fn lemma_skip_trailing_space(text: Seq<char>) -> (to: int)
    ensures
        0 <= to <= text.len(),
        skip_trailing_space(text) == text.subrange(0, to),
        forall|i: int| to <= i < text.len() ==> is_white_space(#[trigger] text[i]),
        to > 0 ==> !is_white_space(text[to - 1]),
    decreases text.len(),
{
    if text.len() > 0 && is_white_space(text.last()) {
        let rest = text.drop_last();
        let inner = lemma_skip_trailing_space(rest);
        assert(rest.subrange(0, inner) =~= text.subrange(0, inner));
        assert forall|i: int| inner <= i < text.len() implies is_white_space(
            #[trigger] text[i],
        ) by {
            if i < text.len() - 1 {
                assert(text[i] == rest[i]);
            }
        }
        inner
    } else {
        assert(text.subrange(0, text.len() as int) =~= text);
        text.len() as int
    }
}

/// What trimming means: the result is a stretch of `text`, all that is left
/// out is white space, and the result neither begins nor ends with white
/// space.
pub proof fn lemma_trimmed(text: Seq<char>) -> (bounds: (int, int))
    ensures
        0 <= bounds.0 <= bounds.1 <= text.len(),
        trimmed(text) == text.subrange(bounds.0, bounds.1),
        forall|i: int|
            0 <= i < bounds.0 || bounds.1 <= i < text.len() ==> is_white_space(#[trigger] text[i]),
        bounds.0 < bounds.1 ==> !is_white_space(text[bounds.0]) && !is_white_space(
            text[bounds.1 - 1],
        ),
{
    let from = lemma_skip_leading_space(text);
    let rest = text.subrange(from, text.len() as int);
    let to = lemma_skip_trailing_space(rest);
    assert(rest.subrange(0, to) =~= text.subrange(from, from + to));
    assert forall|i: int| from + to <= i < text.len() implies is_white_space(
        #[trigger] text[i],
    ) by {
        assert(text[i] == rest[i - from]);
    }
    if to > 0 {
        assert(rest[to - 1] == text[from + to - 1]);
        assert(rest[0] == text[from]);
    }
    (from, from + to)
}

/// `text` without the white space at either end.
pub fn trim(text: &Vec<char>) -> (out: Vec<char>)
    ensures
        out@ == trimmed(text@),
{
    let mut from: usize = 0;
    assert(text@.subrange(0, text.len() as int) =~= text@);
    while from < text.len() && is_whitespace(text[from])
        invariant
            from <= text.len(),
            skip_leading_space(text@) == skip_leading_space(
                text@.subrange(from as int, text.len() as int),
            ),
        decreases text.len() - from,
    {
        proof {
            let here = text@.subrange(from as int, text.len() as int);
            assert(here.subrange(1, here.len() as int) =~= text@.subrange(
                from + 1,
                text.len() as int,
            ));
        }
        from += 1;
    }
    let mut to: usize = text.len();
    while to > from && is_whitespace(text[to - 1])
        invariant
            from <= to <= text.len(),
            trimmed(text@) == skip_trailing_space(text@.subrange(from as int, to as int)),
        decreases to - from,
    {
        proof {
            let here = text@.subrange(from as int, to as int);
            assert(here.drop_last() =~= text@.subrange(from as int, to - 1));
        }
        to -= 1;
    }
    slice_of(text, from, to)
}

/// The character sequences that a vector of strings holds.
pub open spec fn texts_of(strings: Seq<String>) -> Seq<Seq<char>> {
    strings.map_values(|s: String| s@)
}

} // verus!
