//! Masking of profanity in generated text, by the word lists of the `censor`
//! crate and a configuration of what is active and what is excepted.

use censor::Censor;
use vstd::prelude::*;
use crate::text::{string_of, texts_of};

verus! {

/// One of the word lists that the `censor` crate ships.
#[derive(Clone, Copy, Debug, PartialEq, Eq, Structural)]
pub enum WordCategory {
    /// Words that most people take for profanities.
    Standard,
    /// Words related to sex.
    Sex,
    /// Words that only the zealous take for profanities.
    Zealous,
}

/// `censor::Censor`, a set of words to filter out. Its values are carried
/// through as they are; what they hold is spoken of by `censor_words`.
#[verifier::external_type_specification]
#[verifier::external_body]
pub struct ExCensor(Censor);

/// The words that a censor filters out.
pub uninterp spec fn censor_words(censor: Censor) -> Set<Seq<char>>;

/// The words of one of the crate's own lists.
pub uninterp spec fn category_words(category: WordCategory) -> Set<Seq<char>>;

/// What `Censor::replace_with_offsets` makes of `text`: a character of
/// `grawlix` in place of each character that belongs to a filtered word,
/// but for the first `start_offset` and the last `end_offset` characters of
/// each such word.
pub uninterp spec fn masked(
    words: Set<Seq<char>>,
    text: Seq<char>,
    grawlix: Seq<char>,
    start_offset: int,
    end_offset: int,
) -> Seq<char>;

/// `Censor::empty`: a censor that filters no word.
#[verifier::external_body]
fn empty_censor() -> (censor: Censor)
    ensures
        censor_words(censor) == Set::<Seq<char>>::empty(),
{
    Censor::empty()
}

/// The variant of `Censor` for one of the crate's own lists; its words are
/// that list.
#[verifier::external_body]
fn category_censor(category: WordCategory) -> (censor: Censor)
    ensures
        censor_words(censor) == category_words(category),
{
    match category {
        WordCategory::Standard => Censor::Standard,
        WordCategory::Sex => Censor::Sex,
        WordCategory::Zealous => Censor::Zealous,
    }
}

/// `Censor + Censor`: the censor whose words are those of either.
#[verifier::external_body]
fn join_censors(left: Censor, right: Censor) -> (censor: Censor)
    ensures
        censor_words(censor) == censor_words(left).union(censor_words(right)),
{
    left + right
}

/// `Censor + word`: the censor with one more word.
#[verifier::external_body]
fn with_word(base: Censor, word: &str) -> (censor: Censor)
    ensures
        censor_words(censor) == censor_words(base).insert(word@),
{
    base + word
}

/// `Censor - word`: the censor without that word.
#[verifier::external_body]
fn without_word(base: Censor, word: &str) -> (censor: Censor)
    ensures
        censor_words(censor) == censor_words(base).remove(word@),
{
    base - word
}

/// `Censor::replace_with_offsets`. The result has one character for each
/// character of `text`: that character itself, or one of `grawlix` in its
/// place. A censor without words finds nothing to mask and gives the text
/// back as it came. It panics on an empty grawlix.
#[verifier::external_body]
fn replace_with_offsets(
    censor: &Censor,
    text: &str,
    grawlix: &str,
    start_offset: usize,
    end_offset: usize,
) -> (out: String)
    requires
        grawlix@.len() > 0,
    ensures
        out@ == masked(
            censor_words(*censor),
            text@,
            grawlix@,
            start_offset as int,
            end_offset as int,
        ),
        out@.len() == text@.len(),
        forall|i: int|
            0 <= i < out@.len() ==> #[trigger] out@[i] == text@[i] || grawlix@.contains(out@[i]),
        censor_words(*censor) == Set::<Seq<char>>::empty() ==> out@ == text@,
{
    censor.replace_with_offsets(text, grawlix, start_offset, end_offset)
}

/// What is filtered and how it is masked.
#[derive(Debug)]
pub struct ModerationConfig {
    /// The word lists that are active.
    pub categories: Vec<WordCategory>,
    /// Words that are filtered besides those of the active lists.
    pub denied: Vec<String>,
    /// Words that are let through although a list or `denied` holds them.
    pub allowed: Vec<String>,
    /// The character that takes the place of a masked one.
    pub mask: char,
    /// How many characters at the start of a filtered word stay readable.
    pub keep_start: usize,
    /// How many characters at the end of a filtered word stay readable.
    pub keep_end: usize,
}

/// Some list among `categories` holds `word`.
pub open spec fn listed(categories: Seq<WordCategory>, word: Seq<char>) -> bool {
    exists|i: int| 0 <= i < categories.len() && category_words(#[trigger] categories[i]).contains(word)
}

/// The words that are filtered: those of the active lists and the denied
/// ones, without the allowed ones.
pub open spec fn filtered_words(
    categories: Seq<WordCategory>,
    denied: Seq<Seq<char>>,
    allowed: Seq<Seq<char>>,
) -> Set<Seq<char>> {
    Set::new(
        |word: Seq<char>|
            (listed(categories, word) || denied.contains(word)) && !allowed.contains(word),
    )
}

impl ModerationConfig {
    /// The words that this configuration filters.
    pub open spec fn words(&self) -> Set<Seq<char>> {
        filtered_words(self.categories@, texts_of(self.denied@), texts_of(self.allowed@))
    }

    /// What this configuration makes of `text`.
    pub open spec fn sanitized(&self, text: Seq<char>) -> Seq<char> {
        masked(self.words(), text, seq![self.mask], self.keep_start as int, self.keep_end as int)
    }

    /// The configuration in use by default: the standard list and the list of
    /// words related to sex are active, `sex` and `ass` are let through, and
    /// a filtered word keeps its first character and has asterisks for the
    /// rest.
    pub fn standard() -> (config: ModerationConfig)
        ensures
            config.categories@ == seq![WordCategory::Standard, WordCategory::Sex],
            texts_of(config.denied@) == Seq::<Seq<char>>::empty(),
            texts_of(config.allowed@) == seq!["sex"@, "ass"@],
            config.mask == '*',
            config.keep_start == 1,
            config.keep_end == 0,
    {
        let mut categories: Vec<WordCategory> = Vec::new();
        categories.push(WordCategory::Standard);
        categories.push(WordCategory::Sex);
        let mut allowed: Vec<String> = Vec::new();
        allowed.push("sex".to_owned());
        allowed.push("ass".to_owned());
        let config = ModerationConfig {
            categories,
            denied: Vec::new(),
            allowed,
            mask: '*',
            keep_start: 1,
            keep_end: 0,
        };
        assert(config.categories@ =~= seq![WordCategory::Standard, WordCategory::Sex]);
        assert(texts_of(config.denied@) =~= Seq::<Seq<char>>::empty());
        assert(texts_of(config.allowed@) =~= seq!["sex"@, "ass"@]);
        config
    }

    /// A configuration that filters nothing.
    pub fn off() -> (config: ModerationConfig)
        ensures
            config.words() == Set::<Seq<char>>::empty(),
            config.mask == '*',
            config.keep_start == 0,
            config.keep_end == 0,
    {
        let config = ModerationConfig {
            categories: Vec::new(),
            denied: Vec::new(),
            allowed: Vec::new(),
            mask: '*',
            keep_start: 0,
            keep_end: 0,
        };
        assert(config.words() =~= Set::<Seq<char>>::empty());
        config
    }

    /// The censor that filters the words of this configuration.
    fn censor(&self) -> (censor: Censor)
        ensures
            censor_words(censor) == self.words(),
    {
        let mut censor = empty_censor();
        let mut i: usize = 0;
        while i < self.categories.len()
            invariant
                i <= self.categories.len(),
                censor_words(censor) == Set::new(
                    |word: Seq<char>| listed(self.categories@.take(i as int), word),
                ),
            decreases self.categories.len() - i,
        {
            let ghost before = self.categories@.take(i as int);
            let ghost after = self.categories@.take(i + 1);
            censor = join_censors(censor, category_censor(self.categories[i]));
            proof {
                assert forall|word: Seq<char>| listed(after, word) <==> (listed(before, word)
                    || category_words(self.categories@[i as int]).contains(word)) by {
                    if listed(before, word) {
                        let k = choose|k: int|
                            0 <= k < before.len() && category_words(#[trigger] before[k]).contains(
                                word,
                            );
                        assert(after[k] == before[k]);
                    }
                    if category_words(self.categories@[i as int]).contains(word) {
                        assert(after[i as int] == self.categories@[i as int]);
                    }
                    if listed(after, word) {
                        let k = choose|k: int|
                            0 <= k < after.len() && category_words(#[trigger] after[k]).contains(
                                word,
                            );
                        if k < i {
                            assert(before[k] == after[k]);
                        }
                    }
                }
                assert(censor_words(censor) =~= Set::new(|word: Seq<char>| listed(after, word)));
            }
            i += 1;
        }
        assert(self.categories@.take(self.categories.len() as int) =~= self.categories@);
        let mut j: usize = 0;
        assert(texts_of(self.denied@).take(0) =~= Seq::<Seq<char>>::empty());
        assert(censor_words(censor) =~= filtered_words(
            self.categories@,
            texts_of(self.denied@).take(0),
            Seq::empty(),
        ));
        while j < self.denied.len()
            invariant
                j <= self.denied.len(),
                censor_words(censor) == filtered_words(
                    self.categories@,
                    texts_of(self.denied@).take(j as int),
                    Seq::empty(),
                ),
            decreases self.denied.len() - j,
        {
            let ghost before = texts_of(self.denied@).take(j as int);
            let ghost after = texts_of(self.denied@).take(j + 1);
            censor = with_word(censor, self.denied[j].as_str());
            proof {
                assert(after =~= before.push(self.denied@[j as int]@));
                assert forall|word: Seq<char>| after.contains(word) <==> (before.contains(word)
                    || word == self.denied@[j as int]@) by {
                    if before.contains(word) {
                        let k = choose|k: int| 0 <= k < before.len() && before[k] == word;
                        assert(after[k] == word);
                    }
                    if word == self.denied@[j as int]@ {
                        assert(after[j as int] == word);
                    }
                }
                assert(censor_words(censor) =~= filtered_words(
                    self.categories@,
                    after,
                    Seq::empty(),
                ));
            }
            j += 1;
        }
        assert(texts_of(self.denied@).take(self.denied.len() as int) =~= texts_of(self.denied@));
        let mut k: usize = 0;
        assert(texts_of(self.allowed@).take(0) =~= Seq::<Seq<char>>::empty());
        while k < self.allowed.len()
            invariant
                k <= self.allowed.len(),
                censor_words(censor) == filtered_words(
                    self.categories@,
                    texts_of(self.denied@),
                    texts_of(self.allowed@).take(k as int),
                ),
            decreases self.allowed.len() - k,
        {
            let ghost before = texts_of(self.allowed@).take(k as int);
            let ghost after = texts_of(self.allowed@).take(k + 1);
            censor = without_word(censor, self.allowed[k].as_str());
            proof {
                assert(after =~= before.push(self.allowed@[k as int]@));
                assert forall|word: Seq<char>| after.contains(word) <==> (before.contains(word)
                    || word == self.allowed@[k as int]@) by {
                    if before.contains(word) {
                        let at = choose|at: int| 0 <= at < before.len() && before[at] == word;
                        assert(after[at] == word);
                    }
                    if word == self.allowed@[k as int]@ {
                        assert(after[k as int] == word);
                    }
                }
                assert(censor_words(censor) =~= filtered_words(
                    self.categories@,
                    texts_of(self.denied@),
                    after,
                ));
            }
            k += 1;
        }
        assert(texts_of(self.allowed@).take(self.allowed.len() as int) =~= texts_of(
            self.allowed@,
        ));
        censor
    }

    /// `text` with the filtered words masked. The result is as long as
    /// `text`, and differs from it only where the mask stands. Where no word
    /// is filtered the result is `text`.
    pub fn sanitize(&self, text: &str) -> (clean: String)
        ensures
            clean@ == self.sanitized(text@),
            clean@.len() == text@.len(),
            forall|i: int|
                0 <= i < clean@.len() ==> #[trigger] clean@[i] == text@[i] || clean@[i]
                    == self.mask,
            self.words() == Set::<Seq<char>>::empty() ==> clean@ == text@,
    {
        let censor = self.censor();
        let mut mask: Vec<char> = Vec::new();
        mask.push(self.mask);
        let grawlix = string_of(&mask);
        assert(grawlix@ =~= seq![self.mask]);
        let clean = replace_with_offsets(
            &censor,
            text,
            grawlix.as_str(),
            self.keep_start,
            self.keep_end,
        );
        assert forall|i: int| 0 <= i < clean@.len() implies #[trigger] clean@[i] == text@[i]
            || clean@[i] == self.mask by {
            if grawlix@.contains(clean@[i]) {
                let at = choose|at: int| 0 <= at < grawlix@.len() && grawlix@[at] == clean@[i];
                assert(at == 0);
            }
        }
        clean
    }
}

} // verus!
