//! Testing candidate words against aggregate constraints, and filtering a
//! word list with that predicate.

use crate::aggregate::{
    letter_absent_in, letter_forbidden_at, letter_used_somewhere, required_at,
    AggregateLetterResult, AggregateWordResult,
};
use crate::guess::{GuessedWord, WORD_LENGTH};
use vstd::prelude::*;

verus! {

broadcast use vstd::seq_lib::lemma_seq_contains_after_push;

/// A letter is allowed at a position iff it equals the required letter there,
/// when one is set, and is not among the letters forbidden there.
pub open spec fn letter_matches_spec(alr: AggregateLetterResult, c: char) -> bool {
    &&& (alr.correct_spot matches Some(req) ==> req == c)
    &&& !alr.wrong_spot@.contains(c)
}

/// A word satisfies the aggregate constraints iff none of its letters is
/// confirmed absent, every letter confirmed present occurs in it, and each of
/// its positions allows the letter standing there.
pub open spec fn word_matches_spec(agg: AggregateWordResult, word: Seq<char>) -> bool {
    &&& (forall|c: char| agg.not_used@.contains(c) ==> !word.contains(c))
    &&& (forall|c: char| agg.used_somewhere@.contains(c) ==> word.contains(c))
    &&& (forall|p: int|
        0 <= p < word.len() ==> #[trigger] letter_matches_spec(
            agg.aggregate_letter_results@[p],
            word[p],
        ))
}

/// A word is consistent with a guess history iff no letter reported absent
/// occurs in it, every letter reported misplaced occurs in it, each position
/// carries its required letter when one is settled, and no position carries a
/// letter forbidden there.
pub open spec fn history_matches(guesses: Seq<GuessedWord>, word: Seq<char>) -> bool {
    &&& (forall|c: char| letter_absent_in(guesses, c) ==> !word.contains(c))
    &&& (forall|c: char| letter_used_somewhere(guesses, c) ==> word.contains(c))
    &&& (forall|p: int|
        0 <= p < word.len() ==> ((#[trigger] required_at(guesses, p)) matches Some(req)
            ==> word[p] == req))
    &&& (forall|p: int|
        0 <= p < word.len() ==> !letter_forbidden_at(guesses, p, #[trigger] word[p]))
}

/// The matching predicate over a fixed aggregate, for stating what filtering
/// a word list returns.
pub open spec fn matches_pred<'a>(agg: AggregateWordResult) -> spec_fn(&'a str) -> bool {
    |w: &'a str| word_matches_spec(agg, w@)
}

/// True iff `c` occurs in `s`.
fn str_contains_char(s: &str, c: char) -> (r: bool)
    ensures
        r == s@.contains(c),
{
    let len = s.unicode_len();
    let mut j: usize = 0;
    while j < len
        invariant
            j <= len,
            len == s@.len(),
            forall|k: int| 0 <= k < j ==> s@[k] != c,
        decreases len - j,
    {
        if s.get_char(j) == c {
            proof {
                assert(s@[j as int] == c);
            }
            return true;
        }
        j += 1;
    }
    false
}

/// True iff `c` occurs in `letters`.
fn vec_contains_char(letters: &Vec<char>, c: char) -> (r: bool)
    ensures
        r == letters@.contains(c),
{
    let mut j: usize = 0;
    while j < letters.len()
        invariant
            j <= letters@.len(),
            forall|k: int| 0 <= k < j ==> letters@[k] != c,
        decreases letters@.len() - j,
    {
        if letters[j] == c {
            proof {
                assert(letters@[j as int] == c);
            }
            return true;
        }
        j += 1;
    }
    false
}

/// No letter of `letters` occurs in `strng`.
pub fn set_not_in_str(letters: &Vec<char>, strng: &str) -> (r: bool)
    ensures
        r == (forall|c: char| letters@.contains(c) ==> !strng@.contains(c)),
{
    let mut j: usize = 0;
    while j < letters.len()
        invariant
            j <= letters@.len(),
            forall|k: int| 0 <= k < j ==> !strng@.contains(#[trigger] letters@[k]),
        decreases letters@.len() - j,
    {
        if str_contains_char(strng, letters[j]) {
            proof {
                assert(letters@.contains(letters@[j as int]));
            }
            return false;
        }
        j += 1;
    }
    proof {
        assert forall|c: char| letters@.contains(c) implies !strng@.contains(c) by {
            let k = choose|k: int| 0 <= k < letters@.len() && letters@[k] == c;
            assert(!strng@.contains(letters@[k]));
        }
    }
    true
}

/// Every letter of `letters` occurs in `strng`.
pub fn used_at_least_once(letters: &Vec<char>, strng: &str) -> (r: bool)
    ensures
        r == (forall|c: char| letters@.contains(c) ==> strng@.contains(c)),
{
    let mut j: usize = 0;
    while j < letters.len()
        invariant
            j <= letters@.len(),
            forall|k: int| 0 <= k < j ==> strng@.contains(#[trigger] letters@[k]),
        decreases letters@.len() - j,
    {
        if !str_contains_char(strng, letters[j]) {
            proof {
                assert(letters@.contains(letters@[j as int]));
            }
            return false;
        }
        j += 1;
    }
    proof {
        assert forall|c: char| letters@.contains(c) implies strng@.contains(c) by {
            let k = choose|k: int| 0 <= k < letters@.len() && letters@[k] == c;
            assert(strng@.contains(letters@[k]));
        }
    }
    true
}

impl AggregateWordResult {
    /// Tests whether `chr` is allowed at position `index`.
    pub fn letter_matches(&self, index: usize, chr: char) -> (r: bool)
        requires
            index < self.aggregate_letter_results@.len(),
        ensures
            r == letter_matches_spec(self.aggregate_letter_results@[index as int], chr),
    {
        let aggregate_letter_result = &self.aggregate_letter_results[index];
        let required_ok = match aggregate_letter_result.correct_spot {
            Some(i) => i == chr,
            None => true,
        };
        if !required_ok {
            return false;
        }
        !vec_contains_char(&aggregate_letter_result.wrong_spot, chr)
    }

    /// Tests whether `strng` satisfies all the aggregate constraints.
    pub fn word_matches(&self, strng: &str) -> (r: bool)
        requires
            self.wf(),
            strng@.len() == WORD_LENGTH,
        ensures
            r == word_matches_spec(*self, strng@),
    {
        if !set_not_in_str(&self.not_used, strng) {
            return false;
        }
        if !used_at_least_once(&self.used_somewhere, strng) {
            return false;
        }
        let mut position: usize = 0;
        while position < WORD_LENGTH
            invariant
                position <= WORD_LENGTH,
                self.wf(),
                strng@.len() == WORD_LENGTH,
                forall|p: int|
                    0 <= p < position ==> #[trigger] letter_matches_spec(
                        self.aggregate_letter_results@[p],
                        strng@[p],
                    ),
                forall|c: char| self.not_used@.contains(c) ==> !strng@.contains(c),
                forall|c: char| self.used_somewhere@.contains(c) ==> strng@.contains(c),
            decreases WORD_LENGTH - position,
        {
            let letter = strng.get_char(position);
            if !self.letter_matches(position, letter) {
                return false;
            }
            position += 1;
        }
        true
    }
}

/// Filters `words`, keeping in their original order exactly the words that
/// satisfy the aggregate constraints. Restartable: it is a pure function of
/// its inputs and may be re-evaluated after every new guess.
pub fn filter_words<'a>(words: &Vec<&'a str>, agg: &AggregateWordResult) -> (r: Vec<&'a str>)
    requires
        agg.wf(),
        forall|i: int| 0 <= i < words@.len() ==> (#[trigger] words@[i])@.len() == WORD_LENGTH,
    ensures
        r@ == words@.filter(matches_pred(*agg)),
{
    let mut r: Vec<&'a str> = Vec::new();
    let mut i: usize = 0;
    proof {
        assert(words@.take(0) =~= Seq::<&'a str>::empty());
        reveal(Seq::filter);
    }
    while i < words.len()
        invariant
            i <= words@.len(),
            agg.wf(),
            forall|k: int| 0 <= k < words@.len() ==> (#[trigger] words@[k])@.len() == WORD_LENGTH,
            r@ == words@.take(i as int).filter(matches_pred(*agg)),
        decreases words@.len() - i,
    {
        let word = words[i];
        proof {
            words@.lemma_take_succ_push(i as int);
            words@.take(i as int).lemma_filter_push(words@[i as int], matches_pred(*agg));
        }
        if agg.word_matches(word) {
            proof {
                assert(matches_pred(*agg)(words@[i as int]));
            }
            r.push(word);
        } else {
            proof {
                assert(!matches_pred(*agg)(words@[i as int]));
            }
        }
        i += 1;
    }
    proof {
        words@.lemma_take_len();
    }
    r
}

} // verus!
