//! Aggregation of a guess history into positional and global constraints.
//!
//! The aggregate is recomputed from the whole history on demand; it is a pure
//! function of the history and is never updated in place.

use crate::guess::{GuessedLetterResult, GuessedWord, WORD_LENGTH};
use vstd::prelude::*;

verus! {

broadcast use vstd::seq_lib::lemma_seq_contains_after_push;

/// Constraints derived for one letter position.
#[derive(Clone, Debug)]
pub struct AggregateLetterResult {
    /// Letters some guess reported `WrongSpot` at this position: forbidden here.
    pub wrong_spot: Vec<char>,
    /// The letter required at this position, taken from the first guess that
    /// reported `CorrectSpot` here. Should several guesses disagree on the
    /// correct letter for one position, the chronologically first one wins and
    /// the later reports are ignored; this is deliberate, not an error.
    pub correct_spot: Option<char>,
}

/// Constraints derived from a whole guess history.
///
/// Known simplification: letter multiplicity is not modelled. When a guess
/// holds a letter twice and the target only once, honest feedback marks the
/// extra occurrence `NotUsed`, and that letter then lands in `not_used` and
/// excludes words that do contain it once.
#[derive(Clone, Debug)]
pub struct AggregateWordResult {
    /// Letters confirmed absent from the target word.
    pub not_used: Vec<char>,
    /// Letters confirmed present somewhere in the target word.
    pub used_somewhere: Vec<char>,
    /// One entry per letter position.
    pub aggregate_letter_results: Vec<AggregateLetterResult>,
}

/// Some guess reports `NotUsed` for letter `c` at some position.
pub open spec fn letter_absent_in(guesses: Seq<GuessedWord>, c: char) -> bool {
    exists|i: int, p: int|
        {
            &&& 0 <= i < guesses.len()
            &&& 0 <= p < guesses[i].letters@.len()
            &&& (#[trigger] guesses[i].letters@[p]).result is NotUsed
            &&& guesses[i].letters@[p].letter == c
        }
}

/// Some guess reports `WrongSpot` for letter `c` at some position.
pub open spec fn letter_used_somewhere(guesses: Seq<GuessedWord>, c: char) -> bool {
    exists|i: int, p: int|
        {
            &&& 0 <= i < guesses.len()
            &&& 0 <= p < guesses[i].letters@.len()
            &&& (#[trigger] guesses[i].letters@[p]).result is WrongSpot
            &&& guesses[i].letters@[p].letter == c
        }
}

/// Some guess reports `WrongSpot` for letter `c` at position `p`.
pub open spec fn letter_forbidden_at(guesses: Seq<GuessedWord>, p: int, c: char) -> bool {
    exists|i: int|
        {
            &&& 0 <= i < guesses.len()
            &&& (#[trigger] guesses[i]).letters@[p].result is WrongSpot
            &&& guesses[i].letters@[p].letter == c
        }
}

/// The letter required at position `p`: the one reported `CorrectSpot` there
/// by the chronologically first guess that reported any `CorrectSpot` at `p`.
pub open spec fn required_at(guesses: Seq<GuessedWord>, p: int) -> Option<char>
    decreases guesses.len(),
{
    if guesses.len() == 0 {
        None
    } else if guesses[0].letters@[p].result is CorrectSpot {
        Some(guesses[0].letters@[p].letter)
    } else {
        required_at(guesses.drop_first(), p)
    }
}

/// `agg` is exactly the aggregation of `guesses`: same membership of the
/// global and per-position letter sets, and the same required letter at each
/// position.
pub open spec fn agg_models(agg: AggregateWordResult, guesses: Seq<GuessedWord>) -> bool {
    &&& agg.aggregate_letter_results@.len() == WORD_LENGTH
    &&& forall|c: char|
        #![trigger agg.not_used@.contains(c)]
        #![trigger letter_absent_in(guesses, c)]
        agg.not_used@.contains(c) <==> letter_absent_in(guesses, c)
    &&& forall|c: char|
        #![trigger agg.used_somewhere@.contains(c)]
        #![trigger letter_used_somewhere(guesses, c)]
        agg.used_somewhere@.contains(c) <==> letter_used_somewhere(guesses, c)
    &&& forall|p: int, c: char|
        #![trigger agg.aggregate_letter_results@[p].wrong_spot@.contains(c)]
        #![trigger letter_forbidden_at(guesses, p, c)]
        0 <= p < WORD_LENGTH ==> (agg.aggregate_letter_results@[p].wrong_spot@.contains(c)
            <==> letter_forbidden_at(guesses, p, c))
    &&& forall|p: int|
        0 <= p < WORD_LENGTH ==> (#[trigger] agg.aggregate_letter_results@[p]).correct_spot
            == required_at(guesses, p)
}

/// How the required letter of a position evolves when one guess is appended:
/// an already settled letter stays settled, and only when none was settled yet
/// does a `CorrectSpot` report of the new guess set one.
pub proof fn lemma_required_at_push(s: Seq<GuessedWord>, g: GuessedWord, p: int)
    ensures
        required_at(s.push(g), p) == if required_at(s, p) is Some {
            required_at(s, p)
        } else if g.letters@[p].result is CorrectSpot {
            Some(g.letters@[p].letter)
        } else {
            None::<char>
        },
    decreases s.len(),
{
    if s.len() == 0 {
        assert(s.push(g)[0] == g);
        if !(g.letters@[p].result is CorrectSpot) {
            assert(s.push(g).drop_first() =~= Seq::<GuessedWord>::empty());
            assert(required_at(Seq::<GuessedWord>::empty(), p) == None::<char>);
        }
    } else {
        assert(s.push(g)[0] == s[0]);
        if !(s[0].letters@[p].result is CorrectSpot) {
            assert(s.push(g).drop_first() =~= s.drop_first().push(g));
            lemma_required_at_push(s.drop_first(), g, p);
        }
    }
}

/// Some guess reports `NotUsed` for letter `c` at some position below `p_bound`.
spec fn absent_below(guesses: Seq<GuessedWord>, p_bound: int, c: char) -> bool {
    exists|i: int, p: int|
        {
            &&& 0 <= i < guesses.len()
            &&& 0 <= p < p_bound
            &&& (#[trigger] guesses[i].letters@[p]).result is NotUsed
            &&& guesses[i].letters@[p].letter == c
        }
}

/// Some guess reports `WrongSpot` for letter `c` at some position below `p_bound`.
spec fn wrong_below(guesses: Seq<GuessedWord>, p_bound: int, c: char) -> bool {
    exists|i: int, p: int|
        {
            &&& 0 <= i < guesses.len()
            &&& 0 <= p < p_bound
            &&& (#[trigger] guesses[i].letters@[p]).result is WrongSpot
            &&& guesses[i].letters@[p].letter == c
        }
}

/// Some guess with index below `i_bound` reports `NotUsed` for `c` at position `p`.
spec fn absent_at_upto(guesses: Seq<GuessedWord>, p: int, i_bound: int, c: char) -> bool {
    exists|i: int|
        {
            &&& 0 <= i < i_bound
            &&& (#[trigger] guesses[i]).letters@[p].result is NotUsed
            &&& guesses[i].letters@[p].letter == c
        }
}

/// Some guess with index below `i_bound` reports `WrongSpot` for `c` at position `p`.
spec fn wrong_at_upto(guesses: Seq<GuessedWord>, p: int, i_bound: int, c: char) -> bool {
    exists|i: int|
        {
            &&& 0 <= i < i_bound
            &&& (#[trigger] guesses[i]).letters@[p].result is WrongSpot
            &&& guesses[i].letters@[p].letter == c
        }
}

/// Scanning one more position extends the positions-below view of the absent
/// and misplaced letters by what the full scan of that position found.
proof fn lemma_below_step(guesses: Seq<GuessedWord>, p: int, c: char)
    requires
        0 <= p,
    ensures
        absent_below(guesses, p + 1, c) <==> (absent_below(guesses, p, c) || absent_at_upto(
            guesses,
            p,
            guesses.len() as int,
            c,
        )),
        wrong_below(guesses, p + 1, c) <==> (wrong_below(guesses, p, c) || wrong_at_upto(
            guesses,
            p,
            guesses.len() as int,
            c,
        )),
{
    if absent_below(guesses, p + 1, c) {
        let (i, q) = choose|i: int, q: int|
            {
                &&& 0 <= i < guesses.len()
                &&& 0 <= q < p + 1
                &&& (#[trigger] guesses[i].letters@[q]).result is NotUsed
                &&& guesses[i].letters@[q].letter == c
            };
        if q < p {
            assert(absent_below(guesses, p, c));
        } else {
            assert(guesses[i].letters@[p].result is NotUsed);
            assert(absent_at_upto(guesses, p, guesses.len() as int, c));
        }
    }
    if wrong_below(guesses, p + 1, c) {
        let (i, q) = choose|i: int, q: int|
            {
                &&& 0 <= i < guesses.len()
                &&& 0 <= q < p + 1
                &&& (#[trigger] guesses[i].letters@[q]).result is WrongSpot
                &&& guesses[i].letters@[q].letter == c
            };
        if q < p {
            assert(wrong_below(guesses, p, c));
        } else {
            assert(guesses[i].letters@[p].result is WrongSpot);
            assert(wrong_at_upto(guesses, p, guesses.len() as int, c));
        }
    }
    if absent_below(guesses, p, c) {
        assert(absent_below(guesses, p + 1, c));
    }
    if absent_at_upto(guesses, p, guesses.len() as int, c) {
        let i = choose|i: int|
            {
                &&& 0 <= i < guesses.len()
                &&& (#[trigger] guesses[i]).letters@[p].result is NotUsed
                &&& guesses[i].letters@[p].letter == c
            };
        assert(guesses[i].letters@[p].result is NotUsed);
        assert(absent_below(guesses, p + 1, c));
    }
    if wrong_below(guesses, p, c) {
        assert(wrong_below(guesses, p + 1, c));
    }
    if wrong_at_upto(guesses, p, guesses.len() as int, c) {
        let i = choose|i: int|
            {
                &&& 0 <= i < guesses.len()
                &&& (#[trigger] guesses[i]).letters@[p].result is WrongSpot
                &&& guesses[i].letters@[p].letter == c
            };
        assert(guesses[i].letters@[p].result is WrongSpot);
        assert(wrong_below(guesses, p + 1, c));
    }
}

/// A settled required letter comes from some guess that reported `CorrectSpot`
/// with that letter at that position.
pub proof fn lemma_required_at_witness(s: Seq<GuessedWord>, p: int)
    requires
        required_at(s, p) is Some,
    ensures
        exists|i: int|
            {
                &&& 0 <= i < s.len()
                &&& (#[trigger] s[i]).letters@[p].result is CorrectSpot
                &&& required_at(s, p) == Some(s[i].letters@[p].letter)
            },
    decreases s.len(),
{
    if s[0].letters@[p].result is CorrectSpot {
        assert(s[0].letters@[p].result is CorrectSpot);
    } else {
        lemma_required_at_witness(s.drop_first(), p);
        let j = choose|j: int|
            {
                &&& 0 <= j < s.drop_first().len()
                &&& (#[trigger] s.drop_first()[j]).letters@[p].result is CorrectSpot
                &&& required_at(s.drop_first(), p) == Some(s.drop_first()[j].letters@[p].letter)
            };
        assert(s[j + 1] == s.drop_first()[j]);
    }
}

/// Once every position of well-formed guesses has been scanned, the
/// positions-below views coincide with the global absent and misplaced sets.
proof fn lemma_below_full(guesses: Seq<GuessedWord>, c: char)
    requires
        forall|i: int| 0 <= i < guesses.len() ==> (#[trigger] guesses[i]).wf(),
    ensures
        absent_below(guesses, WORD_LENGTH as int, c) <==> letter_absent_in(guesses, c),
        wrong_below(guesses, WORD_LENGTH as int, c) <==> letter_used_somewhere(guesses, c),
{
    if absent_below(guesses, WORD_LENGTH as int, c) {
        let (i, p) = choose|i: int, p: int|
            {
                &&& 0 <= i < guesses.len()
                &&& 0 <= p < WORD_LENGTH
                &&& (#[trigger] guesses[i].letters@[p]).result is NotUsed
                &&& guesses[i].letters@[p].letter == c
            };
        assert(guesses[i].wf());
        assert(letter_absent_in(guesses, c));
    }
    if letter_absent_in(guesses, c) {
        let (i, p) = choose|i: int, p: int|
            {
                &&& 0 <= i < guesses.len()
                &&& 0 <= p < guesses[i].letters@.len()
                &&& (#[trigger] guesses[i].letters@[p]).result is NotUsed
                &&& guesses[i].letters@[p].letter == c
            };
        assert(guesses[i].wf());
        assert(absent_below(guesses, WORD_LENGTH as int, c));
    }
    if wrong_below(guesses, WORD_LENGTH as int, c) {
        let (i, p) = choose|i: int, p: int|
            {
                &&& 0 <= i < guesses.len()
                &&& 0 <= p < WORD_LENGTH
                &&& (#[trigger] guesses[i].letters@[p]).result is WrongSpot
                &&& guesses[i].letters@[p].letter == c
            };
        assert(guesses[i].wf());
        assert(letter_used_somewhere(guesses, c));
    }
    if letter_used_somewhere(guesses, c) {
        let (i, p) = choose|i: int, p: int|
            {
                &&& 0 <= i < guesses.len()
                &&& 0 <= p < guesses[i].letters@.len()
                &&& (#[trigger] guesses[i].letters@[p]).result is WrongSpot
                &&& guesses[i].letters@[p].letter == c
            };
        assert(guesses[i].wf());
        assert(wrong_below(guesses, WORD_LENGTH as int, c));
    }
}

impl AggregateWordResult {
    /// The aggregate carries one per-position constraint for each letter.
    pub open spec fn wf(self) -> bool {
        self.aggregate_letter_results@.len() == WORD_LENGTH
    }

    /// Recomputes the aggregate constraints from a whole guess history,
    /// scanning every guess position by position.
    pub fn from(guessed_words: &Vec<GuessedWord>) -> (r: AggregateWordResult)
        requires
            forall|i: int| 0 <= i < guessed_words@.len() ==> (#[trigger] guessed_words@[i]).wf(),
        ensures
            r.wf(),
            agg_models(r, guessed_words@),
    {
        let ghost gs = guessed_words@;
        let mut not_used: Vec<char> = Vec::new();
        let mut used_somewhere: Vec<char> = Vec::new();
        let mut aggregate_letter_results: Vec<AggregateLetterResult> = Vec::new();
        let mut letter_index: usize = 0;
        while letter_index < WORD_LENGTH
            invariant
                letter_index <= WORD_LENGTH,
                gs == guessed_words@,
                forall|i: int| 0 <= i < gs.len() ==> (#[trigger] gs[i]).wf(),
                aggregate_letter_results@.len() == letter_index,
                forall|c: char|
                    #![trigger not_used@.contains(c)]
                    #![trigger absent_below(gs, letter_index as int, c)]
                    not_used@.contains(c) <==> absent_below(gs, letter_index as int, c),
                forall|c: char|
                    #![trigger used_somewhere@.contains(c)]
                    #![trigger wrong_below(gs, letter_index as int, c)]
                    used_somewhere@.contains(c) <==> wrong_below(gs, letter_index as int, c),
                forall|q: int, c: char|
                    #![trigger aggregate_letter_results@[q].wrong_spot@.contains(c)]
                    #![trigger letter_forbidden_at(gs, q, c)]
                    0 <= q < letter_index ==> (aggregate_letter_results@[q].wrong_spot@.contains(c)
                        <==> letter_forbidden_at(gs, q, c)),
                forall|q: int|
                    0 <= q < letter_index ==> (#[trigger] aggregate_letter_results@[q]).correct_spot
                        == required_at(gs, q),
            decreases WORD_LENGTH - letter_index,
        {
            let mut correct_spot: Option<char> = None;
            let mut wrong_spot: Vec<char> = Vec::new();
            let mut gi: usize = 0;
            proof {
                assert(gs.take(0) =~= Seq::<GuessedWord>::empty());
            }
            while gi < guessed_words.len()
                invariant
                    gi <= gs.len(),
                    gs == guessed_words@,
                    letter_index < WORD_LENGTH,
                    forall|i: int| 0 <= i < gs.len() ==> (#[trigger] gs[i]).wf(),
                    forall|c: char|
                        #![trigger not_used@.contains(c)]
                        not_used@.contains(c) <==> (absent_below(gs, letter_index as int, c)
                            || absent_at_upto(gs, letter_index as int, gi as int, c)),
                    forall|c: char|
                        #![trigger used_somewhere@.contains(c)]
                        used_somewhere@.contains(c) <==> (wrong_below(gs, letter_index as int, c)
                            || wrong_at_upto(gs, letter_index as int, gi as int, c)),
                    forall|c: char|
                        #![trigger wrong_spot@.contains(c)]
                        wrong_spot@.contains(c) <==> wrong_at_upto(
                            gs,
                            letter_index as int,
                            gi as int,
                            c,
                        ),
                    correct_spot == required_at(gs.take(gi as int), letter_index as int),
                decreases gs.len() - gi,
            {
                proof {
                    assert(gs[gi as int].wf());
                    gs.lemma_take_succ_push(gi as int);
                    lemma_required_at_push(gs.take(gi as int), gs[gi as int], letter_index as int);
                }
                let word = &guessed_words[gi];
                let current_letter = &word.letters[letter_index];
                match current_letter.result {
                    GuessedLetterResult::CorrectSpot => {
                        if correct_spot.is_none() {
                            correct_spot = Some(current_letter.letter);
                        }
                    },
                    GuessedLetterResult::WrongSpot => {
                        wrong_spot.push(current_letter.letter);
                        used_somewhere.push(current_letter.letter);
                    },
                    GuessedLetterResult::NotUsed => {
                        not_used.push(current_letter.letter);
                    },
                }
                gi += 1;
            }
            proof {
                gs.lemma_take_len();
                assert forall|c: char| #[trigger]
                    wrong_spot@.contains(c) <==> letter_forbidden_at(gs, letter_index as int, c) by {
                    if wrong_at_upto(gs, letter_index as int, gs.len() as int, c) {
                        assert(letter_forbidden_at(gs, letter_index as int, c));
                    }
                    if letter_forbidden_at(gs, letter_index as int, c) {
                        assert(wrong_at_upto(gs, letter_index as int, gs.len() as int, c));
                    }
                }
                assert forall|c: char| #[trigger]
                    not_used@.contains(c) <==> absent_below(gs, letter_index as int + 1, c) by {
                    lemma_below_step(gs, letter_index as int, c);
                }
                assert forall|c: char| #[trigger]
                    used_somewhere@.contains(c) <==> wrong_below(gs, letter_index as int + 1, c) by {
                    lemma_below_step(gs, letter_index as int, c);
                }
            }
            aggregate_letter_results.push(AggregateLetterResult { wrong_spot, correct_spot });
            letter_index += 1;
        }
        proof {
            assert forall|c: char| #[trigger]
                not_used@.contains(c) <==> letter_absent_in(gs, c) by {
                lemma_below_full(gs, c);
            }
            assert forall|c: char| #[trigger]
                used_somewhere@.contains(c) <==> letter_used_somewhere(gs, c) by {
                lemma_below_full(gs, c);
            }
        }
        AggregateWordResult { not_used, used_somewhere, aggregate_letter_results }
    }
}

} // verus!
