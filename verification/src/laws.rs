//! Properties of aggregation and matching, stated and proved once and for all.

use crate::aggregate::{
    agg_models, lemma_required_at_push, lemma_required_at_witness, letter_absent_in,
    letter_forbidden_at, letter_used_somewhere, required_at, AggregateWordResult,
};
use crate::guess::{GuessedLetterResult, GuessedWord, WORD_LENGTH};
use crate::matcher::{history_matches, letter_matches_spec, word_matches_spec};
use vstd::prelude::*;

verus! {

/// Matching a word against an aggregate recomputed from a history is exactly
/// matching it against the history itself.
pub proof fn lemma_agg_matches_history(
    agg: AggregateWordResult,
    guesses: Seq<GuessedWord>,
    word: Seq<char>,
)
    requires
        agg_models(agg, guesses),
        word.len() == WORD_LENGTH,
    ensures
        word_matches_spec(agg, word) == history_matches(guesses, word),
{
    if word_matches_spec(agg, word) {
        assert forall|c: char| letter_absent_in(guesses, c) implies !word.contains(c) by {
            assert(agg.not_used@.contains(c));
        }
        assert forall|c: char| letter_used_somewhere(guesses, c) implies word.contains(c) by {
            assert(agg.used_somewhere@.contains(c));
        }
        assert forall|p: int|
            0 <= p < word.len() implies ((#[trigger] required_at(guesses, p)) matches Some(req)
            ==> word[p] == req) by {
            assert(letter_matches_spec(agg.aggregate_letter_results@[p], word[p]));
            assert(agg.aggregate_letter_results@[p].correct_spot == required_at(guesses, p));
        }
        assert forall|p: int|
            0 <= p < word.len() implies !letter_forbidden_at(guesses, p, #[trigger] word[p]) by {
            assert(letter_matches_spec(agg.aggregate_letter_results@[p], word[p]));
            assert(!agg.aggregate_letter_results@[p].wrong_spot@.contains(word[p]));
        }
        assert(history_matches(guesses, word));
    }
    if history_matches(guesses, word) {
        assert forall|c: char| agg.not_used@.contains(c) implies !word.contains(c) by {
            assert(letter_absent_in(guesses, c));
        }
        assert forall|c: char| agg.used_somewhere@.contains(c) implies word.contains(c) by {
            assert(letter_used_somewhere(guesses, c));
        }
        assert forall|p: int|
            0 <= p < word.len() implies #[trigger] letter_matches_spec(
            agg.aggregate_letter_results@[p],
            word[p],
        ) by {
            assert(agg.aggregate_letter_results@[p].correct_spot == required_at(guesses, p));
            assert(!letter_forbidden_at(guesses, p, word[p]));
            assert(!agg.aggregate_letter_results@[p].wrong_spot@.contains(word[p]));
        }
        assert(word_matches_spec(agg, word));
    }
}

/// Aggregation is a pure function of the history: two aggregates recomputed
/// from the same unchanged history hold equal constraint sets, and therefore
/// match exactly the same words.
pub proof fn lemma_aggregate_idempotent(
    r1: AggregateWordResult,
    r2: AggregateWordResult,
    guesses: Seq<GuessedWord>,
)
    requires
        agg_models(r1, guesses),
        agg_models(r2, guesses),
    ensures
        forall|c: char| r1.not_used@.contains(c) <==> r2.not_used@.contains(c),
        forall|c: char| r1.used_somewhere@.contains(c) <==> r2.used_somewhere@.contains(c),
        forall|p: int, c: char|
            0 <= p < WORD_LENGTH ==> (r1.aggregate_letter_results@[p].wrong_spot@.contains(c)
                <==> r2.aggregate_letter_results@[p].wrong_spot@.contains(c)),
        forall|p: int|
            0 <= p < WORD_LENGTH ==> (#[trigger] r1.aggregate_letter_results@[p]).correct_spot
                == r2.aggregate_letter_results@[p].correct_spot,
        forall|word: Seq<char>|
            word.len() == WORD_LENGTH ==> (word_matches_spec(r1, word) == word_matches_spec(
                r2,
                word,
            )),
{
    assert forall|c: char| r1.not_used@.contains(c) <==> r2.not_used@.contains(c) by {
        assert(r1.not_used@.contains(c) <==> letter_absent_in(guesses, c));
        assert(r2.not_used@.contains(c) <==> letter_absent_in(guesses, c));
    }
    assert forall|c: char| r1.used_somewhere@.contains(c) <==> r2.used_somewhere@.contains(c) by {
        assert(r1.used_somewhere@.contains(c) <==> letter_used_somewhere(guesses, c));
        assert(r2.used_somewhere@.contains(c) <==> letter_used_somewhere(guesses, c));
    }
    assert forall|p: int, c: char|
        0 <= p < WORD_LENGTH implies (r1.aggregate_letter_results@[p].wrong_spot@.contains(c)
        <==> r2.aggregate_letter_results@[p].wrong_spot@.contains(c)) by {
        assert(r1.aggregate_letter_results@[p].wrong_spot@.contains(c) <==> letter_forbidden_at(
            guesses,
            p,
            c,
        ));
        assert(r2.aggregate_letter_results@[p].wrong_spot@.contains(c) <==> letter_forbidden_at(
            guesses,
            p,
            c,
        ));
    }
    assert forall|word: Seq<char>|
        word.len() == WORD_LENGTH implies (word_matches_spec(r1, word) == word_matches_spec(
        r2,
        word,
    )) by {
        lemma_agg_matches_history(r1, guesses, word);
        lemma_agg_matches_history(r2, guesses, word);
    }
}

/// Monotonic narrowing: growing the history by one guess never lets a new
/// word into the match set. A word consistent with the longer history was
/// already consistent with the shorter one.
pub proof fn lemma_monotonic_narrowing(guesses: Seq<GuessedWord>, g: GuessedWord, word: Seq<char>)
    requires
        history_matches(guesses.push(g), word),
    ensures
        history_matches(guesses, word),
{
    let longer = guesses.push(g);
    assert forall|c: char| letter_absent_in(guesses, c) implies !word.contains(c) by {
        let (i, p) = choose|i: int, p: int|
            {
                &&& 0 <= i < guesses.len()
                &&& 0 <= p < guesses[i].letters@.len()
                &&& (#[trigger] guesses[i].letters@[p]).result is NotUsed
                &&& guesses[i].letters@[p].letter == c
            };
        assert(longer[i] == guesses[i]);
        assert(longer[i].letters@[p].result is NotUsed);
        assert(letter_absent_in(longer, c));
    }
    assert forall|c: char| letter_used_somewhere(guesses, c) implies word.contains(c) by {
        let (i, p) = choose|i: int, p: int|
            {
                &&& 0 <= i < guesses.len()
                &&& 0 <= p < guesses[i].letters@.len()
                &&& (#[trigger] guesses[i].letters@[p]).result is WrongSpot
                &&& guesses[i].letters@[p].letter == c
            };
        assert(longer[i] == guesses[i]);
        assert(longer[i].letters@[p].result is WrongSpot);
        assert(letter_used_somewhere(longer, c));
    }
    assert forall|p: int|
        0 <= p < word.len() implies ((#[trigger] required_at(guesses, p)) matches Some(req)
        ==> word[p] == req) by {
        lemma_required_at_push(guesses, g, p);
        if required_at(guesses, p) is Some {
            assert(required_at(longer, p) == required_at(guesses, p));
        }
    }
    assert forall|p: int|
        0 <= p < word.len() implies !letter_forbidden_at(guesses, p, #[trigger] word[p]) by {
        if letter_forbidden_at(guesses, p, word[p]) {
            let i = choose|i: int|
                {
                    &&& 0 <= i < guesses.len()
                    &&& (#[trigger] guesses[i]).letters@[p].result is WrongSpot
                    &&& guesses[i].letters@[p].letter == word[p]
                };
            assert(longer[i] == guesses[i]);
            assert(letter_forbidden_at(longer, p, word[p]));
        }
    }
}

/// Monotonic narrowing, stated over the aggregates themselves: when one
/// aggregate reflects a history and another reflects that history grown by one
/// guess, every word matching the latter already matched the former.
pub proof fn lemma_narrowing_of_aggregates(
    before: AggregateWordResult,
    after: AggregateWordResult,
    guesses: Seq<GuessedWord>,
    g: GuessedWord,
    word: Seq<char>,
)
    requires
        agg_models(before, guesses),
        agg_models(after, guesses.push(g)),
        word.len() == WORD_LENGTH,
        word_matches_spec(after, word),
    ensures
        word_matches_spec(before, word),
{
    lemma_agg_matches_history(after, guesses.push(g), word);
    lemma_monotonic_narrowing(guesses, g, word);
    lemma_agg_matches_history(before, guesses, word);
}

/// Feedback for one guess that is honest for a target word, under the simple
/// model without letter multiplicity: a letter marked correct stands in the
/// target at that position, a misplaced letter occurs in the target but not
/// there, and an absent letter occurs nowhere in the target.
pub open spec fn consistent_with(g: GuessedWord, target: Seq<char>) -> bool {
    forall|p: int|
        0 <= p < g.letters@.len() ==> match (#[trigger] g.letters@[p]).result {
            GuessedLetterResult::CorrectSpot => target[p] == g.letters@[p].letter,
            GuessedLetterResult::WrongSpot => target.contains(g.letters@[p].letter) && target[p]
                != g.letters@[p].letter,
            GuessedLetterResult::NotUsed => !target.contains(g.letters@[p].letter),
        }
}

/// Self-consistency: when every guess in the history carries feedback honest
/// for target word `target`, that word stays in its own match set.
pub proof fn lemma_self_consistency(guesses: Seq<GuessedWord>, target: Seq<char>)
    requires
        target.len() == WORD_LENGTH,
        forall|i: int| 0 <= i < guesses.len() ==> (#[trigger] guesses[i]).wf(),
        forall|i: int|
            0 <= i < guesses.len() ==> consistent_with(#[trigger] guesses[i], target),
    ensures
        history_matches(guesses, target),
{
    assert forall|c: char| letter_absent_in(guesses, c) implies !target.contains(c) by {
        let (i, p) = choose|i: int, p: int|
            {
                &&& 0 <= i < guesses.len()
                &&& 0 <= p < guesses[i].letters@.len()
                &&& (#[trigger] guesses[i].letters@[p]).result is NotUsed
                &&& guesses[i].letters@[p].letter == c
            };
        assert(consistent_with(guesses[i], target));
        assert(guesses[i].letters@[p].result is NotUsed);
    }
    assert forall|c: char| letter_used_somewhere(guesses, c) implies target.contains(c) by {
        let (i, p) = choose|i: int, p: int|
            {
                &&& 0 <= i < guesses.len()
                &&& 0 <= p < guesses[i].letters@.len()
                &&& (#[trigger] guesses[i].letters@[p]).result is WrongSpot
                &&& guesses[i].letters@[p].letter == c
            };
        assert(consistent_with(guesses[i], target));
        assert(guesses[i].letters@[p].result is WrongSpot);
    }
    assert forall|p: int|
        0 <= p < target.len() implies ((#[trigger] required_at(guesses, p)) matches Some(req)
        ==> target[p] == req) by {
        if required_at(guesses, p) is Some {
            lemma_required_at_witness(guesses, p);
            let i = choose|i: int|
                {
                    &&& 0 <= i < guesses.len()
                    &&& (#[trigger] guesses[i]).letters@[p].result is CorrectSpot
                    &&& required_at(guesses, p) == Some(guesses[i].letters@[p].letter)
                };
            assert(consistent_with(guesses[i], target));
            assert(guesses[i].wf());
            assert(guesses[i].letters@[p].result is CorrectSpot);
        }
    }
    assert forall|p: int|
        0 <= p < target.len() implies !letter_forbidden_at(guesses, p, #[trigger] target[p]) by {
        if letter_forbidden_at(guesses, p, target[p]) {
            let i = choose|i: int|
                {
                    &&& 0 <= i < guesses.len()
                    &&& (#[trigger] guesses[i]).letters@[p].result is WrongSpot
                    &&& guesses[i].letters@[p].letter == target[p]
                };
            assert(consistent_with(guesses[i], target));
            assert(guesses[i].wf());
            assert(guesses[i].letters@[p].result is WrongSpot);
        }
    }
}

/// Self-consistency at the aggregate level: an aggregate recomputed from a
/// history of honest feedback for `target` still lets `target` through.
pub proof fn lemma_self_consistency_of_aggregate(
    agg: AggregateWordResult,
    guesses: Seq<GuessedWord>,
    target: Seq<char>,
)
    requires
        agg_models(agg, guesses),
        target.len() == WORD_LENGTH,
        forall|i: int| 0 <= i < guesses.len() ==> (#[trigger] guesses[i]).wf(),
        forall|i: int|
            0 <= i < guesses.len() ==> consistent_with(#[trigger] guesses[i], target),
    ensures
        word_matches_spec(agg, target),
{
    lemma_self_consistency(guesses, target);
    lemma_agg_matches_history(agg, guesses, target);
}

/// A letter reported absent by any guess excludes every candidate containing it.
pub proof fn lemma_absent_excludes(guesses: Seq<GuessedWord>, word: Seq<char>, c: char)
    requires
        letter_absent_in(guesses, c),
        word.contains(c),
    ensures
        !history_matches(guesses, word),
{
}

/// With an empty history there are no constraints yet: every word matches.
pub proof fn lemma_empty_history_matches(word: Seq<char>)
    ensures
        history_matches(Seq::<GuessedWord>::empty(), word),
{
    let guesses = Seq::<GuessedWord>::empty();
    assert(required_at(guesses, 0) is None);
    assert forall|p: int|
        0 <= p < word.len() implies ((#[trigger] required_at(guesses, p)) matches Some(req)
        ==> word[p] == req) by {
        assert(required_at(guesses, p) is None);
    }
}

/// With an empty history an aggregate recomputed from it constrains nothing:
/// every word of the right length matches.
pub proof fn lemma_empty_aggregate_matches(agg: AggregateWordResult, word: Seq<char>)
    requires
        agg_models(agg, Seq::<GuessedWord>::empty()),
        word.len() == WORD_LENGTH,
    ensures
        word_matches_spec(agg, word),
{
    lemma_empty_history_matches(word);
    lemma_agg_matches_history(agg, Seq::<GuessedWord>::empty(), word);
}

} // verus!
