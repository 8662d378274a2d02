//! Guesses and the bounded guess history.

use vstd::prelude::*;

verus! {

/// Number of letters in every guess and every candidate word.
pub const WORD_LENGTH: usize = 5;

/// Maximum number of guesses a history may hold.
pub const MAX_GUESSES: usize = 6;

/// Per-letter feedback from one guess.
#[derive(Clone, Copy, Debug, PartialEq, Eq, Structural)]
pub enum GuessedLetterResult {
    /// The letter does not occur anywhere in the target word.
    NotUsed,
    /// The letter occurs in the target word, but not at this position.
    WrongSpot,
    /// The letter occurs in the target word at exactly this position.
    CorrectSpot,
}

/// One letter of a guess together with its feedback. Immutable once created.
#[derive(Clone, Copy, Debug, PartialEq, Eq, Structural)]
pub struct GuessedLetter {
    pub letter: char,
    pub result: GuessedLetterResult,
}

/// One full submitted guess: exactly `WORD_LENGTH` letters, each with its
/// feedback. Immutable once created.
#[derive(Clone, Debug)]
pub struct GuessedWord {
    pub letters: Vec<GuessedLetter>,
}

impl GuessedWord {
    /// A guess is well formed when it holds one letter per position.
    pub open spec fn wf(self) -> bool {
        self.letters@.len() == WORD_LENGTH
    }
}

/// Reported when an addition would grow the history past `MAX_GUESSES`.
#[derive(Clone, Copy, Debug, PartialEq, Eq, Structural)]
pub struct CapacityExceeded;

/// The ordered, capacity-bounded log of guesses in one session. Guesses are
/// only ever appended; the history never shrinks.
#[derive(Debug)]
pub struct Guesses {
    pub vec: Vec<GuessedWord>,
}

impl View for Guesses {
    type V = Seq<GuessedWord>;

    open spec fn view(&self) -> Seq<GuessedWord> {
        self.vec@
    }
}

impl Guesses {
    /// The history invariant: never more than `MAX_GUESSES` guesses, each of
    /// them well formed.
    pub open spec fn wf(self) -> bool {
        &&& self@.len() <= MAX_GUESSES
        &&& forall|i: int| 0 <= i < self@.len() ==> (#[trigger] self@[i]).wf()
    }

    /// Creates an empty history.
    pub fn new() -> (r: Guesses)
        ensures
            r@ == Seq::<GuessedWord>::empty(),
            r.wf(),
    {
        Guesses { vec: Vec::new() }
    }

    /// Current number of guesses.
    pub fn len(&self) -> (n: usize)
        ensures
            n == self@.len(),
    {
        self.vec.len()
    }

    /// Read-only view of all guesses, in insertion order.
    pub fn all(&self) -> (r: &Vec<GuessedWord>)
        ensures
            r@ == self@,
    {
        &self.vec
    }

    /// Appends `guessed_word` while fewer than `MAX_GUESSES` guesses are
    /// stored; otherwise reports `CapacityExceeded` and leaves the history
    /// unchanged.
    pub fn add_guess(&mut self, guessed_word: GuessedWord) -> (r: Result<(), CapacityExceeded>)
        requires
            old(self).wf(),
            guessed_word.wf(),
        ensures
            final(self).wf(),
            old(self)@.len() < MAX_GUESSES ==> r is Ok && final(self)@ == old(self)@.push(
                guessed_word,
            ),
            old(self)@.len() >= MAX_GUESSES ==> r is Err && final(self)@ == old(self)@,
    {
        if self.len() < MAX_GUESSES {
            self.vec.push(guessed_word);
            Ok(())
        } else {
            Err(CapacityExceeded)
        }
    }
}

} // verus!
