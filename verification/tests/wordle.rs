use wordle_helper::aggregate::AggregateWordResult;
use wordle_helper::guess::{
    CapacityExceeded, GuessedLetter, GuessedLetterResult, GuessedWord, Guesses,
};
use wordle_helper::matcher::{filter_words, set_not_in_str, used_at_least_once};

fn word_list() -> Vec<&'static str> {
    vec![
        "apple", "arose", "bacon", "cargo", "crane", "glyph", "jumbo", "pilot", "quilt", "racer",
        "zebra",
    ]
}

fn guess_word(word: &str, results: [GuessedLetterResult; 5]) -> GuessedWord {
    let mut letters: Vec<GuessedLetter> = Vec::new();
    for (i, letter) in word.chars().enumerate() {
        letters.push(GuessedLetter {
            letter,
            result: results[i],
        });
    }
    GuessedWord { letters }
}

fn all_not_used(word: &str) -> GuessedWord {
    guess_word(
        word,
        [
            GuessedLetterResult::NotUsed,
            GuessedLetterResult::NotUsed,
            GuessedLetterResult::NotUsed,
            GuessedLetterResult::NotUsed,
            GuessedLetterResult::NotUsed,
        ],
    )
}

fn cargo_guess() -> GuessedWord {
    guess_word(
        "cargo",
        [
            GuessedLetterResult::WrongSpot,
            GuessedLetterResult::CorrectSpot,
            GuessedLetterResult::WrongSpot,
            GuessedLetterResult::NotUsed,
            GuessedLetterResult::NotUsed,
        ],
    )
}

fn filtered_words_contains_entry(guesses: &Guesses, entry: &str) -> bool {
    let words = word_list();
    let agg = AggregateWordResult::from(&guesses.vec);
    let filtered_words = filter_words(&words, &agg);
    filtered_words.iter().any(|&word| word == entry)
}

// quick sanity check
#[test]
fn word_is_racer() {
    let c = GuessedLetter {
        letter: 'c',
        result: GuessedLetterResult::WrongSpot,
    };
    let a = GuessedLetter {
        letter: 'a',
        result: GuessedLetterResult::CorrectSpot,
    };
    let r = GuessedLetter {
        letter: 'r',
        result: GuessedLetterResult::WrongSpot,
    };
    let g = GuessedLetter {
        letter: 'g',
        result: GuessedLetterResult::NotUsed,
    };
    let o = GuessedLetter {
        letter: 'o',
        result: GuessedLetterResult::NotUsed,
    };
    let guess_cargo = vec![c, a, r, g, o];
    let guessed_word = GuessedWord {
        letters: guess_cargo,
    };
    let mut guess = Guesses::new();
    guess.add_guess(guessed_word).unwrap();

    assert!(filtered_words_contains_entry(&guess, "racer"));
    assert!(!filtered_words_contains_entry(&guess, "zebra"));
}

#[test]
fn capacity_bound() {
    let mut guesses = Guesses::new();
    for _ in 0..6 {
        assert_eq!(guesses.add_guess(all_not_used("quilt")), Ok(()));
    }
    assert_eq!(guesses.len(), 6);
    assert_eq!(
        guesses.add_guess(all_not_used("jumbo")),
        Err(CapacityExceeded)
    );
    assert_eq!(guesses.len(), 6);
    // the stored guesses are untouched by the failed addition
    assert!(guesses
        .all()
        .iter()
        .all(|g| g.letters[0].letter == 'q' && g.letters.len() == 5));
}

#[test]
fn aggregation_is_idempotent() {
    let mut guesses = Guesses::new();
    guesses.add_guess(cargo_guess()).unwrap();
    guesses.add_guess(all_not_used("quilt")).unwrap();
    let first = AggregateWordResult::from(&guesses.vec);
    let second = AggregateWordResult::from(&guesses.vec);
    assert_eq!(first.not_used, second.not_used);
    assert_eq!(first.used_somewhere, second.used_somewhere);
    assert_eq!(
        first.aggregate_letter_results.len(),
        second.aggregate_letter_results.len()
    );
    for p in 0..5 {
        assert_eq!(
            first.aggregate_letter_results[p].correct_spot,
            second.aggregate_letter_results[p].correct_spot
        );
        assert_eq!(
            first.aggregate_letter_results[p].wrong_spot,
            second.aggregate_letter_results[p].wrong_spot
        );
    }
}

#[test]
fn scenario_cargo_feedback() {
    let mut guesses = Guesses::new();
    guesses.add_guess(cargo_guess()).unwrap();
    let agg = AggregateWordResult::from(&guesses.vec);
    assert!(agg.word_matches("racer"));
    assert!(!agg.word_matches("zebra"));
}

#[test]
fn scenario_all_absent_excludes_every_letter() {
    let mut guesses = Guesses::new();
    guesses.add_guess(all_not_used("arose")).unwrap();
    let agg = AggregateWordResult::from(&guesses.vec);
    // every candidate containing a, r, o, s or e is excluded
    assert!(!agg.word_matches("crane"));
    assert!(!agg.word_matches("zebra"));
    assert!(!agg.word_matches("pilot"));
    assert!(!agg.word_matches("jumbo"));
    // a candidate free of all five letters survives
    assert!(agg.word_matches("glyph"));
}

#[test]
fn scenario_conflicting_correct_keeps_first() {
    let mut guesses = Guesses::new();
    guesses
        .add_guess(guess_word(
            "apple",
            [
                GuessedLetterResult::CorrectSpot,
                GuessedLetterResult::NotUsed,
                GuessedLetterResult::NotUsed,
                GuessedLetterResult::NotUsed,
                GuessedLetterResult::NotUsed,
            ],
        ))
        .unwrap();
    guesses
        .add_guess(guess_word(
            "bacon",
            [
                GuessedLetterResult::CorrectSpot,
                GuessedLetterResult::NotUsed,
                GuessedLetterResult::NotUsed,
                GuessedLetterResult::NotUsed,
                GuessedLetterResult::NotUsed,
            ],
        ))
        .unwrap();
    let agg = AggregateWordResult::from(&guesses.vec);
    // the first guess settled 'a' at position 0; the later 'b' is ignored
    assert_eq!(agg.aggregate_letter_results[0].correct_spot, Some('a'));
}

#[test]
fn scenario_empty_history_matches_everything() {
    let guesses = Guesses::new();
    let words = word_list();
    let agg = AggregateWordResult::from(&guesses.vec);
    let filtered = filter_words(&words, &agg);
    assert_eq!(filtered, words);
}

#[test]
fn adding_a_guess_only_narrows() {
    let words = word_list();
    let mut guesses = Guesses::new();
    guesses.add_guess(cargo_guess()).unwrap();
    let before = filter_words(&words, &AggregateWordResult::from(&guesses.vec));
    guesses.add_guess(all_not_used("quilt")).unwrap();
    let after = filter_words(&words, &AggregateWordResult::from(&guesses.vec));
    assert!(after.iter().all(|w| before.contains(w)));
}

#[test]
fn self_consistent_target_survives() {
    // feedback for the guesses "cargo" and "arose" when the target is "racer"
    let mut guesses = Guesses::new();
    guesses.add_guess(cargo_guess()).unwrap();
    guesses
        .add_guess(guess_word(
            "arose",
            [
                GuessedLetterResult::WrongSpot,
                GuessedLetterResult::WrongSpot,
                GuessedLetterResult::NotUsed,
                GuessedLetterResult::NotUsed,
                GuessedLetterResult::WrongSpot,
            ],
        ))
        .unwrap();
    let agg = AggregateWordResult::from(&guesses.vec);
    assert!(agg.word_matches("racer"));
}

#[test]
fn set_not_in_str_exact() {
    assert!(set_not_in_str(&vec!['x', 'y'], "crane"));
    assert!(!set_not_in_str(&vec!['x', 'c'], "crane"));
    assert!(set_not_in_str(&Vec::new(), "crane"));
}

#[test]
fn used_at_least_once_exact() {
    assert!(used_at_least_once(&vec!['c', 'e'], "crane"));
    assert!(!used_at_least_once(&vec!['c', 'z'], "crane"));
    assert!(used_at_least_once(&Vec::new(), "crane"));
}

#[test]
fn letter_matches_respects_both_constraints() {
    let mut guesses = Guesses::new();
    guesses.add_guess(cargo_guess()).unwrap();
    let agg = AggregateWordResult::from(&guesses.vec);
    // position 1 requires 'a'
    assert!(agg.letter_matches(1, 'a'));
    assert!(!agg.letter_matches(1, 'b'));
    // position 0 forbids the misplaced 'c' but allows others
    assert!(!agg.letter_matches(0, 'c'));
    assert!(agg.letter_matches(0, 'r'));
}
