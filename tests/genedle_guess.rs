use genedle::genedle::{
    corpus_verdict, guess, num_letters, screen_guess, valid_guess, GameMode, Guess, GuessResult,
    InvalidGuess, Screening,
};
use genedle::registry::{RegistryReply, SymbolSearch};
use genedle::scoring::{score, LetterFeedback, ValidGuess};
use genedle::selector::SelectError;

fn normal(word: &str) -> Guess {
    Guess { word: word.chars().collect(), session: 1234567890, mode: GameMode::Normal }
}

fn hard(word: &str) -> Guess {
    Guess { word: word.chars().collect(), session: 1234567890, mode: GameMode::Hard }
}

fn secret() -> Result<String, SelectError> {
    Ok("MIB2".to_string())
}

fn answered(status: usize, symbols: &[&str]) -> RegistryReply {
    RegistryReply::Answered(SymbolSearch {
        status,
        num_found: symbols.len(),
        symbols: symbols.iter().map(|s| s.to_string()).collect(),
    })
}

#[test]
fn test_guess() {
    let response = guess(&normal("MIB"), &secret(), None);
    assert_eq!(response, GuessResult::Invalid(InvalidGuess::NotEnoughLetters));

    let response = guess(&normal("MIB22"), &secret(), None);
    assert_eq!(response, GuessResult::Invalid(InvalidGuess::TooManyLetters));

    let response = guess(&normal("MIB2"), &secret(), None);
    assert_eq!(
        response,
        GuessResult::Valid(ValidGuess { is_correct: true, result: vec![LetterFeedback::Correct; 4] })
    );

    let response = guess(&normal("AAAA"), &secret(), None);
    assert_eq!(
        response,
        GuessResult::Valid(ValidGuess { is_correct: false, result: vec![LetterFeedback::Absent; 4] })
    );

    let response = guess(&normal("MIB3"), &secret(), None);
    assert_eq!(
        response,
        GuessResult::Valid(ValidGuess {
            is_correct: false,
            result: vec![
                LetterFeedback::Correct,
                LetterFeedback::Correct,
                LetterFeedback::Correct,
                LetterFeedback::Absent
            ],
        })
    );

    let response = guess(&normal("2IBM"), &secret(), None);
    assert_eq!(
        response,
        GuessResult::Valid(ValidGuess {
            is_correct: false,
            result: vec![
                LetterFeedback::Present,
                LetterFeedback::Correct,
                LetterFeedback::Correct,
                LetterFeedback::Present
            ],
        })
    );

    let response = guess(&normal("M2B2"), &secret(), None);
    assert_eq!(
        response,
        GuessResult::Valid(ValidGuess {
            is_correct: false,
            result: vec![
                LetterFeedback::Correct,
                LetterFeedback::Absent,
                LetterFeedback::Correct,
                LetterFeedback::Correct
            ],
        })
    );

    let response = guess(&normal("2222"), &secret(), None);
    assert_eq!(
        response,
        GuessResult::Valid(ValidGuess {
            is_correct: false,
            result: vec![
                LetterFeedback::Absent,
                LetterFeedback::Absent,
                LetterFeedback::Absent,
                LetterFeedback::Correct
            ],
        })
    );
}

#[test]
fn repeated_guess_gives_the_same_outcome() {
    for word in ["MIB", "2IBM", "2222", "MIB2"] {
        let first = guess(&normal(word), &secret(), None);
        let second = guess(&normal(word), &secret(), None);
        assert_eq!(first, second);
    }
}

#[test]
fn present_letters_are_claimed_left_to_right() {
    let g: Vec<char> = "EEXE".chars().collect();
    let s: Vec<char> = "AEBE".chars().collect();
    let r = score(&g, &s);
    assert!(!r.is_correct);
    assert_eq!(
        r.result,
        vec![LetterFeedback::Absent, LetterFeedback::Correct, LetterFeedback::Absent, LetterFeedback::Correct]
    );
    let g: Vec<char> = "BAAB".chars().collect();
    let s: Vec<char> = "ABCA".chars().collect();
    let r = score(&g, &s);
    assert_eq!(
        r.result,
        vec![LetterFeedback::Present, LetterFeedback::Present, LetterFeedback::Present, LetterFeedback::Absent]
    );
}

#[test]
fn empty_guess_against_empty_secret_is_correct() {
    let r = score(&Vec::new(), &Vec::new());
    assert!(r.is_correct);
    assert!(r.result.is_empty());
}

#[test]
fn secret_length_counts_characters() {
    assert_eq!(num_letters(&secret()), 4);
    assert_eq!(num_letters(&Err(SelectError::NoSymbolFound)), -1);
    assert_eq!(num_letters(&Err(SelectError::LookupFailure("down".to_string()))), -1);
}

#[test]
fn unknown_secret_is_an_internal_error() {
    let r = guess(&normal("MIB2"), &Err(SelectError::NoSymbolFound), None);
    assert_eq!(
        r,
        GuessResult::Invalid(InvalidGuess::InternalError("Unable to fetch gene symbol".to_string()))
    );
}

#[test]
fn normal_mode_needs_no_lookup() {
    assert_eq!(screen_guess(&normal("ABCD"), 4), Screening::Settled(None));
    assert_eq!(screen_guess(&hard("ABCD"), 4), Screening::NeedsLookup);
    assert_eq!(screen_guess(&hard("ABC"), 4), Screening::Settled(Some(InvalidGuess::NotEnoughLetters)));
    assert_eq!(screen_guess(&hard("ABCDE"), 4), Screening::Settled(Some(InvalidGuess::TooManyLetters)));
}

#[test]
fn hard_mode_checks_the_registry() {
    let known = answered(0, &["MIB1", "MIB2"]);
    assert_eq!(valid_guess(&hard("MIB2"), 4, Some(&known)), None);
    assert_eq!(
        guess(&hard("MIB2"), &secret(), Some(&known)),
        GuessResult::Valid(ValidGuess { is_correct: true, result: vec![LetterFeedback::Correct; 4] })
    );

    let other = answered(0, &["MIB1"]);
    assert_eq!(valid_guess(&hard("MIB2"), 4, Some(&other)), Some(InvalidGuess::NotInCorpus));
    assert_eq!(guess(&hard("MIB2"), &secret(), Some(&other)), GuessResult::Invalid(InvalidGuess::NotInCorpus));

    let failed_search = answered(1, &["MIB2"]);
    assert_eq!(corpus_verdict(&"MIB2".chars().collect(), &failed_search), Some(InvalidGuess::NotInCorpus));

    let none_found = RegistryReply::Answered(SymbolSearch {
        status: 0,
        num_found: 0,
        symbols: vec!["MIB2".to_string()],
    });
    assert_eq!(corpus_verdict(&"MIB2".chars().collect(), &none_found), Some(InvalidGuess::NotInCorpus));

    let down = RegistryReply::Failed("connection refused".to_string());
    assert_eq!(
        valid_guess(&hard("MIB2"), 4, Some(&down)),
        Some(InvalidGuess::InternalError("connection refused".to_string()))
    );
}

#[test]
fn normal_mode_ignores_the_registry() {
    let other = answered(0, &["XXXX"]);
    assert_eq!(valid_guess(&normal("ABCD"), 4, Some(&other)), None);
    assert_eq!(valid_guess(&normal("ABCD"), -1, None), Some(InvalidGuess::InternalError("Unable to fetch gene symbol".to_string())));
}
