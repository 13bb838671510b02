use wordle::error::GameError;
use wordle::guess::{Guess, GuessState};
use wordle::letters::LetterResult;

#[test]
fn a_new_guess_is_pending_and_empty() {
    let guess = Guess::new(5);
    assert_eq!(guess.state(), GuessState::Pending);
    assert_eq!(guess.max_length(), 5);
    assert_eq!(guess.remaining_letters(), 5);
    assert_eq!(guess.as_chars(), Vec::<char>::new());
}

#[test]
fn make_vec_activates_the_first_guess_only() {
    let guesses = Guess::make_vec(4, 3);
    assert_eq!(guesses.len(), 3);
    assert_eq!(guesses[0].state(), GuessState::Active);
    assert_eq!(guesses[1].state(), GuessState::Pending);
    assert_eq!(guesses[2].state(), GuessState::Pending);
    for guess in &guesses {
        assert_eq!(guess.max_length(), 4);
        assert_eq!(guess.remaining_letters(), 4);
    }
    assert!(Guess::make_vec(4, 0).is_empty());
}

#[test]
fn add_letter_stops_at_the_word_length() {
    let mut guess = Guess::new(3);
    assert_eq!(guess.add_letter('a'), Ok(()));
    assert_eq!(guess.add_letter('B'), Ok(()));
    assert_eq!(guess.remaining_letters(), 1);
    assert_eq!(guess.add_letter('c'), Ok(()));
    assert_eq!(guess.remaining_letters(), 0);
    assert_eq!(guess.add_letter('d'), Err(GameError::FullGuess));
    assert_eq!(guess.as_chars(), vec!['a', 'B', 'c']);
}

#[test]
fn a_guess_for_no_letters_is_full_at_once() {
    let mut guess = Guess::new(0);
    assert_eq!(guess.add_letter('a'), Err(GameError::FullGuess));
    assert_eq!(guess.delete_letter(), Err(GameError::EmptyGuess));
    assert_eq!(guess.values(), Vec::new());
}

#[test]
fn delete_letter_stops_at_the_empty_guess() {
    let mut guess = Guess::new(3);
    assert_eq!(guess.delete_letter(), Err(GameError::EmptyGuess));
    assert_eq!(guess.add_letter('x'), Ok(()));
    assert_eq!(guess.add_letter('y'), Ok(()));
    assert_eq!(guess.delete_letter(), Ok(()));
    assert_eq!(guess.as_chars(), vec!['x']);
    assert_eq!(guess.delete_letter(), Ok(()));
    assert_eq!(guess.delete_letter(), Err(GameError::EmptyGuess));
    assert_eq!(guess.as_chars(), Vec::<char>::new());
}

#[test]
fn values_of_an_open_guess_shows_letters_then_blanks() {
    let mut guess = Guess::new(4);
    let blank = (Some(' '), Some(LetterResult::Empty));
    assert_eq!(guess.values(), vec![blank; 4]);
    guess.add_letter('a').unwrap();
    guess.add_letter('Q').unwrap();
    assert_eq!(
        guess.values(),
        vec![
            (Some('A'), Some(LetterResult::Empty)),
            (Some('Q'), Some(LetterResult::Empty)),
            blank,
            blank,
        ]
    );
    // The letters themselves are stored as they were given.
    assert_eq!(guess.as_chars(), vec!['a', 'Q']);
}

#[test]
fn a_clone_is_an_equal_guess() {
    let mut guess = Guess::new(2);
    guess.add_letter('k').unwrap();
    let copy = guess.clone();
    assert_eq!(copy, guess);
    guess.add_letter('l').unwrap();
    assert_eq!(copy.as_chars(), vec!['k']);
}
