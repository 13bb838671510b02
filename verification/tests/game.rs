use wordle::error::GameError;
use wordle::game::{update_game_state, GameData, GameOptions, GameState};
use wordle::guess::{Guess, GuessState};
use wordle::letters::LetterResult;

use LetterResult::{Absent, Correct, Empty, Present};

fn round(answer: &str, max_guesses: u16) -> GameData {
    let opts = GameOptions {
        word_length: answer.chars().count() as u16,
        max_guesses,
        dictionary: 0,
    };
    GameData::with_answer(&opts, answer.to_string()).unwrap()
}

fn enter(game: &mut GameData, word: &str) {
    for c in word.chars() {
        game.add_letter(c).unwrap();
    }
}

fn states(game: &GameData) -> Vec<GuessState> {
    game.guesses().iter().map(|g| g.state()).collect()
}

fn outcomes(game: &GameData, attempt: usize) -> Vec<LetterResult> {
    game.guesses()[attempt].values().iter().map(|cell| cell.1.unwrap()).collect()
}

#[test]
fn a_new_round_is_active_with_its_first_attempt() {
    let game = round("ALLOY", 6);
    assert_eq!(game.game_state(), GameState::Active);
    assert!(game.is_active());
    assert_eq!(game.answer(), "ALLOY");
    assert_eq!(game.word_length(), 5);
    assert_eq!(game.max_guesses(), 6);
    assert_eq!(game.guesses().len(), 6);
    assert_eq!(game.active_guess(), Some(0));
    let mut expected = vec![GuessState::Pending; 6];
    expected[0] = GuessState::Active;
    assert_eq!(states(&game), expected);
}

#[test]
fn with_answer_refuses_a_word_of_another_length() {
    let opts = GameOptions { word_length: 5, max_guesses: 6, dictionary: 0 };
    let refused = GameData::with_answer(&opts, "FOUR".to_string());
    assert_eq!(refused.err(), Some(GameError::DictionaryError));
    let refused = GameData::with_answer(&opts, "LONGER".to_string());
    assert_eq!(refused.err(), Some(GameError::DictionaryError));
    // Length is counted in characters, not in bytes.
    assert!(GameData::with_answer(&opts, "ÉCOLE".to_string()).is_ok());
}

#[test]
fn letters_are_stored_in_upper_case() {
    let mut game = round("ALLOY", 6);
    enter(&mut game, "loL");
    assert_eq!(game.guesses()[0].as_chars(), vec!['L', 'O', 'L']);
    assert_eq!(
        game.guesses()[0].values(),
        vec![
            (Some('L'), Some(Empty)),
            (Some('O'), Some(Empty)),
            (Some('L'), Some(Empty)),
            (Some(' '), Some(Empty)),
            (Some(' '), Some(Empty)),
        ]
    );
}

#[test]
fn an_attempt_never_holds_more_letters_than_the_word() {
    let mut game = round("ALLOY", 6);
    assert_eq!(game.delete_letter(), Err(GameError::EmptyGuess));
    for (i, c) in "LOLLY".chars().enumerate() {
        assert_eq!(game.guesses()[0].as_chars().len(), i);
        assert_eq!(game.add_letter(c), Ok(()));
    }
    assert_eq!(game.add_letter('S'), Err(GameError::FullGuess));
    assert_eq!(game.guesses()[0].as_chars().len(), 5);
    for left in (0..5).rev() {
        assert_eq!(game.delete_letter(), Ok(()));
        assert_eq!(game.guesses()[0].as_chars().len(), left);
    }
    assert_eq!(game.delete_letter(), Err(GameError::EmptyGuess));
    assert_eq!(game.guesses()[0].as_chars().len(), 0);
}

#[test]
fn submitting_before_the_attempt_is_full_is_refused() {
    let mut game = round("ALLOY", 6);
    assert_eq!(game.submit_word(), Err(GameError::IncompleteGuess));
    enter(&mut game, "LOLL");
    assert_eq!(game.submit_word(), Err(GameError::IncompleteGuess));
    // Nothing has changed.
    assert_eq!(game.game_state(), GameState::Active);
    assert_eq!(game.active_guess(), Some(0));
    assert_eq!(game.guesses()[0].as_chars(), vec!['L', 'O', 'L', 'L']);
    assert_eq!(game.guesses()[0].state(), GuessState::Active);
}

#[test]
fn submit_scores_the_attempt_and_activates_the_next() {
    let mut game = round("ALLOY", 6);
    enter(&mut game, "lolly");
    assert_eq!(game.submit_word(), Ok(GameState::Active));
    assert_eq!(outcomes(&game, 0), vec![Present, Present, Correct, Absent, Correct]);
    assert_eq!(
        game.guesses()[0].values(),
        vec![
            (Some('L'), Some(Present)),
            (Some('O'), Some(Present)),
            (Some('L'), Some(Correct)),
            (Some('L'), Some(Absent)),
            (Some('Y'), Some(Correct)),
        ]
    );
    assert_eq!(game.active_guess(), Some(1));
    let mut expected = vec![GuessState::Pending; 6];
    expected[0] = GuessState::Complete;
    expected[1] = GuessState::Active;
    assert_eq!(states(&game), expected);
    // The next letter goes to the second attempt.
    game.add_letter('a').unwrap();
    assert_eq!(game.guesses()[0].as_chars(), vec!['L', 'O', 'L', 'L', 'Y']);
    assert_eq!(game.guesses()[1].as_chars(), vec!['A']);
}

#[test]
fn react_trace_in_a_round() {
    let mut game = round("react", 6);
    enter(&mut game, "trace");
    assert_eq!(game.submit_word(), Ok(GameState::Active));
    assert_eq!(outcomes(&game, 0), vec![Present, Present, Correct, Correct, Present]);
    assert_eq!(game.answer(), "react");
}

#[test]
fn wrong_guesses_lose_the_round_on_the_last_attempt() {
    for n in 1..=7u16 {
        let mut game = round("ALLOY", n);
        for attempt in 0..n {
            assert_eq!(game.game_state(), GameState::Active);
            assert_eq!(game.active_guess(), Some(attempt as usize));
            enter(&mut game, "MUSIC");
            let expected = if attempt + 1 < n { GameState::Active } else { GameState::Lost };
            assert_eq!(game.submit_word(), Ok(expected));
            assert_eq!(game.game_state(), expected);
        }
        assert_eq!(game.game_state(), GameState::Lost);
        assert_eq!(game.active_guess(), None);
        assert_eq!(states(&game), vec![GuessState::Complete; n as usize]);
        for attempt in 0..n as usize {
            assert_eq!(outcomes(&game, attempt), vec![Absent; 5]);
        }
        // One submission more is refused, and so is every other input.
        assert_eq!(game.submit_word(), Err(GameError::NoActiveGame));
        assert_eq!(game.add_letter('A'), Err(GameError::NoActiveGame));
        assert_eq!(game.delete_letter(), Err(GameError::NoActiveGame));
        assert_eq!(game.game_state(), GameState::Lost);
        assert_eq!(states(&game), vec![GuessState::Complete; n as usize]);
    }
}

#[test]
fn the_answer_wins_the_round_on_any_attempt() {
    for winning in 0..6usize {
        let mut game = round("ALLOY", 6);
        for _ in 0..winning {
            enter(&mut game, "LOLLY");
            assert_eq!(game.submit_word(), Ok(GameState::Active));
        }
        enter(&mut game, "alloy");
        assert_eq!(game.submit_word(), Ok(GameState::Won));
        assert_eq!(game.game_state(), GameState::Won);
        assert!(!game.is_active());
        assert_eq!(game.active_guess(), None);
        assert_eq!(outcomes(&game, winning), vec![Correct; 5]);
        for (i, state) in states(&game).into_iter().enumerate() {
            let expected = if i <= winning { GuessState::Complete } else { GuessState::Pending };
            assert_eq!(state, expected);
        }
        // The attempts that are left stay untouched, and the round takes
        // nothing more.
        assert_eq!(game.add_letter('A'), Err(GameError::NoActiveGame));
        assert_eq!(game.delete_letter(), Err(GameError::NoActiveGame));
        assert_eq!(game.submit_word(), Err(GameError::NoActiveGame));
        for later in winning + 1..6 {
            assert_eq!(game.guesses()[later].as_chars(), Vec::<char>::new());
        }
    }
}

#[test]
fn a_win_on_the_last_attempt_is_a_win() {
    let mut game = round("ALLOY", 2);
    enter(&mut game, "LOLLY");
    assert_eq!(game.submit_word(), Ok(GameState::Active));
    enter(&mut game, "ALLOY");
    assert_eq!(game.submit_word(), Ok(GameState::Won));
}

#[test]
fn a_round_without_attempts_has_no_active_guess() {
    let mut game = round("ALLOY", 0);
    assert_eq!(game.game_state(), GameState::Active);
    assert_eq!(game.active_guess(), None);
    assert_eq!(game.add_letter('A'), Err(GameError::NoActiveGuess));
    assert_eq!(game.delete_letter(), Err(GameError::NoActiveGuess));
    assert_eq!(game.submit_word(), Err(GameError::NoActiveGuess));
    assert_eq!(game.game_state(), GameState::Active);
}

#[test]
fn a_round_for_the_empty_word_is_won_by_the_first_submission() {
    let mut game = round("", 3);
    assert_eq!(game.add_letter('A'), Err(GameError::FullGuess));
    assert_eq!(game.submit_word(), Ok(GameState::Won));
    assert_eq!(game.guesses()[0].values(), Vec::new());
}

#[test]
fn every_complete_attempt_has_one_outcome_per_letter() {
    let mut game = round("REACT", 4);
    for word in ["TRACE", "CRATE", "REACH"] {
        enter(&mut game, word);
        game.submit_word().unwrap();
    }
    for (i, guess) in game.guesses().iter().enumerate() {
        let cells = guess.values();
        assert_eq!(cells.len(), 5);
        if i < 3 {
            assert_eq!(guess.state(), GuessState::Complete);
            assert!(cells.iter().all(|cell| cell.1 != Some(Empty)));
        } else {
            assert_eq!(guess.state(), GuessState::Active);
            assert!(cells.iter().all(|cell| *cell == (Some(' '), Some(Empty))));
        }
    }
    // A complete attempt stays as it was scored.
    let first = game.guesses()[0].clone();
    enter(&mut game, "REACT");
    assert_eq!(game.submit_word(), Ok(GameState::Won));
    assert_eq!(game.guesses()[0], first);
}

fn attempts(word: &str, count: u16, played: usize) -> Vec<Guess> {
    let mut guesses = Guess::make_vec(word.chars().count() as u16, count);
    for guess in guesses.iter_mut().skip(played).take(1) {
        for c in word.chars() {
            guess.add_letter(c).unwrap();
        }
    }
    guesses
}

fn guess_states(guesses: &[Guess]) -> Vec<GuessState> {
    guesses.iter().map(|g| g.state()).collect()
}

#[test]
fn all_correct_wins_before_the_last_attempt_is_looked_at() {
    for count in 1..=4u16 {
        let mut state = GameState::Active;
        let mut guesses = attempts("ABC", count, 0);
        let mut current = 0usize;
        update_game_state(&mut state, &mut guesses, &mut current, vec![Correct; 3]);
        assert_eq!(state, GameState::Won);
        assert_eq!(current, 1);
        let mut expected = vec![GuessState::Pending; count as usize];
        expected[0] = GuessState::Complete;
        assert_eq!(guess_states(&guesses), expected);
        assert_eq!(
            guesses[0].values(),
            vec![
                (Some('A'), Some(Correct)),
                (Some('B'), Some(Correct)),
                (Some('C'), Some(Correct)),
            ]
        );
    }
}

#[test]
fn a_wrong_attempt_activates_the_next_or_loses() {
    let mut state = GameState::Active;
    let mut guesses = attempts("ABC", 2, 0);
    let mut current = 0usize;
    update_game_state(&mut state, &mut guesses, &mut current, vec![Correct, Absent, Present]);
    assert_eq!(state, GameState::Active);
    assert_eq!(current, 1);
    assert_eq!(guess_states(&guesses), vec![GuessState::Complete, GuessState::Active]);

    let mut guesses = attempts("ABC", 1, 0);
    let mut current = 0usize;
    update_game_state(&mut state, &mut guesses, &mut current, vec![Absent, Absent, Absent]);
    assert_eq!(state, GameState::Lost);
    assert_eq!(current, 1);
    assert_eq!(guess_states(&guesses), vec![GuessState::Complete]);
}
