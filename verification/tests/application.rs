use wordle::application::{
    step_game, step_options, Action, Application, Key, ScreenMode, StepError, WordleError,
};
use wordle::dictionary::{get_dictionaries, Dictionary};
use wordle::error::GameError;
use wordle::game::{GameOptions, GameState};

fn catalog_with_wordle(text: &str) -> Vec<Dictionary> {
    let mut dictionaries = get_dictionaries();
    dictionaries[0].load(Some(text));
    dictionaries
}

fn playing(answer: &str) -> Application {
    let dictionaries = catalog_with_wordle(answer);
    let mut app = Application::new(GameOptions::default());
    app.new_game(&dictionaries).unwrap();
    app
}

fn typed(app: &Application) -> String {
    let game = app.game_state.as_ref().unwrap();
    let current = game.active_guess().unwrap();
    game.guesses()[current].as_chars().into_iter().collect()
}

#[test]
fn a_new_application_shows_the_game_screen_without_a_round() {
    let app = Application::new(GameOptions::default());
    assert_eq!(app.app_state, ScreenMode::Game);
    assert!(app.game_state.is_none());
    assert!(app.options_state.is_none());
    assert_eq!(app.game_options.word_length, 5);
}

#[test]
fn new_game_begins_a_round_with_the_settings() {
    let dictionaries = catalog_with_wordle("apple\n");
    let mut opts = GameOptions::default();
    opts.max_guesses = 4;
    let mut app = Application::new(opts);
    assert_eq!(app.new_game(&dictionaries), Ok(()));
    let game = app.game_state.as_ref().unwrap();
    assert_eq!(game.answer(), "apple");
    assert_eq!(game.guesses().len(), 4);
    assert_eq!(game.game_state(), GameState::Active);
    assert_eq!(app.app_state, ScreenMode::Game);
}

#[test]
fn new_game_without_a_word_keeps_the_round_that_is_there() {
    let mut app = playing("apple\n");
    step_game(&mut app, Key::Char('a')).unwrap();
    let unloaded = get_dictionaries();
    assert_eq!(app.new_game(&unloaded), Err(GameError::DictionaryError));
    assert_eq!(typed(&app), "A");
    let mut fresh = Application::new(GameOptions::default());
    assert_eq!(fresh.new_game(&unloaded), Err(GameError::DictionaryError));
    assert!(fresh.game_state.is_none());
}

#[test]
fn keys_without_a_round_are_refused() {
    let mut app = Application::new(GameOptions::default());
    for key in [Key::Enter, Key::Char('a'), Key::Control('q'), Key::Esc, Key::Backspace, Key::Other]
    {
        assert_eq!(step_game(&mut app, key), Err(StepError::App(WordleError::NoActiveGame)));
        assert_eq!(app.app_state, ScreenMode::Game);
        assert!(app.game_state.is_none());
    }
}

#[test]
fn keys_without_settings_under_edit_are_refused() {
    let mut app = Application::new(GameOptions::default());
    for key in [Key::Enter, Key::Esc, Key::Up, Key::Down, Key::Left, Key::Right, Key::Other] {
        assert_eq!(step_options(&mut app, key), Err(StepError::App(WordleError::NoActiveOptions)));
        assert_eq!(app.app_state, ScreenMode::Game);
        assert!(app.options_state.is_none());
    }
}

#[test]
fn letters_are_entered_and_other_characters_ignored() {
    let mut app = playing("apple\n");
    for c in ['a', '1', 'P', ' ', 'é', '-', '\n'] {
        assert_eq!(step_game(&mut app, Key::Char(c)), Ok(Action::Nothing));
    }
    assert_eq!(typed(&app), "APé");
    assert_eq!(step_game(&mut app, Key::Backspace), Ok(Action::Nothing));
    assert_eq!(typed(&app), "AP");
    for key in [Key::Other, Key::Up, Key::Down, Key::Left, Key::Right] {
        assert_eq!(step_game(&mut app, key), Ok(Action::Nothing));
    }
    assert_eq!(typed(&app), "AP");
    assert_eq!(app.app_state, ScreenMode::Game);
}

#[test]
fn what_the_round_refuses_comes_back_as_a_game_error() {
    let mut app = playing("apple\n");
    assert_eq!(
        step_game(&mut app, Key::Backspace),
        Err(StepError::Game(GameError::EmptyGuess))
    );
    assert_eq!(
        step_game(&mut app, Key::Enter),
        Err(StepError::Game(GameError::IncompleteGuess))
    );
    for c in "apple".chars() {
        step_game(&mut app, Key::Char(c)).unwrap();
    }
    assert_eq!(
        step_game(&mut app, Key::Char('s')),
        Err(StepError::Game(GameError::FullGuess))
    );
    assert_eq!(step_game(&mut app, Key::Enter), Ok(Action::Nothing));
    assert_eq!(app.game_state.as_ref().unwrap().game_state(), GameState::Won);
    assert_eq!(
        step_game(&mut app, Key::Char('a')),
        Err(StepError::Game(GameError::NoActiveGame))
    );
    assert_eq!(
        step_game(&mut app, Key::Enter),
        Err(StepError::Game(GameError::NoActiveGame))
    );
}

#[test]
fn control_keys_start_rounds_open_options_and_quit() {
    let mut app = playing("apple\n");
    step_game(&mut app, Key::Char('a')).unwrap();
    for c in ['n', 'N'] {
        assert_eq!(step_game(&mut app, Key::Control(c)), Ok(Action::StartGame));
        assert_eq!(app.app_state, ScreenMode::Game);
        assert_eq!(typed(&app), "A");
    }
    for c in ['a', 'x', '1'] {
        assert_eq!(step_game(&mut app, Key::Control(c)), Ok(Action::Nothing));
        assert_eq!(app.app_state, ScreenMode::Game);
        assert_eq!(typed(&app), "A");
    }
    assert_eq!(step_game(&mut app, Key::Control('o')), Ok(Action::Nothing));
    assert_eq!(app.app_state, ScreenMode::Options);
    assert_eq!(app.options_state.as_ref().unwrap().max_tries(), 6);
    assert_eq!(app.options_state.as_ref().unwrap().dictionary_name(), "Wordle");
    assert_eq!(step_game(&mut app, Key::Control('Q')), Ok(Action::Nothing));
    assert_eq!(app.app_state, ScreenMode::Quit);
    assert_eq!(typed(&app), "A");
}

#[test]
fn escape_on_the_game_screen_quits() {
    let mut app = playing("apple\n");
    assert_eq!(step_game(&mut app, Key::Esc), Ok(Action::Nothing));
    assert_eq!(app.app_state, ScreenMode::Quit);
    assert!(app.game_state.is_some());
}

#[test]
fn the_options_screen_keeps_its_settings_between_visits() {
    let mut app = playing("apple\n");
    app.options();
    assert_eq!(app.app_state, ScreenMode::Options);
    assert_eq!(step_options(&mut app, Key::Down), Ok(Action::Nothing));
    assert_eq!(step_options(&mut app, Key::Right), Ok(Action::Nothing));
    assert_eq!(step_options(&mut app, Key::Esc), Ok(Action::StartGame));
    assert_eq!(app.app_state, ScreenMode::Game);
    // Escape wrote nothing.
    assert_eq!(app.game_options.dictionary, 0);
    assert_eq!(app.game_options.max_guesses, 6);
    app.options();
    let edited = app.options_state.as_ref().unwrap();
    assert_eq!(edited.dictionary_name(), "Scrabble");
    assert_eq!(edited.dictionary_length(), 4);
    assert_eq!(edited.max_tries(), 7);
}

#[test]
fn arrow_keys_edit_the_settings() {
    let mut app = Application::new(GameOptions::default());
    app.options();
    assert_eq!(step_options(&mut app, Key::Up), Ok(Action::Nothing));
    assert_eq!(app.options_state.as_ref().unwrap().dictionary_name(), "Italian");
    assert_eq!(app.options_state.as_ref().unwrap().dictionary_length(), 8);
    assert_eq!(step_options(&mut app, Key::Down), Ok(Action::Nothing));
    assert_eq!(step_options(&mut app, Key::Down), Ok(Action::Nothing));
    assert_eq!(app.options_state.as_ref().unwrap().dictionary_name(), "Scrabble");
    assert_eq!(step_options(&mut app, Key::Left), Ok(Action::Nothing));
    assert_eq!(app.options_state.as_ref().unwrap().max_tries(), 5);
    assert_eq!(step_options(&mut app, Key::Right), Ok(Action::Nothing));
    assert_eq!(step_options(&mut app, Key::Right), Ok(Action::Nothing));
    assert_eq!(app.options_state.as_ref().unwrap().max_tries(), 7);
    for key in [Key::Char('a'), Key::Control('q'), Key::Backspace, Key::Other] {
        assert_eq!(step_options(&mut app, key), Ok(Action::Nothing));
    }
    assert_eq!(app.options_state.as_ref().unwrap().max_tries(), 7);
    assert_eq!(app.app_state, ScreenMode::Options);
    assert_eq!(app.game_options.dictionary, 0);
}

#[test]
fn enter_on_the_options_screen_applies_the_settings() {
    let mut app = playing("apple\n");
    app.options();
    step_options(&mut app, Key::Down).unwrap();
    step_options(&mut app, Key::Down).unwrap();
    step_options(&mut app, Key::Left).unwrap();
    assert_eq!(step_options(&mut app, Key::Enter), Ok(Action::StartGame));
    assert_eq!(app.app_state, ScreenMode::Game);
    assert_eq!(app.game_options.dictionary, 2);
    assert_eq!(app.game_options.word_length, 5);
    assert_eq!(app.game_options.max_guesses, 5);
    // The round that was there stays until the caller begins the new one.
    assert_eq!(app.game_state.as_ref().unwrap().answer(), "apple");
    let mut dictionaries = get_dictionaries();
    dictionaries[2].load(Some("tiles\n"));
    assert_eq!(app.new_game(&dictionaries), Ok(()));
    let game = app.game_state.as_ref().unwrap();
    assert_eq!(game.answer(), "tiles");
    assert_eq!(game.guesses().len(), 5);
}

#[test]
fn quit_changes_the_screen_only() {
    let mut app = playing("apple\n");
    app.options();
    app.quit();
    assert_eq!(app.app_state, ScreenMode::Quit);
    assert!(app.game_state.is_some());
    assert!(app.options_state.is_some());
}
