//! The application around a round: which screen is shown, and what each key
//! does on it.
//!
//! The library neither draws nor reads keys. Its caller shows the screen that
//! `app_state` names, reads a key, hands it to `step_game` or `step_options`,
//! and carries out the `Action` that comes back.

use vstd::prelude::*;
use crate::dictionary::Dictionary;
use crate::error::GameError;
use crate::game::{GameData, GameOptions, GameView};
use crate::letters::ascii_upper;
use crate::options::{OptionData, OptionView};

verus! {

/// What the application as a whole can fail with.
#[derive(Debug, Clone, Copy, PartialEq, Eq, Structural)]
pub enum WordleError {
    /// A key arrived for the game screen, but there is no round.
    NoActiveGame,
    /// The screen could not be drawn. The caller that draws reports it.
    RenderingError,
    /// A key arrived for the options screen, but no settings are being edited.
    NoActiveOptions,
}

impl WordleError {
    /// The text of `message`.
    pub open spec fn message_text(self) -> Seq<char> {
        match self {
            WordleError::NoActiveGame => "No active game"@,
            WordleError::RenderingError => "Rendering error"@,
            WordleError::NoActiveOptions => "No active options state"@,
        }
    }

    /// A sentence for the player.
    pub fn message(&self) -> (text: String)
        ensures
            text@ == self.message_text(),
    {
        match self {
            WordleError::NoActiveGame => "No active game".to_owned(),
            WordleError::RenderingError => "Rendering error".to_owned(),
            WordleError::NoActiveOptions => "No active options state".to_owned(),
        }
    }
}

/// The screen that is shown.
#[derive(Debug, Clone, Copy, PartialEq, Eq, Structural)]
pub enum ScreenMode {
    /// The round: the player enters attempts.
    Game,
    /// The settings.
    Options,
    /// None: the application ends.
    Quit,
}

/// A key press, as far as the application tells keys apart.
#[derive(Debug, Clone, Copy, PartialEq, Eq, Structural)]
pub enum Key {
    Enter,
    /// A character key, pressed without the control key.
    Char(char),
    /// A character key, pressed together with the control key alone.
    Control(char),
    Backspace,
    Esc,
    Up,
    Down,
    Left,
    Right,
    /// Any other key.
    Other,
}

/// What the caller has to do after a key has been handled.
#[derive(Debug, Clone, Copy, PartialEq, Eq, Structural)]
pub enum Action {
    /// Nothing.
    Nothing,
    /// Begin a new round with the settings of the application: see that the
    /// word list of their dictionary has been read, then call `new_game`.
    StartGame,
}

/// Why a key had no effect.
#[derive(Debug, Clone, Copy, PartialEq, Eq, Structural)]
pub enum StepError {
    /// The screen has nothing to work on.
    App(WordleError),
    /// The round refused the input.
    Game(GameError),
}

/// Whether a character is alphabetic, as `char::is_alphabetic` tells it.
pub uninterp spec fn alphabetic(c: char) -> bool;

/// Trusted: `char::is_alphabetic` of the standard library, which tells by
/// the Unicode tables it was built with whether a character has the
/// `Alphabetic` property. The answer depends on the character alone; it is
/// named, not spelled out.
pub assume_specification[ char::is_alphabetic ](c: char) -> (yes: bool)
    ensures
        yes == alphabetic(c),
;

/// The state of the application.
#[derive(Debug)]
pub struct Application {
    /// The settings that new rounds begin with.
    pub game_options: GameOptions,
    /// The settings under edit, once the options screen has been opened.
    pub options_state: Option<OptionData>,
    /// The round, once one has begun.
    pub game_state: Option<GameData>,
    /// The screen that is shown.
    pub app_state: ScreenMode,
}

impl Application {
    /// Everything but the round is the same in both.
    pub open spec fn same_but_round(self, other: Application) -> bool {
        &&& self.game_options == other.game_options
        &&& self.options_state == other.options_state
        &&& self.app_state == other.app_state
    }

    /// Everything but the settings under edit is the same in both.
    pub open spec fn same_but_options_state(self, other: Application) -> bool {
        &&& self.game_options == other.game_options
        &&& self.game_state == other.game_state
        &&& self.app_state == other.app_state
    }

    /// Everything but the screen is the same in both.
    pub open spec fn same_but_screen(self, other: Application) -> bool {
        &&& self.game_options == other.game_options
        &&& self.options_state == other.options_state
        &&& self.game_state == other.game_state
    }

    /// An application that shows the game screen, with neither a round nor
    /// settings under edit.
    pub fn new(game_options: GameOptions) -> (app: Self)
        ensures
            app.game_options == game_options,
            app.options_state is None,
            app.game_state is None,
            app.app_state == ScreenMode::Game,
    {
        Self { game_options, options_state: None, game_state: None, app_state: ScreenMode::Game }
    }

    /// Begins a new round with the settings of the application; its word is
    /// drawn from their dictionary, which is looked up in `dictionaries`. If
    /// no round can begin, the application stays as it is.
    pub fn new_game(&mut self, dictionaries: &Vec<Dictionary>) -> (outcome: Result<(), GameError>)
        ensures
            final(self).same_but_round(*old(self)),
            match outcome {
                Ok(_) => {
                    &&& final(self).game_state matches Some(game)
                    &&& old(self).game_options.dictionary < dictionaries@.len()
                    &&& dictionaries@[old(self).game_options.dictionary as int]@.candidates().contains(
                        game@.answer,
                    )
                    &&& game@ == GameView::initial(
                        game@.answer,
                        old(self).game_options.word_length as nat,
                        old(self).game_options.max_guesses as nat,
                    )
                },
                Err(e) => {
                    &&& e == GameError::DictionaryError
                    &&& final(self).game_state == old(self).game_state
                    &&& old(self).game_options.dictionary >= dictionaries@.len()
                        || dictionaries@[old(self).game_options.dictionary as int]@.candidates().len()
                        == 0
                        || dictionaries@[old(self).game_options.dictionary as int]@.length != old(
                        self,
                    ).game_options.word_length
                },
            },
    {
        match GameData::new(&self.game_options, dictionaries) {
            Ok(game) => {
                self.game_state = Some(game);
                Ok(())
            },
            Err(e) => Err(e),
        }
    }

    /// Shows the options screen. The first time, editing begins with the
    /// settings of `OptionData::new`; later it goes on where it was left.
    pub fn options(&mut self)
        ensures
            final(self).game_options == old(self).game_options,
            final(self).game_state == old(self).game_state,
            final(self).app_state == ScreenMode::Options,
            match old(self).options_state {
                Some(_) => final(self).options_state == old(self).options_state,
                None => final(self).options_state matches Some(fresh) && fresh@ == (OptionView {
                    position: 0,
                    max_tries: 6,
                }),
            },
    {
        if self.options_state.is_none() {
            self.options_state = Some(OptionData::new());
        }
        self.app_state = ScreenMode::Options;
    }

    /// Ends the application.
    pub fn quit(&mut self)
        ensures
            final(self).same_but_screen(*old(self)),
            final(self).app_state == ScreenMode::Quit,
    {
        self.app_state = ScreenMode::Quit;
    }
}

/// Handles a key on the game screen.
///
/// Without a round nothing happens and the error is `NoActiveGame`.
/// Otherwise: Enter submits the attempt; Backspace deletes a letter; an
/// alphabetic character is entered, any other character is ignored; Escape
/// and control-Q end the application; control-O shows the options screen;
/// control-N asks for a new round. What the round refuses comes back as
/// `StepError::Game`.
pub fn step_game(app: &mut Application, key: Key) -> (outcome: Result<Action, StepError>)
    ensures
        old(app).game_state is None ==> outcome == Err::<Action, StepError>(
            StepError::App(WordleError::NoActiveGame),
        ) && *final(app) == *old(app),
        old(app).game_state matches Some(game) ==> match key {
            Key::Enter => {
                &&& final(app).same_but_round(*old(app))
                &&& final(app).game_state matches Some(after) && after@ == game@.after_submit()
                &&& outcome == match game@.submit_result() {
                    Ok(_) => Ok::<Action, StepError>(Action::Nothing),
                    Err(e) => Err::<Action, StepError>(StepError::Game(e)),
                }
            },
            Key::Char(c) => {
                &&& final(app).same_but_round(*old(app))
                &&& alphabetic(c) ==> {
                    &&& final(app).game_state matches Some(after) && after@
                        == game@.after_add_letter(c)
                    &&& outcome == match game@.add_letter_result(c) {
                        Ok(_) => Ok::<Action, StepError>(Action::Nothing),
                        Err(e) => Err::<Action, StepError>(StepError::Game(e)),
                    }
                }
                &&& !alphabetic(c) ==> *final(app) == *old(app) && outcome == Ok::<
                    Action,
                    StepError,
                >(Action::Nothing)
            },
            Key::Backspace => {
                &&& final(app).same_but_round(*old(app))
                &&& final(app).game_state matches Some(after) && after@
                    == game@.after_delete_letter()
                &&& outcome == match game@.delete_letter_result() {
                    Ok(_) => Ok::<Action, StepError>(Action::Nothing),
                    Err(e) => Err::<Action, StepError>(StepError::Game(e)),
                }
            },
            Key::Control(c) => {
                if ascii_upper(c) == 'N' {
                    *final(app) == *old(app) && outcome == Ok::<Action, StepError>(
                        Action::StartGame,
                    )
                } else if ascii_upper(c) == 'O' {
                    &&& outcome == Ok::<Action, StepError>(Action::Nothing)
                    &&& final(app).game_options == old(app).game_options
                    &&& final(app).game_state == old(app).game_state
                    &&& final(app).app_state == ScreenMode::Options
                    &&& match old(app).options_state {
                        Some(_) => final(app).options_state == old(app).options_state,
                        None => final(app).options_state matches Some(fresh) && fresh@
                            == (OptionView { position: 0, max_tries: 6 }),
                    }
                } else if ascii_upper(c) == 'Q' {
                    &&& outcome == Ok::<Action, StepError>(Action::Nothing)
                    &&& final(app).same_but_screen(*old(app))
                    &&& final(app).app_state == ScreenMode::Quit
                } else {
                    *final(app) == *old(app) && outcome == Ok::<Action, StepError>(
                        Action::Nothing,
                    )
                }
            },
            Key::Esc => {
                &&& outcome == Ok::<Action, StepError>(Action::Nothing)
                &&& final(app).same_but_screen(*old(app))
                &&& final(app).app_state == ScreenMode::Quit
            },
            _ => *final(app) == *old(app) && outcome == Ok::<Action, StepError>(Action::Nothing),
        },
{
    if app.game_state.is_none() {
        return Err(StepError::App(WordleError::NoActiveGame));
    }
    match key {
        Key::Enter => {
            let mut game = app.game_state.take().unwrap();
            let submitted = game.submit_word();
            app.game_state = Some(game);
            match submitted {
                Ok(_) => Ok(Action::Nothing),
                Err(e) => Err(StepError::Game(e)),
            }
        },
        Key::Control(to_insert) => {
            let upper = to_insert.to_ascii_uppercase();
            if upper == 'N' {
                Ok(Action::StartGame)
            } else if upper == 'O' {
                app.options();
                Ok(Action::Nothing)
            } else if upper == 'Q' {
                app.quit();
                Ok(Action::Nothing)
            } else {
                Ok(Action::Nothing)
            }
        },
        Key::Char(to_insert) => {
            if to_insert.is_alphabetic() {
                let mut game = app.game_state.take().unwrap();
                let added = game.add_letter(to_insert);
                app.game_state = Some(game);
                match added {
                    Ok(_) => Ok(Action::Nothing),
                    Err(e) => Err(StepError::Game(e)),
                }
            } else {
                Ok(Action::Nothing)
            }
        },
        Key::Backspace => {
            let mut game = app.game_state.take().unwrap();
            let deleted = game.delete_letter();
            app.game_state = Some(game);
            match deleted {
                Ok(_) => Ok(Action::Nothing),
                Err(e) => Err(StepError::Game(e)),
            }
        },
        Key::Esc => {
            app.quit();
            Ok(Action::Nothing)
        },
        _ => Ok(Action::Nothing),
    }
}

/// Handles a key on the options screen.
///
/// Without settings under edit nothing happens and the error is
/// `NoActiveOptions`. Otherwise: Up and Down move through the catalog; Left
/// and Right change the number of attempts; Enter writes the settings under
/// edit into those of the application, shows the game screen and asks for a
/// new round; Escape does the same without writing anything.
pub fn step_options(app: &mut Application, key: Key) -> (outcome: Result<Action, StepError>)
    ensures
        old(app).options_state is None ==> outcome == Err::<Action, StepError>(
            StepError::App(WordleError::NoActiveOptions),
        ) && *final(app) == *old(app),
        old(app).options_state matches Some(edited) ==> match key {
            Key::Enter => {
                &&& outcome == Ok::<Action, StepError>(Action::StartGame)
                &&& final(app).options_state == old(app).options_state
                &&& final(app).game_state == old(app).game_state
                &&& final(app).app_state == ScreenMode::Game
                &&& final(app).game_options.dictionary == edited@.position
                &&& final(app).game_options.word_length == edited@.key().1
                &&& final(app).game_options.max_guesses == edited@.max_tries
                &&& final(app).game_options.valid()
            },
            Key::Esc => {
                &&& outcome == Ok::<Action, StepError>(Action::StartGame)
                &&& final(app).same_but_screen(*old(app))
                &&& final(app).app_state == ScreenMode::Game
            },
            Key::Up => {
                &&& outcome == Ok::<Action, StepError>(Action::Nothing)
                &&& final(app).same_but_options_state(*old(app))
                &&& final(app).options_state matches Some(after)
                &&& after@.position == edited@.previous_position()
                &&& after@.max_tries == edited@.max_tries
            },
            Key::Down => {
                &&& outcome == Ok::<Action, StepError>(Action::Nothing)
                &&& final(app).same_but_options_state(*old(app))
                &&& final(app).options_state matches Some(after)
                &&& after@.position == edited@.next_position()
                &&& after@.max_tries == edited@.max_tries
            },
            Key::Left => {
                &&& outcome == Ok::<Action, StepError>(Action::Nothing)
                &&& final(app).same_but_options_state(*old(app))
                &&& final(app).options_state matches Some(after)
                &&& after@.position == edited@.position
                &&& after@.max_tries == if edited@.max_tries > 3 {
                    (edited@.max_tries - 1) as nat
                } else {
                    3nat
                }
            },
            Key::Right => {
                &&& outcome == Ok::<Action, StepError>(Action::Nothing)
                &&& final(app).same_but_options_state(*old(app))
                &&& final(app).options_state matches Some(after)
                &&& after@.position == edited@.position
                &&& after@.max_tries == if edited@.max_tries < 10 {
                    edited@.max_tries + 1
                } else {
                    10nat
                }
            },
            _ => *final(app) == *old(app) && outcome == Ok::<Action, StepError>(Action::Nothing),
        },
{
    if app.options_state.is_none() {
        return Err(StepError::App(WordleError::NoActiveOptions));
    }
    match key {
        Key::Enter => {
            let edited = app.options_state.take().unwrap();
            let applied = edited.apply(&mut app.game_options);
            app.options_state = Some(edited);
            match applied {
                Ok(_) => {
                    app.app_state = ScreenMode::Game;
                    Ok(Action::StartGame)
                },
                Err(e) => Err(StepError::Game(e)),
            }
        },
        Key::Esc => {
            app.app_state = ScreenMode::Game;
            Ok(Action::StartGame)
        },
        Key::Up => {
            let mut edited = app.options_state.take().unwrap();
            edited.previous();
            app.options_state = Some(edited);
            Ok(Action::Nothing)
        },
        Key::Down => {
            let mut edited = app.options_state.take().unwrap();
            edited.next();
            app.options_state = Some(edited);
            Ok(Action::Nothing)
        },
        Key::Left => {
            let mut edited = app.options_state.take().unwrap();
            edited.decrement_tries();
            app.options_state = Some(edited);
            Ok(Action::Nothing)
        },
        Key::Right => {
            let mut edited = app.options_state.take().unwrap();
            edited.increment_tries();
            app.options_state = Some(edited);
            Ok(Action::Nothing)
        },
        _ => Ok(Action::Nothing),
    }
}

} // verus!
