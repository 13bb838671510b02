//! A round of the game: the hidden answer, the attempts, and the rules that
//! move the round from `Active` to `Won` or `Lost`.

use vstd::prelude::*;
use crate::dictionary::{
    Dictionary, catalog, catalog_keys, catalog_position, find_dictionary, get_dictionaries,
    lemma_catalog_begins_with_wordle, lemma_catalog_keys, lemma_first_match,
};
use crate::error::GameError;
use crate::guess::{Guess, GuessState, GuessView};
use crate::letters::{LetterResult, ascii_upper, normalized};
use crate::scoring::{all_correct, check_guess, is_all_correct, score};

verus! {

/// Where a round stands.
#[derive(Eq, PartialEq, Debug, Clone, Copy, Structural)]
pub enum GameState {
    Active,
    Won,
    Lost,
}

/// The settings of a round.
#[derive(Debug, Clone, Copy)]
pub struct GameOptions {
    /// The number of letters of the word.
    pub word_length: u16,
    /// The number of attempts of a round.
    pub max_guesses: u16,
    /// The position of the dictionary in the catalog.
    pub dictionary: usize,
}

impl GameOptions {
    /// The settings name a dictionary of the catalog, and the word length is
    /// that of the dictionary.
    pub open spec fn valid(self) -> bool {
        &&& self.dictionary < catalog().len()
        &&& self.word_length == catalog()[self.dictionary as int].length
    }

    /// A word from the chosen dictionary, which is looked up in
    /// `dictionaries`. Whatever keeps the dictionary from supplying a word,
    /// the error is `DictionaryError`.
    pub fn random_word(&self, dictionaries: &Vec<Dictionary>) -> (word: Result<String, GameError>)
        ensures
            self.dictionary >= dictionaries@.len() ==> word == Err::<String, GameError>(
                GameError::DictionaryError,
            ),
            self.dictionary < dictionaries@.len() ==> match word {
                Ok(w) => {
                    &&& dictionaries@[self.dictionary as int]@.contents is Loaded
                    &&& dictionaries@[self.dictionary as int]@.candidates().contains(w@)
                    &&& w@.len() == dictionaries@[self.dictionary as int]@.length
                },
                Err(e) => {
                    &&& e == GameError::DictionaryError
                    &&& dictionaries@[self.dictionary as int]@.candidates().len() == 0
                },
            },
    {
        if self.dictionary >= dictionaries.len() {
            return Err(GameError::DictionaryError);
        }
        match dictionaries[self.dictionary].random_word() {
            Ok(word) => Ok(word),
            Err(_) => Err(GameError::DictionaryError),
        }
    }

    /// Chooses the dictionary named `name` for words of `length` letters.
    /// If the catalog has none, the error is `SourceNotFound` and the
    /// settings stay as they are.
    pub fn set_dictionary(&mut self, name: &str, length: u8) -> (outcome: Result<(), GameError>)
        ensures
            match catalog_position(name@, length) {
                Some(i) => {
                    &&& outcome == Ok::<(), GameError>(())
                    &&& final(self).dictionary == i
                    &&& final(self).word_length == length
                    &&& final(self).max_guesses == old(self).max_guesses
                    &&& final(self).valid()
                },
                None => {
                    &&& outcome == Err::<(), GameError>(GameError::SourceNotFound)
                    &&& *final(self) == *old(self)
                },
            },
    {
        let dictionaries = get_dictionaries();
        proof {
            lemma_catalog_keys(dictionaries@);
            lemma_first_match(catalog_keys(), (name@, length));
        }
        match find_dictionary(&dictionaries, name, length) {
            Some(i) => {
                self.dictionary = i;
                self.word_length = length as u16;
                Ok(())
            },
            None => Err(GameError::SourceNotFound),
        }
    }
}

impl Default for GameOptions {
    /// Six attempts at a word from "Wordle", the five-letter dictionary that
    /// the catalog begins with.
    fn default() -> (options: Self)
        ensures
            options.valid(),
            options.dictionary == 0,
            options.word_length == 5,
            options.max_guesses == 6,
    {
        let dictionaries = get_dictionaries();
        proof {
            lemma_catalog_keys(dictionaries@);
            lemma_catalog_begins_with_wordle();
        }
        let chosen = match find_dictionary(&dictionaries, "Wordle", 5) {
            Some(i) => i,
            None => 0,
        };
        Self {
            word_length: dictionaries[chosen].length() as u16,
            max_guesses: 6,
            dictionary: chosen,
        }
    }
}

/// The mathematical content of a `GameData`.
pub struct GameView {
    pub state: GameState,
    /// The hidden word, as the dictionary gave it.
    pub answer: Seq<char>,
    pub word_length: nat,
    pub max_guesses: nat,
    /// The attempts, first to last.
    pub guesses: Seq<GuessView>,
    /// How many attempts are complete. While the round is active this is the
    /// position of the attempt that takes letters.
    pub current: nat,
}

impl GameView {
    /// A round that has just begun.
    pub open spec fn initial(answer: Seq<char>, word_length: nat, max_guesses: nat) -> GameView {
        GameView {
            state: GameState::Active,
            answer,
            word_length,
            max_guesses,
            guesses: Seq::new(
                max_guesses,
                |i: int|
                    GuessView::fresh(
                        word_length,
                        if i == 0 {
                            GuessState::Active
                        } else {
                            GuessState::Pending
                        },
                    ),
            ),
            current: 0,
        }
    }

    /// The feedback that the round gives for `letters`.
    pub open spec fn feedback(self, letters: Seq<char>) -> Seq<LetterResult> {
        score(normalized(self.answer), letters)
    }

    /// What holds of every round, at all times.
    ///
    /// The answer has `word_length` letters and there are `max_guesses`
    /// attempts, each for `word_length` letters. The first `current` attempts
    /// are complete, full, and carry the feedback of their letters. The
    /// attempts behind position `current` are untouched. An active round has
    /// exactly one active attempt, at position `current` (none if the round
    /// has no attempts at all); a round that is over has none. A complete
    /// attempt is all `Correct` only if it is the last one of a round that is
    /// won, and a lost round has used all its attempts.
    pub open spec fn wf(self) -> bool {
        &&& self.answer.len() == self.word_length
        &&& self.guesses.len() == self.max_guesses
        &&& self.current <= self.max_guesses
        &&& forall|i: int|
            0 <= i < self.guesses.len() ==> (#[trigger] self.guesses[i]).wf()
                && self.guesses[i].max_length == self.word_length
        &&& forall|i: int|
            0 <= i < self.current ==> {
                &&& (#[trigger] self.guesses[i]).state == GuessState::Complete
                &&& self.guesses[i].is_full()
                &&& self.guesses[i].outcomes == Some(self.feedback(self.guesses[i].letters))
                &&& all_correct(self.feedback(self.guesses[i].letters)) <==> (self.state
                    == GameState::Won && i == self.current - 1)
            }
        &&& forall|i: int|
            self.current < i < self.guesses.len() ==> #[trigger] self.guesses[i]
                == GuessView::fresh(self.word_length, GuessState::Pending)
        &&& match self.state {
            GameState::Active => {
                &&& self.current == self.max_guesses ==> self.max_guesses == 0
                &&& self.current < self.max_guesses ==> self.guesses[self.current as int].state
                    == GuessState::Active
            },
            GameState::Won => {
                &&& self.current >= 1
                &&& self.current < self.max_guesses ==> self.guesses[self.current as int]
                    == GuessView::fresh(self.word_length, GuessState::Pending)
            },
            GameState::Lost => {
                &&& self.current >= 1
                &&& self.current == self.max_guesses
            },
        }
    }

    /// The position of the attempt that takes letters, if the round has one.
    pub open spec fn active_guess(self) -> Option<int> {
        if self.state == GameState::Active && self.current < self.guesses.len() {
            Some(self.current as int)
        } else {
            None
        }
    }

    /// The error, if any, that keeps the round from taking any input.
    pub open spec fn refusal(self) -> Option<GameError> {
        if self.state != GameState::Active {
            Some(GameError::NoActiveGame)
        } else if self.current >= self.guesses.len() {
            Some(GameError::NoActiveGuess)
        } else {
            None
        }
    }

    /// What `add_letter` returns.
    pub open spec fn add_letter_result(self, c: char) -> Result<(), GameError> {
        match self.refusal() {
            Some(e) => Err(e),
            None => if self.guesses[self.current as int].is_full() {
                Err(GameError::FullGuess)
            } else {
                Ok(())
            },
        }
    }

    /// The round after `add_letter`: the upper-case form of `c` is appended
    /// to the active attempt; a refused call changes nothing.
    pub open spec fn after_add_letter(self, c: char) -> GameView {
        if self.add_letter_result(c) is Ok {
            GameView {
                guesses: self.guesses.update(
                    self.current as int,
                    self.guesses[self.current as int].with_letter(ascii_upper(c)),
                ),
                ..self
            }
        } else {
            self
        }
    }

    /// What `delete_letter` returns.
    pub open spec fn delete_letter_result(self) -> Result<(), GameError> {
        match self.refusal() {
            Some(e) => Err(e),
            None => if self.guesses[self.current as int].letters.len() == 0 {
                Err(GameError::EmptyGuess)
            } else {
                Ok(())
            },
        }
    }

    /// The round after `delete_letter`: the active attempt loses its last
    /// letter; a refused call changes nothing.
    pub open spec fn after_delete_letter(self) -> GameView {
        if self.delete_letter_result() is Ok {
            GameView {
                guesses: self.guesses.update(
                    self.current as int,
                    self.guesses[self.current as int].without_last_letter(),
                ),
                ..self
            }
        } else {
            self
        }
    }

    /// The state that a round moves to when its active attempt, which is
    /// full, is submitted: `Won` if every letter is `Correct`; otherwise
    /// `Active` if another attempt is left, and `Lost` if none is.
    pub open spec fn next_state(self) -> GameState {
        if all_correct(self.feedback(self.guesses[self.current as int].letters)) {
            GameState::Won
        } else if self.current + 1 < self.guesses.len() {
            GameState::Active
        } else {
            GameState::Lost
        }
    }

    /// What `submit_word` returns.
    pub open spec fn submit_result(self) -> Result<GameState, GameError> {
        match self.refusal() {
            Some(e) => Err(e),
            None => if !self.guesses[self.current as int].is_full() {
                Err(GameError::IncompleteGuess)
            } else {
                Ok(self.next_state())
            },
        }
    }

    /// The round after `submit_word`: the active attempt is complete and
    /// carries its feedback, the round is in its next state, and if that
    /// state is `Active` the following attempt is the active one. A refused
    /// call changes nothing.
    pub open spec fn after_submit(self) -> GameView {
        if self.submit_result() is Ok {
            let done = self.guesses.update(
                self.current as int,
                self.guesses[self.current as int].completed(
                    self.feedback(self.guesses[self.current as int].letters),
                ),
            );
            GameView {
                state: self.next_state(),
                guesses: if self.next_state() == GameState::Active {
                    done.update(self.current + 1 as int, done[self.current + 1 as int].activated())
                } else {
                    done
                },
                current: self.current + 1,
                ..self
            }
        } else {
            self
        }
    }
}

/// A round of the game.
#[derive(Debug)]
pub struct GameData {
    game_state: GameState,
    answer: String,
    game_options: GameOptions,
    guesses: Vec<Guess>,
    current: usize,
}

impl View for GameData {
    type V = GameView;

    closed spec fn view(&self) -> GameView {
        GameView {
            state: self.game_state,
            answer: self.answer@,
            word_length: self.game_options.word_length as nat,
            max_guesses: self.game_options.max_guesses as nat,
            guesses: views(self.guesses@),
            current: self.current as nat,
        }
    }
}

/// The views of the attempts in `guesses`.
pub open spec fn views(guesses: Seq<Guess>) -> Seq<GuessView> {
    Seq::new(guesses.len(), |i: int| guesses[i]@)
}

/// Puts `guess` in the place of the attempt at `idx`.
fn replace_guess(guesses: &mut Vec<Guess>, idx: usize, guess: Guess)
    requires
        idx < old(guesses)@.len(),
    ensures
        final(guesses)@ == old(guesses)@.update(idx as int, guess),
    no_unwind
{
    guesses[idx] = guess;
}

/// Completes the attempt at `*current` with its feedback `result` and moves
/// the round on: to `Won` if every letter is `Correct`, whether or not an
/// attempt is left; otherwise to the next attempt, which becomes the active
/// one, if there is one; otherwise to `Lost`.
pub fn update_game_state(
    game_state: &mut GameState,
    guesses: &mut Vec<Guess>,
    current: &mut usize,
    result: Vec<LetterResult>,
)
    requires
        *old(current) < old(guesses)@.len(),
        old(guesses)@[*old(current) as int]@.state != GuessState::Complete,
        result@.len() == old(guesses)@[*old(current) as int]@.max_length,
        *old(current) + 1 < old(guesses)@.len() ==> old(guesses)@[*old(current) + 1]@.state
            == GuessState::Pending,
    ensures
        *final(current) == *old(current) + 1,
        *final(game_state) == if all_correct(result@) {
            GameState::Won
        } else if *old(current) + 1 < old(guesses)@.len() {
            *old(game_state)
        } else {
            GameState::Lost
        },
        final(guesses)@.len() == old(guesses)@.len(),
        views(final(guesses)@) == {
            let done = views(old(guesses)@).update(
                *old(current) as int,
                old(guesses)@[*old(current) as int]@.completed(result@),
            );
            if !all_correct(result@) && *old(current) + 1 < old(guesses)@.len() {
                done.update(*old(current) + 1, done[*old(current) + 1].activated())
            } else {
                done
            }
        },
    no_unwind
{
    let idx = *current;
    let count = guesses.len();
    let won = is_all_correct(&result);
    let ghost before = views(guesses@);
    guesses[idx].complete_guess(result);
    let ghost done = views(guesses@);
    assert(done =~= before.update(idx as int, before[idx as int].completed(result@)));
    if won {
        *game_state = GameState::Won;
    } else if idx + 1 < count {
        guesses[idx + 1].activate();
        assert(views(guesses@) =~= done.update(idx + 1, done[idx + 1].activated()));
    } else {
        *game_state = GameState::Lost;
    }
    *current = idx + 1;
}

impl GameData {
    #[verifier::type_invariant]
    spec fn valid(self) -> bool {
        self@.wf()
    }

    /// A round with the hidden word `answer`, which must have as many
    /// letters as `opts` asks for; otherwise no round begins and the error is
    /// `DictionaryError`.
    pub fn with_answer(opts: &GameOptions, answer: String) -> (round: Result<Self, GameError>)
        ensures
            match round {
                Ok(game) => {
                    &&& answer@.len() == opts.word_length
                    &&& game@ == GameView::initial(
                        answer@,
                        opts.word_length as nat,
                        opts.max_guesses as nat,
                    )
                    &&& game@.wf()
                },
                Err(e) => e == GameError::DictionaryError && answer@.len() != opts.word_length,
            },
    {
        if answer.as_str().unicode_len() != opts.word_length as usize {
            return Err(GameError::DictionaryError);
        }
        let guesses = Guess::make_vec(opts.word_length, opts.max_guesses);
        proof {
            let first = GameView::initial(
                answer@,
                opts.word_length as nat,
                opts.max_guesses as nat,
            );
            assert(views(guesses@) =~= first.guesses);
            lemma_initial_is_wf(answer@, opts.word_length as nat, opts.max_guesses as nat);
        }
        Ok(
            Self {
                game_state: GameState::Active,
                game_options: *opts,
                answer,
                guesses,
                current: 0,
            },
        )
    }

    /// A round whose hidden word is drawn at random from the dictionary that
    /// `opts` names, which is looked up in `dictionaries`.
    ///
    /// No round begins, and the error is `DictionaryError`, if the dictionary
    /// cannot supply a word, or if its words do not have the length that
    /// `opts` asks for.
    pub fn new(opts: &GameOptions, dictionaries: &Vec<Dictionary>) -> (round: Result<
        Self,
        GameError,
    >)
        ensures
            match round {
                Ok(game) => {
                    &&& opts.dictionary < dictionaries@.len()
                    &&& dictionaries@[opts.dictionary as int]@.candidates().contains(game@.answer)
                    &&& dictionaries@[opts.dictionary as int]@.length == opts.word_length
                    &&& game@ == GameView::initial(
                        game@.answer,
                        opts.word_length as nat,
                        opts.max_guesses as nat,
                    )
                    &&& game@.wf()
                },
                Err(e) => {
                    &&& e == GameError::DictionaryError
                    &&& opts.dictionary >= dictionaries@.len() || dictionaries@[opts.dictionary as int]@.candidates().len()
                        == 0 || dictionaries@[opts.dictionary as int]@.length != opts.word_length
                },
            },
    {
        match opts.random_word(dictionaries) {
            Ok(word) => GameData::with_answer(opts, word),
            Err(e) => Err(e),
        }
    }

    /// Where the round stands.
    pub fn game_state(&self) -> (state: GameState)
        ensures
            self@.wf(),
            state == self@.state,
    {
        proof {
            use_type_invariant(self);
        }
        self.game_state
    }

    /// The hidden word.
    pub fn answer(&self) -> (answer: &String)
        ensures
            answer@ == self@.answer,
            answer@.len() == self@.word_length,
    {
        proof {
            use_type_invariant(self);
        }
        &self.answer
    }

    /// The number of letters of the hidden word.
    pub fn word_length(&self) -> (length: u16)
        ensures
            length == self@.word_length,
    {
        self.game_options.word_length
    }

    /// The number of attempts of the round.
    pub fn max_guesses(&self) -> (count: u16)
        ensures
            count == self@.max_guesses,
    {
        self.game_options.max_guesses
    }

    /// The attempts of the round, first to last.
    pub fn guesses(&self) -> (guesses: &Vec<Guess>)
        ensures
            self@.wf(),
            guesses@.len() == self@.guesses.len(),
            guesses@.len() == self@.max_guesses,
            forall|i: int| 0 <= i < guesses@.len() ==> (#[trigger] guesses@[i])@ == self@.guesses[i],
    {
        proof {
            use_type_invariant(self);
        }
        &self.guesses
    }

    /// The position of the attempt that takes letters, if the round has one.
    pub fn active_guess(&self) -> (found: Option<usize>)
        ensures
            match found {
                Some(i) => self@.active_guess() == Some(i as int),
                None => self@.active_guess() is None,
            },
    {
        proof {
            use_type_invariant(self);
        }
        if self.is_active() && self.current < self.guesses.len() {
            Some(self.current)
        } else {
            None
        }
    }

    /// Whether the round still takes input.
    pub fn is_active(&self) -> (active: bool)
        ensures
            active == (self@.state == GameState::Active),
    {
        matches!(self.game_state, GameState::Active)
    }

    /// Enters the upper-case form of `val` into the active attempt.
    pub fn add_letter(&mut self, val: char) -> (outcome: Result<(), GameError>)
        ensures
            old(self)@.wf(),
            final(self)@.wf(),
            outcome == old(self)@.add_letter_result(val),
            final(self)@ == old(self)@.after_add_letter(val),
    {
        proof {
            use_type_invariant(&*self);
        }
        if !self.is_active() {
            return Err(GameError::NoActiveGame);
        }
        if self.current >= self.guesses.len() {
            return Err(GameError::NoActiveGuess);
        }
        let idx = self.current;
        let mut guess = self.guesses[idx].clone();
        let outcome = guess.add_letter(val.to_ascii_uppercase());
        if outcome.is_ok() {
            proof {
                lemma_add_letter_keeps_wf(self@, val);
                assert(views(self.guesses@.update(idx as int, guess)) =~= self@.after_add_letter(
                    val,
                ).guesses);
            }
            replace_guess(&mut self.guesses, idx, guess);
        }
        outcome
    }

    /// Removes the last letter of the active attempt.
    pub fn delete_letter(&mut self) -> (outcome: Result<(), GameError>)
        ensures
            old(self)@.wf(),
            final(self)@.wf(),
            outcome == old(self)@.delete_letter_result(),
            final(self)@ == old(self)@.after_delete_letter(),
    {
        proof {
            use_type_invariant(&*self);
        }
        if !self.is_active() {
            return Err(GameError::NoActiveGame);
        }
        if self.current >= self.guesses.len() {
            return Err(GameError::NoActiveGuess);
        }
        let idx = self.current;
        let mut guess = self.guesses[idx].clone();
        let outcome = guess.delete_letter();
        if outcome.is_ok() {
            proof {
                lemma_delete_letter_keeps_wf(self@);
                assert(views(self.guesses@.update(idx as int, guess))
                    =~= self@.after_delete_letter().guesses);
            }
            replace_guess(&mut self.guesses, idx, guess);
        }
        outcome
    }

    /// Submits the active attempt: scores it against the answer, completes
    /// it, and moves the round to its next state, which is returned.
    pub fn submit_word(&mut self) -> (outcome: Result<GameState, GameError>)
        ensures
            old(self)@.wf(),
            final(self)@.wf(),
            outcome == old(self)@.submit_result(),
            final(self)@ == old(self)@.after_submit(),
    {
        proof {
            use_type_invariant(&*self);
        }
        if self.game_state != GameState::Active {
            return Err(GameError::NoActiveGame);
        }
        let idx = match self.active_guess() {
            Some(i) => i,
            None => {
                return Err(GameError::NoActiveGuess);
            },
        };
        if self.guesses[idx].remaining_letters() > 0 {
            return Err(GameError::IncompleteGuess);
        }
        let guess_chars = self.guesses[idx].as_chars();
        let result = check_guess(
            self.answer.as_str(),
            self.game_options.word_length,
            guess_chars.as_slice(),
        );
        let ghost before = self@;
        proof {
            lemma_submit_keeps_wf(before);
        }
        update_game_state(&mut self.game_state, &mut self.guesses, &mut self.current, result);
        assert(self@.guesses =~= before.after_submit().guesses);
        Ok(self.game_state)
    }
}

/// A round that has just begun is well-formed.
pub proof fn lemma_initial_is_wf(answer: Seq<char>, word_length: nat, max_guesses: nat)
    requires
        answer.len() == word_length,
    ensures
        GameView::initial(answer, word_length, max_guesses).wf(),
{
}

/// A round that `after_add_letter`, `after_delete_letter` or `after_submit`
/// makes of a well-formed round is well-formed.
proof fn lemma_step_keeps_wf(round: GameView, after: GameView, c: char)
    requires
        round.wf(),
        after == round.after_add_letter(c) || after == round.after_delete_letter() || after
            == round.after_submit(),
    ensures
        after.wf(),
{
    if round.current < round.guesses.len() {
        assert(round.guesses[round.current as int].wf());
    }
    assert forall|i: int| 0 <= i < after.guesses.len() implies (#[trigger] after.guesses[i]).wf()
        && after.guesses[i].max_length == after.word_length by {
        assert(round.guesses[i].wf());
    }
    assert forall|i: int| 0 <= i < after.current implies {
        &&& (#[trigger] after.guesses[i]).state == GuessState::Complete
        &&& after.guesses[i].is_full()
        &&& after.guesses[i].outcomes == Some(after.feedback(after.guesses[i].letters))
        &&& all_correct(after.feedback(after.guesses[i].letters)) <==> (after.state
            == GameState::Won && i == after.current - 1)
    } by {
        assert(round.guesses[i].wf());
    }
    assert forall|i: int| after.current < i < after.guesses.len() implies #[trigger] after.guesses[i]
        == GuessView::fresh(after.word_length, GuessState::Pending) by {
        assert(round.guesses[i].wf());
    }
}

/// `add_letter` keeps a round well-formed.
pub proof fn lemma_add_letter_keeps_wf(round: GameView, c: char)
    requires
        round.wf(),
    ensures
        round.after_add_letter(c).wf(),
{
    lemma_step_keeps_wf(round, round.after_add_letter(c), c);
}

/// `delete_letter` keeps a round well-formed.
pub proof fn lemma_delete_letter_keeps_wf(round: GameView)
    requires
        round.wf(),
    ensures
        round.after_delete_letter().wf(),
{
    lemma_step_keeps_wf(round, round.after_delete_letter(), ' ');
}

/// `submit_word` keeps a round well-formed.
pub proof fn lemma_submit_keeps_wf(round: GameView)
    requires
        round.wf(),
    ensures
        round.after_submit().wf(),
{
    lemma_step_keeps_wf(round, round.after_submit(), ' ');
}

} // verus!
