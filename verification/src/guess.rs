//! One attempt of a round: the letters entered so far and, once the attempt
//! has been submitted, the feedback for each of them.

use vstd::prelude::*;
use crate::error::GameError;
use crate::letters::{LetterResult, ascii_upper};

verus! {

/// Where an attempt stands in its round.
#[derive(Clone, Eq, PartialEq, Debug, Copy, Structural)]
pub enum GuessState {
    /// The attempt that takes the player's letters.
    Active,
    /// Submitted and scored; nothing changes it any more.
    Complete,
    /// Not yet reached.
    Pending,
}

/// One cell of an attempt as it is shown: a letter or a blank, and the
/// feedback for it.
pub type Cell = (Option<char>, Option<LetterResult>);

/// The mathematical content of a `Guess`.
pub struct GuessView {
    /// The number of letters of the word.
    pub max_length: nat,
    /// The letters entered so far, in order.
    pub letters: Seq<char>,
    /// The feedback, one entry per letter, once the attempt is complete.
    pub outcomes: Option<Seq<LetterResult>>,
    pub state: GuessState,
}

impl GuessView {
    /// An attempt without letters.
    pub open spec fn fresh(max_length: nat, state: GuessState) -> GuessView {
        GuessView { max_length, letters: Seq::empty(), outcomes: None, state }
    }

    /// What holds of every attempt: it never has more letters than the word,
    /// and it carries feedback exactly when it is complete, one entry per
    /// letter of the word.
    pub open spec fn wf(self) -> bool {
        &&& self.letters.len() <= self.max_length
        &&& self.outcomes is Some <==> self.state == GuessState::Complete
        &&& self.outcomes matches Some(o) ==> o.len() == self.max_length
    }

    /// All letters of the word have been entered.
    pub open spec fn is_full(self) -> bool {
        self.letters.len() == self.max_length
    }

    pub open spec fn with_letter(self, c: char) -> GuessView {
        GuessView { letters: self.letters.push(c), ..self }
    }

    pub open spec fn without_last_letter(self) -> GuessView {
        GuessView { letters: self.letters.drop_last(), ..self }
    }

    pub open spec fn completed(self, outcomes: Seq<LetterResult>) -> GuessView {
        GuessView { outcomes: Some(outcomes), state: GuessState::Complete, ..self }
    }

    pub open spec fn activated(self) -> GuessView {
        GuessView { state: GuessState::Active, ..self }
    }

    /// The cells of the attempt as they are shown. A scored attempt shows each
    /// letter with its feedback. Any other attempt shows one cell per letter
    /// of the word: the entered letters in upper case, then blanks, all with
    /// `Empty` feedback.
    pub open spec fn cells(self) -> Seq<Cell> {
        match self.outcomes {
            Some(o) => Seq::new(
                if self.letters.len() <= o.len() {
                    self.letters.len()
                } else {
                    o.len()
                },
                |i: int| (Some(self.letters[i]), Some(o[i])),
            ),
            None => Seq::new(
                self.max_length,
                |i: int|
                    if i < self.letters.len() {
                        (Some(ascii_upper(self.letters[i])), Some(LetterResult::Empty))
                    } else {
                        (Some(' '), Some(LetterResult::Empty))
                    },
            ),
        }
    }
}

/// One attempt of a round.
#[derive(Eq, PartialEq, Debug)]
pub struct Guess {
    max_length: u16,
    letters: Vec<char>,
    result: Option<Vec<LetterResult>>,
    state: GuessState,
}

impl View for Guess {
    type V = GuessView;

    closed spec fn view(&self) -> GuessView {
        GuessView {
            max_length: self.max_length as nat,
            letters: self.letters@,
            outcomes: match self.result {
                Some(r) => Some(r@),
                None => None,
            },
            state: self.state,
        }
    }
}

impl Clone for Guess {
    fn clone(&self) -> (copy: Self)
        ensures
            copy@ == self@,
    {
        proof {
            use_type_invariant(self);
        }
        let result = match &self.result {
            Some(outcomes) => Some(outcomes.clone()),
            None => None,
        };
        Guess {
            max_length: self.max_length,
            letters: self.letters.clone(),
            result,
            state: self.state,
        }
    }
}

/// Stores the feedback and the new state in one step.
fn seal(
    result: &mut Option<Vec<LetterResult>>,
    state: &mut GuessState,
    outcomes: Vec<LetterResult>,
)
    ensures
        *final(result) == Some(outcomes),
        *final(state) == GuessState::Complete,
    no_unwind
{
    *result = Some(outcomes);
    *state = GuessState::Complete;
}

impl Guess {
    #[verifier::type_invariant]
    spec fn valid(self) -> bool {
        self@.wf()
    }

    /// An attempt for a word of `max_length` letters: no letters yet, not yet
    /// reached.
    pub fn new(max_length: u16) -> (guess: Self)
        ensures
            guess@ == GuessView::fresh(max_length as nat, GuessState::Pending),
    {
        Self { max_length, letters: Vec::new(), result: None, state: GuessState::Pending }
    }

    /// The attempts of a new round: `max_guesses` of them, for a word of
    /// `word_length` letters, the first one active.
    pub fn make_vec(word_length: u16, max_guesses: u16) -> (guesses: Vec<Guess>)
        ensures
            guesses@.len() == max_guesses,
            forall|i: int|
                0 <= i < max_guesses ==> (#[trigger] guesses@[i])@ == GuessView::fresh(
                    word_length as nat,
                    if i == 0 {
                        GuessState::Active
                    } else {
                        GuessState::Pending
                    },
                ),
    {
        let mut guesses: Vec<Guess> = Vec::new();
        let mut i: u16 = 0;
        while i < max_guesses
            invariant
                i <= max_guesses,
                guesses@.len() == i,
                forall|k: int|
                    0 <= k < i ==> (#[trigger] guesses@[k])@ == GuessView::fresh(
                        word_length as nat,
                        if k == 0 {
                            GuessState::Active
                        } else {
                            GuessState::Pending
                        },
                    ),
            decreases max_guesses - i,
        {
            let mut g = Guess::new(word_length);
            if i == 0 {
                g.state = GuessState::Active;
            }
            guesses.push(g);
            i = i + 1;
        }
        guesses
    }

    /// Appends `c`, unless the attempt already has all its letters.
    pub fn add_letter(&mut self, c: char) -> (outcome: Result<(), GameError>)
        ensures
            old(self)@.wf(),
            final(self)@.wf(),
            old(self)@.is_full() ==> outcome == Err::<(), GameError>(GameError::FullGuess)
                && final(self)@ == old(self)@,
            !old(self)@.is_full() ==> outcome == Ok::<(), GameError>(()) && final(self)@ == old(
                self,
            )@.with_letter(c),
    {
        proof {
            use_type_invariant(&*self);
        }
        if self.remaining_letters() <= 0 {
            return Err(GameError::FullGuess);
        }
        let mut letters: Vec<char> = Vec::new();
        core::mem::swap(&mut letters, &mut self.letters);
        letters.push(c);
        self.letters = letters;
        Ok(())
    }

    /// Removes the last letter, unless there is none. The feedback of a
    /// complete attempt is not touched.
    pub fn delete_letter(&mut self) -> (outcome: Result<(), GameError>)
        ensures
            old(self)@.wf(),
            final(self)@.wf(),
            old(self)@.letters.len() == 0 ==> outcome == Err::<(), GameError>(
                GameError::EmptyGuess,
            ) && final(self)@ == old(self)@,
            old(self)@.letters.len() > 0 ==> outcome == Ok::<(), GameError>(()) && final(self)@
                == old(self)@.without_last_letter(),
    {
        proof {
            use_type_invariant(&*self);
        }
        if self.remaining_letters() == self.max_length {
            return Err(GameError::EmptyGuess);
        }
        let mut letters: Vec<char> = Vec::new();
        core::mem::swap(&mut letters, &mut self.letters);
        letters.pop();
        self.letters = letters;
        Ok(())
    }

    /// How many letters are still to be entered.
    pub fn remaining_letters(&self) -> (left: u16)
        ensures
            self@.wf(),
            left == self@.max_length - self@.letters.len(),
    {
        proof {
            use_type_invariant(self);
        }
        self.max_length - (self.letters.len() as u16)
    }

    /// The letters entered so far.
    pub fn as_chars(&self) -> (letters: Vec<char>)
        ensures
            self@.wf(),
            letters@ == self@.letters,
            letters@.len() <= self@.max_length,
    {
        proof {
            use_type_invariant(self);
        }
        self.letters.clone()
    }

    /// Where the attempt stands.
    pub fn state(&self) -> (state: GuessState)
        ensures
            state == self@.state,
    {
        self.state
    }

    /// The number of letters of the word.
    pub fn max_length(&self) -> (length: u16)
        ensures
            length == self@.max_length,
    {
        self.max_length
    }

    /// Makes a pending attempt the one that takes letters.
    pub(crate) fn activate(&mut self)
        requires
            old(self)@.state == GuessState::Pending,
        ensures
            final(self)@ == old(self)@.activated(),
        no_unwind
    {
        proof {
            use_type_invariant(&*self);
        }
        self.state = GuessState::Active;
    }

    /// Stores the feedback of the attempt and completes it. This happens once
    /// in the life of an attempt, when its round has scored it.
    pub(crate) fn complete_guess(&mut self, result: Vec<LetterResult>)
        requires
            old(self)@.state != GuessState::Complete,
            result@.len() == old(self)@.max_length,
        ensures
            final(self)@ == old(self)@.completed(result@),
        no_unwind
    {
        proof {
            use_type_invariant(&*self);
        }
        seal(&mut self.result, &mut self.state, result);
    }

    /// The cells of the attempt as they are shown.
    pub fn values(&self) -> (cells: Vec<Cell>)
        ensures
            cells@ == self@.cells(),
    {
        proof {
            use_type_invariant(self);
        }
        let mut cells: Vec<Cell> = Vec::new();
        match &self.result {
            Some(results) => {
                let count = if self.letters.len() <= results.len() {
                    self.letters.len()
                } else {
                    results.len()
                };
                let mut i: usize = 0;
                while i < count
                    invariant
                        i <= count,
                        count <= self.letters@.len(),
                        count <= results@.len(),
                        cells@.len() == i,
                        forall|k: int|
                            0 <= k < i ==> cells@[k] == (
                                Some(self.letters@[k]),
                                Some(results@[k]),
                            ),
                    decreases count - i,
                {
                    cells.push((Some(self.letters[i]), Some(results[i])));
                    i = i + 1;
                }
                assert(cells@ =~= self@.cells());
            },
            None => {
                let width = self.max_length as usize;
                let entered = self.letters.len();
                let mut i: usize = 0;
                while i < width
                    invariant
                        i <= width,
                        entered == self.letters@.len(),
                        cells@.len() == i,
                        forall|k: int|
                            0 <= k < i ==> cells@[k] == if k < entered {
                                (Some(ascii_upper(self.letters@[k])), Some(LetterResult::Empty))
                            } else {
                                (Some(' '), Some(LetterResult::Empty))
                            },
                    decreases width - i,
                {
                    if i < entered {
                        cells.push(
                            (Some(self.letters[i].to_ascii_uppercase()), Some(LetterResult::Empty)),
                        );
                    } else {
                        cells.push((Some(' '), Some(LetterResult::Empty)));
                    }
                    i = i + 1;
                }
                assert(cells@ =~= self@.cells());
            },
        }
        cells
    }
}

} // verus!
