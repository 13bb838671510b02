//! What a call on a round or on its configuration can fail with.

use vstd::prelude::*;

verus! {

/// The failures of the round and configuration operations.
#[derive(Debug, Clone, Copy, PartialEq, Eq, Structural)]
pub enum GameError {
    /// The catalog has no dictionary of the name and word length asked for.
    SourceNotFound,
    /// The dictionary could not supply a word.
    DictionaryError,
    /// The round is over.
    NoActiveGame,
    /// The round has no attempt to play on.
    NoActiveGuess,
    /// No letter is left to delete.
    EmptyGuess,
    /// The attempt already holds as many letters as the word has.
    FullGuess,
    /// The attempt holds fewer letters than the word has.
    IncompleteGuess,
}

impl GameError {
    /// The text of `message`.
    pub open spec fn message_text(self) -> Seq<char> {
        match self {
            GameError::SourceNotFound => "Dictionary not found"@,
            GameError::DictionaryError => "Error accessing dictionary"@,
            GameError::NoActiveGame => "No active game"@,
            GameError::NoActiveGuess => "No active guess"@,
            GameError::EmptyGuess => "Cannot delete from an empty guess"@,
            GameError::FullGuess => "Cannot add to a full guess"@,
            GameError::IncompleteGuess => "Guess is incomplete"@,
        }
    }

    /// A sentence for the player.
    pub fn message(&self) -> (text: String)
        ensures
            text@ == self.message_text(),
    {
        match self {
            GameError::SourceNotFound => "Dictionary not found".to_owned(),
            GameError::DictionaryError => "Error accessing dictionary".to_owned(),
            GameError::NoActiveGame => "No active game".to_owned(),
            GameError::NoActiveGuess => "No active guess".to_owned(),
            GameError::EmptyGuess => "Cannot delete from an empty guess".to_owned(),
            GameError::FullGuess => "Cannot add to a full guess".to_owned(),
            GameError::IncompleteGuess => "Guess is incomplete".to_owned(),
        }
    }
}

} // verus!
