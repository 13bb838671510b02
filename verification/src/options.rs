//! The settings that the player is editing: a dictionary of the catalog and
//! a number of attempts between three and ten.

use vstd::prelude::*;
use crate::dictionary::{
    Dictionary, DictionaryKey, catalog_keys, catalog_position, find_dictionary, get_dictionaries,
    is_catalog, lemma_catalog_begins_with_wordle, lemma_catalog_keys,
    lemma_catalog_keys_distinct, lemma_first_match,
};
use crate::error::GameError;
use crate::game::GameOptions;

verus! {

/// The smallest number of attempts that can be chosen.
pub const MIN_TRIES: u16 = 3;

/// The largest number of attempts that can be chosen.
pub const MAX_TRIES: u16 = 10;

/// The mathematical content of an `OptionData`.
pub struct OptionView {
    /// The position in the catalog of the dictionary that is chosen.
    pub position: int,
    /// The number of attempts that is chosen.
    pub max_tries: nat,
}

impl OptionView {
    /// The key of the dictionary that is chosen.
    pub open spec fn key(self) -> DictionaryKey {
        catalog_keys()[self.position]
    }

    /// What holds of all settings under edit: the dictionary is one of the
    /// catalog and the number of attempts is within its limits.
    pub open spec fn wf(self) -> bool {
        &&& 0 <= self.position < catalog_keys().len()
        &&& MIN_TRIES <= self.max_tries <= MAX_TRIES
    }

    /// The position after this one, the first after the last.
    pub open spec fn next_position(self) -> int {
        (self.position + 1) % (catalog_keys().len() as int)
    }

    /// The position before this one, the last before the first.
    pub open spec fn previous_position(self) -> int {
        if self.position == 0 {
            catalog_keys().len() - 1
        } else {
            self.position - 1
        }
    }
}

/// The settings that the player is editing.
#[derive(Debug)]
pub struct OptionData {
    dictionary_name: String,
    dictionary_length: u8,
    max_tries: u16,
    dictionaries: Vec<Dictionary>,
}

impl View for OptionData {
    type V = OptionView;

    closed spec fn view(&self) -> OptionView {
        OptionView {
            position: match catalog_position(self.dictionary_name@, self.dictionary_length) {
                Some(i) => i,
                None => -1,
            },
            max_tries: self.max_tries as nat,
        }
    }
}

/// Stores the name and the word length of a dictionary in one step.
fn store_choice(name: &mut String, length: &mut u8, new_name: String, new_length: u8)
    ensures
        *final(name) == new_name,
        *final(length) == new_length,
    no_unwind
{
    *name = new_name;
    *length = new_length;
}

impl OptionData {
    #[verifier::type_invariant]
    spec fn valid(self) -> bool {
        &&& is_catalog(self.dictionaries@)
        &&& self@.wf()
    }

    /// The settings that editing begins with: "Wordle" with five letters, and
    /// six attempts.
    pub fn new() -> (options: Self)
        ensures
            options@.wf(),
            options@.position == 0,
            options@.max_tries == 6,
    {
        proof {
            lemma_catalog_begins_with_wordle();
        }
        Self {
            dictionary_name: "Wordle".to_owned(),
            dictionary_length: 5,
            max_tries: 6,
            dictionaries: get_dictionaries(),
        }
    }

    /// The name of the dictionary that is chosen.
    pub fn dictionary_name(&self) -> (name: &str)
        ensures
            self@.wf(),
            name@ == self@.key().0,
    {
        proof {
            use_type_invariant(self);
            lemma_first_match(catalog_keys(), (self.dictionary_name@, self.dictionary_length));
        }
        self.dictionary_name.as_str()
    }

    /// The word length of the dictionary that is chosen.
    pub fn dictionary_length(&self) -> (length: u8)
        ensures
            self@.wf(),
            length == self@.key().1,
    {
        proof {
            use_type_invariant(self);
            lemma_first_match(catalog_keys(), (self.dictionary_name@, self.dictionary_length));
        }
        self.dictionary_length
    }

    /// The number of attempts that is chosen.
    pub fn max_tries(&self) -> (tries: u16)
        ensures
            self@.wf(),
            tries == self@.max_tries,
    {
        proof {
            use_type_invariant(self);
        }
        self.max_tries
    }

    /// The position in the catalog of the dictionary that is chosen.
    fn position(&self) -> (position: usize)
        ensures
            position == self@.position,
            position < self.dictionaries@.len(),
            is_catalog(self.dictionaries@),
            self@.wf(),
    {
        proof {
            use_type_invariant(self);
            lemma_catalog_keys(self.dictionaries@);
        }
        match find_dictionary(
            &self.dictionaries,
            self.dictionary_name.as_str(),
            self.dictionary_length,
        ) {
            Some(i) => i,
            None => 0,
        }
    }

    /// Moves to the dictionary at `position` of the catalog.
    fn move_to(&mut self, position: usize)
        requires
            position < catalog_keys().len(),
        ensures
            final(self)@.position == position,
            final(self)@.max_tries == old(self)@.max_tries,
            final(self)@.wf(),
    {
        proof {
            use_type_invariant(&*self);
            lemma_catalog_keys(self.dictionaries@);
            lemma_catalog_keys_distinct();
            lemma_first_match(catalog_keys(), catalog_keys()[position as int]);
        }
        let name = self.dictionaries[position].name().to_owned();
        let length = self.dictionaries[position].length();
        assert((name@, length) == catalog_keys()[position as int]);
        store_choice(&mut self.dictionary_name, &mut self.dictionary_length, name, length);
    }

    /// Moves to the next dictionary of the catalog, and from the last to the
    /// first.
    pub fn next(&mut self)
        ensures
            old(self)@.wf(),
            final(self)@.wf(),
            final(self)@.position == old(self)@.next_position(),
            final(self)@.max_tries == old(self)@.max_tries,
    {
        let idx = self.position();
        let next = (idx + 1) % self.dictionaries.len();
        self.move_to(next);
    }

    /// Moves to the previous dictionary of the catalog, and from the first
    /// to the last.
    pub fn previous(&mut self)
        ensures
            old(self)@.wf(),
            final(self)@.wf(),
            final(self)@.position == old(self)@.previous_position(),
            final(self)@.max_tries == old(self)@.max_tries,
    {
        let mut idx = self.position();
        if idx == 0 {
            idx = self.dictionaries.len() - 1;
        } else {
            idx -= 1;
        }
        self.move_to(idx);
    }

    /// Writes the settings into `opts`: the dictionary, its word length, and
    /// the number of attempts.
    pub fn apply(&self, opts: &mut GameOptions) -> (outcome: Result<(), GameError>)
        ensures
            self@.wf(),
            outcome == Ok::<(), GameError>(()),
            final(opts).dictionary == self@.position,
            final(opts).word_length == self@.key().1,
            final(opts).max_guesses == self@.max_tries,
            final(opts).valid(),
    {
        proof {
            use_type_invariant(self);
            lemma_first_match(catalog_keys(), (self.dictionary_name@, self.dictionary_length));
        }
        match opts.set_dictionary(self.dictionary_name.as_str(), self.dictionary_length) {
            Ok(()) => {},
            Err(e) => {
                return Err(e);
            },
        }
        opts.max_guesses = self.max_tries;
        Ok(())
    }

    /// One attempt more, up to ten.
    pub fn increment_tries(&mut self)
        ensures
            old(self)@.wf(),
            final(self)@.wf(),
            final(self)@.position == old(self)@.position,
            final(self)@.max_tries == if old(self)@.max_tries < MAX_TRIES {
                old(self)@.max_tries + 1
            } else {
                MAX_TRIES as nat
            },
    {
        proof {
            use_type_invariant(&*self);
        }
        if self.max_tries < MAX_TRIES {
            self.max_tries = self.max_tries + 1;
        }
    }

    /// One attempt less, down to three.
    pub fn decrement_tries(&mut self)
        ensures
            old(self)@.wf(),
            final(self)@.wf(),
            final(self)@.position == old(self)@.position,
            final(self)@.max_tries == if old(self)@.max_tries > MIN_TRIES {
                (old(self)@.max_tries - 1) as nat
            } else {
                MIN_TRIES as nat
            },
    {
        proof {
            use_type_invariant(&*self);
        }
        if self.max_tries > MIN_TRIES {
            self.max_tries = self.max_tries - 1;
        }
    }
}

} // verus!
