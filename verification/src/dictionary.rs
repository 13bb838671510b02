//! Dictionaries: named word lists, one per word length, and the catalog of
//! those that the game offers.
//!
//! A dictionary does not read its file. Whoever holds the catalog reads the
//! file once, when `needs_load` says so, and hands the text (or the news that
//! it could not be read) to `load`. The dictionary keeps what it was given:
//! a later `load` changes nothing.

use vstd::prelude::*;
use rand::seq::IteratorRandom;
use crate::lines::{split_lines, text_lines, texts};

verus! {

/// Why a dictionary could not supply a word.
#[derive(Debug, Clone, Copy, PartialEq, Eq, Structural)]
pub enum DictionaryError {
    /// The word list could not be read, or was never supplied.
    FileLoadError,
    /// The word list holds no word of the dictionary's length.
    WordNotFound,
}

impl DictionaryError {
    /// The text of `message`.
    pub open spec fn message_text(self) -> Seq<char> {
        match self {
            DictionaryError::FileLoadError => "Failed to load dictionary file"@,
            DictionaryError::WordNotFound => "No word found matching the criteria"@,
        }
    }

    /// A sentence for the player.
    pub fn message(&self) -> (text: String)
        ensures
            text@ == self.message_text(),
    {
        match self {
            DictionaryError::FileLoadError => "Failed to load dictionary file".to_owned(),
            DictionaryError::WordNotFound => "No word found matching the criteria".to_owned(),
        }
    }
}

/// What a dictionary holds of its word list.
#[derive(Debug)]
enum WordList {
    NotLoaded,
    Loaded(Vec<String>),
    Failed,
}

/// The mathematical content of a dictionary's word list.
pub enum Contents {
    /// Nothing has been supplied yet.
    NotLoaded,
    /// The lines of the file, in order.
    Loaded(Seq<Seq<char>>),
    /// The file could not be read; the dictionary stays without words.
    Failed,
}

/// A named word list for words of one length.
#[derive(Debug)]
pub struct Dictionary {
    name: String,
    length: u8,
    filename: String,
    words: WordList,
}

/// The mathematical content of a `Dictionary`.
pub struct DictionaryView {
    /// The name of the word list.
    pub name: Seq<char>,
    /// The number of letters of the words that the dictionary supplies.
    pub length: u8,
    /// The path of the file that holds the word list.
    pub file: Seq<char>,
    pub contents: Contents,
}

impl DictionaryView {
    /// The words that `random_word` chooses from: the lines of the word list
    /// that have exactly `length` characters. None while nothing is loaded.
    pub open spec fn candidates(self) -> Seq<Seq<char>> {
        match self.contents {
            Contents::Loaded(lines) => words_of_length(lines, self.length as nat),
            _ => Seq::empty(),
        }
    }

    /// The dictionary has this name, file and word length.
    pub open spec fn describes(self, name: Seq<char>, file: Seq<char>, length: u8) -> bool {
        &&& self.name == name
        &&& self.file == file
        &&& self.length == length
    }
}

impl View for Dictionary {
    type V = DictionaryView;

    closed spec fn view(&self) -> DictionaryView {
        DictionaryView {
            name: self.name@,
            length: self.length,
            file: self.filename@,
            contents: match self.words {
                WordList::NotLoaded => Contents::NotLoaded,
                WordList::Loaded(lines) => Contents::Loaded(texts(lines@)),
                WordList::Failed => Contents::Failed,
            },
        }
    }
}

/// Those of `lines` that have exactly `length` characters, in order.
pub open spec fn words_of_length(lines: Seq<Seq<char>>, length: nat) -> Seq<Seq<char>>
    decreases lines.len(),
{
    if lines.len() == 0 {
        Seq::empty()
    } else if lines.last().len() == length {
        words_of_length(lines.drop_last(), length).push(lines.last())
    } else {
        words_of_length(lines.drop_last(), length)
    }
}

/// Every word of `words_of_length` is one of the lines and has the length
/// asked for.
pub proof fn lemma_words_of_length_sound(lines: Seq<Seq<char>>, length: nat, i: int)
    requires
        0 <= i < words_of_length(lines, length).len(),
    ensures
        words_of_length(lines, length)[i].len() == length,
        lines.contains(words_of_length(lines, length)[i]),
    decreases lines.len(),
{
    if lines.len() > 0 {
        let rest = words_of_length(lines.drop_last(), length);
        if i < rest.len() {
            lemma_words_of_length_sound(lines.drop_last(), length, i);
            let k = choose|k: int|
                0 <= k < lines.drop_last().len() && lines.drop_last()[k] == rest[i];
            assert(lines[k] == rest[i]);
        } else {
            assert(lines[lines.len() - 1] == lines.last());
        }
    }
}

/// Every line of the length asked for is a word of `words_of_length`.
pub proof fn lemma_words_of_length_complete(lines: Seq<Seq<char>>, length: nat, k: int)
    requires
        0 <= k < lines.len(),
        lines[k].len() == length,
    ensures
        words_of_length(lines, length).contains(lines[k]),
    decreases lines.len(),
{
    let all = words_of_length(lines, length);
    if k == lines.len() - 1 {
        assert(all[all.len() - 1] == lines[k]);
    } else {
        lemma_words_of_length_complete(lines.drop_last(), length, k);
        let rest = words_of_length(lines.drop_last(), length);
        let j = choose|j: int| 0 <= j < rest.len() && rest[j] == lines.drop_last()[k];
        assert(all[j] == lines[k]);
    }
}

/// Copies of those of `lines` that have exactly `length` characters.
pub fn keep_length(lines: &Vec<String>, length: u8) -> (kept: Vec<String>)
    ensures
        texts(kept@) == words_of_length(texts(lines@), length as nat),
{
    let mut kept: Vec<String> = Vec::new();
    let mut i: usize = 0;
    while i < lines.len()
        invariant
            i <= lines@.len(),
            texts(kept@) == words_of_length(texts(lines@).take(i as int), length as nat),
        decreases lines@.len() - i,
    {
        let ghost before = texts(lines@).take(i as int);
        let ghost after = texts(lines@).take(i + 1);
        assert(after.drop_last() =~= before);
        assert(after.last() == lines@[i as int]@);
        if lines[i].as_str().unicode_len() == length as usize {
            let ghost old_kept = texts(kept@);
            kept.push(lines[i].clone());
            assert(texts(kept@) =~= old_kept.push(lines@[i as int]@));
        }
        i = i + 1;
    }
    assert(texts(lines@).take(lines@.len() as int) =~= texts(lines@));
    kept
}

/// Trusted: `rand::seq::IteratorRandom::choose` on the range `0..count`, fed
/// by the generator of `rand::rng()`. For an iterator that knows its length
/// the method returns `None` if the iterator is empty and one of its items
/// otherwise; which item it is depends on the generator, so the contract
/// says only that it is a position below `count`.
#[verifier::external_body]
fn choose_index(count: usize) -> (picked: Option<usize>)
    ensures
        count == 0 ==> picked is None,
        count > 0 ==> picked is Some && picked->0 < count,
{
    (0..count).choose(&mut rand::rng())
}

/// The word at position `picked` of `candidates`; `WordNotFound` if nothing
/// was picked, or a position outside the list.
pub fn select_word(candidates: &Vec<String>, picked: Option<usize>) -> (word: Result<
    String,
    DictionaryError,
>)
    ensures
        match picked {
            Some(i) if i < candidates@.len() => word is Ok && word->Ok_0@ == candidates@[i as int]@,
            _ => word == Err::<String, DictionaryError>(DictionaryError::WordNotFound),
        },
{
    match picked {
        Some(i) => {
            if i < candidates.len() {
                Ok(candidates[i].clone())
            } else {
                Err(DictionaryError::WordNotFound)
            }
        },
        None => Err(DictionaryError::WordNotFound),
    }
}

impl Dictionary {
    /// A dictionary named `name` for words of `count` letters, whose word
    /// list is the file `file`. Nothing is read.
    pub fn new(name: &str, file: &str, count: u8) -> (dictionary: Self)
        ensures
            dictionary@.describes(name@, file@, count),
            dictionary@.contents == Contents::NotLoaded,
    {
        Dictionary {
            name: name.to_owned(),
            filename: file.to_owned(),
            length: count,
            words: WordList::NotLoaded,
        }
    }

    /// The name of the word list.
    pub fn name(&self) -> (name: &str)
        ensures
            name@ == self@.name,
    {
        self.name.as_str()
    }

    /// The number of letters of the words that the dictionary supplies.
    pub fn length(&self) -> (length: u8)
        ensures
            length == self@.length,
    {
        self.length
    }

    /// The path of the file that holds the word list.
    pub fn filename(&self) -> (path: &str)
        ensures
            path@ == self@.file,
    {
        self.filename.as_str()
    }

    /// Whether the word list is still to be read.
    pub fn needs_load(&self) -> (needed: bool)
        ensures
            needed == (self@.contents == Contents::NotLoaded),
    {
        match &self.words {
            WordList::NotLoaded => true,
            _ => false,
        }
    }

    /// Takes the outcome of reading the file: its text, or `None` if it
    /// could not be read. The first call decides for good: after it the
    /// dictionary holds the lines of the text, or stays without words, and
    /// any later call changes nothing.
    pub fn load(&mut self, text: Option<&str>)
        ensures
            final(self)@.describes(old(self)@.name, old(self)@.file, old(self)@.length),
            old(self)@.contents == Contents::NotLoaded ==> final(self)@.contents == match text {
                Some(t) => Contents::Loaded(text_lines(t@)),
                None => Contents::Failed,
            },
            old(self)@.contents != Contents::NotLoaded ==> final(self)@ == old(self)@,
    {
        if self.needs_load() {
            match text {
                Some(t) => {
                    self.words = WordList::Loaded(split_lines(t));
                },
                None => {
                    self.words = WordList::Failed;
                },
            }
        }
    }

    /// A word of the dictionary, chosen at random among the lines of the
    /// word list that have exactly `length` characters.
    ///
    /// Fails with `FileLoadError` if the word list could not be read or was
    /// never supplied, and with `WordNotFound` if it holds no word of that
    /// length.
    pub fn random_word(&self) -> (word: Result<String, DictionaryError>)
        ensures
            match self@.contents {
                Contents::Loaded(lines) => match word {
                    Ok(w) => self@.candidates().contains(w@) && w@.len() == self@.length
                        && lines.contains(w@),
                    Err(e) => e == DictionaryError::WordNotFound && self@.candidates().len() == 0,
                },
                _ => word == Err::<String, DictionaryError>(DictionaryError::FileLoadError),
            },
    {
        match &self.words {
            WordList::Loaded(lines) => {
                let candidates = keep_length(lines, self.length);
                let picked = choose_index(candidates.len());
                let word = select_word(&candidates, picked);
                proof {
                    if let Some(i) = picked {
                        assert(texts(candidates@)[i as int] == candidates@[i as int]@);
                        lemma_words_of_length_sound(texts(lines@), self.length as nat, i as int);
                    }
                }
                word
            },
            _ => Err(DictionaryError::FileLoadError),
        }
    }
}

impl Clone for Dictionary {
    /// A dictionary of the same name, file and length whose word list is
    /// still to be read.
    fn clone(&self) -> (copy: Self)
        ensures
            copy@.describes(self@.name, self@.file, self@.length),
            copy@.contents == Contents::NotLoaded,
    {
        Dictionary {
            name: self.name.clone(),
            length: self.length,
            filename: self.filename.clone(),
            words: WordList::NotLoaded,
        }
    }
}

/// One line of the catalog: the name, the file and the word length of a
/// dictionary.
pub struct CatalogEntry {
    pub name: Seq<char>,
    pub file: Seq<char>,
    pub length: u8,
}

/// The catalog of the dictionaries that the game offers.
pub open spec fn catalog() -> Seq<CatalogEntry> {
    seq![
        CatalogEntry { name: "Wordle"@, file: "data/wordle.txt"@, length: 5 },
        CatalogEntry { name: "Scrabble"@, file: "data/scrabble.txt"@, length: 4 },
        CatalogEntry { name: "Scrabble"@, file: "data/scrabble.txt"@, length: 5 },
        CatalogEntry { name: "Scrabble"@, file: "data/scrabble.txt"@, length: 6 },
        CatalogEntry { name: "Scrabble"@, file: "data/scrabble.txt"@, length: 7 },
        CatalogEntry { name: "Dutch"@, file: "data/dutch.txt"@, length: 4 },
        CatalogEntry { name: "Dutch"@, file: "data/dutch.txt"@, length: 5 },
        CatalogEntry { name: "Dutch"@, file: "data/dutch.txt"@, length: 6 },
        CatalogEntry { name: "Dutch"@, file: "data/dutch.txt"@, length: 7 },
        CatalogEntry { name: "Dutch"@, file: "data/dutch.txt"@, length: 8 },
        CatalogEntry { name: "French"@, file: "data/french.txt"@, length: 4 },
        CatalogEntry { name: "French"@, file: "data/french.txt"@, length: 5 },
        CatalogEntry { name: "French"@, file: "data/french.txt"@, length: 6 },
        CatalogEntry { name: "French"@, file: "data/french.txt"@, length: 7 },
        CatalogEntry { name: "French"@, file: "data/french.txt"@, length: 8 },
        CatalogEntry { name: "Italian"@, file: "data/italian.txt"@, length: 4 },
        CatalogEntry { name: "Italian"@, file: "data/italian.txt"@, length: 5 },
        CatalogEntry { name: "Italian"@, file: "data/italian.txt"@, length: 6 },
        CatalogEntry { name: "Italian"@, file: "data/italian.txt"@, length: 7 },
        CatalogEntry { name: "Italian"@, file: "data/italian.txt"@, length: 8 },
    ]
}

/// What identifies a dictionary: its name and its word length.
pub type DictionaryKey = (Seq<char>, u8);

/// The keys of the catalog, in its order.
pub open spec fn catalog_keys() -> Seq<DictionaryKey> {
    Seq::new(catalog().len(), |i: int| (catalog()[i].name, catalog()[i].length))
}

/// The keys of `dictionaries`, in their order.
pub open spec fn keys_of(dictionaries: Seq<Dictionary>) -> Seq<DictionaryKey> {
    Seq::new(dictionaries.len(), |i: int| (dictionaries[i]@.name, dictionaries[i]@.length))
}

/// `dictionaries` holds the dictionaries of the catalog, in its order.
pub open spec fn is_catalog(dictionaries: Seq<Dictionary>) -> bool {
    &&& dictionaries.len() == catalog().len()
    &&& forall|i: int|
        0 <= i < dictionaries.len() ==> (#[trigger] dictionaries[i])@.describes(
            catalog()[i].name,
            catalog()[i].file,
            catalog()[i].length,
        )
}

/// The first position of `keys` that holds `key`, if there is one.
pub open spec fn first_match(keys: Seq<DictionaryKey>, key: DictionaryKey) -> Option<int>
    decreases keys.len(),
{
    if keys.len() == 0 {
        None
    } else {
        match first_match(keys.drop_last(), key) {
            Some(i) => Some(i),
            None => if keys.last() == key {
                Some(keys.len() - 1)
            } else {
                None
            },
        }
    }
}

/// The position in the catalog of the dictionary named `name` for words of
/// `length` letters, if the catalog has one.
pub open spec fn catalog_position(name: Seq<char>, length: u8) -> Option<int> {
    first_match(catalog_keys(), (name, length))
}

/// `first_match` finds a position that holds the key exactly if there is
/// one, and then the first.
pub proof fn lemma_first_match(keys: Seq<DictionaryKey>, key: DictionaryKey)
    ensures
        match first_match(keys, key) {
            Some(i) => {
                &&& 0 <= i < keys.len()
                &&& keys[i] == key
                &&& forall|k: int| 0 <= k < i ==> keys[k] != key
            },
            None => forall|k: int| 0 <= k < keys.len() ==> keys[k] != key,
        },
    decreases keys.len(),
{
    if keys.len() > 0 {
        lemma_first_match(keys.drop_last(), key);
        assert forall|k: int| 0 <= k < keys.len() - 1 implies keys.drop_last()[k] == keys[k] by {}
    }
}

/// What `first_match` finds in the first `n` keys, it finds in all of them.
proof fn lemma_first_match_extends(keys: Seq<DictionaryKey>, n: int, key: DictionaryKey)
    requires
        0 <= n <= keys.len(),
        first_match(keys.take(n), key) is Some,
    ensures
        first_match(keys, key) == first_match(keys.take(n), key),
    decreases keys.len() - n,
{
    if n < keys.len() {
        assert(keys.take(n + 1).drop_last() =~= keys.take(n));
        lemma_first_match_extends(keys, n + 1, key);
    } else {
        assert(keys.take(n) =~= keys);
    }
}

/// The dictionaries of the catalog are found where the catalog lists them.
pub proof fn lemma_catalog_keys(dictionaries: Seq<Dictionary>)
    requires
        is_catalog(dictionaries),
    ensures
        keys_of(dictionaries) == catalog_keys(),
{
    assert(keys_of(dictionaries) =~= catalog_keys());
}

/// No two dictionaries of the catalog share both name and word length.
pub proof fn lemma_catalog_keys_distinct()
    ensures
        forall|i: int, j: int|
            0 <= i < j < catalog_keys().len() ==> catalog_keys()[i] != catalog_keys()[j],
{
    reveal_strlit("Wordle");
    reveal_strlit("Scrabble");
    reveal_strlit("Dutch");
    reveal_strlit("French");
    reveal_strlit("Italian");
    assert("Wordle"@.len() == 6 && "Scrabble"@.len() == 8 && "Dutch"@.len() == 5);
    assert("French"@.len() == 6 && "Italian"@.len() == 7);
    assert("Wordle"@[0] == 'W' && "French"@[0] == 'F');
}

/// The catalog begins with the dictionary "Wordle" for words of five
/// letters.
pub proof fn lemma_catalog_begins_with_wordle()
    ensures
        catalog_position("Wordle"@, 5) == Some(0int),
{
    lemma_first_match(catalog_keys(), ("Wordle"@, 5u8));
    assert(catalog_keys()[0] == ("Wordle"@, 5u8));
}

/// Any two lists that hold the dictionaries of the catalog agree on the name,
/// the file and the word length at every position.
pub proof fn lemma_catalogs_agree(first: Seq<Dictionary>, second: Seq<Dictionary>, i: int)
    requires
        is_catalog(first),
        is_catalog(second),
        0 <= i < first.len(),
    ensures
        first.len() == second.len(),
        first[i]@.name == second[i]@.name,
        first[i]@.file == second[i]@.file,
        first[i]@.length == second[i]@.length,
{
}

/// Looks up the dictionary named `name` for words of `length` letters: the
/// position of the first one, if there is one.
pub fn find_dictionary(dictionaries: &Vec<Dictionary>, name: &str, length: u8) -> (found: Option<
    usize,
>)
    ensures
        match found {
            Some(i) => first_match(keys_of(dictionaries@), (name@, length)) == Some(i as int)
                && i < dictionaries@.len(),
            None => first_match(keys_of(dictionaries@), (name@, length)) is None,
        },
{
    let wanted = name.to_owned();
    let ghost keys = keys_of(dictionaries@);
    let ghost key = (name@, length);
    let mut i: usize = 0;
    while i < dictionaries.len()
        invariant
            i <= dictionaries@.len(),
            wanted@ == name@,
            keys == keys_of(dictionaries@),
            key == (name@, length),
            first_match(keys.take(i as int), key) is None,
        decreases dictionaries@.len() - i,
    {
        assert(keys.take(i + 1).drop_last() =~= keys.take(i as int));
        assert(keys.take(i + 1).last() == keys[i as int]);
        if dictionaries[i].length == length && dictionaries[i].name == wanted {
            proof {
                lemma_first_match_extends(keys, i + 1, key);
            }
            return Some(i);
        }
        i = i + 1;
    }
    assert(keys.take(dictionaries@.len() as int) =~= keys);
    None
}

/// The dictionaries of the catalog, none of them loaded.
pub fn get_dictionaries() -> (dictionaries: Vec<Dictionary>)
    ensures
        is_catalog(dictionaries@),
        forall|i: int|
            0 <= i < dictionaries@.len() ==> (#[trigger] dictionaries@[i])@.contents
                == Contents::NotLoaded,
{
    let mut dictionaries: Vec<Dictionary> = Vec::new();
    dictionaries.push(Dictionary::new("Wordle", "data/wordle.txt", 5));
    dictionaries.push(Dictionary::new("Scrabble", "data/scrabble.txt", 4));
    dictionaries.push(Dictionary::new("Scrabble", "data/scrabble.txt", 5));
    dictionaries.push(Dictionary::new("Scrabble", "data/scrabble.txt", 6));
    dictionaries.push(Dictionary::new("Scrabble", "data/scrabble.txt", 7));
    dictionaries.push(Dictionary::new("Dutch", "data/dutch.txt", 4));
    dictionaries.push(Dictionary::new("Dutch", "data/dutch.txt", 5));
    dictionaries.push(Dictionary::new("Dutch", "data/dutch.txt", 6));
    dictionaries.push(Dictionary::new("Dutch", "data/dutch.txt", 7));
    dictionaries.push(Dictionary::new("Dutch", "data/dutch.txt", 8));
    dictionaries.push(Dictionary::new("French", "data/french.txt", 4));
    dictionaries.push(Dictionary::new("French", "data/french.txt", 5));
    dictionaries.push(Dictionary::new("French", "data/french.txt", 6));
    dictionaries.push(Dictionary::new("French", "data/french.txt", 7));
    dictionaries.push(Dictionary::new("French", "data/french.txt", 8));
    dictionaries.push(Dictionary::new("Italian", "data/italian.txt", 4));
    dictionaries.push(Dictionary::new("Italian", "data/italian.txt", 5));
    dictionaries.push(Dictionary::new("Italian", "data/italian.txt", 6));
    dictionaries.push(Dictionary::new("Italian", "data/italian.txt", 7));
    dictionaries.push(Dictionary::new("Italian", "data/italian.txt", 8));
    dictionaries
}

} // verus!
