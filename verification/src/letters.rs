//! Letter case and the per-letter feedback values.

use vstd::prelude::*;

verus! {

/// Feedback for one letter of an attempt.
///
/// `Empty` means "not scored yet"; it never says that a letter is absent.
#[derive(Hash, Eq, PartialEq, Clone, Debug, Copy, Structural)]
pub enum LetterResult {
    Empty,
    Absent,
    Present,
    Correct,
}

/// The ASCII upper-case form of a character: `'a'..='z'` move to `'A'..='Z'`,
/// every other character stays as it is.
pub open spec fn ascii_upper(c: char) -> char {
    if 'a' <= c && c <= 'z' {
        ((c as u32) - 32) as char
    } else {
        c
    }
}

/// A word with every letter in its ASCII upper-case form.
pub open spec fn normalized(word: Seq<char>) -> Seq<char> {
    Seq::new(word.len(), |i: int| ascii_upper(word[i]))
}

/// Trusted: `char::to_ascii_uppercase` of the standard library. Its
/// documentation says that ASCII letters `a` to `z` are mapped to `A` to `Z`
/// and that every other character is returned unchanged.
pub assume_specification[ char::to_ascii_uppercase ](c: &char) -> (r: char)
    ensures
        r == ascii_upper(*c),
;

/// Upper-casing is idempotent.
pub proof fn lemma_ascii_upper_idempotent(c: char)
    ensures
        ascii_upper(ascii_upper(c)) == ascii_upper(c),
{
}

/// The letters of `word`, each in its ASCII upper-case form.
pub fn upper_chars(word: &str) -> (letters: Vec<char>)
    ensures
        letters@ == normalized(word@),
{
    let mut letters: Vec<char> = Vec::new();
    for c in it: word.chars()
        invariant
            it.seq() == word@,
            letters@ == normalized(word@.subrange(0, it.index() as int)),
    {
        letters.push(c.to_ascii_uppercase());
        assert(letters@ =~= normalized(word@.subrange(0, it.index() + 1)));
    }
    assert(word@.subrange(0, word@.len() as int) == word@);
    letters
}

} // verus!
