//! Scoring an attempt against the answer, with the duplicate-letter rule.
//!
//! The rule is stated by counting. A position where guess and answer hold the
//! same letter is an exact match. Every other occurrence of a letter `c` in
//! the answer is *spare*; every other occurrence of `c` in the guess is a
//! *claim*. Claims are served from left to right, one spare occurrence each:
//! a claim is `Present` while fewer claims on `c` stand to its left than the
//! answer has spare occurrences of `c`, and `Absent` after that.
//!
//! `check_guess` computes this in two passes over the letters and is proved
//! to agree with the counting rule.

use vstd::prelude::*;
use crate::letters::{LetterResult, normalized, upper_chars};

verus! {

/// Position `k` holds the same letter in the answer and in the guess.
pub open spec fn exact_at(answer: Seq<char>, guess: Seq<char>, k: int) -> bool {
    0 <= k < answer.len() && k < guess.len() && answer[k] == guess[k]
}

/// How many of the first `n` positions of the answer hold `c` without being
/// an exact match.
pub open spec fn spare_count(answer: Seq<char>, guess: Seq<char>, c: char, n: int) -> int
    decreases n,
{
    if n <= 0 {
        0
    } else {
        spare_count(answer, guess, c, n - 1) + if answer[n - 1] == c && !exact_at(
            answer,
            guess,
            n - 1,
        ) {
            1int
        } else {
            0int
        }
    }
}

/// How many of the first `n` positions of the guess hold `c` without being an
/// exact match.
pub open spec fn claim_count(answer: Seq<char>, guess: Seq<char>, c: char, n: int) -> int
    decreases n,
{
    if n <= 0 {
        0
    } else {
        claim_count(answer, guess, c, n - 1) + if guess[n - 1] == c && !exact_at(
            answer,
            guess,
            n - 1,
        ) {
            1int
        } else {
            0int
        }
    }
}

/// The feedback for position `i` of the guess.
pub open spec fn letter_score(answer: Seq<char>, guess: Seq<char>, i: int) -> LetterResult {
    if exact_at(answer, guess, i) {
        LetterResult::Correct
    } else if claim_count(answer, guess, guess[i], i) < spare_count(
        answer,
        guess,
        guess[i],
        answer.len() as int,
    ) {
        LetterResult::Present
    } else {
        LetterResult::Absent
    }
}

/// The feedback for a whole guess, one entry per letter of the guess.
pub open spec fn score(answer: Seq<char>, guess: Seq<char>) -> Seq<LetterResult> {
    Seq::new(guess.len(), |i: int| letter_score(answer, guess, i))
}

/// What `check_guess` returns: `width` entries, those of the guess scored
/// against the upper-cased answer, the rest `Absent`.
pub open spec fn graded(answer: Seq<char>, width: nat, guess: Seq<char>) -> Seq<LetterResult> {
    Seq::new(
        width,
        |i: int|
            if i < guess.len() {
                letter_score(normalized(answer), guess, i)
            } else {
                LetterResult::Absent
            },
    )
}

/// Every entry is `Correct`.
pub open spec fn all_correct(outcomes: Seq<LetterResult>) -> bool {
    forall|i: int| 0 <= i < outcomes.len() ==> outcomes[i] == LetterResult::Correct
}

/// A guess of the answer's length is scored `Correct` throughout exactly if
/// it is the answer.
pub proof fn lemma_all_correct_iff_equal(answer: Seq<char>, guess: Seq<char>)
    requires
        answer.len() == guess.len(),
    ensures
        all_correct(score(answer, guess)) <==> guess == answer,
{
    if all_correct(score(answer, guess)) {
        assert forall|i: int| 0 <= i < guess.len() implies guess[i] == answer[i] by {
            assert(score(answer, guess)[i] == LetterResult::Correct);
        }
        assert(guess =~= answer);
    }
}

/// The feedback never holds `Empty`, and it holds `Correct` exactly at the
/// exact matches.
pub proof fn lemma_score_entries(answer: Seq<char>, guess: Seq<char>, i: int)
    requires
        0 <= i < guess.len(),
    ensures
        score(answer, guess)[i] != LetterResult::Empty,
        score(answer, guess)[i] == LetterResult::Correct <==> exact_at(answer, guess, i),
{
}

/// How many of the first `n` spare positions of `c` in the answer are marked
/// in `used`.
spec fn taken_count(answer: Seq<char>, guess: Seq<char>, used: Seq<bool>, c: char, n: int) -> int
    decreases n,
{
    if n <= 0 {
        0
    } else {
        taken_count(answer, guess, used, c, n - 1) + if answer[n - 1] == c && !exact_at(
            answer,
            guess,
            n - 1,
        ) && used[n - 1] {
            1int
        } else {
            0int
        }
    }
}

proof fn lemma_counts_bounds(answer: Seq<char>, guess: Seq<char>, used: Seq<bool>, c: char, n: int)
    ensures
        0 <= taken_count(answer, guess, used, c, n) <= spare_count(answer, guess, c, n),
        0 <= claim_count(answer, guess, c, n),
    decreases n,
{
    if n > 0 {
        lemma_counts_bounds(answer, guess, used, c, n - 1);
    }
}

proof fn lemma_none_taken(answer: Seq<char>, guess: Seq<char>, used: Seq<bool>, c: char, n: int)
    requires
        forall|k: int| 0 <= k < n && used[k] ==> exact_at(answer, guess, k),
    ensures
        taken_count(answer, guess, used, c, n) == 0,
    decreases n,
{
    if n > 0 {
        lemma_none_taken(answer, guess, used, c, n - 1);
    }
}

proof fn lemma_some_left(
    answer: Seq<char>,
    guess: Seq<char>,
    used: Seq<bool>,
    c: char,
    n: int,
    p: int,
)
    requires
        0 <= p < n,
        answer[p] == c,
        !exact_at(answer, guess, p),
        !used[p],
    ensures
        taken_count(answer, guess, used, c, n) < spare_count(answer, guess, c, n),
    decreases n,
{
    if p == n - 1 {
        lemma_counts_bounds(answer, guess, used, c, n - 1);
    } else {
        lemma_some_left(answer, guess, used, c, n - 1, p);
    }
}

proof fn lemma_all_taken(answer: Seq<char>, guess: Seq<char>, used: Seq<bool>, c: char, n: int)
    requires
        forall|k: int| 0 <= k < n && answer[k] == c ==> used[k],
    ensures
        taken_count(answer, guess, used, c, n) == spare_count(answer, guess, c, n),
    decreases n,
{
    if n > 0 {
        lemma_all_taken(answer, guess, used, c, n - 1);
    }
}

proof fn lemma_take_one(
    answer: Seq<char>,
    guess: Seq<char>,
    used: Seq<bool>,
    c: char,
    n: int,
    p: int,
)
    requires
        0 <= p < used.len(),
        n <= used.len(),
        used.len() == answer.len(),
        !used[p],
        !exact_at(answer, guess, p),
    ensures
        taken_count(answer, guess, used.update(p, true), c, n) == taken_count(
            answer,
            guess,
            used,
            c,
            n,
        ) + if p < n && answer[p] == c {
            1int
        } else {
            0int
        },
    decreases n,
{
    if n > 0 {
        lemma_take_one(answer, guess, used, c, n - 1, p);
    }
}

/// The first position of `answer` that holds `c` and is not marked in `used`.
fn first_unused(answer: &Vec<char>, used: &Vec<bool>, c: char) -> (found: Option<usize>)
    requires
        used@.len() == answer@.len(),
    ensures
        match found {
            Some(p) => {
                &&& p < answer@.len()
                &&& answer@[p as int] == c
                &&& !used@[p as int]
                &&& forall|k: int| 0 <= k < p ==> !(answer@[k] == c && !used@[k])
            },
            None => forall|k: int| 0 <= k < answer@.len() && answer@[k] == c ==> used@[k],
        },
{
    let mut k: usize = 0;
    while k < answer.len()
        invariant
            used@.len() == answer@.len(),
            k <= answer@.len(),
            forall|j: int| 0 <= j < k ==> !(answer@[j] == c && !used@[j]),
        decreases answer@.len() - k,
    {
        if answer[k] == c && !used[k] {
            return Some(k);
        }
        k = k + 1;
    }
    None
}

/// Whether every entry of `outcomes` is `Correct`.
pub fn is_all_correct(outcomes: &Vec<LetterResult>) -> (yes: bool)
    ensures
        yes == all_correct(outcomes@),
    no_unwind
{
    let mut i: usize = 0;
    while i < outcomes.len()
        invariant
            i <= outcomes@.len(),
            forall|k: int| 0 <= k < i ==> outcomes@[k] == LetterResult::Correct,
        decreases outcomes@.len() - i,
    {
        if outcomes[i] != LetterResult::Correct {
            return false;
        }
        i = i + 1;
    }
    true
}

/// Scores `guess_chars` against `answer`, ignoring the case of the answer.
///
/// Pass one marks exact matches `Correct` and uses up those letters of the
/// answer. Pass two gives every other letter of the guess the first unused
/// occurrence of that letter in the answer, if there is one (`Present`), and
/// `Absent` otherwise.
pub fn check_guess(answer: &str, word_length: u16, guess_chars: &[char]) -> (result: Vec<
    LetterResult,
>)
    requires
        guess_chars@.len() <= answer@.len(),
        guess_chars@.len() <= word_length,
    ensures
        result@ == graded(answer@, word_length as nat, guess_chars@),
        guess_chars@.len() == word_length ==> result@ == score(normalized(answer@), guess_chars@),
{
    let answer_chars = upper_chars(answer);
    let n = guess_chars.len();
    let m = answer_chars.len();
    let ghost a = answer_chars@;
    let ghost g = guess_chars@;
    let mut used: Vec<bool> = vec![false; m];
    let mut result: Vec<LetterResult> = vec![LetterResult::Absent; word_length as usize];

    let mut i: usize = 0;
    while i < n
        invariant
            i <= n,
            n == g.len(),
            m == a.len(),
            n <= m,
            n <= word_length,
            a == answer_chars@,
            g == guess_chars@,
            used@.len() == m,
            result@.len() == word_length,
            forall|k: int| 0 <= k < i ==> used@[k] == exact_at(a, g, k),
            forall|k: int| i <= k < m ==> !used@[k],
            forall|k: int|
                0 <= k < i ==> result@[k] == if exact_at(a, g, k) {
                    LetterResult::Correct
                } else {
                    LetterResult::Absent
                },
            forall|k: int| i <= k < word_length ==> result@[k] == LetterResult::Absent,
        decreases n - i,
    {
        if guess_chars[i] == answer_chars[i] {
            result.set(i, LetterResult::Correct);
            used.set(i, true);
        }
        i = i + 1;
    }

    proof {
        assert forall|c: char| #[trigger] taken_count(a, g, used@, c, m as int) == 0 by {
            lemma_none_taken(a, g, used@, c, m as int);
        }
        assert forall|c: char|
            0 <= #[trigger] spare_count(a, g, c, m as int) && claim_count(a, g, c, 0) == 0 by {
            lemma_counts_bounds(a, g, used@, c, m as int);
        }
    }

    let mut i: usize = 0;
    while i < n
        invariant
            i <= n,
            n == g.len(),
            m == a.len(),
            n <= m,
            n <= word_length,
            a == answer_chars@,
            g == guess_chars@,
            used@.len() == m,
            result@.len() == word_length,
            forall|k: int| 0 <= k < m && exact_at(a, g, k) ==> used@[k],
            forall|c: char|
                #[trigger] taken_count(a, g, used@, c, m as int) == if claim_count(a, g, c, i as int)
                    <= spare_count(a, g, c, m as int) {
                    claim_count(a, g, c, i as int)
                } else {
                    spare_count(a, g, c, m as int)
                },
            forall|k: int| 0 <= k < i ==> result@[k] == letter_score(a, g, k),
            forall|k: int|
                i <= k < n ==> result@[k] == if exact_at(a, g, k) {
                    LetterResult::Correct
                } else {
                    LetterResult::Absent
                },
            forall|k: int| n <= k < word_length ==> result@[k] == LetterResult::Absent,
        decreases n - i,
    {
        let letter = guess_chars[i];
        let ghost used_before = used@;
        if result[i] != LetterResult::Correct {
            let found = first_unused(&answer_chars, &used, letter);
            match found {
                Some(p) => {
                    proof {
                        lemma_some_left(a, g, used_before, letter, m as int, p as int);
                    }
                    result.set(i, LetterResult::Present);
                    used.set(p, true);
                    proof {
                        assert(used@ == used_before.update(p as int, true));
                        assert forall|c: char|
                            #[trigger] taken_count(a, g, used@, c, m as int) == if claim_count(
                                a,
                                g,
                                c,
                                i + 1,
                            ) <= spare_count(a, g, c, m as int) {
                                claim_count(a, g, c, i + 1)
                            } else {
                                spare_count(a, g, c, m as int)
                            } by {
                            lemma_take_one(a, g, used_before, c, m as int, p as int);
                            assert(taken_count(a, g, used_before, c, m as int) == if claim_count(
                                a,
                                g,
                                c,
                                i as int,
                            ) <= spare_count(a, g, c, m as int) {
                                claim_count(a, g, c, i as int)
                            } else {
                                spare_count(a, g, c, m as int)
                            });
                        }
                    }
                },
                None => {
                    proof {
                        lemma_all_taken(a, g, used_before, letter, m as int);
                        assert(taken_count(a, g, used_before, letter, m as int) == if claim_count(
                            a,
                            g,
                            letter,
                            i as int,
                        ) <= spare_count(a, g, letter, m as int) {
                            claim_count(a, g, letter, i as int)
                        } else {
                            spare_count(a, g, letter, m as int)
                        });
                    }
                },
            }
        }
        i = i + 1;
    }
    assert(result@ =~= graded(answer@, word_length as nat, guess_chars@));
    assert(guess_chars@.len() == word_length ==> graded(answer@, word_length as nat, guess_chars@)
        =~= score(normalized(answer@), guess_chars@));
    result
}

} // verus!
