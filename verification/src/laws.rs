//! What holds of every round, stated over the model of a round and proved
//! from the rules in `game`.

use vstd::prelude::*;
use crate::error::GameError;
use crate::game::{
    GameState, GameView, lemma_add_letter_keeps_wf, lemma_initial_is_wf, lemma_submit_keeps_wf,
};
use crate::guess::{GuessState, GuessView};
use crate::letters::{ascii_upper, normalized};
use crate::scoring::lemma_all_correct_iff_equal;

verus! {

impl GameView {
    /// The round after the letters of `word` have been entered one by one.
    pub open spec fn after_typing(self, word: Seq<char>) -> GameView
        decreases word.len(),
    {
        if word.len() == 0 {
            self
        } else {
            self.after_typing(word.drop_last()).after_add_letter(word.last())
        }
    }

    /// The round after `word` has been entered and submitted.
    pub open spec fn after_attempt(self, word: Seq<char>) -> GameView {
        self.after_typing(word).after_submit()
    }

    /// The round after each of `words` has been entered and submitted, in
    /// order.
    pub open spec fn after_attempts(self, words: Seq<Seq<char>>) -> GameView
        decreases words.len(),
    {
        if words.len() == 0 {
            self
        } else {
            self.after_attempts(words.drop_last()).after_attempt(words.last())
        }
    }

    /// The round is active and its active attempt has no letters yet.
    pub open spec fn awaits_attempt(self) -> bool {
        &&& self.state == GameState::Active
        &&& self.current < self.max_guesses
        &&& self.guesses[self.current as int].letters.len() == 0
    }
}

/// A call that is refused changes nothing.
pub proof fn lemma_refused_calls_change_nothing(round: GameView, c: char)
    ensures
        round.add_letter_result(c) is Err ==> round.after_add_letter(c) == round,
        round.delete_letter_result() is Err ==> round.after_delete_letter() == round,
        round.submit_result() is Err ==> round.after_submit() == round,
{
}

/// A round that is won or lost takes no more input: every call is refused
/// with `NoActiveGame` and the round stays as it is.
pub proof fn lemma_finished_round_is_frozen(round: GameView, c: char)
    requires
        round.state != GameState::Active,
    ensures
        round.add_letter_result(c) == Err::<(), GameError>(GameError::NoActiveGame),
        round.delete_letter_result() == Err::<(), GameError>(GameError::NoActiveGame),
        round.submit_result() == Err::<GameState, GameError>(GameError::NoActiveGame),
        round.after_add_letter(c) == round,
        round.after_delete_letter() == round,
        round.after_submit() == round,
{
}

/// No call changes an attempt that is complete: it keeps its letters and its
/// feedback, which was set when it was submitted.
pub proof fn lemma_complete_attempts_stay(round: GameView, c: char, i: int)
    requires
        round.wf(),
        0 <= i < round.guesses.len(),
        round.guesses[i].state == GuessState::Complete,
    ensures
        round.after_add_letter(c).guesses[i] == round.guesses[i],
        round.after_delete_letter().guesses[i] == round.guesses[i],
        round.after_submit().guesses[i] == round.guesses[i],
{
    assert(round.guesses[i].wf());
    if i > round.current {
        assert(round.guesses[i] == GuessView::fresh(round.word_length, GuessState::Pending));
    }
}

/// Every attempt of a well-formed round has between zero and `word_length`
/// letters, and an attempt that is complete has feedback for each of them.
pub proof fn lemma_attempt_bounds(round: GameView, i: int)
    requires
        round.wf(),
        0 <= i < round.guesses.len(),
    ensures
        0 <= round.guesses[i].letters.len() <= round.word_length,
        round.guesses[i].state == GuessState::Complete ==> round.guesses[i].outcomes is Some
            && round.guesses[i].outcomes->0.len() == round.word_length,
        round.guesses[i].state != GuessState::Complete ==> round.guesses[i].outcomes is None,
{
    assert(round.guesses[i].wf());
}

/// While a round is active and has attempts, exactly one of them is active:
/// the one at position `current`. The attempts before it are complete and
/// those after it are pending. A round that is over has no active attempt.
pub proof fn lemma_one_active_attempt(round: GameView, i: int)
    requires
        round.wf(),
        0 <= i < round.guesses.len(),
    ensures
        round.guesses[i].state == GuessState::Active <==> (round.state == GameState::Active && i
            == round.current),
        i < round.current ==> round.guesses[i].state == GuessState::Complete,
        i > round.current ==> round.guesses[i].state == GuessState::Pending,
{
    assert(round.guesses[i].wf());
    if i > round.current {
        assert(round.guesses[i] == GuessView::fresh(round.word_length, GuessState::Pending));
    }
}

/// Entering a word that fits into the active attempt appends its letters,
/// in upper case, and changes nothing else.
pub proof fn lemma_typing(round: GameView, word: Seq<char>)
    requires
        round.wf(),
        round.state == GameState::Active,
        round.current < round.max_guesses,
        round.guesses[round.current as int].letters.len() + word.len() <= round.word_length,
    ensures
        round.after_typing(word).wf(),
        round.after_typing(word) == (GameView {
            guesses: round.guesses.update(
                round.current as int,
                GuessView {
                    letters: round.guesses[round.current as int].letters + normalized(word),
                    ..round.guesses[round.current as int]
                },
            ),
            ..round
        }),
    decreases word.len(),
{
    let k = round.current as int;
    if word.len() == 0 {
        assert(round.guesses[k].letters + normalized(word) =~= round.guesses[k].letters);
        assert(round.guesses.update(k, round.guesses[k]) =~= round.guesses);
    } else {
        let shorter = word.drop_last();
        lemma_typing(round, shorter);
        let before = round.after_typing(shorter);
        lemma_add_letter_keeps_wf(before, word.last());
        assert(normalized(word) =~= normalized(shorter).push(ascii_upper(word.last())));
        assert((round.guesses[k].letters + normalized(shorter)).push(ascii_upper(word.last()))
            =~= round.guesses[k].letters + normalized(word));
        assert(before.after_add_letter(word.last()).guesses =~= round.guesses.update(
            k,
            GuessView {
                letters: round.guesses[k].letters + normalized(word),
                ..round.guesses[k]
            },
        ));
    }
}

/// An attempt that spells the answer wins the round at once, however many
/// attempts are left. Case does not matter.
pub proof fn lemma_exact_guess_wins(round: GameView, word: Seq<char>)
    requires
        round.wf(),
        round.awaits_attempt(),
        word.len() == round.word_length,
        normalized(word) == normalized(round.answer),
    ensures
        round.after_typing(word).submit_result() == Ok::<GameState, GameError>(GameState::Won),
        round.after_attempt(word).state == GameState::Won,
        round.after_attempt(word).wf(),
{
    let k = round.current as int;
    lemma_typing(round, word);
    let typed = round.after_typing(word);
    assert(typed.guesses[k].letters =~= normalized(word));
    lemma_all_correct_iff_equal(normalized(round.answer), normalized(word));
    lemma_submit_keeps_wf(typed);
}

/// An attempt of the right length that does not spell the answer leaves the
/// round active, with the next attempt empty and active, if another attempt
/// is left; otherwise the round is lost.
pub proof fn lemma_wrong_guess_moves_on(round: GameView, word: Seq<char>)
    requires
        round.wf(),
        round.awaits_attempt(),
        word.len() == round.word_length,
        normalized(word) != normalized(round.answer),
    ensures
        round.after_attempt(word).wf(),
        round.after_attempt(word).current == round.current + 1,
        round.after_attempt(word).max_guesses == round.max_guesses,
        round.after_attempt(word).word_length == round.word_length,
        round.after_attempt(word).answer == round.answer,
        round.current + 1 < round.max_guesses ==> round.after_attempt(word).awaits_attempt()
            && round.after_typing(word).submit_result() == Ok::<GameState, GameError>(
            GameState::Active,
        ),
        round.current + 1 == round.max_guesses ==> round.after_attempt(word).state
            == GameState::Lost && round.after_typing(word).submit_result() == Ok::<
            GameState,
            GameError,
        >(GameState::Lost),
{
    let k = round.current as int;
    lemma_typing(round, word);
    let typed = round.after_typing(word);
    assert(typed.guesses[k].letters =~= normalized(word));
    lemma_all_correct_iff_equal(normalized(round.answer), normalized(word));
    lemma_submit_keeps_wf(typed);
    if k + 1 < round.max_guesses {
        assert(round.guesses[k + 1] == GuessView::fresh(round.word_length, GuessState::Pending));
    }
}

/// After `k` attempts that do not spell the answer, a new round of more than
/// `k` attempts is still active and awaits the next attempt.
proof fn lemma_wrong_guesses_progress(
    answer: Seq<char>,
    word_length: nat,
    max_guesses: nat,
    words: Seq<Seq<char>>,
    k: int,
)
    requires
        answer.len() == word_length,
        0 <= k <= words.len(),
        k < max_guesses,
        forall|i: int|
            0 <= i < words.len() ==> (#[trigger] words[i]).len() == word_length && normalized(
                words[i],
            ) != normalized(answer),
    ensures
        ({
            let round = GameView::initial(answer, word_length, max_guesses).after_attempts(
                words.take(k),
            );
            &&& round.wf()
            &&& round.awaits_attempt()
            &&& round.current == k
            &&& round.max_guesses == max_guesses
            &&& round.word_length == word_length
            &&& round.answer == answer
        }),
    decreases k,
{
    let start = GameView::initial(answer, word_length, max_guesses);
    if k == 0 {
        lemma_initial_is_wf(answer, word_length, max_guesses);
        assert(words.take(0).len() == 0);
    } else {
        lemma_wrong_guesses_progress(answer, word_length, max_guesses, words, k - 1);
        assert(words.take(k).drop_last() =~= words.take(k - 1));
        assert(words.take(k).last() == words[k - 1]);
        lemma_wrong_guess_moves_on(start.after_attempts(words.take(k - 1)), words[k - 1]);
    }
}

/// A round of `max_guesses` attempts, at least one, in which `max_guesses`
/// attempts fail to spell the answer: the round is active before each of
/// the submissions, the last of them makes it `Lost`, and a further
/// submission is refused with `NoActiveGame`.
pub proof fn lemma_wrong_guesses_lose(
    answer: Seq<char>,
    word_length: nat,
    max_guesses: nat,
    words: Seq<Seq<char>>,
)
    requires
        answer.len() == word_length,
        max_guesses >= 1,
        words.len() == max_guesses,
        forall|i: int|
            0 <= i < words.len() ==> (#[trigger] words[i]).len() == word_length && normalized(
                words[i],
            ) != normalized(answer),
    ensures
        forall|k: int|
            0 <= k < max_guesses ==> (#[trigger] GameView::initial(
                answer,
                word_length,
                max_guesses,
            ).after_attempts(words.take(k))).state == GameState::Active,
        GameView::initial(answer, word_length, max_guesses).after_attempts(words).state
            == GameState::Lost,
        GameView::initial(answer, word_length, max_guesses).after_attempts(words).submit_result()
            == Err::<GameState, GameError>(GameError::NoActiveGame),
{
    let start = GameView::initial(answer, word_length, max_guesses);
    assert forall|k: int| 0 <= k < max_guesses implies (#[trigger] start.after_attempts(
        words.take(k),
    )).state == GameState::Active by {
        lemma_wrong_guesses_progress(answer, word_length, max_guesses, words, k);
    }
    let n = max_guesses as int;
    lemma_wrong_guesses_progress(answer, word_length, max_guesses, words, n - 1);
    assert(words.take(n) =~= words);
    assert(words.drop_last() =~= words.take(n - 1));
    lemma_wrong_guess_moves_on(start.after_attempts(words.take(n - 1)), words[n - 1]);
}

} // verus!
