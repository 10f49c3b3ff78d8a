use vstd::prelude::*;

use crate::progress::Progress;
use crate::question::Question;
use crate::quiz::{current_of, names_option, outcome_of, progress_after, Outcome};

verus! {

/// The progress after the selections are submitted one after another.
pub open spec fn replay(bank: Map<u32, Question>, p: Progress, sels: Seq<Option<usize>>) -> Progress
    decreases sels.len(),
{
    if sels.len() == 0 {
        p
    } else {
        let before = replay(bank, p, sels.drop_last());
        progress_after(before, outcome_of(bank, before, sels.last()))
    }
}

/// The outcome of the selection at position `k` when the selections are
/// submitted one after another.
pub open spec fn outcome_at(
    bank: Map<u32, Question>,
    p: Progress,
    sels: Seq<Option<usize>>,
    k: int,
) -> Outcome {
    outcome_of(bank, replay(bank, p, sels.take(k)), sels[k])
}

/// How many of the selections, submitted one after another, had outcome `o`.
pub open spec fn count_of(
    bank: Map<u32, Question>,
    p: Progress,
    sels: Seq<Option<usize>>,
    o: Outcome,
) -> nat
    decreases sels.len(),
{
    if sels.len() == 0 {
        0
    } else {
        count_of(bank, p, sels.drop_last(), o) + if outcome_of(
            bank,
            replay(bank, p, sels.drop_last()),
            sels.last(),
        ) == o {
            1nat
        } else {
            0nat
        }
    }
}

/// No counter can overflow while the selections are submitted.
pub open spec fn room_for(p: Progress, n: nat) -> bool {
    &&& p.current_question_id + n <= u32::MAX
    &&& p.correct_answers + n <= u32::MAX
    &&& p.incorrect_attempts + n <= u32::MAX
}

proof fn lemma_count_bounded(
    bank: Map<u32, Question>,
    p: Progress,
    sels: Seq<Option<usize>>,
    o: Outcome,
)
    ensures
        count_of(bank, p, sels, o) <= sels.len(),
    decreases sels.len(),
{
    if sels.len() > 0 {
        lemma_count_bounded(bank, p, sels.drop_last(), o);
    }
}

/// The counters count exactly the outcomes: right answers move the cursor and
/// the tally of right answers by one each, wrong answers add one to the
/// incorrect attempts, and invalid selections change nothing.
pub proof fn lemma_counters_count_outcomes(
    bank: Map<u32, Question>,
    p: Progress,
    sels: Seq<Option<usize>>,
)
    requires
        room_for(p, sels.len()),
    ensures
        replay(bank, p, sels).current_question_id == p.current_question_id + count_of(
            bank,
            p,
            sels,
            Outcome::Correct,
        ),
        replay(bank, p, sels).correct_answers == p.correct_answers + count_of(
            bank,
            p,
            sels,
            Outcome::Correct,
        ),
        replay(bank, p, sels).incorrect_attempts == p.incorrect_attempts + count_of(
            bank,
            p,
            sels,
            Outcome::Incorrect,
        ),
    decreases sels.len(),
{
    if sels.len() > 0 {
        let rest = sels.drop_last();
        lemma_counters_count_outcomes(bank, p, rest);
        lemma_count_bounded(bank, p, rest, Outcome::Correct);
        lemma_count_bounded(bank, p, rest, Outcome::Incorrect);
    }
}

/// Each submission moves the cursor forward by one exactly when its answer
/// is right, and leaves it in place otherwise.
pub proof fn lemma_cursor_step(
    bank: Map<u32, Question>,
    p: Progress,
    sels: Seq<Option<usize>>,
    k: int,
)
    requires
        room_for(p, sels.len()),
        0 <= k < sels.len(),
    ensures
        replay(bank, p, sels.take(k + 1)).current_question_id == replay(
            bank,
            p,
            sels.take(k),
        ).current_question_id + if outcome_at(bank, p, sels, k) == Outcome::Correct {
            1int
        } else {
            0int
        },
{
    let pre = sels.take(k);
    assert(sels.take(k + 1).drop_last() == pre);
    lemma_counters_count_outcomes(bank, p, pre);
    lemma_count_bounded(bank, p, pre, Outcome::Correct);
}

/// The cursor never moves back: after more submissions it stands at least as
/// far as after fewer.
pub proof fn lemma_cursor_never_decreases(
    bank: Map<u32, Question>,
    p: Progress,
    sels: Seq<Option<usize>>,
    i: int,
    j: int,
)
    requires
        room_for(p, sels.len()),
        0 <= i <= j <= sels.len(),
    ensures
        replay(bank, p, sels.take(i)).current_question_id <= replay(
            bank,
            p,
            sels.take(j),
        ).current_question_id,
    decreases j - i,
{
    if i < j {
        lemma_cursor_never_decreases(bank, p, sels, i, j - 1);
        lemma_cursor_step(bank, p, sels, j - 1);
    }
}

/// A selection that names no option of the pending question, or one made when
/// no question is pending, leaves the progress as it was.
pub proof fn lemma_invalid_selection_keeps_progress(
    bank: Map<u32, Question>,
    p: Progress,
    selection: Option<usize>,
)
    requires
        current_of(bank, p) is None || !names_option(current_of(bank, p)->0, selection),
    ensures
        outcome_of(bank, p, selection) == Outcome::Invalid,
        progress_after(p, outcome_of(bank, p, selection)) == p,
{
}

/// Once the cursor has passed the number of questions, no question is
/// pending, so the quiz is over and may be completed.
pub proof fn lemma_past_last_question_is_over(bank: Map<u32, Question>, p: Progress)
    requires
        p.current_question_id > bank.len(),
    ensures
        current_of(bank, p) is None,
{
}

} // verus!
