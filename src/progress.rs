use vstd::prelude::*;

verus! {

/// How far a learner has come through the quiz.
#[derive(Clone, Copy, Debug, PartialEq, Eq, Structural)]
pub struct Progress {
    /// Identifier of the question being presented.
    pub current_question_id: u32,
    /// Questions answered correctly so far.
    pub correct_answers: u32,
    /// Wrong submissions so far, over all questions.
    pub incorrect_attempts: u32,
}

impl Progress {
    /// The state of a learner who has not started: first question, no answers.
    pub open spec fn fresh() -> Progress {
        Progress { current_question_id: 1, correct_answers: 0, incorrect_attempts: 0 }
    }

    /// A fresh start.
    pub fn new() -> (r: Progress)
        ensures
            r == Progress::fresh(),
    {
        Progress { current_question_id: 1, correct_answers: 0, incorrect_attempts: 0 }
    }

    /// Every counter can still grow by one.
    pub open spec fn spec_has_room(self) -> bool {
        &&& self.current_question_id < u32::MAX
        &&& self.correct_answers < u32::MAX
        &&& self.incorrect_attempts < u32::MAX
    }

    /// Whether one more submission can be recorded.
    pub fn has_room(&self) -> (r: bool)
        ensures
            r == self.spec_has_room(),
    {
        self.current_question_id < u32::MAX && self.correct_answers < u32::MAX
            && self.incorrect_attempts < u32::MAX
    }
}

} // verus!
