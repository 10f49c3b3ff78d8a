use std::collections::HashMap;
use vstd::prelude::*;

use crate::input::{parse_usize, selection_of, trim, trimmed};
use crate::progress::Progress;
use crate::question::{bank_of, Question};

verus! {

broadcast use vstd::std_specs::hash::group_hash_axioms;

/// What became of one submitted selection.
#[derive(Clone, Copy, Debug, PartialEq, Eq, Structural)]
pub enum Outcome {
    /// No question is pending, or the selection names no option: nothing changed.
    Invalid,
    /// The chosen option is the right one: the quiz moved to the next question.
    Correct,
    /// The chosen option is a wrong one: the attempt was counted.
    Incorrect,
}

/// The question presented under a progress: the one whose identifier is the
/// cursor, while the cursor does not exceed the number of questions.
pub open spec fn current_of(bank: Map<u32, Question>, p: Progress) -> Option<Question> {
    if p.current_question_id as int <= bank.len() && bank.contains_key(p.current_question_id) {
        Some(bank[p.current_question_id])
    } else {
        None
    }
}

/// A selection names an option of the question (numbered from 1).
pub open spec fn names_option(q: Question, selection: Option<usize>) -> bool {
    match selection {
        Some(n) => 1 <= n <= q.options@.len(),
        None => false,
    }
}

/// The option numbered `n` has exactly the text of the right answer.
pub open spec fn is_right(q: Question, n: usize) -> bool {
    q.options@[n - 1]@ == q.correct_answer@
}

/// What a selection amounts to under the given bank and progress.
pub open spec fn outcome_of(
    bank: Map<u32, Question>,
    p: Progress,
    selection: Option<usize>,
) -> Outcome {
    match current_of(bank, p) {
        Some(q) => if !names_option(q, selection) {
            Outcome::Invalid
        } else if is_right(q, selection->0) {
            Outcome::Correct
        } else {
            Outcome::Incorrect
        },
        None => Outcome::Invalid,
    }
}

/// The progress after an outcome.
pub open spec fn progress_after(p: Progress, o: Outcome) -> Progress {
    match o {
        Outcome::Correct => Progress {
            current_question_id: (p.current_question_id + 1) as u32,
            correct_answers: (p.correct_answers + 1) as u32,
            incorrect_attempts: p.incorrect_attempts,
        },
        Outcome::Incorrect => Progress {
            incorrect_attempts: (p.incorrect_attempts + 1) as u32,
            ..p
        },
        Outcome::Invalid => p,
    }
}

/// A question bank together with the learner's progress through it.
#[derive(Debug)]
pub struct QuizManager {
    questions: HashMap<u32, Question>,
    progress: Progress,
}

impl QuizManager {
    /// The questions, by identifier.
    pub closed spec fn bank(&self) -> Map<u32, Question> {
        self.questions@
    }

    /// The learner's progress.
    pub closed spec fn state(&self) -> Progress {
        self.progress
    }

    /// A quiz with no questions, starting fresh.
    pub fn new() -> (r: QuizManager)
        ensures
            r.bank() == Map::<u32, Question>::empty(),
            r.state() == Progress::fresh(),
    {
        QuizManager { questions: HashMap::new(), progress: Progress::new() }
    }

    /// A quiz over the given questions, in their order, starting fresh; of
    /// questions that share an identifier the last one is kept.
    pub fn with_questions(questions: Vec<Question>) -> (r: QuizManager)
        ensures
            r.bank() == bank_of(questions@),
            r.state() == Progress::fresh(),
    {
        let mut quiz = QuizManager::new();
        let ghost qs = questions@;
        for q in it: questions.into_iter()
            invariant
                it.seq() == qs,
                quiz.questions@ == bank_of(qs.take(it.index() as int)),
                quiz.progress == Progress::fresh(),
        {
            proof {
                assert(qs.take(it.index() + 1).drop_last() == qs.take(it.index() as int));
            }
            quiz.questions.insert(q.id, q);
        }
        proof {
            assert(qs.take(qs.len() as int) == qs);
        }
        quiz
    }

    /// The learner's progress.
    pub fn progress(&self) -> (r: &Progress)
        ensures
            *r == self.state(),
    {
        &self.progress
    }

    /// The number of questions in the bank.
    pub fn total_questions(&self) -> (r: usize)
        ensures
            r == self.bank().len(),
    {
        self.questions.len()
    }

    /// Takes the stored progress, or starts fresh where none was stored; the
    /// result says whether the progress must now be stored.
    pub fn load_progress(&mut self, stored: Option<Progress>) -> (must_store: bool)
        ensures
            final(self).bank() == old(self).bank(),
            final(self).state() == match stored {
                Some(p) => p,
                None => Progress::fresh(),
            },
            must_store == stored.is_none(),
    {
        match stored {
            Some(p) => {
                self.progress = p;
                false
            },
            None => {
                self.progress = Progress::new();
                true
            },
        }
    }

    /// The question to present now, or `None` once the quiz is over.
    pub fn current_question(&self) -> (r: Option<&Question>)
        ensures
            match r {
                Some(q) => current_of(self.bank(), self.state()) == Some(*q),
                None => current_of(self.bank(), self.state()) is None,
            },
    {
        let id = self.progress.current_question_id;
        if (id as usize) <= self.questions.len() {
            self.questions.get(&id)
        } else {
            None
        }
    }

    /// Applies a selection (an option number, or `None` for unreadable input)
    /// to the pending question.
    pub fn submit_selection(&mut self, selection: Option<usize>) -> (r: Outcome)
        requires
            old(self).state().spec_has_room(),
        ensures
            r == outcome_of(old(self).bank(), old(self).state(), selection),
            final(self).bank() == old(self).bank(),
            final(self).state() == progress_after(old(self).state(), r),
    {
        let right = match self.current_question() {
            Some(q) => match selection {
                Some(n) => if 1 <= n && n <= q.options.len() {
                    Some(q.options[n - 1] == q.correct_answer)
                } else {
                    None
                },
                None => None,
            },
            None => None,
        };
        match right {
            Some(true) => {
                self.progress.correct_answers = self.progress.correct_answers + 1;
                self.progress.current_question_id = self.progress.current_question_id + 1;
                Outcome::Correct
            },
            Some(false) => {
                self.progress.incorrect_attempts = self.progress.incorrect_attempts + 1;
                Outcome::Incorrect
            },
            None => Outcome::Invalid,
        }
    }

    /// Applies a line typed by the learner: white space around it is ignored,
    /// and the rest must be an option number.
    pub fn submit_answer(&mut self, input: &str) -> (r: Outcome)
        requires
            old(self).state().spec_has_room(),
        ensures
            r == outcome_of(old(self).bank(), old(self).state(), selection_of(trimmed(input@))),
            final(self).bank() == old(self).bank(),
            final(self).state() == progress_after(old(self).state(), r),
    {
        let text = trim(input);
        let selection = parse_usize(text);
        self.submit_selection(selection)
    }

    /// Ends a quiz that has no question left: gives the final tally and starts
    /// the progress afresh. While a question is pending, nothing changes.
    pub fn complete(&mut self) -> (r: Option<Progress>)
        ensures
            final(self).bank() == old(self).bank(),
            current_of(old(self).bank(), old(self).state()) is None ==> {
                &&& r == Some(old(self).state())
                &&& final(self).state() == Progress::fresh()
            },
            current_of(old(self).bank(), old(self).state()) is Some ==> {
                &&& r is None
                &&& final(self).state() == old(self).state()
            },
    {
        if self.current_question().is_some() {
            None
        } else {
            let tally = self.progress;
            self.progress = Progress::new();
            Some(tally)
        }
    }
}

} // verus!
