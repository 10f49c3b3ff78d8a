use vstd::prelude::*;

verus! {

/// How hard a question is meant to be; informational only.
#[derive(Clone, Copy, Debug, PartialEq, Eq, Structural)]
pub enum Difficulty {
    Easy,
    Medium,
    Hard,
}

/// One multiple-choice question of the bank.
#[derive(Clone, Debug)]
pub struct Question {
    /// Identifier, unique within the bank.
    pub id: u32,
    /// The prompt shown to the learner.
    pub text: String,
    /// The choices, numbered from 1 in this order.
    pub options: Vec<String>,
    /// The text of the option that counts as right.
    pub correct_answer: String,
    /// A descriptive label.
    pub category: Option<String>,
    pub difficulty: Difficulty,
}

/// The bank built from questions taken in order: each identifier maps to the
/// last question that carries it.
pub open spec fn bank_of(qs: Seq<Question>) -> Map<u32, Question>
    decreases qs.len(),
{
    if qs.len() == 0 {
        Map::empty()
    } else {
        bank_of(qs.drop_last()).insert(qs.last().id, qs.last())
    }
}

} // verus!
