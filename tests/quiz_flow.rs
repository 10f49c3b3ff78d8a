use quiz_runner::progress::Progress;
use quiz_runner::question::{Difficulty, Question};
use quiz_runner::quiz::{Outcome, QuizManager};

fn question(id: u32, options: &[&str], correct: &str) -> Question {
    Question {
        id,
        text: format!("Question number {}", id),
        options: options.iter().map(|o| o.to_string()).collect(),
        correct_answer: correct.to_string(),
        category: None,
        difficulty: Difficulty::Easy,
    }
}

fn progress(current: u32, correct: u32, incorrect: u32) -> Progress {
    Progress { current_question_id: current, correct_answers: correct, incorrect_attempts: incorrect }
}

fn capitals_and_sums() -> QuizManager {
    QuizManager::with_questions(vec![
        question(1, &["Paris", "Rome"], "Paris"),
        question(2, &["4", "5"], "4"),
    ])
}

#[test]
fn fresh_progress_starts_at_first_question() {
    assert_eq!(Progress::new(), progress(1, 0, 0));
}

#[test]
fn empty_manager_has_no_questions() {
    let quiz = QuizManager::new();
    assert_eq!(quiz.total_questions(), 0);
    assert_eq!(*quiz.progress(), progress(1, 0, 0));
    assert!(quiz.current_question().is_none());
}

#[test]
fn example_session_runs_to_completion_and_resets() {
    let mut quiz = capitals_and_sums();
    assert_eq!(quiz.total_questions(), 2);
    assert_eq!(quiz.current_question().unwrap().id, 1);

    assert_eq!(quiz.submit_answer("2"), Outcome::Incorrect);
    assert_eq!(*quiz.progress(), progress(1, 0, 1));
    assert_eq!(quiz.current_question().unwrap().id, 1);

    assert_eq!(quiz.submit_answer("1"), Outcome::Correct);
    assert_eq!(*quiz.progress(), progress(2, 1, 1));
    assert_eq!(quiz.current_question().unwrap().id, 2);

    assert_eq!(quiz.submit_answer("1"), Outcome::Correct);
    assert_eq!(*quiz.progress(), progress(3, 2, 1));
    assert!(quiz.current_question().is_none());

    assert_eq!(quiz.complete(), Some(progress(3, 2, 1)));
    assert_eq!(*quiz.progress(), progress(1, 0, 0));
}

#[test]
fn complete_while_question_pending_changes_nothing() {
    let mut quiz = capitals_and_sums();
    quiz.load_progress(Some(progress(2, 1, 4)));
    assert_eq!(quiz.complete(), None);
    assert_eq!(*quiz.progress(), progress(2, 1, 4));
}

#[test]
fn complete_on_empty_bank_gives_fresh_tally() {
    let mut quiz = QuizManager::new();
    assert_eq!(quiz.complete(), Some(progress(1, 0, 0)));
    assert_eq!(*quiz.progress(), progress(1, 0, 0));
}

#[test]
fn missing_progress_starts_fresh_and_must_be_stored() {
    let mut quiz = capitals_and_sums();
    quiz.load_progress(Some(progress(2, 5, 6)));
    assert!(quiz.load_progress(None));
    assert_eq!(*quiz.progress(), progress(1, 0, 0));
}

#[test]
fn stored_progress_is_resumed() {
    let mut quiz = capitals_and_sums();
    assert!(!quiz.load_progress(Some(progress(2, 1, 3))));
    assert_eq!(*quiz.progress(), progress(2, 1, 3));
    assert_eq!(quiz.current_question().unwrap().id, 2);
}

#[test]
fn invalid_input_leaves_progress_alone() {
    let mut quiz = capitals_and_sums();
    quiz.load_progress(Some(progress(1, 0, 2)));
    for input in ["", "abc", "0", "3", "-1", "1.0", "1 2", "99999999999999999999999999"] {
        assert_eq!(quiz.submit_answer(input), Outcome::Invalid, "input {:?}", input);
        assert_eq!(*quiz.progress(), progress(1, 0, 2));
    }
    assert_eq!(quiz.submit_selection(None), Outcome::Invalid);
    assert_eq!(quiz.submit_selection(Some(0)), Outcome::Invalid);
    assert_eq!(quiz.submit_selection(Some(3)), Outcome::Invalid);
    assert_eq!(*quiz.progress(), progress(1, 0, 2));
}

#[test]
fn surrounding_white_space_is_ignored() {
    let mut quiz = capitals_and_sums();
    assert_eq!(quiz.submit_answer("  1 \n"), Outcome::Correct);
    assert_eq!(*quiz.progress(), progress(2, 1, 0));
}

#[test]
fn leading_plus_sign_is_accepted() {
    let mut quiz = capitals_and_sums();
    assert_eq!(quiz.submit_answer("+2"), Outcome::Incorrect);
    assert_eq!(*quiz.progress(), progress(1, 0, 1));
}

#[test]
fn answer_text_must_match_exactly() {
    let mut quiz = QuizManager::with_questions(vec![question(1, &["paris", "Paris "], "Paris")]);
    assert_eq!(quiz.submit_selection(Some(1)), Outcome::Incorrect);
    assert_eq!(quiz.submit_selection(Some(2)), Outcome::Incorrect);
    assert_eq!(*quiz.progress(), progress(1, 0, 2));
}

#[test]
fn later_question_with_same_id_wins() {
    let quiz = QuizManager::with_questions(vec![
        question(1, &["a", "b"], "a"),
        question(2, &["c"], "c"),
        question(1, &["x", "y", "z"], "z"),
    ]);
    assert_eq!(quiz.total_questions(), 2);
    let q = quiz.current_question().unwrap();
    assert_eq!(q.options.len(), 3);
    assert_eq!(q.correct_answer, "z");
}

#[test]
fn gap_in_identifiers_ends_the_quiz() {
    let mut quiz = QuizManager::with_questions(vec![
        question(1, &["a", "b"], "a"),
        question(3, &["c", "d"], "d"),
    ]);
    assert_eq!(quiz.submit_selection(Some(1)), Outcome::Correct);
    assert!(quiz.current_question().is_none());
    assert_eq!(quiz.submit_selection(Some(2)), Outcome::Invalid);
    assert_eq!(quiz.complete(), Some(progress(2, 1, 0)));
}

#[test]
fn cursor_past_the_end_means_complete() {
    let mut quiz = capitals_and_sums();
    quiz.load_progress(Some(progress(7, 2, 0)));
    assert!(quiz.current_question().is_none());
    assert_eq!(quiz.submit_answer("1"), Outcome::Invalid);
    assert_eq!(quiz.complete(), Some(progress(7, 2, 0)));
    assert_eq!(*quiz.progress(), progress(1, 0, 0));
}

#[test]
fn counters_track_each_outcome_over_a_session() {
    let mut quiz = capitals_and_sums();
    let inputs = ["2", "x", "2", "1", "5", "2", "2", "1"];
    let mut last = *quiz.progress();
    let mut right = 0u32;
    let mut wrong = 0u32;
    for input in inputs {
        match quiz.submit_answer(input) {
            Outcome::Correct => right += 1,
            Outcome::Incorrect => wrong += 1,
            Outcome::Invalid => {}
        }
        let now = *quiz.progress();
        assert!(now.current_question_id >= last.current_question_id);
        last = now;
    }
    assert_eq!((right, wrong), (2, 4));
    assert_eq!(*quiz.progress(), progress(3, 2, 4));
}

#[test]
fn room_runs_out_at_the_largest_counter() {
    assert!(progress(1, 0, 0).has_room());
    assert!(!progress(u32::MAX, 0, 0).has_room());
    assert!(!progress(1, u32::MAX, 0).has_room());
    assert!(!progress(1, 0, u32::MAX).has_room());
}
