//! End-to-end exercises of the quiz engine: starting applications,
//! submitting answers, passing, failing and timing out.

use fan_quiz::engine::{role_held, QuizEngine};
use fan_quiz::question::{BotConfig, ConfigError, Question};
use fan_quiz::session::AnswerOutcome;

fn question(text: &str, answers: &[&str], correct: usize) -> Question {
    Question {
        question: text.to_string(),
        answers: answers.iter().map(|s| s.to_string()).collect(),
        correct_answer: correct,
    }
}

fn bank_of(n: usize) -> Vec<Question> {
    (0..n)
        .map(|i| question(&format!("question {i}"), &["alpha", "beta", "gamma"], i % 3))
        .collect()
}

fn config(bank_size: usize, per_application: usize, minutes: u64) -> BotConfig {
    BotConfig {
        question_bank: bank_of(bank_size),
        questions_per_application: per_application,
        time_limit_minutes: minutes,
        reward_role: 77,
    }
}

fn engine(bank_size: usize, per_application: usize, minutes: u64) -> QuizEngine {
    match QuizEngine::new(config(bank_size, per_application, minutes)) {
        Ok(e) => e,
        Err(err) => panic!("configuration rejected: {err:?}"),
    }
}

fn engine_error(cfg: BotConfig) -> ConfigError {
    match QuizEngine::new(cfg) {
        Ok(_) => panic!("expected the configuration to be rejected"),
        Err(err) => err,
    }
}

/// The correct answer index for the question the user is currently asked.
fn current_correct(engine: &QuizEngine, user: u64) -> usize {
    let app = engine.sessions.get(&user).expect("session must exist");
    let bank_index = app.question_indices[app.current_question];
    engine.config.question_bank[bank_index].correct_answer
}

#[test]
fn start_creates_session_with_distinct_questions() {
    let mut e = engine(10, 5, 5);
    assert!(!e.has_session(42));
    let prompt = e.start(42, 0);
    assert!(e.has_session(42));
    let app = e.sessions.get(&42).unwrap();
    assert_eq!(app.question_indices.len(), 5);
    assert_eq!(app.current_question, 0);
    assert_eq!(app.start_time, 0);
    for i in 0..5 {
        assert!(app.question_indices[i] < 10);
        for j in 0..i {
            assert_ne!(app.question_indices[i], app.question_indices[j]);
        }
    }
    let first_bank_index = app.question_indices[0];
    assert_eq!(prompt.text, e.config.question_bank[first_bank_index].question);
    assert_eq!(prompt.buttons.len(), 3);
}

#[test]
fn start_replaces_existing_session() {
    let mut e = engine(10, 5, 5);
    e.start(42, 0);
    for _ in 0..3 {
        let correct = current_correct(&e, 42);
        e.answer(42, correct, 10, false);
    }
    assert_eq!(e.sessions.get(&42).unwrap().current_question, 3);
    e.start(42, 100);
    let app = e.sessions.get(&42).unwrap();
    assert_eq!(app.current_question, 0);
    assert_eq!(app.start_time, 100);
}

#[test]
fn four_correct_then_one_wrong_fails_and_clears_session() {
    let mut e = engine(10, 5, 5);
    e.start(42, 0);
    for step in 0..4 {
        let correct = current_correct(&e, 42);
        let (outcome, prompt) = e.answer(42, correct, 30 * (step + 1), false);
        assert_eq!(outcome, AnswerOutcome::NextQuestion);
        assert!(prompt.is_some());
    }
    let correct = current_correct(&e, 42);
    let wrong = (correct + 1) % 3;
    let (outcome, prompt) = e.answer(42, wrong, 150, false);
    assert_eq!(outcome, AnswerOutcome::WrongAnswer);
    assert!(prompt.is_none());
    assert!(!e.has_session(42));
}

#[test]
fn all_correct_within_three_minutes_grants_role() {
    let mut e = engine(10, 5, 5);
    e.start(42, 0);
    let mut last = (AnswerOutcome::NextQuestion, None);
    for step in 0..5 {
        let correct = current_correct(&e, 42);
        last = e.answer(42, correct, 36 * (step + 1), false);
    }
    assert_eq!(last.0, AnswerOutcome::PassedRoleGranted);
    assert!(last.1.is_none());
    assert!(!e.has_session(42));
}

#[test]
fn passing_holder_gets_no_duplicate_grant() {
    let mut e = engine(10, 5, 5);
    e.start(42, 0);
    let mut last = (AnswerOutcome::NextQuestion, None);
    for _ in 0..5 {
        let correct = current_correct(&e, 42);
        last = e.answer(42, correct, 60, true);
    }
    assert_eq!(last.0, AnswerOutcome::PassedRoleAlreadyHeld);
    assert!(!e.has_session(42));
}

#[test]
fn final_answer_after_deadline_times_out_without_role() {
    let mut e = engine(10, 5, 5);
    e.start(42, 0);
    for _ in 0..4 {
        let correct = current_correct(&e, 42);
        let (outcome, _) = e.answer(42, correct, 60, false);
        assert_eq!(outcome, AnswerOutcome::NextQuestion);
    }
    let correct = current_correct(&e, 42);
    let (outcome, prompt) = e.answer(42, correct, 301, false);
    assert_eq!(outcome, AnswerOutcome::TimedOut);
    assert!(prompt.is_none());
    assert!(!e.has_session(42));
}

#[test]
fn final_answer_exactly_at_deadline_still_passes() {
    let mut e = engine(10, 5, 5);
    e.start(42, 0);
    for _ in 0..4 {
        let correct = current_correct(&e, 42);
        e.answer(42, correct, 60, false);
    }
    let correct = current_correct(&e, 42);
    let (outcome, _) = e.answer(42, correct, 300, false);
    assert_eq!(outcome, AnswerOutcome::PassedRoleGranted);
}

#[test]
fn wrong_first_answer_fails_immediately() {
    let mut e = engine(10, 5, 5);
    e.start(7, 0);
    let correct = current_correct(&e, 7);
    let wrong = (correct + 1) % 3;
    let (outcome, prompt) = e.answer(7, wrong, 1, false);
    assert_eq!(outcome, AnswerOutcome::WrongAnswer);
    assert!(prompt.is_none());
    assert!(!e.has_session(7));
}

#[test]
fn wrong_answer_midway_fails_immediately() {
    let mut e = engine(10, 5, 5);
    e.start(7, 0);
    for _ in 0..2 {
        let correct = current_correct(&e, 7);
        e.answer(7, correct, 10, false);
    }
    let correct = current_correct(&e, 7);
    let wrong = (correct + 2) % 3;
    let (outcome, _) = e.answer(7, wrong, 20, false);
    assert_eq!(outcome, AnswerOutcome::WrongAnswer);
    assert!(!e.has_session(7));
}

#[test]
fn current_question_index_stays_in_range_while_awaiting() {
    let mut e = engine(10, 5, 5);
    e.start(9, 0);
    for expected in 0..4 {
        let app = e.sessions.get(&9).unwrap();
        assert_eq!(app.current_question, expected);
        assert!(app.current_question < 5);
        let correct = current_correct(&e, 9);
        e.answer(9, correct, 1, false);
    }
    let app = e.sessions.get(&9).unwrap();
    assert_eq!(app.current_question, 4);
    let correct = current_correct(&e, 9);
    e.answer(9, correct, 2, false);
    assert!(!e.has_session(9));
}

#[test]
fn sessions_of_different_users_are_independent() {
    let mut e = engine(10, 5, 5);
    e.start(1, 0);
    e.start(2, 0);
    let correct = current_correct(&e, 1);
    let wrong = (correct + 1) % 3;
    e.answer(1, wrong, 1, false);
    assert!(!e.has_session(1));
    assert!(e.has_session(2));
}

#[test]
fn can_answer_checks_session_and_range() {
    let mut e = engine(10, 5, 5);
    assert!(!e.can_answer(5, 0));
    e.start(5, 0);
    assert!(e.can_answer(5, 0));
    assert!(e.can_answer(5, 2));
    assert!(!e.can_answer(5, 3));
    assert!(!e.can_answer(6, 0));
}

#[test]
fn whole_bank_as_one_application() {
    let mut e = engine(3, 3, 1);
    e.start(1, 0);
    let app = e.sessions.get(&1).unwrap();
    let mut seen = [false; 3];
    for i in 0..3 {
        seen[app.question_indices[i]] = true;
    }
    assert!(seen.iter().all(|s| *s));
    let mut last = (AnswerOutcome::NextQuestion, None);
    for _ in 0..3 {
        let correct = current_correct(&e, 1);
        last = e.answer(1, correct, 60, false);
    }
    assert_eq!(last.0, AnswerOutcome::PassedRoleGranted);
}

#[test]
fn rejects_more_questions_than_bank_holds() {
    let err = engine_error(config(4, 5, 5));
    assert_eq!(err, ConfigError::TooFewQuestions);
}

#[test]
fn rejects_zero_questions_per_application() {
    let err = engine_error(config(4, 0, 5));
    assert_eq!(err, ConfigError::ZeroQuestionsPerApplication);
}

#[test]
fn rejects_question_with_bad_correct_index() {
    let mut cfg = config(4, 2, 5);
    cfg.question_bank[2] = question("broken", &["a", "b"], 2);
    let err = engine_error(cfg);
    assert_eq!(err, ConfigError::MalformedQuestion { index: 2 });
}

#[test]
fn rejects_question_with_too_few_answers() {
    let mut cfg = config(4, 2, 5);
    cfg.question_bank[0] = question("broken", &["only"], 0);
    let err = engine_error(cfg);
    assert_eq!(err, ConfigError::MalformedQuestion { index: 0 });
}

#[test]
fn rejects_question_with_too_many_answers() {
    let mut cfg = config(4, 2, 5);
    cfg.question_bank[1] = question("broken", &["a", "b", "c", "d", "e"], 0);
    let err = engine_error(cfg);
    assert_eq!(err, ConfigError::MalformedQuestion { index: 1 });
}

#[test]
fn role_held_finds_only_present_roles() {
    assert!(role_held(&[1, 77, 3], 77));
    assert!(!role_held(&[1, 3], 77));
    assert!(!role_held(&[], 77));
}
