//! One user's application session and the state machine that drives it.
//!
//! A session walks a fixed-length randomized selection of bank questions.
//! Each submitted answer either advances the session, ends it in failure
//! (wrong answer), or — on the final question — ends it in a pass or a
//! timeout, decided against the wall-clock deadline.

use crate::question::Question;
use crate::sampling::distinct_indices_below;
use vstd::prelude::*;

verus! {

/// One user's in-progress application: the bank indices of the selected
/// questions, the position of the question currently awaiting an answer,
/// and the start time in seconds.
pub struct FanApplication {
    pub question_indices: Vec<usize>,
    pub current_question: usize,
    pub start_time: u64,
}

/// A session is well formed against a bank of `bank_len` questions when it
/// selected `per_application` distinct bank indices and is awaiting an
/// answer to one of them.
pub open spec fn app_wf(a: FanApplication, bank_len: int, per_application: int) -> bool {
    &&& a.question_indices@.len() == per_application
    &&& a.question_indices@.len() <= usize::MAX
    &&& distinct_indices_below(a.question_indices@, bank_len)
    &&& a.current_question < a.question_indices@.len()
}

/// The last moment (in seconds) at which the final answer still counts.
pub open spec fn deadline(start_time: u64, limit_minutes: u64) -> int {
    start_time + 60 * limit_minutes
}

/// The bank question the session is currently awaiting an answer to.
pub open spec fn current_question_of(a: FanApplication, bank: Seq<Question>) -> Question {
    bank[a.question_indices@[a.current_question as int] as int]
}

/// What one submitted answer did to a session.
#[derive(Debug, PartialEq, Eq, Clone, Copy, Structural)]
pub enum AnswerOutcome {
    /// The chosen answer was wrong: the attempt ends at once.
    WrongAnswer,
    /// The chosen answer was right and questions remain: the session moves
    /// to the next question.
    NextQuestion,
    /// The final answer was right and in time, and the user did not hold the
    /// reward role yet: the attempt passes and the role is to be granted.
    PassedRoleGranted,
    /// The final answer was right and in time, but the user already holds
    /// the reward role: the attempt passes and no grant call is made.
    PassedRoleAlreadyHeld,
    /// The final answer was right but came after the deadline: the attempt
    /// fails and the role is not granted.
    TimedOut,
}

/// Whether an outcome ends the attempt. Exactly the non-terminal outcome
/// keeps the session alive.
pub open spec fn outcome_is_terminal(o: AnswerOutcome) -> bool {
    o != AnswerOutcome::NextQuestion
}

/// What submitting `chosen` at time `now` does to a session: the outcome,
/// and the surviving session if any. The answer is judged first; only a
/// correct final answer is held against the deadline, and only a passing
/// user who lacks the role gets a grant.
pub open spec fn step_spec(
    app: FanApplication,
    bank: Seq<Question>,
    chosen: int,
    now: u64,
    limit_minutes: u64,
    has_role: bool,
) -> (AnswerOutcome, Option<FanApplication>) {
    let q = current_question_of(app, bank);
    if chosen != q.correct_answer {
        (AnswerOutcome::WrongAnswer, Option::None)
    } else if app.current_question + 1 < app.question_indices@.len() {
        (
            AnswerOutcome::NextQuestion,
            Option::Some(
                FanApplication {
                    question_indices: app.question_indices,
                    current_question: (app.current_question + 1) as usize,
                    start_time: app.start_time,
                },
            ),
        )
    } else if now <= deadline(app.start_time, limit_minutes) {
        if has_role {
            (AnswerOutcome::PassedRoleAlreadyHeld, Option::None)
        } else {
            (AnswerOutcome::PassedRoleGranted, Option::None)
        }
    } else {
        (AnswerOutcome::TimedOut, Option::None)
    }
}

/// Submits one answer to a session, implementing [`step_spec`] exactly.
pub fn step(
    app: FanApplication,
    bank: &Vec<Question>,
    chosen: usize,
    now: u64,
    limit_minutes: u64,
    has_role: bool,
) -> (r: (AnswerOutcome, Option<FanApplication>))
    requires
        app_wf(app, bank@.len() as int, app.question_indices@.len() as int),
        chosen < current_question_of(app, bank@).answers@.len(),
    ensures
        r == step_spec(app, bank@, chosen as int, now, limit_minutes, has_role),
{
    let idx = app.question_indices[app.current_question];
    let q = &bank[idx];
    if chosen != q.correct_answer {
        (AnswerOutcome::WrongAnswer, Option::None)
    } else if app.current_question + 1 < app.question_indices.len() {
        let next = FanApplication {
            current_question: app.current_question + 1,
            question_indices: app.question_indices,
            start_time: app.start_time,
        };
        (AnswerOutcome::NextQuestion, Option::Some(next))
    } else if (now as u128) <= (app.start_time as u128) + 60 * (limit_minutes as u128) {
        if has_role {
            (AnswerOutcome::PassedRoleAlreadyHeld, Option::None)
        } else {
            (AnswerOutcome::PassedRoleGranted, Option::None)
        }
    } else {
        (AnswerOutcome::TimedOut, Option::None)
    }
}

/// A surviving session differs from the old one only in its position, which
/// moved one question forward: stepping preserves well-formedness.
pub proof fn lemma_step_preserves_wf(
    app: FanApplication,
    bank: Seq<Question>,
    chosen: int,
    now: u64,
    limit_minutes: u64,
    has_role: bool,
    bank_len: int,
    per_application: int,
)
    requires
        app_wf(app, bank_len, per_application),
    ensures
        match step_spec(app, bank, chosen, now, limit_minutes, has_role).1 {
            Option::Some(next) => {
                &&& app_wf(next, bank_len, per_application)
                &&& next.question_indices@ == app.question_indices@
                &&& next.current_question == app.current_question + 1
                &&& next.start_time == app.start_time
            },
            Option::None => outcome_is_terminal(
                step_spec(app, bank, chosen, now, limit_minutes, has_role).0,
            ),
        },
{
}

/// The outcome of submitting a whole sequence of answers, one per step, at
/// the given times: the first terminal outcome reached, or
/// [`AnswerOutcome::NextQuestion`] if the run ends with the session still
/// alive.
pub open spec fn run_spec(
    app: FanApplication,
    bank: Seq<Question>,
    answers: Seq<usize>,
    times: Seq<u64>,
    limit_minutes: u64,
    has_role: bool,
) -> AnswerOutcome
    decreases answers.len(),
{
    if answers.len() == 0 {
        AnswerOutcome::NextQuestion
    } else {
        let r = step_spec(app, bank, answers[0] as int, times[0], limit_minutes, has_role);
        match r.1 {
            Option::None => r.0,
            Option::Some(next) => if answers.len() == 1 {
                r.0
            } else {
                run_spec(
                    next,
                    bank,
                    answers.drop_first(),
                    times.drop_first(),
                    limit_minutes,
                    has_role,
                )
            },
        }
    }
}

/// The correct answer to the question `k` positions after the current one.
pub open spec fn correct_answer_at(app: FanApplication, bank: Seq<Question>, k: int) -> int {
    bank[app.question_indices@[app.current_question + k] as int].correct_answer as int
}

/// Answering every remaining question correctly, with the final answer at
/// or before the deadline, passes the attempt; the role is granted exactly
/// when the user does not already hold it, so a holder never receives a
/// duplicate grant.
pub proof fn lemma_all_correct_in_time_passes(
    app: FanApplication,
    bank: Seq<Question>,
    answers: Seq<usize>,
    times: Seq<u64>,
    limit_minutes: u64,
    has_role: bool,
)
    requires
        app.current_question < app.question_indices@.len(),
        app.question_indices@.len() <= usize::MAX,
        answers.len() == app.question_indices@.len() - app.current_question,
        times.len() == answers.len(),
        forall|k: int| 0 <= k < answers.len() ==> answers[k] == correct_answer_at(app, bank, k),
        times[answers.len() - 1] <= deadline(app.start_time, limit_minutes),
    ensures
        run_spec(app, bank, answers, times, limit_minutes, has_role) == if has_role {
            AnswerOutcome::PassedRoleAlreadyHeld
        } else {
            AnswerOutcome::PassedRoleGranted
        },
    decreases answers.len(),
{
    assert(answers[0] == correct_answer_at(app, bank, 0));
    if answers.len() > 1 {
        let r = step_spec(app, bank, answers[0] as int, times[0], limit_minutes, has_role);
        let next = r.1->Some_0;
        assert forall|k: int| 0 <= k < answers.drop_first().len() implies answers.drop_first()[k]
            == correct_answer_at(next, bank, k) by {
            assert(answers[k + 1] == correct_answer_at(app, bank, k + 1));
        }
        lemma_all_correct_in_time_passes(
            next,
            bank,
            answers.drop_first(),
            times.drop_first(),
            limit_minutes,
            has_role,
        );
    }
}

/// Answering every remaining question correctly, but submitting the final
/// answer after the deadline, times the attempt out: the role is not
/// granted even though every answer was right.
pub proof fn lemma_all_correct_after_deadline_times_out(
    app: FanApplication,
    bank: Seq<Question>,
    answers: Seq<usize>,
    times: Seq<u64>,
    limit_minutes: u64,
    has_role: bool,
)
    requires
        app.current_question < app.question_indices@.len(),
        app.question_indices@.len() <= usize::MAX,
        answers.len() == app.question_indices@.len() - app.current_question,
        times.len() == answers.len(),
        forall|k: int| 0 <= k < answers.len() ==> answers[k] == correct_answer_at(app, bank, k),
        times[answers.len() - 1] > deadline(app.start_time, limit_minutes),
    ensures
        run_spec(app, bank, answers, times, limit_minutes, has_role) == AnswerOutcome::TimedOut,
    decreases answers.len(),
{
    assert(answers[0] == correct_answer_at(app, bank, 0));
    if answers.len() > 1 {
        let r = step_spec(app, bank, answers[0] as int, times[0], limit_minutes, has_role);
        let next = r.1->Some_0;
        assert forall|k: int| 0 <= k < answers.drop_first().len() implies answers.drop_first()[k]
            == correct_answer_at(next, bank, k) by {
            assert(answers[k + 1] == correct_answer_at(app, bank, k + 1));
        }
        lemma_all_correct_after_deadline_times_out(
            next,
            bank,
            answers.drop_first(),
            times.drop_first(),
            limit_minutes,
            has_role,
        );
    }
}

/// A single wrong answer at any position ends the attempt immediately in
/// failure, whatever questions remain and whatever the clock says.
pub proof fn lemma_wrong_answer_fails_immediately(
    app: FanApplication,
    bank: Seq<Question>,
    answers: Seq<usize>,
    times: Seq<u64>,
    limit_minutes: u64,
    has_role: bool,
    k: int,
)
    requires
        app.current_question < app.question_indices@.len(),
        app.question_indices@.len() <= usize::MAX,
        0 <= k < answers.len(),
        k < app.question_indices@.len() - app.current_question,
        times.len() == answers.len(),
        forall|i: int| 0 <= i < k ==> answers[i] == correct_answer_at(app, bank, i),
        answers[k] != correct_answer_at(app, bank, k),
    ensures
        run_spec(app, bank, answers, times, limit_minutes, has_role)
            == AnswerOutcome::WrongAnswer,
    decreases k,
{
    if k == 0 {
        assert(answers[0] != correct_answer_at(app, bank, 0));
    } else {
        assert(answers[0] == correct_answer_at(app, bank, 0));
        let r = step_spec(app, bank, answers[0] as int, times[0], limit_minutes, has_role);
        let next = r.1->Some_0;
        assert forall|i: int| 0 <= i < k - 1 implies answers.drop_first()[i]
            == correct_answer_at(next, bank, i) by {
            assert(answers[i + 1] == correct_answer_at(app, bank, i + 1));
        }
        assert(answers.drop_first()[k - 1] == answers[k]);
        assert(correct_answer_at(next, bank, k - 1) == correct_answer_at(app, bank, k));
        lemma_wrong_answer_fails_immediately(
            next,
            bank,
            answers.drop_first(),
            times.drop_first(),
            limit_minutes,
            has_role,
            k - 1,
        );
    }
}

} // verus!
