//! The question bank and the bot configuration, with the validation that runs
//! once at startup. A configuration that fails validation is rejected before
//! any session can be started.

use vstd::prelude::*;

verus! {

/// One multiple-choice question: its text, between two and four answer
/// options, and the index (into `answers`) of the correct option.
pub struct Question {
    pub question: String,
    pub answers: Vec<String>,
    pub correct_answer: usize,
}

/// A question is well formed when it offers two to four answer options and
/// its correct-answer index points at one of them.
pub open spec fn question_wf(q: Question) -> bool {
    &&& 2 <= q.answers@.len() <= 4
    &&& q.correct_answer < q.answers@.len()
}

/// The immutable bot configuration, loaded once at startup.
pub struct BotConfig {
    pub question_bank: Vec<Question>,
    pub questions_per_application: usize,
    pub time_limit_minutes: u64,
    pub reward_role: u64,
}

/// A configuration is well formed when every question in the bank is well
/// formed and the bank is large enough to sample an application's questions
/// from, at least one of which is asked per application.
pub open spec fn config_wf(c: BotConfig) -> bool {
    &&& 1 <= c.questions_per_application <= c.question_bank@.len()
    &&& forall|i: int|
        0 <= i < c.question_bank@.len() ==> question_wf(#[trigger] c.question_bank@[i])
}

/// Why a configuration was rejected at startup.
#[derive(Debug, PartialEq, Eq, Clone, Copy, Structural)]
pub enum ConfigError {
    /// The question at this index has too few or too many answer options,
    /// or a correct-answer index that points outside them. Earlier questions
    /// are well formed.
    MalformedQuestion { index: usize },
    /// Every question is well formed, but zero questions per application
    /// were requested.
    ZeroQuestionsPerApplication,
    /// Every question is well formed, but more questions per application were
    /// requested than the bank holds.
    TooFewQuestions,
}

/// When validation reports error `e` on configuration `c`: each variant
/// holds exactly on the configurations it describes.
pub open spec fn config_error_spec(c: BotConfig, e: ConfigError) -> bool {
    match e {
        ConfigError::MalformedQuestion { index } => {
            &&& index < c.question_bank@.len()
            &&& !question_wf(c.question_bank@[index as int])
            &&& forall|j: int| 0 <= j < index ==> question_wf(#[trigger] c.question_bank@[j])
        },
        ConfigError::ZeroQuestionsPerApplication => {
            &&& forall|j: int|
                0 <= j < c.question_bank@.len() ==> question_wf(#[trigger] c.question_bank@[j])
            &&& c.questions_per_application == 0
        },
        ConfigError::TooFewQuestions => {
            &&& forall|j: int|
                0 <= j < c.question_bank@.len() ==> question_wf(#[trigger] c.question_bank@[j])
            &&& c.questions_per_application >= 1
            &&& c.questions_per_application > c.question_bank@.len()
        },
    }
}

/// Startup validation: accepts exactly the well-formed configurations, and
/// names the first problem otherwise.
pub fn validate_config(c: &BotConfig) -> (r: Result<(), ConfigError>)
    ensures
        r is Ok <==> config_wf(*c),
        match r {
            Ok(()) => config_wf(*c),
            Err(e) => config_error_spec(*c, e),
        },
{
    let mut i: usize = 0;
    while i < c.question_bank.len()
        invariant
            i <= c.question_bank@.len(),
            forall|j: int| 0 <= j < i ==> question_wf(#[trigger] c.question_bank@[j]),
        decreases c.question_bank@.len() - i,
    {
        let q = &c.question_bank[i];
        if q.answers.len() < 2 || q.answers.len() > 4 || q.correct_answer >= q.answers.len() {
            return Err(ConfigError::MalformedQuestion { index: i });
        }
        i += 1;
    }
    if c.questions_per_application == 0 {
        return Err(ConfigError::ZeroQuestionsPerApplication);
    }
    if c.questions_per_application > c.question_bank.len() {
        return Err(ConfigError::TooFewQuestions);
    }
    Ok(())
}

} // verus!
