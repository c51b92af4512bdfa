//! The quiz engine: the immutable configuration together with the in-memory
//! store of in-progress sessions, keyed by user identifier.
//!
//! This is the component the event handlers drive. Starting an application
//! creates (or replaces) the caller's session and yields the first question's
//! prompt; submitting an answer steps the caller's session, removes it on
//! every terminal outcome, and yields the next prompt while the session
//! survives.

use crate::prompt::{build_prompt, prompt_matches, QuestionPrompt};
use crate::question::{config_error_spec, config_wf, validate_config, BotConfig, ConfigError};
use crate::session::{
    app_wf, current_question_of, lemma_step_preserves_wf, outcome_is_terminal, step, step_spec,
    AnswerOutcome, FanApplication,
};
use crate::sampling::sample_indices;
use std::collections::HashMap;
use vstd::prelude::*;

verus! {

broadcast use vstd::std_specs::hash::group_hash_axioms;

/// Whether a member's role list already contains a role: a passing user is
/// granted the reward role only when this is false, so an existing holder
/// never receives a duplicate grant.
pub fn role_held(roles: &[u64], role: u64) -> (b: bool)
    ensures
        b == roles@.contains(role),
{
    let mut i: usize = 0;
    while i < roles.len()
        invariant
            i <= roles@.len(),
            forall|j: int| 0 <= j < i ==> roles@[j] != role,
        decreases roles@.len() - i,
    {
        if roles[i] == role {
            return true;
        }
        i += 1;
    }
    false
}

/// The configured bot with its volatile per-user session store.
pub struct QuizEngine {
    pub config: BotConfig,
    pub sessions: HashMap<u64, FanApplication>,
}

/// The engine invariant: the configuration is well formed and every stored
/// session is a well-formed session against it — in particular, every
/// stored session is awaiting an answer to one of its selected questions.
pub open spec fn engine_wf(e: QuizEngine) -> bool {
    &&& config_wf(e.config)
    &&& forall|u: u64|
        #[trigger] e.sessions@.contains_key(u) ==> app_wf(
            e.sessions@[u],
            e.config.question_bank@.len() as int,
            e.config.questions_per_application as int,
        )
}

/// The bank question a stored session is currently awaiting an answer to.
pub open spec fn current_question_for(e: QuizEngine, user: u64) -> crate::question::Question {
    current_question_of(e.sessions@[user], e.config.question_bank@)
}

impl QuizEngine {
    /// Builds the engine from a configuration, with no session stored.
    /// Exactly the well-formed configurations are accepted; a rejected
    /// configuration is fatal at startup.
    pub fn new(config: BotConfig) -> (r: Result<QuizEngine, ConfigError>)
        ensures
            r is Ok <==> config_wf(config),
            match r {
                Ok(e) => {
                    &&& e.config == config
                    &&& e.sessions@ == Map::<u64, FanApplication>::empty()
                    &&& engine_wf(e)
                },
                Err(err) => config_error_spec(config, err),
            },
    {
        match validate_config(&config) {
            Ok(()) => Ok(QuizEngine { config, sessions: HashMap::new() }),
            Err(e) => Err(e),
        }
    }

    /// Whether this user has a session in progress.
    pub fn has_session(&self, user: u64) -> (b: bool)
        ensures
            b == self.sessions@.contains_key(user),
    {
        self.sessions.contains_key(&user)
    }

    /// Starts an application for `user` at time `now`: samples a fresh
    /// distinct selection of bank questions, stores the new session —
    /// silently replacing any session the user already had — and returns
    /// the prompt of its first question.
    pub fn start(&mut self, user: u64, now: u64) -> (p: QuestionPrompt)
        requires
            engine_wf(*old(self)),
        ensures
            engine_wf(*final(self)),
            final(self).config == old(self).config,
            final(self).sessions@.contains_key(user),
            ({
                let s = final(self).sessions@[user];
                &&& final(self).sessions@ == old(self).sessions@.insert(user, s)
                &&& s.current_question == 0
                &&& s.start_time == now
                &&& app_wf(
                    s,
                    old(self).config.question_bank@.len() as int,
                    old(self).config.questions_per_application as int,
                )
                &&& prompt_matches(
                    p,
                    old(self).config.question_bank@[s.question_indices@[0] as int],
                )
            }),
    {
        let indices = sample_indices(
            self.config.question_bank.len(),
            self.config.questions_per_application,
        );
        let app = FanApplication { question_indices: indices, current_question: 0, start_time: now };
        let first = app.question_indices[0];
        let p = build_prompt(&self.config.question_bank[first]);
        self.sessions.insert(user, app);
        p
    }

    /// Whether `chosen` may be submitted for `user` right now: the user has
    /// a session and `chosen` is an index into the current question's
    /// answers. An answer event that fails this check is an invariant
    /// violation (the UI and the store have desynchronized) and is treated
    /// as fatal by the caller.
    pub fn can_answer(&self, user: u64, chosen: usize) -> (b: bool)
        requires
            engine_wf(*self),
        ensures
            b == (self.sessions@.contains_key(user) && chosen < current_question_for(
                *self,
                user,
            ).answers@.len()),
    {
        match self.sessions.get(&user) {
            Some(app) => {
                let idx = app.question_indices[app.current_question];
                chosen < self.config.question_bank[idx].answers.len()
            },
            None => false,
        }
    }

    /// Submits answer `chosen` for `user` at time `now`. `has_role` says
    /// whether the user already holds the reward role. The stored session
    /// is stepped exactly as [`step_spec`] says: it is removed from the
    /// store on every terminal outcome, and on a surviving session the
    /// prompt of the next question is returned alongside.
    pub fn answer(&mut self, user: u64, chosen: usize, now: u64, has_role: bool) -> (r: (
        AnswerOutcome,
        Option<QuestionPrompt>,
    ))
        requires
            engine_wf(*old(self)),
            old(self).sessions@.contains_key(user),
            chosen < current_question_for(*old(self), user).answers@.len(),
        ensures
            engine_wf(*final(self)),
            final(self).config == old(self).config,
            ({
                let sr = step_spec(
                    old(self).sessions@[user],
                    old(self).config.question_bank@,
                    chosen as int,
                    now,
                    old(self).config.time_limit_minutes,
                    has_role,
                );
                &&& r.0 == sr.0
                &&& match sr.1 {
                    Option::None => {
                        &&& outcome_is_terminal(r.0)
                        &&& final(self).sessions@ == old(self).sessions@.remove(user)
                        &&& r.1 is None
                    },
                    Option::Some(next) => {
                        &&& final(self).sessions@ == old(self).sessions@.insert(user, next)
                        &&& r.1 is Some
                        &&& prompt_matches(
                            r.1->Some_0,
                            old(self).config.question_bank@[next.question_indices@[next.current_question as int] as int],
                        )
                    },
                }
            }),
    {
        let ghost old_map = self.sessions@;
        let app = self.sessions.remove(&user).unwrap();
        proof {
            lemma_step_preserves_wf(
                app,
                self.config.question_bank@,
                chosen as int,
                now,
                self.config.time_limit_minutes,
                has_role,
                self.config.question_bank@.len() as int,
                self.config.questions_per_application as int,
            );
        }
        let limit = self.config.time_limit_minutes;
        let (out, stepped) = step(app, &self.config.question_bank, chosen, now, limit, has_role);
        match stepped {
            Option::Some(next_app) => {
                let idx = next_app.question_indices[next_app.current_question];
                let p = build_prompt(&self.config.question_bank[idx]);
                let ghost next_g = next_app;
                self.sessions.insert(user, next_app);
                proof {
                    assert(self.sessions@ =~= old_map.insert(user, next_g));
                }
                (out, Option::Some(p))
            },
            Option::None => (out, Option::None),
        }
    }
}

} // verus!
