//! Role-gating quiz library for a community chat bot.
//!
//! A configured bank of multiple-choice questions gates a reward role: a user
//! starts an application, receives a random subset of the bank one question at
//! a time, and earns the role by answering every question correctly within a
//! time limit. This crate holds the verified core: configuration validation,
//! random sampling of questions, the per-user session state machine, button
//! payload encoding and routing, and the in-memory session store.

pub mod codec;
pub mod engine;
pub mod prompt;
pub mod question;
pub mod sampling;
pub mod session;
