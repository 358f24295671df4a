//! A coaching scheduler for timed matches: it keeps a catalog of advice
//! messages, decides which of them apply to a player's role at a given moment
//! of the match, and hands them out one at a time, never faster than a minimum
//! interval and without repeating a message while others are still waiting.

pub mod catalog;
mod clock;
pub mod eligibility;
pub mod error;
pub mod game_session;
pub mod game_stage;
pub mod game_stage_interval;
pub mod guarantees;
pub mod message;
pub mod random;
pub mod schedule;
pub mod sequences;
