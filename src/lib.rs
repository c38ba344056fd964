//! Match setup for ad-hoc five-a-side scrims run from a chat channel: a
//! bounded queue, a map pool with a timed vote, a captain draft and a
//! starting-side choice, driven by one session state machine.

pub mod error;
pub mod queue;
pub mod maps;
pub mod vote;
pub mod session;
pub mod draft;
pub mod accounts;
pub mod command;
pub mod schedule;
