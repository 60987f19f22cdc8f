//! A supervisor for a fixed set of backend worker processes.
//!
//! The crate holds the decisions of the supervisor: the order in which the
//! service groups are launched, which processes are tracked, when readiness is
//! announced, what a shutdown has to terminate, and what the aggregate health
//! is. Spawning, sleeping, signalling and notifying are the caller's work: the
//! caller performs each action the manager hands out and reports what happened.

pub mod commands;
pub mod config;
pub mod handle;
pub mod history;
pub mod laws;
pub mod manager;
pub mod model;
pub mod protocol;
pub mod script;
