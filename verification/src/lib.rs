//! Event-sourced restaurant aggregates (orders and dining tables) on a
//! verified actor-style runtime model: identity-keyed live-actor registry,
//! replay-on-miss state reconstruction from an ordered event log,
//! validate-then-apply command handling, and find-or-replay orchestration.

pub mod adapter;
pub mod entities;
pub mod errors;
pub mod io;
pub mod laws;
pub mod runtime;
pub mod services;
