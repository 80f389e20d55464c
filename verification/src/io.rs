//! Per-aggregate message vocabularies: the commands callers submit and the
//! events the aggregates record.

pub mod command;
pub mod event;
