//! Domain aggregates and their value objects.

pub mod order;
pub mod table;

use vstd::prelude::*;

verus! {

/// What the registry must do with an actor after an event has been applied:
/// keep it live, or remove it because the event ended the aggregate's
/// mutable lifetime.
#[derive(Debug, Clone, Copy, PartialEq, Eq, Structural)]
pub enum Directive {
    Continue,
    Terminate,
}

} // verus!
