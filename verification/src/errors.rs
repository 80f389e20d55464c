//! Error taxonomy: aggregate-level rejections, collaborator failures, and
//! the orchestration-level failures surfaced by the application service.

use vstd::prelude::*;

verus! {

/// An aggregate's validate step rejected a command.
#[derive(Debug, Clone, Copy, PartialEq, Eq, Structural)]
pub struct ValidationError;

/// The external inquiry collaborator failed to answer a query.
#[derive(Debug, Clone, Copy, PartialEq, Eq, Structural)]
pub struct InquiryError;

/// An input could not construct an aggregate (e.g. a non-creation command
/// reaching an aggregate with no prior history).
#[derive(Debug, Clone, Copy, PartialEq, Eq, Structural)]
pub struct FormationError;

/// Failures surfaced by the application service.
#[derive(Debug, Clone, Copy, PartialEq, Eq, Structural)]
pub enum ApplicationError {
    /// The aggregate could not be formed: no history exists, or the
    /// creation command could not construct the initial state.
    Formation,
    /// Registry or dispatch failure: a spawn was refused, or a command was
    /// delivered to a handle whose actor is no longer live.
    Process,
    /// A mutating command was submitted without an identifier.
    RequiredId,
    /// Querying the external collaborator failed at the transport level.
    Io,
    /// A referenced external entity is absent.
    NotFound,
    /// The aggregate itself rejected the command.
    Kernel,
    /// A terminal event was found while replaying history: a fatal
    /// integrity violation, not a condition to retry.
    CorruptHistory,
}

impl ValidationError {
    /// Human-readable description.
    pub fn message(&self) -> &'static str {
        "Failed to validate entity."
    }
}

impl InquiryError {
    /// Human-readable description.
    pub fn message(&self) -> &'static str {
        "Failed to inquiry for service."
    }
}

impl FormationError {
    /// Human-readable description.
    pub fn message(&self) -> &'static str {
        "input cannot be converted."
    }
}

impl ApplicationError {
    /// Human-readable description, as surfaced to callers.
    pub fn message(&self) -> &'static str {
        match self {
            ApplicationError::Formation => "The resource could not be found or the `Projection` may have failed.",
            ApplicationError::Process => "Failed to spawn process",
            ApplicationError::RequiredId => "Request requires an identifier",
            ApplicationError::Io => "Failed to query external api.",
            ApplicationError::NotFound => "Resource not found.",
            ApplicationError::Kernel => "An error occurred due to kernel module",
            ApplicationError::CorruptHistory => "A terminal event was found while replaying history.",
        }
    }
}

} // verus!
