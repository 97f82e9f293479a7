use vstd::prelude::*;

verus! {

/// Outcomes of a ceremony step that the caller must report.
#[derive(Debug, Clone, Copy, PartialEq, Eq, Structural)]
pub enum CeremonyError {
    /// No user with that name owns a credential.
    UnknownUser,
    /// The credential store reported a hard conflict.
    UserConflict,
    /// No live ceremony state for the session: never started, expired,
    /// already consumed, or replaced by a newer start.
    CeremonyExpiredOrMissing,
    /// The verifier rejected the client response, or its counter did not advance.
    VerificationFailed,
    /// The store could not be reached; the caller may retry.
    StoreUnavailable,
}

/// Failures reported by the credential store itself.
#[derive(Debug, Clone, Copy, PartialEq, Eq, Structural)]
pub enum StoreError {
    /// The username or the identifier is already in use.
    AlreadyExists,
    /// The user or the credential is absent.
    NotFound,
}

} // verus!
