//! The error taxonomy of the engine.
//!
//! Every precondition failure maps to exactly one named error, and every
//! error is terminal for the request: the operation returns it without
//! mutating any record.

use vstd::prelude::*;

verus! {

#[derive(Clone, Copy, Debug, PartialEq, Eq, Structural)]
pub enum ReputeDaoError {
    /// The caller lacks the admin capability.
    Unauthorized,
    /// A vote was attempted before the cooldown elapsed.
    CooldownActive,
    /// The voter fails the token-gate check.
    NoTokens,
    /// Malformed configuration parameters.
    InvalidInput,
    /// The program state singleton was already created.
    AlreadyInitialized,
}

} // verus!
