//! The error taxonomy of the ledger.
//!
//! Every operation either fully commits or fails with one of these kinds and
//! no state change.

use vstd::prelude::*;

verus! {

/// Why an operation was rejected.  Every precondition violation surfaces as
/// exactly one of these kinds; no error is silently swallowed.
#[derive(Clone, Copy, Debug, PartialEq, Eq, Structural)]
pub enum TournamentError {
    /// The operation is not allowed in the current phase.
    WrongPhase,
    /// The strategy tag is not one of the known tags.
    InvalidStrategy,
    /// The payment offered at registration is below the entry fee.
    InsufficientPayment,
    /// An entry with this id is already registered.
    DuplicateAgent,
    /// No entry with this id exists.
    AgentNotFound,
    /// The caller does not hold administrative authority.
    NotAuthorized,
    /// The tournament cannot start with no registered entries.
    EmptyRegistry,
}

} // verus!
