//! The error taxonomy of the registry's public operations.

use vstd::prelude::*;

verus! {

/// Every failure a public operation can report. Each operation's contract
/// says exactly which variant comes back on which inputs; no error is
/// swallowed or wrapped.
#[derive(Debug, Clone, Copy, PartialEq, Eq, Structural)]
pub enum Error {
    /// The referenced property id is not registered.
    PropertyNotFound,
    /// The caller lacks the required relationship to the entity
    /// (owner, delegate, buyer, seller or administrator).
    Unauthorized,
    /// The supplied metadata fails validation (empty location).
    InvalidMetadata,
    /// The compliance oracle explicitly rejected the account.
    NotCompliant,
    /// The compliance oracle was unreachable or erred, so the answer
    /// is unknown (distinct from an explicit rejection).
    ComplianceCheckFailed,
    /// The referenced escrow id does not exist.
    EscrowNotFound,
    /// The escrow is already terminal (released or refunded).
    EscrowAlreadyReleased,
}

} // verus!
