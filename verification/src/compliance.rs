//! The compliance gate.
//!
//! The registry can be configured with the address of an external
//! compliance oracle. The oracle itself (`is_compliant(account) -> bool`,
//! which may also fail at the transport level) lives outside this crate:
//! the host queries it and hands the outcome in as an [`OracleVerdict`].
//! When no oracle is configured the check passes unconditionally and the
//! verdict argument is ignored.
//!
//! Gating policy (fixed here explicitly): the check is applied to the
//! registrant on registration and to the recipient on transfer.

use crate::errors::Error;
use crate::AccountId;
use vstd::prelude::*;

verus! {

/// The outcome of asking the oracle about one account: an explicit yes, an
/// explicit no, or a transport-level failure that left the answer unknown.
#[derive(Debug, Clone, Copy, PartialEq, Eq, Structural)]
pub enum OracleVerdict {
    /// The oracle answered `true`.
    Compliant,
    /// The oracle answered `false`.
    NotCompliant,
    /// The oracle was unreachable or erred.
    Unavailable,
}

/// What the compliance gate decides: with no oracle configured it passes;
/// otherwise an explicit `false` maps to [`Error::NotCompliant`] and a
/// transport failure to [`Error::ComplianceCheckFailed`].
pub open spec fn gate_result(config: Option<AccountId>, verdict: OracleVerdict) -> Result<
    (),
    Error,
> {
    match config {
        None => Ok(()),
        Some(_) => match verdict {
            OracleVerdict::Compliant => Ok(()),
            OracleVerdict::NotCompliant => Err(Error::NotCompliant),
            OracleVerdict::Unavailable => Err(Error::ComplianceCheckFailed),
        },
    }
}

/// The executable compliance gate.
pub fn check_gate(config: Option<AccountId>, verdict: OracleVerdict) -> (r: Result<(), Error>)
    ensures
        r == gate_result(config, verdict),
{
    match config {
        None => Ok(()),
        Some(_) => match verdict {
            OracleVerdict::Compliant => Ok(()),
            OracleVerdict::NotCompliant => Err(Error::NotCompliant),
            OracleVerdict::Unavailable => Err(Error::ComplianceCheckFailed),
        },
    }
}

} // verus!
