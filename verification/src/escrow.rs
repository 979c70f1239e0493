//! The escrow sub-ledger's record type and its state machine.

use crate::AccountId;
use vstd::prelude::*;

verus! {

/// The escrow state machine: `Created` may move to `Released` or
/// `Refunded`; both of those are terminal.
#[derive(Debug, Clone, Copy, PartialEq, Eq, Structural)]
pub enum EscrowState {
    Created,
    Released,
    Refunded,
}

/// One escrow record. `seller` is fixed at creation to the property's owner
/// at that moment, and `buyer` to the creating caller; in this model the
/// owner creates the escrow, so buyer and seller start out as the same
/// party (a deliberate simplification kept from the original design, noted
/// there as an open question). `amount` is advisory metadata: no funds are
/// moved by the registry.
#[derive(Debug, Clone, Copy, PartialEq, Eq, Structural)]
pub struct EscrowInfo {
    pub id: u64,
    pub property_id: u64,
    pub buyer: AccountId,
    pub seller: AccountId,
    pub amount: u128,
    pub state: EscrowState,
}

} // verus!
