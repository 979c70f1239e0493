//! State-change notifications, appended to the registry's event log.
//!
//! Every committed mutation appends exactly one event (a release appends
//! the embedded transfer's event first). Transfer events carry the owner
//! recorded before the mutation as `from`. Clearing an approval still
//! appends a discoverable [`ApprovalChanged`] event with `delegate: None`,
//! so observers can track approval state without re-reading storage.

use crate::AccountId;
use vstd::prelude::*;

verus! {

/// A property was registered to `owner`.
#[derive(Debug, Clone, Copy, PartialEq, Eq)]
pub struct PropertyRegistered {
    pub property_id: u64,
    pub owner: AccountId,
}

/// Ownership of `property_id` moved from `from` (the owner recorded before
/// the mutation) to `to`.
#[derive(Debug, Clone, Copy, PartialEq, Eq)]
pub struct PropertyTransferred {
    pub property_id: u64,
    pub from: AccountId,
    pub to: AccountId,
}

/// The metadata of `property_id` was overwritten.
#[derive(Debug, Clone, Copy, PartialEq, Eq)]
pub struct MetadataUpdated {
    pub property_id: u64,
}

/// The approval delegation of `property_id` was set (`Some`) or cleared
/// (`None`).
#[derive(Debug, Clone, Copy, PartialEq, Eq)]
pub struct ApprovalChanged {
    pub property_id: u64,
    pub delegate: Option<AccountId>,
}

/// An escrow was created.
#[derive(Debug, Clone, Copy, PartialEq, Eq)]
pub struct EscrowCreated {
    pub escrow_id: u64,
    pub property_id: u64,
    pub buyer: AccountId,
    pub seller: AccountId,
    pub amount: u128,
}

/// An escrow moved to the terminal `Released` state.
#[derive(Debug, Clone, Copy, PartialEq, Eq)]
pub struct EscrowReleased {
    pub escrow_id: u64,
}

/// An escrow moved to the terminal `Refunded` state.
#[derive(Debug, Clone, Copy, PartialEq, Eq)]
pub struct EscrowRefunded {
    pub escrow_id: u64,
}

/// One entry of the append-only event log.
#[derive(Debug, Clone, Copy, PartialEq, Eq)]
pub enum Event {
    Registered(PropertyRegistered),
    Transferred(PropertyTransferred),
    MetadataUpdated(MetadataUpdated),
    ApprovalChanged(ApprovalChanged),
    EscrowCreated(EscrowCreated),
    EscrowReleased(EscrowReleased),
    EscrowRefunded(EscrowRefunded),
}

} // verus!
