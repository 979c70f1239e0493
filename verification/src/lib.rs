//! A single-writer registry for real-world asset records ("properties").
//!
//! The registry keeps a record store (property id to record), an ownership
//! index (account to the ids it owns), a per-property approval delegation,
//! an escrow sub-ledger whose release drives an ownership transfer, and an
//! append-only event log. Every public operation either commits completely
//! or leaves the whole state unchanged, and each one's contract states
//! exactly which error comes back on which inputs.
//!
//! The host environment supplies caller identity, the current timestamp and
//! the compliance oracle's verdict as plain arguments; the registry itself
//! performs no calls out.

use vstd::prelude::*;

pub mod compliance;
pub mod errors;
pub mod escrow;
pub mod events;
pub mod laws;
pub mod metadata;
pub mod property;
pub mod registry;

pub use compliance::OracleVerdict;
pub use errors::Error;
pub use escrow::{EscrowInfo, EscrowState};
pub use events::{
    ApprovalChanged, EscrowCreated, EscrowRefunded, EscrowReleased, Event, MetadataUpdated,
    PropertyRegistered, PropertyTransferred,
};
pub use metadata::PropertyMetadata;
pub use property::PropertyInfo;
pub use registry::{PropertyRegistry, RegistryView};

verus! {

/// The identity of a party, as the host environment assigns it.
pub type AccountId = u64;

} // verus!
