//! Laws of the registry, stated and proved over [`RegistryView`].
//!
//! Each operation's own contract pins down its exact effect; these proof
//! functions state the cross-cutting guarantees that follow for every
//! well-formed state the operations can produce.

use crate::compliance::OracleVerdict;
use crate::errors::Error;
use crate::escrow::EscrowState;
use crate::registry::RegistryView;
use crate::AccountId;
use vstd::prelude::*;

verus! {

/// Single-owner invariant: whenever `get` would return a record with owner
/// `A`, the ownership index lists the id under `A`, and under no other
/// account.
pub proof fn lemma_single_owner(v: RegistryView, id: u64, other: AccountId)
    requires
        v.wf(),
        v.property_of(id) is Some,
    ensures
        v.owned_of(v.property_at(id).owner).contains(id),
        other != v.property_at(id).owner ==> !v.owned_of(other).contains(id),
{
    assert(v.owned_of(v.properties[id - 1].owner).contains(((id - 1) + 1) as u64));
    if other != v.property_at(id).owner && v.owned_of(other).contains(id) {
        let k = choose|k: int|
            0 <= k < v.owned_of(other).len() && v.owned_of(other)[k] == id;
        assert(v.owned.contains_key(other));
        assert(v.owned[other][k] == id);
        assert(false);
    }
}

/// Monotonic ids: in a well-formed state the stored ids are exactly
/// `1 .. property count` in increasing order, so successive registrations
/// (each of which appends one record, by `register_property`'s contract)
/// yield strictly increasing ids starting at 1.
pub proof fn lemma_ids_monotonic(v: RegistryView, i: int, j: int)
    requires
        v.wf(),
        0 <= i < j < v.properties.len(),
    ensures
        v.properties[0].id == 1,
        v.properties[i].id < v.properties[j].id,
{
}

/// Idempotence boundary: resolving an escrow that is already terminal
/// fails with `EscrowAlreadyReleased`, regardless of the caller and of the
/// oracle's verdict, for release and refund alike.
pub proof fn lemma_terminal_escrow_stays(
    v: RegistryView,
    escrow_id: u64,
    caller: AccountId,
    verdict: OracleVerdict,
)
    requires
        1 <= escrow_id <= v.escrows.len(),
        v.escrows[escrow_id - 1].state != EscrowState::Created,
    ensures
        v.release_check(escrow_id, caller, verdict) == Err::<(), Error>(
            Error::EscrowAlreadyReleased,
        ),
        v.refund_check(escrow_id, caller) == Err::<(), Error>(Error::EscrowAlreadyReleased),
{
}

/// Both resolutions are terminal: a successful release leaves the escrow
/// `Released` and a successful refund leaves it `Refunded`, so by
/// `lemma_terminal_escrow_stays` any second resolution attempt fails.
pub proof fn lemma_resolution_is_terminal(v: RegistryView, escrow_id: u64)
    requires
        1 <= escrow_id <= v.escrows.len(),
    ensures
        v.escrow_released(escrow_id).escrows[escrow_id - 1].state == EscrowState::Released,
        v.escrow_refunded(escrow_id).escrows[escrow_id - 1].state == EscrowState::Refunded,
{
}

} // verus!
