//! The registry facade: record store, ownership index, approval delegation,
//! escrow ledger and event log. Every public operation either commits as one
//! unit or returns an error with the whole state unchanged, and each
//! contract says exactly which error comes back on which inputs.

use crate::compliance::{check_gate, gate_result, OracleVerdict};
use crate::errors::Error;
use crate::escrow::{EscrowInfo, EscrowState};
use crate::events::{
    ApprovalChanged, EscrowCreated, EscrowRefunded, EscrowReleased, Event, MetadataUpdated,
    PropertyRegistered, PropertyTransferred,
};
use crate::metadata::{MetadataView, PropertyMetadata};
use crate::property::{PropertyInfo, PropertyView};
use crate::AccountId;
use std::collections::HashMap;
use vstd::pervasive::VecAdditionalExecFns;
use vstd::prelude::*;

verus! {

broadcast use vstd::std_specs::hash::group_hash_axioms;

/// The registry's durable state. Property and escrow ids are dense: the
/// record with id `i + 1` sits in slot `i` of its store, which makes id
/// assignment (monotonic from 1, never reused) structural.
pub struct PropertyRegistry {
    /// Record store: slot `i` holds the property with id `i + 1`.
    properties: Vec<PropertyInfo>,
    /// Approval delegation: slot `i` holds the delegate for id `i + 1`.
    approvals: Vec<Option<AccountId>>,
    /// Ownership index: account to the ids it currently owns.
    owned: HashMap<AccountId, Vec<u64>>,
    /// Escrow ledger: slot `i` holds the escrow with id `i + 1`.
    escrows: Vec<EscrowInfo>,
    /// Address of the compliance oracle, if one is configured.
    compliance_registry: Option<AccountId>,
    /// The account that initialized the registry; only it may configure
    /// the compliance oracle.
    admin: AccountId,
    /// Append-only event log.
    events: Vec<Event>,
}

/// The mathematical value of the whole registry state.
#[verifier::ext_equal]
pub struct RegistryView {
    pub properties: Seq<PropertyView>,
    pub approvals: Seq<Option<AccountId>>,
    pub owned: Map<AccountId, Seq<u64>>,
    pub escrows: Seq<EscrowInfo>,
    pub compliance_registry: Option<AccountId>,
    pub admin: AccountId,
    pub events: Seq<Event>,
}

/// `s` with every occurrence of `id` dropped, order kept.
pub open spec fn without_id(s: Seq<u64>, id: u64) -> Seq<u64> {
    s.filter(|x: u64| x != id)
}

/// The ownership-index entry of `a`: absent accounts own nothing.
pub open spec fn entry_of(m: Map<AccountId, Seq<u64>>, a: AccountId) -> Seq<u64> {
    if m.contains_key(a) {
        m[a]
    } else {
        Seq::empty()
    }
}

impl RegistryView {
    /// Whether `id` is a registered property id.
    pub open spec fn has_property(self, id: u64) -> bool {
        1 <= id <= self.properties.len()
    }

    /// The record of a registered property id.
    pub open spec fn property_at(self, id: u64) -> PropertyView
        recommends
            self.has_property(id),
    {
        self.properties[id - 1]
    }

    /// The record of `id`, or `None` when it is not registered.
    pub open spec fn property_of(self, id: u64) -> Option<PropertyView> {
        if self.has_property(id) {
            Some(self.property_at(id))
        } else {
            None
        }
    }

    /// The approved delegate for `id`, if any.
    pub open spec fn approved_of(self, id: u64) -> Option<AccountId> {
        if 1 <= id <= self.approvals.len() {
            self.approvals[id - 1]
        } else {
            None
        }
    }

    /// The ids currently owned by `a`.
    pub open spec fn owned_of(self, a: AccountId) -> Seq<u64> {
        entry_of(self.owned, a)
    }

    /// The escrow record of `id`, or `None` when it does not exist.
    pub open spec fn escrow_of(self, id: u64) -> Option<EscrowInfo> {
        if 1 <= id <= self.escrows.len() {
            Some(self.escrows[id - 1])
        } else {
            None
        }
    }

    /// Well-formedness: dense monotone ids, every escrow points at a
    /// registered property, and the ownership index and the record store
    /// agree exactly — each record's id is listed once under its owner and
    /// under nobody else.
    pub open spec fn wf(self) -> bool {
        &&& self.approvals.len() == self.properties.len()
        &&& forall|i: int|
            0 <= i < self.properties.len() ==> (#[trigger] self.properties[i]).id == i + 1
        &&& forall|j: int|
            0 <= j < self.escrows.len() ==> {
                let e = #[trigger] self.escrows[j];
                e.id == j + 1 && 1 <= e.property_id <= self.properties.len()
            }
        &&& forall|a: AccountId|
            self.owned.contains_key(a) ==> (#[trigger] self.owned[a]).no_duplicates()
        &&& forall|a: AccountId, k: int|
            self.owned.contains_key(a) && 0 <= k < self.owned[a].len() ==> {
                let id = #[trigger] self.owned[a][k];
                &&& 1 <= id <= self.properties.len()
                &&& self.properties[id - 1].owner == a
            }
        &&& forall|i: int|
            0 <= i < self.properties.len() ==> self.owned_of(
                (#[trigger] self.properties[i]).owner,
            ).contains((i + 1) as u64)
    }

    /// The authorization check shared by the owner-only operations
    /// (metadata update, approval, escrow creation): the property must
    /// exist and `caller` must be its current owner.
    pub open spec fn owner_check(self, id: u64, caller: AccountId) -> Result<(), Error> {
        if !self.has_property(id) {
            Err(Error::PropertyNotFound)
        } else if self.property_at(id).owner != caller {
            Err(Error::Unauthorized)
        } else {
            Ok(())
        }
    }

    /// What a metadata update decides: owner-only, and the new metadata
    /// must be valid.
    pub open spec fn update_check(self, id: u64, caller: AccountId, m: MetadataView) -> Result<
        (),
        Error,
    > {
        if !self.has_property(id) {
            Err(Error::PropertyNotFound)
        } else if self.property_at(id).owner != caller {
            Err(Error::Unauthorized)
        } else if !m.valid() {
            Err(Error::InvalidMetadata)
        } else {
            Ok(())
        }
    }

    /// The state after a successful registration: the next id is assigned,
    /// the record is stored under it, the id is appended to the caller's
    /// index entry, no delegate is approved, and a registration event is
    /// appended.
    pub open spec fn registered(self, m: MetadataView, caller: AccountId, now: u64) -> RegistryView {
        let id = (self.properties.len() + 1) as u64;
        RegistryView {
            properties: self.properties.push(
                PropertyView { id, owner: caller, metadata: m, registered_at: now },
            ),
            approvals: self.approvals.push(None),
            owned: self.owned.insert(caller, entry_of(self.owned, caller).push(id)),
            events: self.events.push(
                Event::Registered(PropertyRegistered { property_id: id, owner: caller }),
            ),
            ..self
        }
    }

    /// What a transfer decides: the property must exist, the caller must be
    /// its owner or its approved delegate, and the compliance gate must pass
    /// for the recipient.
    pub open spec fn transfer_check(self, id: u64, caller: AccountId, verdict: OracleVerdict)
        -> Result<(), Error> {
        if !self.has_property(id) {
            Err(Error::PropertyNotFound)
        } else if self.property_at(id).owner != caller && self.approved_of(id) != Some(caller) {
            Err(Error::Unauthorized)
        } else {
            gate_result(self.compliance_registry, verdict)
        }
    }

    /// The state after a successful transfer of `id` to `to`: the id moves
    /// from the recorded owner's index entry to `to`'s (appended last, order
    /// otherwise kept), the record's owner becomes `to`, any approval is
    /// cleared, and a transfer event naming the previous owner as `from` is
    /// appended.
    pub open spec fn transferred(self, id: u64, to: AccountId) -> RegistryView
        recommends
            self.has_property(id),
    {
        let from = self.property_at(id).owner;
        let removed = self.owned.insert(from, without_id(entry_of(self.owned, from), id));
        RegistryView {
            properties: self.properties.update(
                id - 1,
                PropertyView { owner: to, ..self.property_at(id) },
            ),
            approvals: self.approvals.update(id - 1, None),
            owned: removed.insert(to, entry_of(removed, to).push(id)),
            events: self.events.push(
                Event::Transferred(PropertyTransferred { property_id: id, from, to }),
            ),
            ..self
        }
    }

    /// The state after a successful approval change: the delegate slot is
    /// overwritten and an approval event is appended (also when clearing,
    /// with `delegate: None`).
    pub open spec fn approval_set(self, id: u64, delegate: Option<AccountId>) -> RegistryView {
        RegistryView {
            approvals: self.approvals.update(id - 1, delegate),
            events: self.events.push(
                Event::ApprovalChanged(ApprovalChanged { property_id: id, delegate }),
            ),
            ..self
        }
    }

    /// The state after a successful metadata update: only the record's
    /// metadata changes, and an update event is appended.
    pub open spec fn metadata_updated(self, id: u64, m: MetadataView) -> RegistryView {
        let rec = self.property_at(id);
        RegistryView {
            properties: self.properties.update(
                id - 1,
                PropertyView { metadata: m, ..rec },
            ),
            events: self.events.push(
                Event::MetadataUpdated(MetadataUpdated { property_id: id }),
            ),
            ..self
        }
    }

    /// The state after a successful escrow creation: the next escrow id is
    /// assigned, the record captures buyer (the creating caller), seller
    /// (the property's owner at this moment) and the advisory amount, in
    /// state `Created`, and a creation event is appended.
    pub open spec fn escrow_created(self, property_id: u64, amount: u128, caller: AccountId)
        -> RegistryView
        recommends
            self.has_property(property_id),
    {
        let escrow_id = (self.escrows.len() + 1) as u64;
        let seller = self.property_at(property_id).owner;
        RegistryView {
            escrows: self.escrows.push(
                EscrowInfo {
                    id: escrow_id,
                    property_id,
                    buyer: caller,
                    seller,
                    amount,
                    state: EscrowState::Created,
                },
            ),
            events: self.events.push(
                Event::EscrowCreated(
                    EscrowCreated { escrow_id, property_id, buyer: caller, seller, amount },
                ),
            ),
            ..self
        }
    }

    /// What a release decides: the escrow must exist and still be
    /// `Created`, the caller must be the buyer, and the embedded transfer
    /// of the property to the buyer must itself pass — its error, if any,
    /// propagates verbatim.
    pub open spec fn release_check(self, escrow_id: u64, caller: AccountId, verdict: OracleVerdict)
        -> Result<(), Error> {
        match self.escrow_of(escrow_id) {
            None => Err(Error::EscrowNotFound),
            Some(e) => if e.state != EscrowState::Created {
                Err(Error::EscrowAlreadyReleased)
            } else if e.buyer != caller {
                Err(Error::Unauthorized)
            } else {
                self.transfer_check(e.property_id, caller, verdict)
            },
        }
    }

    /// What a refund decides: the escrow must exist and still be `Created`,
    /// and the caller must be the seller.
    pub open spec fn refund_check(self, escrow_id: u64, caller: AccountId) -> Result<(), Error> {
        match self.escrow_of(escrow_id) {
            None => Err(Error::EscrowNotFound),
            Some(e) => if e.state != EscrowState::Created {
                Err(Error::EscrowAlreadyReleased)
            } else if e.seller != caller {
                Err(Error::Unauthorized)
            } else {
                Ok(())
            },
        }
    }

    /// The escrow's terminal move to `Released`, applied after the embedded
    /// transfer; the event is appended last.
    pub open spec fn escrow_released(self, escrow_id: u64) -> RegistryView
        recommends
            1 <= escrow_id <= self.escrows.len(),
    {
        RegistryView {
            escrows: self.escrows.update(
                escrow_id - 1,
                EscrowInfo { state: EscrowState::Released, ..self.escrows[escrow_id - 1] },
            ),
            events: self.events.push(Event::EscrowReleased(EscrowReleased { escrow_id })),
            ..self
        }
    }

    /// The escrow's terminal move to `Refunded`. No property or fund
    /// movement occurs on refund: it cancels the transaction.
    pub open spec fn escrow_refunded(self, escrow_id: u64) -> RegistryView
        recommends
            1 <= escrow_id <= self.escrows.len(),
    {
        RegistryView {
            escrows: self.escrows.update(
                escrow_id - 1,
                EscrowInfo { state: EscrowState::Refunded, ..self.escrows[escrow_id - 1] },
            ),
            events: self.events.push(Event::EscrowRefunded(EscrowRefunded { escrow_id })),
            ..self
        }
    }

    /// The empty registry state, administered by `admin`.
    pub open spec fn initial(admin: AccountId, compliance_registry: Option<AccountId>) -> Self {
        RegistryView {
            properties: Seq::empty(),
            approvals: Seq::empty(),
            owned: Map::empty(),
            escrows: Seq::empty(),
            compliance_registry,
            admin,
            events: Seq::empty(),
        }
    }
}

impl View for PropertyRegistry {
    type V = RegistryView;

    closed spec fn view(&self) -> RegistryView {
        RegistryView {
            properties: self.properties@.map_values(|p: PropertyInfo| p@),
            approvals: self.approvals@,
            owned: self.owned@.map_values(|v: Vec<u64>| v@),
            escrows: self.escrows@,
            compliance_registry: self.compliance_registry,
            admin: self.admin,
            events: self.events@,
        }
    }
}

impl PropertyRegistry {
    /// Creates an empty registry with no compliance oracle. `caller`, the
    /// host-resolved identity of the creating party, becomes the
    /// administrator.
    pub fn new(caller: AccountId) -> (r: Self)
        ensures
            r@ == RegistryView::initial(caller, None),
            r@.wf(),
    {
        let r = PropertyRegistry {
            properties: Vec::new(),
            approvals: Vec::new(),
            owned: HashMap::new(),
            escrows: Vec::new(),
            compliance_registry: None,
            admin: caller,
            events: Vec::new(),
        };
        proof {
            assert(r@ =~~= RegistryView::initial(caller, None));
        }
        r
    }

    /// Creates an empty registry with a compliance oracle configured from
    /// the start.
    pub fn new_with_compliance(compliance_registry: AccountId, caller: AccountId) -> (r: Self)
        ensures
            r@ == RegistryView::initial(caller, Some(compliance_registry)),
            r@.wf(),
    {
        let r = PropertyRegistry {
            properties: Vec::new(),
            approvals: Vec::new(),
            owned: HashMap::new(),
            escrows: Vec::new(),
            compliance_registry: Some(compliance_registry),
            admin: caller,
            events: Vec::new(),
        };
        proof {
            assert(r@ =~~= RegistryView::initial(caller, Some(compliance_registry)));
        }
        r
    }

    /// The configured compliance oracle address, if any.
    pub fn get_compliance_registry(&self) -> (r: Option<AccountId>)
        ensures
            r == self@.compliance_registry,
    {
        self.compliance_registry
    }

    /// Sets or updates the compliance oracle address. Only the
    /// administrator may do so.
    pub fn set_compliance_registry(&mut self, compliance_registry: AccountId, caller: AccountId)
        -> (r: Result<(), Error>)
        ensures
            caller == old(self)@.admin ==> {
                &&& r == Ok::<(), Error>(())
                &&& final(self)@ == (RegistryView {
                    compliance_registry: Some(compliance_registry),
                    ..old(self)@
                })
            },
            caller != old(self)@.admin ==> r == Err::<(), Error>(Error::Unauthorized)
                && final(self)@ == old(self)@,
            final(self)@.wf() == old(self)@.wf(),
    {
        if caller != self.admin {
            return Err(Error::Unauthorized);
        }
        self.compliance_registry = Some(compliance_registry);
        proof {
            assert(self@ =~~= (RegistryView {
                compliance_registry: Some(compliance_registry),
                ..old(self)@
            }));
            if old(self)@.wf() {
                lemma_wf_same_skeleton(old(self)@, self@);
            }
            if self@.wf() {
                lemma_wf_same_skeleton(self@, old(self)@);
            }
        }
        Ok(())
    }

    /// Registers a new property owned by `caller`.
    ///
    /// `caller` and `now` are the caller identity and timestamp the host
    /// resolved for this operation; `verdict` is the oracle's answer about
    /// the registrant (ignored when no oracle is configured). On success the
    /// new id — one past the previous count — is returned. Metadata is
    /// deliberately not validated here (only updates validate it).
    pub fn register_property(
        &mut self,
        metadata: PropertyMetadata,
        caller: AccountId,
        now: u64,
        verdict: OracleVerdict,
    ) -> (r: Result<u64, Error>)
        requires
            old(self)@.wf(),
            old(self)@.properties.len() < u64::MAX,
        ensures
            final(self)@.wf(),
            match gate_result(old(self)@.compliance_registry, verdict) {
                Ok(()) => r == Ok::<u64, Error>((old(self)@.properties.len() + 1) as u64)
                    && final(self)@ == old(self)@.registered(metadata@, caller, now),
                Err(e) => r == Err::<u64, Error>(e) && final(self)@ == old(self)@,
            },
    {
        if let Err(e) = check_gate(self.compliance_registry, verdict) {
            return Err(e);
        }
        let ghost gm = metadata@;
        let property_id: u64 = self.properties.len() as u64 + 1;
        let record = PropertyInfo { id: property_id, owner: caller, metadata, registered_at: now };
        self.properties.push(record);
        self.approvals.push(None);
        let mut list = self.get_owner_properties(caller);
        list.push(property_id);
        self.owned.insert(caller, list);
        self.events.push(Event::Registered(PropertyRegistered { property_id, owner: caller }));
        proof {
            assert(self@ =~~= old(self)@.registered(gm, caller, now));
            lemma_register_wf(old(self)@, self@, gm, caller, now);
        }
        Ok(property_id)
    }

    /// Transfers ownership of a property to `to`.
    ///
    /// `caller` must be the current owner or the approved delegate, and the
    /// compliance gate must pass for the recipient (`verdict` is the
    /// oracle's answer about `to`; it is ignored when no oracle is
    /// configured). On success the ownership index, the record and the
    /// approval slot change together; on any failure nothing changes.
    pub fn transfer_property(
        &mut self,
        property_id: u64,
        to: AccountId,
        caller: AccountId,
        verdict: OracleVerdict,
    ) -> (r: Result<(), Error>)
        requires
            old(self)@.wf(),
        ensures
            final(self)@.wf(),
            match old(self)@.transfer_check(property_id, caller, verdict) {
                Ok(()) => r == Ok::<(), Error>(()) && final(self)@ == old(self)@.transferred(
                    property_id,
                    to,
                ),
                Err(e) => r == Err::<(), Error>(e) && final(self)@ == old(self)@,
            },
            // after any transfer, the approval of the property is cleared
            r is Ok ==> final(self)@.approved_of(property_id) is None,
    {
        if !(1 <= property_id && property_id <= self.properties.len() as u64) {
            return Err(Error::PropertyNotFound);
        }
        let idx: usize = (property_id - 1) as usize;
        let from = self.properties[idx].owner;
        let delegated = match self.approvals[idx] {
            Some(d) => d == caller,
            None => false,
        };
        if from != caller && !delegated {
            return Err(Error::Unauthorized);
        }
        if let Err(e) = check_gate(self.compliance_registry, verdict) {
            return Err(e);
        }
        // move the id from the recorded owner's entry to the recipient's
        let current = self.get_owner_properties(from);
        let from_list = remove_id(&current, property_id);
        self.owned.insert(from, from_list);
        let mut to_list = self.get_owner_properties(to);
        to_list.push(property_id);
        self.owned.insert(to, to_list);
        // update the record's owner and clear any approval
        let rec = &self.properties[idx];
        let updated = PropertyInfo {
            id: rec.id,
            owner: to,
            metadata: rec.metadata.duplicate(),
            registered_at: rec.registered_at,
        };
        self.properties.set(idx, updated);
        self.approvals.set(idx, None);
        self.events.push(
            Event::Transferred(PropertyTransferred { property_id, from, to }),
        );
        proof {
            assert(self@ =~~= old(self)@.transferred(property_id, to));
            lemma_transfer_wf(old(self)@, self@, property_id, to);
        }
        Ok(())
    }

    /// Sets (`Some`) or clears (`None`) the approved delegate of a
    /// property. Owner-only; a cleared approval still appends a
    /// discoverable event.
    pub fn approve(
        &mut self,
        property_id: u64,
        delegate: Option<AccountId>,
        caller: AccountId,
    ) -> (r: Result<(), Error>)
        requires
            old(self)@.wf(),
        ensures
            final(self)@.wf(),
            match old(self)@.owner_check(property_id, caller) {
                Ok(()) => r == Ok::<(), Error>(()) && final(self)@ == old(self)@.approval_set(
                    property_id,
                    delegate,
                ),
                Err(e) => r == Err::<(), Error>(e) && final(self)@ == old(self)@,
            },
    {
        if !(1 <= property_id && property_id <= self.properties.len() as u64) {
            return Err(Error::PropertyNotFound);
        }
        let idx: usize = (property_id - 1) as usize;
        if self.properties[idx].owner != caller {
            return Err(Error::Unauthorized);
        }
        self.approvals.set(idx, delegate);
        self.events.push(Event::ApprovalChanged(ApprovalChanged { property_id, delegate }));
        proof {
            assert(self@ =~~= old(self)@.approval_set(property_id, delegate));
            lemma_wf_same_skeleton(old(self)@, self@);
        }
        Ok(())
    }

    /// Overwrites the metadata of a property. Owner-only (a delegate is not
    /// sufficient), and the new metadata must carry a non-empty location.
    pub fn update_metadata(
        &mut self,
        property_id: u64,
        metadata: PropertyMetadata,
        caller: AccountId,
    ) -> (r: Result<(), Error>)
        requires
            old(self)@.wf(),
        ensures
            final(self)@.wf(),
            match old(self)@.update_check(property_id, caller, metadata@) {
                Ok(()) => r == Ok::<(), Error>(()) && final(self)@ == old(self)@.metadata_updated(
                    property_id,
                    metadata@,
                ),
                Err(e) => r == Err::<(), Error>(e) && final(self)@ == old(self)@,
            },
    {
        if !(1 <= property_id && property_id <= self.properties.len() as u64) {
            return Err(Error::PropertyNotFound);
        }
        let idx: usize = (property_id - 1) as usize;
        if self.properties[idx].owner != caller {
            return Err(Error::Unauthorized);
        }
        if !metadata.is_valid() {
            return Err(Error::InvalidMetadata);
        }
        let ghost gm = metadata@;
        let rec = &self.properties[idx];
        let updated = PropertyInfo {
            id: rec.id,
            owner: rec.owner,
            metadata,
            registered_at: rec.registered_at,
        };
        self.properties.set(idx, updated);
        self.events.push(Event::MetadataUpdated(MetadataUpdated { property_id }));
        proof {
            assert(self@ =~~= old(self)@.metadata_updated(property_id, gm));
            lemma_wf_same_skeleton(old(self)@, self@);
        }
        Ok(())
    }

    /// Creates an escrow for a property. Only the property's current owner
    /// may create one; it is captured as both seller and (in this model)
    /// buyer, with `amount` as advisory metadata. On success the new escrow
    /// id — one past the previous escrow count — is returned.
    pub fn create_escrow(&mut self, property_id: u64, amount: u128, caller: AccountId) -> (r:
        Result<u64, Error>)
        requires
            old(self)@.wf(),
            old(self)@.escrows.len() < u64::MAX,
        ensures
            final(self)@.wf(),
            match old(self)@.owner_check(property_id, caller) {
                Ok(()) => r == Ok::<u64, Error>((old(self)@.escrows.len() + 1) as u64)
                    && final(self)@ == old(self)@.escrow_created(property_id, amount, caller),
                Err(e) => r == Err::<u64, Error>(e) && final(self)@ == old(self)@,
            },
    {
        if !(1 <= property_id && property_id <= self.properties.len() as u64) {
            return Err(Error::PropertyNotFound);
        }
        let idx: usize = (property_id - 1) as usize;
        let seller = self.properties[idx].owner;
        if seller != caller {
            return Err(Error::Unauthorized);
        }
        let escrow_id: u64 = self.escrows.len() as u64 + 1;
        self.escrows.push(
            EscrowInfo {
                id: escrow_id,
                property_id,
                buyer: caller,
                seller,
                amount,
                state: EscrowState::Created,
            },
        );
        self.events.push(
            Event::EscrowCreated(
                EscrowCreated { escrow_id, property_id, buyer: caller, seller, amount },
            ),
        );
        proof {
            assert(self@ =~~= old(self)@.escrow_created(property_id, amount, caller));
            assert forall|j: int| 0 <= j < self@.escrows.len() implies {
                let e = #[trigger] self@.escrows[j];
                e.id == j + 1 && 1 <= e.property_id <= self@.properties.len()
            } by {
                if j < old(self)@.escrows.len() {
                    assert(self@.escrows[j] == old(self)@.escrows[j]);
                }
            }
            lemma_wf_escrow_entries(old(self)@, self@);
        }
        Ok(escrow_id)
    }

    /// Releases an escrow: the property moves to the buyer and the escrow
    /// becomes terminally `Released`.
    ///
    /// Only the buyer may release, and only while the escrow is still
    /// `Created`; a second resolution attempt fails with
    /// `EscrowAlreadyReleased` whoever calls. The embedded transfer's
    /// failure (compliance rejection, stale ownership) propagates verbatim
    /// and leaves the escrow `Created` and the whole state unchanged: the
    /// release is all-or-nothing. `verdict` is the oracle's answer about
    /// the buyer.
    pub fn release_escrow(&mut self, escrow_id: u64, caller: AccountId, verdict: OracleVerdict)
        -> (r: Result<(), Error>)
        requires
            old(self)@.wf(),
        ensures
            final(self)@.wf(),
            match old(self)@.release_check(escrow_id, caller, verdict) {
                Ok(()) => ({
                    let e = old(self)@.escrows[escrow_id - 1];
                    r == Ok::<(), Error>(()) && final(self)@ == old(self)@.transferred(
                        e.property_id,
                        e.buyer,
                    ).escrow_released(escrow_id)
                }),
                Err(err) => r == Err::<(), Error>(err) && final(self)@ == old(self)@,
            },
    {
        if !(1 <= escrow_id && escrow_id <= self.escrows.len() as u64) {
            return Err(Error::EscrowNotFound);
        }
        let idx: usize = (escrow_id - 1) as usize;
        let e = self.escrows[idx];
        match e.state {
            EscrowState::Created => {},
            _ => {
                return Err(Error::EscrowAlreadyReleased);
            },
        }
        if e.buyer != caller {
            return Err(Error::Unauthorized);
        }
        // all-or-nothing: if the embedded transfer fails, the escrow stays
        // `Created` and nothing has been written
        if let Err(err) = self.transfer_property(e.property_id, e.buyer, caller, verdict) {
            return Err(err);
        }
        let ghost mid = self@;
        self.escrows.set(idx, EscrowInfo { state: EscrowState::Released, ..e });
        self.events.push(Event::EscrowReleased(EscrowReleased { escrow_id }));
        proof {
            assert(self@ =~~= mid.escrow_released(escrow_id));
            assert forall|j: int| 0 <= j < self@.escrows.len() implies {
                let en = #[trigger] self@.escrows[j];
                en.id == j + 1 && 1 <= en.property_id <= self@.properties.len()
            } by {
                if j != idx {
                    assert(self@.escrows[j] == mid.escrows[j]);
                }
            }
            lemma_wf_escrow_entries(mid, self@);
        }
        Ok(())
    }

    /// Refunds (cancels) an escrow: it becomes terminally `Refunded`; no
    /// property or fund movement occurs. Only the seller may refund, and
    /// only while the escrow is still `Created`; a second resolution
    /// attempt fails with `EscrowAlreadyReleased` whoever calls.
    pub fn refund_escrow(&mut self, escrow_id: u64, caller: AccountId) -> (r: Result<(), Error>)
        requires
            old(self)@.wf(),
        ensures
            final(self)@.wf(),
            match old(self)@.refund_check(escrow_id, caller) {
                Ok(()) => r == Ok::<(), Error>(()) && final(self)@ == old(self)@.escrow_refunded(
                    escrow_id,
                ),
                Err(err) => r == Err::<(), Error>(err) && final(self)@ == old(self)@,
            },
    {
        if !(1 <= escrow_id && escrow_id <= self.escrows.len() as u64) {
            return Err(Error::EscrowNotFound);
        }
        let idx: usize = (escrow_id - 1) as usize;
        let e = self.escrows[idx];
        match e.state {
            EscrowState::Created => {},
            _ => {
                return Err(Error::EscrowAlreadyReleased);
            },
        }
        if e.seller != caller {
            return Err(Error::Unauthorized);
        }
        self.escrows.set(idx, EscrowInfo { state: EscrowState::Refunded, ..e });
        self.events.push(Event::EscrowRefunded(EscrowRefunded { escrow_id }));
        proof {
            assert(self@ =~~= old(self)@.escrow_refunded(escrow_id));
            assert forall|j: int| 0 <= j < self@.escrows.len() implies {
                let en = #[trigger] self@.escrows[j];
                en.id == j + 1 && 1 <= en.property_id <= self@.properties.len()
            } by {
                if j != idx {
                    assert(self@.escrows[j] == old(self)@.escrows[j]);
                }
            }
            lemma_wf_escrow_entries(old(self)@, self@);
        }
        Ok(())
    }

    /// The record registered under `property_id`, if any.
    pub fn get_property(&self, property_id: u64) -> (r: Option<PropertyInfo>)
        ensures
            match r {
                Some(p) => self@.property_of(property_id) == Some(p@),
                None => self@.property_of(property_id) is None,
            },
    {
        if 1 <= property_id && property_id <= self.properties.len() as u64 {
            let idx: usize = (property_id - 1) as usize;
            Some(self.properties[idx].duplicate())
        } else {
            None
        }
    }

    /// The ids currently owned by `owner` (empty when it owns nothing).
    pub fn get_owner_properties(&self, owner: AccountId) -> (r: Vec<u64>)
        ensures
            r@ == self@.owned_of(owner),
    {
        match self.owned.get(&owner) {
            Some(ids) => copy_ids(ids),
            None => Vec::new(),
        }
    }

    /// How many properties have ever been registered (ids run from 1 to
    /// this count).
    pub fn property_count(&self) -> (r: u64)
        ensures
            r == self@.properties.len(),
    {
        self.properties.len() as u64
    }

    /// The approved delegate for `property_id`, if any.
    pub fn get_approved(&self, property_id: u64) -> (r: Option<AccountId>)
        ensures
            r == self@.approved_of(property_id),
    {
        if 1 <= property_id && property_id <= self.approvals.len() as u64 {
            let idx: usize = (property_id - 1) as usize;
            self.approvals[idx]
        } else {
            None
        }
    }

    /// The escrow record stored under `escrow_id`, if any.
    pub fn get_escrow(&self, escrow_id: u64) -> (r: Option<EscrowInfo>)
        ensures
            r == self@.escrow_of(escrow_id),
    {
        if 1 <= escrow_id && escrow_id <= self.escrows.len() as u64 {
            let idx: usize = (escrow_id - 1) as usize;
            Some(self.escrows[idx])
        } else {
            None
        }
    }

    /// The event log so far.
    pub fn events(&self) -> (r: &Vec<Event>)
        ensures
            r@ == self@.events,
    {
        &self.events
    }
}

/// Well-formedness carries over to a state with the same ownership index,
/// the same escrows, the same stored ids and owners, and an approval slot
/// for every record: none of its clauses reads anything else.
proof fn lemma_wf_same_skeleton(pre: RegistryView, post: RegistryView)
    requires
        pre.wf(),
        post.approvals.len() == post.properties.len(),
        post.escrows == pre.escrows,
        post.owned == pre.owned,
        post.properties.len() == pre.properties.len(),
        forall|i: int|
            0 <= i < pre.properties.len() ==> (#[trigger] post.properties[i]).id
                == pre.properties[i].id && post.properties[i].owner == pre.properties[i].owner,
    ensures
        post.wf(),
{
    assert(forall|x: AccountId| post.owned_of(x) == pre.owned_of(x));
    assert forall|a: AccountId, k: int|
        post.owned.contains_key(a) && 0 <= k < post.owned[a].len() implies {
        let id = #[trigger] post.owned[a][k];
        &&& 1 <= id <= post.properties.len()
        &&& post.properties[id - 1].owner == a
    } by {
        assert(pre.owned[a][k] == post.owned[a][k]);
    }
}

/// A successful registration preserves well-formedness: the new id is one
/// past every id any index entry could hold, so the caller's grown entry
/// stays duplicate-free and every entry still points at its owner's records.
proof fn lemma_register_wf(
    pre: RegistryView,
    post: RegistryView,
    m: MetadataView,
    caller: AccountId,
    now: u64,
)
    requires
        pre.wf(),
        pre.properties.len() < u64::MAX,
        post == pre.registered(m, caller, now),
    ensures
        post.wf(),
{
    let id = (pre.properties.len() + 1) as u64;
    let oldlist = entry_of(pre.owned, caller);
    let newlist = oldlist.push(id);
    assert(post.owned == pre.owned.insert(caller, newlist));
    // the caller's grown entry stays duplicate-free: every old element is a
    // registered id, hence strictly below the new one
    assert forall|a: AccountId|
        post.owned.contains_key(a) implies (#[trigger] post.owned[a]).no_duplicates() by {
        if a == caller {
            assert forall|i: int, j: int|
                0 <= i < j < newlist.len() implies newlist[i] != newlist[j] by {
                if j == newlist.len() - 1 {
                    assert(pre.owned.contains_key(caller));
                    assert(pre.owned[caller][i] <= pre.properties.len());
                } else {
                    assert(pre.owned[caller].no_duplicates());
                }
            }
        } else {
            assert(post.owned[a] == pre.owned[a]);
        }
    }
    // every listed id still names a record owned by that account
    assert forall|a: AccountId, k: int|
        post.owned.contains_key(a) && 0 <= k < post.owned[a].len() implies {
        let x = #[trigger] post.owned[a][k];
        &&& 1 <= x <= post.properties.len()
        &&& post.properties[x - 1].owner == a
    } by {
        if a == caller && k == newlist.len() - 1 {
            assert(post.owned[a][k] == id);
            assert(post.properties[id - 1].owner == caller);
        } else {
            assert(pre.owned.contains_key(a));
            let x = pre.owned[a][k];
            assert(post.owned[a][k] == x);
            assert(1 <= x <= pre.properties.len() && pre.properties[x - 1].owner == a);
            assert(post.properties[x - 1] == pre.properties[x - 1]);
        }
    }
    // every record is still listed under its owner
    assert forall|i: int|
        0 <= i < post.properties.len() implies post.owned_of(
        (#[trigger] post.properties[i]).owner,
    ).contains((i + 1) as u64) by {
        if i < pre.properties.len() {
            let o = pre.properties[i].owner;
            assert(pre.owned_of(o).contains((i + 1) as u64));
            let w = choose|w: int|
                0 <= w < pre.owned_of(o).len() && pre.owned_of(o)[w] == (i + 1) as u64;
            assert(post.owned_of(o)[w] == (i + 1) as u64);
            assert(post.owned_of(o).contains((i + 1) as u64));
        } else {
            assert(post.owned_of(caller)[newlist.len() - 1] == id);
            assert(post.owned_of(caller).contains(id));
        }
    }
}

/// Well-formedness carries over to a state that differs only in its escrow
/// ledger, provided that ledger's ids stay dense and its properties
/// registered.
proof fn lemma_wf_escrow_entries(pre: RegistryView, post: RegistryView)
    requires
        pre.wf(),
        post.properties == pre.properties,
        post.approvals == pre.approvals,
        post.owned == pre.owned,
        forall|j: int|
            0 <= j < post.escrows.len() ==> {
                let e = #[trigger] post.escrows[j];
                e.id == j + 1 && 1 <= e.property_id <= post.properties.len()
            },
    ensures
        post.wf(),
{
    assert(forall|x: AccountId| post.owned_of(x) == pre.owned_of(x));
    assert forall|a: AccountId, k: int|
        post.owned.contains_key(a) && 0 <= k < post.owned[a].len() implies {
        let id = #[trigger] post.owned[a][k];
        &&& 1 <= id <= post.properties.len()
        &&& post.properties[id - 1].owner == a
    } by {
        assert(pre.owned[a][k] == post.owned[a][k]);
    }
}

/// Appending one element either lands in the dropped-id sequence or not,
/// according to whether it is the dropped id.
proof fn lemma_without_id_push(s: Seq<u64>, id: u64, x: u64)
    ensures
        without_id(s.push(x), id) == (if x != id {
            without_id(s, id).push(x)
        } else {
            without_id(s, id)
        }),
{
    reveal(Seq::filter);
    assert(s.push(x).drop_last() =~= s);
    assert(s.push(x).last() == x);
}

/// Dropping every occurrence of `id` from a duplicate-free sequence leaves
/// it duplicate-free, and keeps exactly the other elements.
proof fn lemma_filter_remove_id(s: Seq<u64>, id: u64)
    requires
        s.no_duplicates(),
    ensures
        without_id(s, id).no_duplicates(),
        forall|y: u64| #[trigger] without_id(s, id).contains(y) <==> (s.contains(y) && y != id),
    decreases s.len(),
{
    broadcast use vstd::seq_lib::lemma_seq_contains_after_push;

    if s.len() == 0 {
        reveal(Seq::filter);
        assert(without_id(s, id) =~= Seq::<u64>::empty());
        assert(forall|y: u64| !s.contains(y));
    } else {
        let t = s.drop_last();
        let last = s.last();
        assert(t.no_duplicates());
        lemma_filter_remove_id(t, id);
        assert(s =~= t.push(last));
        lemma_without_id_push(t, id, last);
        // the last element is not in the rest, so neither is it in its filtering
        assert(!t.contains(last)) by {
            if t.contains(last) {
                let k = choose|k: int| 0 <= k < t.len() && t[k] == last;
                assert(s[k] == s[s.len() - 1]);
            }
        }
        assert forall|y: u64| #[trigger]
            without_id(s, id).contains(y) <==> (s.contains(y) && y != id) by {
            assert(t.push(last).contains(y) <==> last == y || t.contains(y));
            if last != id {
                assert(without_id(t, id).push(last).contains(y) <==> last == y || without_id(
                    t,
                    id,
                ).contains(y));
            }
        }
        if last != id {
            let f = without_id(t, id);
            assert(!f.contains(last));
            assert(without_id(s, id) == f.push(last));
            assert forall|i: int, j: int|
                0 <= i < j < f.push(last).len() implies f.push(last)[i] != f.push(last)[j] by {
                if j == f.len() {
                    assert(f.contains(f[i]));
                }
            }
        }
    }
}

/// A transfer preserves well-formedness: the id leaves exactly the old
/// owner's entry and lands exactly once in the recipient's, while every
/// other record and entry stays put.
proof fn lemma_transfer_wf(pre: RegistryView, post: RegistryView, id: u64, to: AccountId)
    requires
        pre.wf(),
        pre.has_property(id),
        post == pre.transferred(id, to),
    ensures
        post.wf(),
{
    broadcast use vstd::seq_lib::lemma_seq_contains_after_push;

    let pred = |x: u64| x != id;
    let from = pre.property_at(id).owner;
    let base = entry_of(pre.owned, from);
    let fromlist = without_id(base, id);
    let m1 = pre.owned.insert(from, fromlist);
    let b = entry_of(m1, to);
    let tolist = b.push(id);
    assert(post.owned == m1.insert(to, tolist));
    assert(base.no_duplicates());
    lemma_filter_remove_id(base, id);
    // only the recorded owner's entry lists the id
    assert forall|a: AccountId|
        a != from && pre.owned.contains_key(a) implies !(#[trigger] pre.owned[a]).contains(
        id,
    ) by {
        if pre.owned[a].contains(id) {
            let k = choose|k: int| 0 <= k < pre.owned[a].len() && pre.owned[a][k] == id;
            assert(pre.owned[a][k] == id);
            assert(pre.properties[id - 1].owner == a);
        }
    }
    // the recipient's entry before the append lacks the id
    assert(b.no_duplicates() && !b.contains(id)) by {
        if to != from {
            assert(b == entry_of(pre.owned, to));
        }
    }
    // entries stay duplicate-free
    assert forall|a: AccountId|
        post.owned.contains_key(a) implies (#[trigger] post.owned[a]).no_duplicates() by {
        if a == to {
            assert forall|i: int, j: int|
                0 <= i < j < tolist.len() implies tolist[i] != tolist[j] by {
                if j == tolist.len() - 1 {
                    assert(b.contains(b[i]));
                }
            }
        } else if a == from {
            assert(post.owned[a] == fromlist);
        } else {
            assert(post.owned[a] == pre.owned[a]);
        }
    }
    // every listed id names a record owned by that account
    assert forall|a: AccountId, k: int|
        post.owned.contains_key(a) && 0 <= k < post.owned[a].len() implies {
        let x = #[trigger] post.owned[a][k];
        &&& 1 <= x <= post.properties.len()
        &&& post.properties[x - 1].owner == a
    } by {
        let x = post.owned[a][k];
        if a == to && k == tolist.len() - 1 {
            assert(x == id);
            assert(post.properties[id - 1].owner == to);
        } else if a == to {
            assert(b[k] == x);
            assert(b.contains(x));
            assert(x != id);
            if to == from {
                assert(base.contains(x));
                let w = choose|w: int| 0 <= w < base.len() && base[w] == x;
                assert(pre.owned.contains_key(from));
                assert(pre.owned[from][w] == x);
            } else {
                let e0 = entry_of(pre.owned, to);
                let w = choose|w: int| 0 <= w < e0.len() && e0[w] == x;
                assert(pre.owned.contains_key(to));
                assert(pre.owned[to][w] == x);
            }
            assert(post.properties[x - 1] == pre.properties[x - 1]);
        } else if a == from {
            assert(fromlist[k] == x);
            assert(fromlist.contains(x));
            assert(base.contains(x) && x != id);
            let w = choose|w: int| 0 <= w < base.len() && base[w] == x;
            assert(pre.owned.contains_key(from));
            assert(pre.owned[from][w] == x);
            assert(post.properties[x - 1] == pre.properties[x - 1]);
        } else {
            assert(pre.owned[a][k] == x);
            assert(x != id);
            assert(post.properties[x - 1] == pre.properties[x - 1]);
        }
    }
    // every record is still listed under its owner
    assert forall|i: int|
        0 <= i < post.properties.len() implies post.owned_of(
        (#[trigger] post.properties[i]).owner,
    ).contains((i + 1) as u64) by {
        if i == id - 1 {
            assert(post.owned_of(to)[tolist.len() - 1] == id);
        } else {
            let o = pre.properties[i].owner;
            let x = (i + 1) as u64;
            assert(post.properties[i] == pre.properties[i]);
            assert(pre.owned_of(o).contains(x));
            assert(x != id);
            if o == to {
                if to == from {
                    assert(fromlist.contains(x));
                    assert(b.contains(x));
                } else {
                    assert(b == entry_of(pre.owned, to));
                }
                assert(tolist.contains(x));
            } else if o == from {
                assert(fromlist.contains(x));
                assert(post.owned_of(from) == fromlist);
            } else {
                assert(post.owned_of(o) == pre.owned_of(o));
            }
        }
    }
}

/// A copy of `v` with every occurrence of `id` dropped, order kept.
fn remove_id(v: &Vec<u64>, id: u64) -> (r: Vec<u64>)
    ensures
        r@ == without_id(v@, id),
{
    let mut r: Vec<u64> = Vec::new();
    let mut k: usize = 0;
    while k < v.len()
        invariant
            k <= v.len(),
            r@ == without_id(v@.subrange(0, k as int), id),
        decreases v.len() - k,
    {
        let x = v[k];
        proof {
            let pref = v@.subrange(0, k as int);
            assert(v@.subrange(0, k as int + 1) =~= pref.push(v@[k as int]));
            lemma_without_id_push(pref, id, v@[k as int]);
        }
        if x != id {
            r.push(x);
        }
        k = k + 1;
    }
    proof {
        assert(v@.subrange(0, v@.len() as int) =~= v@);
    }
    r
}

/// An owned copy of an id list.
fn copy_ids(v: &Vec<u64>) -> (r: Vec<u64>)
    ensures
        r@ == v@,
{
    let mut r: Vec<u64> = Vec::new();
    let mut k: usize = 0;
    while k < v.len()
        invariant
            k <= v.len(),
            r@ == v@.subrange(0, k as int),
        decreases v.len() - k,
    {
        r.push(v[k]);
        k = k + 1;
    }
    proof {
        assert(r@ =~= v@);
    }
    r
}

} // verus!
