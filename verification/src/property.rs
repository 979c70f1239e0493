//! A registered property record.

use crate::metadata::{MetadataView, PropertyMetadata};
use crate::AccountId;
use vstd::prelude::*;

verus! {

/// One asset record. `id` is assigned once, monotonically from 1, and never
/// reused; `owner` always agrees with the registry's ownership index.
#[derive(Debug, Clone)]
pub struct PropertyInfo {
    pub id: u64,
    pub owner: AccountId,
    pub metadata: PropertyMetadata,
    pub registered_at: u64,
}

/// The mathematical value of a [`PropertyInfo`].
pub struct PropertyView {
    pub id: u64,
    pub owner: AccountId,
    pub metadata: MetadataView,
    pub registered_at: u64,
}

impl View for PropertyInfo {
    type V = PropertyView;

    open spec fn view(&self) -> PropertyView {
        PropertyView {
            id: self.id,
            owner: self.owner,
            metadata: self.metadata@,
            registered_at: self.registered_at,
        }
    }
}

impl PropertyInfo {
    /// An owned copy with the same value.
    pub fn duplicate(&self) -> (r: Self)
        ensures
            r@ == self@,
    {
        PropertyInfo {
            id: self.id,
            owner: self.owner,
            metadata: self.metadata.duplicate(),
            registered_at: self.registered_at,
        }
    }
}

impl PartialEq for PropertyInfo {
    fn eq(&self, other: &Self) -> (r: bool) {
        self.id == other.id && self.owner == other.owner && self.metadata == other.metadata
            && self.registered_at == other.registered_at
    }
}

impl vstd::std_specs::cmp::PartialEqSpecImpl for PropertyInfo {
    open spec fn obeys_eq_spec() -> bool {
        true
    }

    open spec fn eq_spec(&self, other: &Self) -> bool {
        self@ == other@
    }
}

} // verus!
