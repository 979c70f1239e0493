//! Descriptive metadata attached to a property record.

use vstd::prelude::*;

verus! {

/// The descriptive payload of a property. It is opaque to the registry
/// except for one rule: `location` must be non-empty when metadata is
/// updated (registration deliberately skips this check).
#[derive(Debug, Clone)]
pub struct PropertyMetadata {
    pub location: String,
    pub size: u64,
    pub legal_description: String,
    pub valuation: u64,
    pub documents_url: String,
}

/// The mathematical value of a [`PropertyMetadata`]: text fields as
/// character sequences, numbers as themselves.
pub struct MetadataView {
    pub location: Seq<char>,
    pub size: u64,
    pub legal_description: Seq<char>,
    pub valuation: u64,
    pub documents_url: Seq<char>,
}

impl View for PropertyMetadata {
    type V = MetadataView;

    open spec fn view(&self) -> MetadataView {
        MetadataView {
            location: self.location@,
            size: self.size,
            legal_description: self.legal_description@,
            valuation: self.valuation,
            documents_url: self.documents_url@,
        }
    }
}

impl MetadataView {
    /// The one validation rule: the location text is non-empty.
    pub open spec fn valid(self) -> bool {
        self.location.len() > 0
    }
}

impl PropertyMetadata {
    /// Whether this metadata passes validation.
    pub fn is_valid(&self) -> (r: bool)
        ensures
            r == self@.valid(),
    {
        !self.location.as_str().is_empty()
    }

    /// An owned copy with the same value.
    pub fn duplicate(&self) -> (r: Self)
        ensures
            r@ == self@,
    {
        PropertyMetadata {
            location: self.location.clone(),
            size: self.size,
            legal_description: self.legal_description.clone(),
            valuation: self.valuation,
            documents_url: self.documents_url.clone(),
        }
    }
}

impl PartialEq for PropertyMetadata {
    fn eq(&self, other: &Self) -> (r: bool) {
        self.location == other.location && self.size == other.size
            && self.legal_description == other.legal_description
            && self.valuation == other.valuation && self.documents_url == other.documents_url
    }
}

impl vstd::std_specs::cmp::PartialEqSpecImpl for PropertyMetadata {
    open spec fn obeys_eq_spec() -> bool {
        true
    }

    open spec fn eq_spec(&self, other: &Self) -> bool {
        self@ == other@
    }
}

} // verus!
