//! The registry's core operations: registration, transfer, metadata and
//! approval handling.

use propchain::{Error, OracleVerdict, PropertyMetadata, PropertyRegistry};

const ALICE: u64 = 1;
const BOB: u64 = 2;
const CHARLIE: u64 = 3;
const NOW: u64 = 42;

fn metadata() -> PropertyMetadata {
    PropertyMetadata {
        location: "123 Main St".to_string(),
        size: 1000,
        legal_description: "Test property".to_string(),
        valuation: 1000000,
        documents_url: "https://example.com/docs".to_string(),
    }
}

fn updated_metadata() -> PropertyMetadata {
    PropertyMetadata {
        location: "123 Main St Updated".to_string(),
        size: 1100,
        legal_description: "Test property updated".to_string(),
        valuation: 1100000,
        documents_url: "https://example.com/docs/new".to_string(),
    }
}

#[test]
fn new_works() {
    let contract = PropertyRegistry::new(ALICE);
    assert_eq!(contract.property_count(), 0);
}

#[test]
fn register_property_works() {
    let mut contract = PropertyRegistry::new(ALICE);

    let property_id = contract
        .register_property(metadata(), ALICE, NOW, OracleVerdict::Compliant)
        .expect("Failed to register property");
    assert_eq!(property_id, 1);
    assert_eq!(contract.property_count(), 1);

    let property = contract.get_property(property_id).unwrap();
    assert_eq!(property.owner, ALICE);
    assert_eq!(property.metadata.location, "123 Main St");
}

#[test]
fn transfer_property_works() {
    let mut contract = PropertyRegistry::new(ALICE);

    let property_id = contract
        .register_property(metadata(), ALICE, NOW, OracleVerdict::Compliant)
        .expect("Failed to register property");

    // Transfer to bob
    assert!(contract
        .transfer_property(property_id, BOB, ALICE, OracleVerdict::Compliant)
        .is_ok());

    let property = contract.get_property(property_id).unwrap();
    assert_eq!(property.owner, BOB);
}

#[test]
fn transfer_unauthorized_fails() {
    let mut contract = PropertyRegistry::new(ALICE);

    let property_id = contract
        .register_property(metadata(), ALICE, NOW, OracleVerdict::Compliant)
        .expect("Failed to register property");

    // Try to transfer as charlie (not owner)
    assert_eq!(
        contract.transfer_property(property_id, BOB, CHARLIE, OracleVerdict::Compliant),
        Err(Error::Unauthorized)
    );
}

#[test]
fn get_nonexistent_property_fails() {
    let contract = PropertyRegistry::new(ALICE);
    assert_eq!(contract.get_property(999), None);
}

#[test]
fn update_metadata_works() {
    let mut contract = PropertyRegistry::new(ALICE);

    let property_id = contract
        .register_property(metadata(), ALICE, NOW, OracleVerdict::Compliant)
        .expect("Failed to register");

    let new_metadata = updated_metadata();
    assert!(contract
        .update_metadata(property_id, new_metadata.clone(), ALICE)
        .is_ok());

    let property = contract.get_property(property_id).unwrap();
    assert_eq!(property.metadata, new_metadata);

    // Check event emission
    let events = contract.events();
    assert!(events.len() > 1); // Registration + Update
}

#[test]
fn update_metadata_unauthorized_fails() {
    let mut contract = PropertyRegistry::new(ALICE);

    let property_id = contract
        .register_property(metadata(), ALICE, NOW, OracleVerdict::Compliant)
        .expect("Failed to register");

    assert_eq!(
        contract.update_metadata(property_id, updated_metadata(), BOB),
        Err(Error::Unauthorized)
    );
}

#[test]
fn approval_work() {
    let mut contract = PropertyRegistry::new(ALICE);

    let property_id = contract
        .register_property(metadata(), ALICE, NOW, OracleVerdict::Compliant)
        .expect("Failed to register");

    // Approve Bob
    assert!(contract.approve(property_id, Some(BOB), ALICE).is_ok());
    assert_eq!(contract.get_approved(property_id), Some(BOB));

    // Bob transfers property
    assert!(contract
        .transfer_property(property_id, CHARLIE, BOB, OracleVerdict::Compliant)
        .is_ok());

    let property = contract.get_property(property_id).unwrap();
    assert_eq!(property.owner, CHARLIE);

    // Approval should be cleared
    assert_eq!(contract.get_approved(property_id), None);
}

#[test]
fn update_metadata_not_found_fails() {
    let mut contract = PropertyRegistry::new(ALICE);
    assert_eq!(
        contract.update_metadata(7, updated_metadata(), ALICE),
        Err(Error::PropertyNotFound)
    );
}

#[test]
fn transfer_not_found_fails() {
    let mut contract = PropertyRegistry::new(ALICE);
    assert_eq!(
        contract.transfer_property(1, BOB, ALICE, OracleVerdict::Compliant),
        Err(Error::PropertyNotFound)
    );
}

#[test]
fn approve_requires_owner() {
    let mut contract = PropertyRegistry::new(ALICE);
    let property_id = contract
        .register_property(metadata(), ALICE, NOW, OracleVerdict::Compliant)
        .unwrap();
    assert_eq!(
        contract.approve(property_id, Some(CHARLIE), BOB),
        Err(Error::Unauthorized)
    );
    assert_eq!(contract.approve(9, Some(BOB), ALICE), Err(Error::PropertyNotFound));
}

#[test]
fn clearing_approval_emits_event() {
    let mut contract = PropertyRegistry::new(ALICE);
    let property_id = contract
        .register_property(metadata(), ALICE, NOW, OracleVerdict::Compliant)
        .unwrap();
    contract.approve(property_id, Some(BOB), ALICE).unwrap();
    let before = contract.events().len();
    contract.approve(property_id, None, ALICE).unwrap();
    assert_eq!(contract.get_approved(property_id), None);
    let events = contract.events();
    assert_eq!(events.len(), before + 1);
    match events[events.len() - 1] {
        propchain::Event::ApprovalChanged(a) => {
            assert_eq!(a.property_id, property_id);
            assert_eq!(a.delegate, None);
        }
        _ => panic!("expected an approval event"),
    }
}

#[test]
fn transfer_event_names_previous_owner() {
    let mut contract = PropertyRegistry::new(ALICE);
    let property_id = contract
        .register_property(metadata(), ALICE, NOW, OracleVerdict::Compliant)
        .unwrap();
    contract
        .transfer_property(property_id, BOB, ALICE, OracleVerdict::Compliant)
        .unwrap();
    let events = contract.events();
    match events[events.len() - 1] {
        propchain::Event::Transferred(t) => {
            assert_eq!(t.property_id, property_id);
            assert_eq!(t.from, ALICE);
            assert_eq!(t.to, BOB);
        }
        _ => panic!("expected a transfer event"),
    }
}

#[test]
fn registered_timestamp_is_kept() {
    let mut contract = PropertyRegistry::new(ALICE);
    let property_id = contract
        .register_property(metadata(), ALICE, 777, OracleVerdict::Compliant)
        .unwrap();
    assert_eq!(contract.get_property(property_id).unwrap().registered_at, 777);
}
