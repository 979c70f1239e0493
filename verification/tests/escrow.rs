//! The escrow sub-ledger: creation, release, refund, and the terminal
//! state machine.

use propchain::{
    Error, EscrowState, OracleVerdict, PropertyMetadata, PropertyRegistry,
};

const ALICE: u64 = 1;
const BOB: u64 = 2;
const NOW: u64 = 42;

fn metadata() -> PropertyMetadata {
    PropertyMetadata {
        location: "123 Main St".to_string(),
        size: 1000,
        legal_description: "Test property".to_string(),
        valuation: 1000000,
        documents_url: "https://example.com/docs".to_string(),
    }
}

fn registry_with_property() -> PropertyRegistry {
    let mut contract = PropertyRegistry::new(ALICE);
    contract
        .register_property(metadata(), ALICE, NOW, OracleVerdict::Compliant)
        .expect("Failed to register property");
    contract
}

#[test]
fn create_escrow_works() {
    let mut contract = registry_with_property();
    let escrow_id = contract.create_escrow(1, 500, ALICE).expect("Failed to create escrow");
    assert_eq!(escrow_id, 1);

    let escrow = contract.get_escrow(escrow_id).unwrap();
    assert_eq!(escrow.property_id, 1);
    assert_eq!(escrow.buyer, ALICE);
    assert_eq!(escrow.seller, ALICE);
    assert_eq!(escrow.amount, 500);
    assert_eq!(escrow.state, EscrowState::Created);
}

#[test]
fn create_escrow_requires_owner() {
    let mut contract = registry_with_property();
    assert_eq!(contract.create_escrow(1, 500, BOB), Err(Error::Unauthorized));
    assert_eq!(contract.create_escrow(9, 500, ALICE), Err(Error::PropertyNotFound));
}

#[test]
fn release_escrow_works() {
    let mut contract = registry_with_property();
    let escrow_id = contract.create_escrow(1, 500, ALICE).unwrap();

    assert!(contract.release_escrow(escrow_id, ALICE, OracleVerdict::Compliant).is_ok());
    let escrow = contract.get_escrow(escrow_id).unwrap();
    assert_eq!(escrow.state, EscrowState::Released);
    // the property now belongs to the buyer
    assert_eq!(contract.get_property(1).unwrap().owner, escrow.buyer);

    // a second release attempt fails, whoever calls
    assert_eq!(
        contract.release_escrow(escrow_id, ALICE, OracleVerdict::Compliant),
        Err(Error::EscrowAlreadyReleased)
    );
    assert_eq!(
        contract.release_escrow(escrow_id, BOB, OracleVerdict::Compliant),
        Err(Error::EscrowAlreadyReleased)
    );
}

#[test]
fn release_requires_buyer() {
    let mut contract = registry_with_property();
    let escrow_id = contract.create_escrow(1, 500, ALICE).unwrap();
    assert_eq!(
        contract.release_escrow(escrow_id, BOB, OracleVerdict::Compliant),
        Err(Error::Unauthorized)
    );
    // the failed attempt changed nothing
    assert_eq!(contract.get_escrow(escrow_id).unwrap().state, EscrowState::Created);
}

#[test]
fn release_unknown_escrow_fails() {
    let mut contract = registry_with_property();
    assert_eq!(
        contract.release_escrow(5, ALICE, OracleVerdict::Compliant),
        Err(Error::EscrowNotFound)
    );
}

#[test]
fn release_propagates_transfer_failure() {
    // oracle configured and the buyer is rejected: the release fails with
    // the transfer's own error and the escrow stays Created
    let mut contract = PropertyRegistry::new_with_compliance(99, ALICE);
    contract
        .register_property(metadata(), ALICE, NOW, OracleVerdict::Compliant)
        .unwrap();
    let escrow_id = contract.create_escrow(1, 500, ALICE).unwrap();
    assert_eq!(
        contract.release_escrow(escrow_id, ALICE, OracleVerdict::NotCompliant),
        Err(Error::NotCompliant)
    );
    assert_eq!(contract.get_escrow(escrow_id).unwrap().state, EscrowState::Created);
    assert_eq!(contract.get_property(1).unwrap().owner, ALICE);
}

#[test]
fn refund_escrow_works() {
    let mut contract = registry_with_property();
    let escrow_id = contract.create_escrow(1, 500, ALICE).unwrap();

    assert!(contract.refund_escrow(escrow_id, ALICE).is_ok());
    assert_eq!(contract.get_escrow(escrow_id).unwrap().state, EscrowState::Refunded);
    // no property movement on refund
    assert_eq!(contract.get_property(1).unwrap().owner, ALICE);

    // a second resolution attempt fails, for refund and release alike
    assert_eq!(contract.refund_escrow(escrow_id, ALICE), Err(Error::EscrowAlreadyReleased));
    assert_eq!(
        contract.release_escrow(escrow_id, ALICE, OracleVerdict::Compliant),
        Err(Error::EscrowAlreadyReleased)
    );
}

#[test]
fn refund_requires_seller() {
    let mut contract = registry_with_property();
    let escrow_id = contract.create_escrow(1, 500, ALICE).unwrap();
    assert_eq!(contract.refund_escrow(escrow_id, BOB), Err(Error::Unauthorized));
    assert_eq!(contract.refund_escrow(9, ALICE), Err(Error::EscrowNotFound));
}

#[test]
fn escrow_ids_increase() {
    let mut contract = registry_with_property();
    assert_eq!(contract.create_escrow(1, 100, ALICE).unwrap(), 1);
    assert_eq!(contract.create_escrow(1, 200, ALICE).unwrap(), 2);
    assert_eq!(contract.get_escrow(2).unwrap().amount, 200);
    assert_eq!(contract.get_escrow(3), None);
}
