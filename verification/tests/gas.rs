//! Gas tracker behaviour.

use adamant_vm::runtime::{AbortReason, GasTracker, VMError};
use adamant_vm::{GasBudget, GasDimension};

#[test]
fn from_budget_copies_all_six_fields() {
    let budget = GasBudget {
        computation: 1,
        storage: 2,
        rent: 3,
        bandwidth: 4,
        proof_verification: 5,
        proof_generation: 6,
    };
    let tracker = GasTracker::from_budget(&budget);
    assert_eq!(tracker.computation, 1);
    assert_eq!(tracker.storage, 2);
    assert_eq!(tracker.rent, 3);
    assert_eq!(tracker.bandwidth, 4);
    assert_eq!(tracker.proof_verification, 5);
    assert_eq!(tracker.proof_generation, 6);
}

#[test]
fn charge_deducts_from_named_dimension_only() {
    let budget = GasBudget {
        computation: 100,
        storage: 100,
        rent: 100,
        bandwidth: 100,
        proof_verification: 100,
        proof_generation: 100,
    };
    let mut t = GasTracker::from_budget(&budget);
    t.charge(GasDimension::Computation, 25).expect("ok");
    assert_eq!(t.computation, 75);
    assert_eq!(t.storage, 100);
    assert_eq!(t.rent, 100);
    assert_eq!(t.bandwidth, 100);
    assert_eq!(t.proof_verification, 100);
    assert_eq!(t.proof_generation, 100);
}

#[test]
fn charge_zero_is_no_op() {
    let mut t = GasTracker::empty();
    t.charge(GasDimension::Computation, 0).expect("ok");
    assert_eq!(t.computation, 0);
}

#[test]
fn charge_exactly_remaining_drains_to_zero() {
    let budget = GasBudget {
        computation: 50,
        storage: 0,
        rent: 0,
        bandwidth: 0,
        proof_verification: 0,
        proof_generation: 0,
    };
    let mut t = GasTracker::from_budget(&budget);
    t.charge(GasDimension::Computation, 50).expect("ok");
    assert_eq!(t.computation, 0);
}

#[test]
fn charge_overflow_surfaces_out_of_gas() {
    let budget = GasBudget {
        computation: 10,
        storage: 0,
        rent: 0,
        bandwidth: 0,
        proof_verification: 0,
        proof_generation: 0,
    };
    let mut t = GasTracker::from_budget(&budget);
    let result = t.charge(GasDimension::Computation, 11);
    assert!(matches!(
        result,
        Err(VMError::AbortError {
            reason: AbortReason::OutOfGas {
                dimension: GasDimension::Computation
            }
        })
    ));
    assert_eq!(t.computation, 10);
}

#[test]
fn out_of_gas_carries_dimension_payload() {
    let budget = GasBudget {
        computation: 0,
        storage: 5,
        rent: 0,
        bandwidth: 0,
        proof_verification: 0,
        proof_generation: 0,
    };
    let mut t = GasTracker::from_budget(&budget);
    let result = t.charge(GasDimension::Storage, 100);
    assert!(matches!(
        result,
        Err(VMError::AbortError {
            reason: AbortReason::OutOfGas {
                dimension: GasDimension::Storage
            }
        })
    ));
}

#[test]
fn remaining_reflects_charged_amount() {
    let budget = GasBudget {
        computation: 0,
        storage: 0,
        rent: 0,
        bandwidth: 1000,
        proof_verification: 0,
        proof_generation: 0,
    };
    let mut t = GasTracker::from_budget(&budget);
    assert_eq!(t.remaining(GasDimension::Bandwidth), 1000);
    t.charge(GasDimension::Bandwidth, 250).expect("ok");
    assert_eq!(t.remaining(GasDimension::Bandwidth), 750);
    t.charge(GasDimension::Bandwidth, 500).expect("ok");
    assert_eq!(t.remaining(GasDimension::Bandwidth), 250);
}

#[test]
fn all_six_dimensions_chargeable() {
    let budget = GasBudget {
        computation: 100,
        storage: 100,
        rent: 100,
        bandwidth: 100,
        proof_verification: 100,
        proof_generation: 100,
    };
    let mut t = GasTracker::from_budget(&budget);
    let dims = [
        GasDimension::Computation,
        GasDimension::Storage,
        GasDimension::Rent,
        GasDimension::Bandwidth,
        GasDimension::ProofVerification,
        GasDimension::ProofGeneration,
    ];
    for dim in dims {
        t.charge(dim, 10).expect("ok");
        assert_eq!(t.remaining(dim), 90);
    }
}

#[test]
fn empty_tracker_is_zero_everywhere() {
    let t = GasTracker::empty();
    for dim in [
        GasDimension::Computation,
        GasDimension::Storage,
        GasDimension::Rent,
        GasDimension::Bandwidth,
        GasDimension::ProofVerification,
        GasDimension::ProofGeneration,
    ] {
        assert_eq!(t.remaining(dim), 0);
    }
}
