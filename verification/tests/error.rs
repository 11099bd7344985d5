//! Runtime error lifting.

use adamant_vm::runtime::{CommitError, InvariantViolationReason, LoadError, VMError};
use adamant_vm::ObjectId;

#[test]
fn from_load_error_lifts_into_vmerror_load() {
    let id = ObjectId::from_bytes([0x01; 32]);
    let load_err = LoadError::ObjectNotFound { id };
    let vm_err: VMError = load_err.into();
    assert!(matches!(
        vm_err,
        VMError::Load(LoadError::ObjectNotFound { .. })
    ));
}

#[test]
fn from_commit_error_lifts_into_vmerror_commit() {
    let id = ObjectId::from_bytes([0x02; 32]);
    let commit_err = CommitError::ObjectIdCollision { id };
    let vm_err: VMError = commit_err.into();
    assert!(matches!(
        vm_err,
        VMError::Commit(CommitError::ObjectIdCollision { .. })
    ));
}

#[test]
fn invariant_violation_carries_typed_reason() {
    let err = VMError::InvariantViolation {
        reason: InvariantViolationReason::PrivacyModeMismatchPostVerification,
    };
    assert!(matches!(
        err,
        VMError::InvariantViolation {
            reason: InvariantViolationReason::PrivacyModeMismatchPostVerification,
        }
    ));
}
