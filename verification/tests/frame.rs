//! Call frames.

use adamant_vm::runtime::{Frame, InvariantViolationReason, PrivacyMode, VMError};
use adamant_vm::{FunctionHandleIndex, Value};

fn function_handle(idx: u16) -> FunctionHandleIndex {
    FunctionHandleIndex(idx)
}

#[test]
fn new_frame_has_empty_stack_unoccupied_locals_and_pc_zero() {
    let frame = Frame::new(function_handle(7), 4);
    assert_eq!(frame.function_handle, function_handle(7));
    assert!(frame.stack.is_empty());
    assert_eq!(frame.locals.len(), 4);
    assert!(frame.locals.iter().all(Option::is_none));
    assert_eq!(frame.pc, 0);
    assert_eq!(frame.privacy_mode, PrivacyMode::Transparent);
}

#[test]
fn frame_stack_is_empty_helper() {
    let frame = Frame::new(function_handle(0), 0);
    assert!(frame.stack_is_empty());
}

#[test]
fn pop_typed_value_of_wrong_type_consumes_it() {
    let mut frame = Frame::new(function_handle(0), 0);
    frame.push_value(Value::U64(3));
    frame.push_value(Value::Bool(true));
    let err = frame.pop_u64().expect_err("wrong type");
    assert_eq!(
        err,
        VMError::InvariantViolation { reason: InvariantViolationReason::TypeMismatchOnStack }
    );
    assert_eq!(frame.stack, vec![Value::U64(3)]);
    assert_eq!(frame.pop_u64(), Ok(3));
    assert_eq!(
        frame.pop_value(),
        Err(VMError::InvariantViolation { reason: InvariantViolationReason::StackUnderflow })
    );
}

#[test]
fn locals_copy_move_and_store() {
    let mut frame = Frame::new_with_privacy(function_handle(1), 2, PrivacyMode::Shielded);
    assert_eq!(frame.privacy_mode, PrivacyMode::Shielded);
    assert_eq!(
        frame.copy_loc(0),
        Err(VMError::InvariantViolation { reason: InvariantViolationReason::LocalNotInitialized })
    );
    frame.st_loc(1, Value::Vector(vec![Value::U8(1), Value::U8(2)])).expect("store");
    assert_eq!(frame.copy_loc(1), Ok(Value::Vector(vec![Value::U8(1), Value::U8(2)])));
    assert_eq!(frame.move_loc(1), Ok(Value::Vector(vec![Value::U8(1), Value::U8(2)])));
    assert!(frame.locals[1].is_none());
    assert_eq!(
        frame.st_loc(2, Value::U8(0)),
        Err(VMError::InvariantViolation {
            reason: InvariantViolationReason::IndexOutOfBoundsPostVerification
        })
    );
}
