//! Instruction semantics of the interpreter.

use adamant_vm::module::{
    Constant, FunctionHandle, IdentifierIndex, ModuleHandleIndex, Signature, SignatureToken,
    Visibility,
};
use adamant_vm::runtime::interpreter::{dispatch_instruction, do_call};
use adamant_vm::runtime::{
    AbortReason, ArithmeticErrorReason, DispatchOutcome, Frame, InterpreterState,
    InvariantViolationReason, VMError,
};
use adamant_vm::{
    AdamantCodeUnit, AdamantCompiledModule, AdamantFunctionDefinition, Bytecode,
    BytecodeInstruction, ConstantPoolIndex, FunctionHandleIndex, FunctionInstantiationIndex,
    SignatureIndex, StructDefinitionIndex, StructValue, Value, U256, Address,
};

fn fh(idx: u16) -> FunctionHandleIndex {
    FunctionHandleIndex(idx)
}

fn empty_module() -> AdamantCompiledModule {
    AdamantCompiledModule::default()
}

fn state_with_frame(local_count: usize) -> InterpreterState {
    let mut state = InterpreterState::new();
    state.push_frame(Frame::new(fh(0), local_count));
    state
}

fn push_stack(state: &mut InterpreterState, values: Vec<Value>) {
    let frame = state.top_frame_mut().expect("frame");
    for v in values {
        frame.push_value(v);
    }
}

fn dispatch(
    state: &mut InterpreterState,
    opcode: Bytecode,
) -> Result<DispatchOutcome, VMError> {
    let module = empty_module();
    dispatch_instruction(&BytecodeInstruction::Inherited(opcode), state, &module)
}

fn top(state: &InterpreterState) -> Value {
    state
        .top_frame()
        .expect("frame")
        .stack
        .last()
        .cloned()
        .expect("non-empty stack")
}

fn pc(state: &InterpreterState) -> u16 {
    state.top_frame().expect("frame").pc
}

fn stack_len(state: &InterpreterState) -> usize {
    state.top_frame().expect("frame").stack.len()
}

#[test]
fn push_frame_extends_call_stack() {
    let mut state = InterpreterState::new();
    assert_eq!(state.frame_depth(), 0);
    state.push_frame(Frame::new(fh(0), 0));
    assert_eq!(state.frame_depth(), 1);
    state.push_frame(Frame::new(fh(1), 0));
    assert_eq!(state.frame_depth(), 2);
}

#[test]
fn pop_frame_returns_none_on_empty_stack() {
    let mut state = InterpreterState::new();
    assert!(state.pop_frame().is_none());
}

#[test]
fn pop_removes_top_of_stack_and_advances_pc() {
    let mut state = state_with_frame(0);
    push_stack(&mut state, vec![Value::U64(42)]);
    dispatch(&mut state, Bytecode::Pop).expect("ok");
    assert_eq!(stack_len(&state), 0);
    assert_eq!(pc(&state), 1);
}

#[test]
fn pop_on_empty_stack_invariant_violation() {
    let mut state = state_with_frame(0);
    let err = dispatch(&mut state, Bytecode::Pop).expect_err("err");
    assert!(matches!(
        err,
        VMError::InvariantViolation {
            reason: InvariantViolationReason::StackUnderflow,
        }
    ));
}

#[test]
fn ret_pops_last_frame_and_halts() {
    let mut state = state_with_frame(0);
    let outcome = dispatch(&mut state, Bytecode::Ret).expect("ok");
    assert_eq!(outcome, DispatchOutcome::Halt);
    assert!(state.is_empty());
}

#[test]
fn branch_sets_pc_to_target() {
    let mut state = state_with_frame(0);
    dispatch(&mut state, Bytecode::Branch(42)).expect("ok");
    assert_eq!(pc(&state), 42);
}

#[test]
fn br_true_branches_when_true() {
    let mut state = state_with_frame(0);
    push_stack(&mut state, vec![Value::Bool(true)]);
    dispatch(&mut state, Bytecode::BrTrue(42)).expect("ok");
    assert_eq!(pc(&state), 42);
}

#[test]
fn br_true_advances_pc_when_false() {
    let mut state = state_with_frame(0);
    push_stack(&mut state, vec![Value::Bool(false)]);
    dispatch(&mut state, Bytecode::BrTrue(42)).expect("ok");
    assert_eq!(pc(&state), 1);
}

#[test]
fn br_false_branches_when_false() {
    let mut state = state_with_frame(0);
    push_stack(&mut state, vec![Value::Bool(false)]);
    dispatch(&mut state, Bytecode::BrFalse(42)).expect("ok");
    assert_eq!(pc(&state), 42);
}

#[test]
fn br_false_advances_pc_when_true() {
    let mut state = state_with_frame(0);
    push_stack(&mut state, vec![Value::Bool(true)]);
    dispatch(&mut state, Bytecode::BrFalse(42)).expect("ok");
    assert_eq!(pc(&state), 1);
}

#[test]
fn br_true_on_non_bool_invariant_violation() {
    let mut state = state_with_frame(0);
    push_stack(&mut state, vec![Value::U64(1)]);
    let err = dispatch(&mut state, Bytecode::BrTrue(42)).expect_err("err");
    assert!(matches!(
        err,
        VMError::InvariantViolation {
            reason: InvariantViolationReason::TypeMismatchOnStack,
        }
    ));
}

#[test]
fn ld_u8_pushes_immediate() {
    let mut state = state_with_frame(0);
    dispatch(&mut state, Bytecode::LdU8(0xAB)).expect("ok");
    assert_eq!(top(&state), Value::U8(0xAB));
    assert_eq!(pc(&state), 1);
}

#[test]
fn ld_u16_pushes_immediate() {
    let mut state = state_with_frame(0);
    dispatch(&mut state, Bytecode::LdU16(0xABCD)).expect("ok");
    assert_eq!(top(&state), Value::U16(0xABCD));
}

#[test]
fn ld_u32_pushes_immediate() {
    let mut state = state_with_frame(0);
    dispatch(&mut state, Bytecode::LdU32(0xABCD_1234)).expect("ok");
    assert_eq!(top(&state), Value::U32(0xABCD_1234));
}

#[test]
fn ld_u64_pushes_immediate() {
    let mut state = state_with_frame(0);
    dispatch(&mut state, Bytecode::LdU64(0xDEAD_BEEF_CAFE_BABE)).expect("ok");
    assert_eq!(top(&state), Value::U64(0xDEAD_BEEF_CAFE_BABE));
}

#[test]
fn ld_u128_pushes_immediate() {
    let mut state = state_with_frame(0);
    let v = 0x1234_5678_9ABC_DEF0_FEDC_BA98_7654_3210u128;
    dispatch(&mut state, Bytecode::LdU128(Box::new(v))).expect("ok");
    assert_eq!(top(&state), Value::U128(v));
}

#[test]
fn ld_u256_pushes_immediate() {
    let mut state = state_with_frame(0);
    let mut bytes = [0u8; 32];
    bytes[0] = 0x42;
    let u = U256::from_le_bytes(&bytes);
    dispatch(&mut state, Bytecode::LdU256(Box::new(u))).expect("ok");
    assert_eq!(top(&state), Value::U256(bytes));
}

#[test]
fn ld_true_pushes_bool() {
    let mut state = state_with_frame(0);
    dispatch(&mut state, Bytecode::LdTrue).expect("ok");
    assert_eq!(top(&state), Value::Bool(true));
}

#[test]
fn ld_false_pushes_bool() {
    let mut state = state_with_frame(0);
    dispatch(&mut state, Bytecode::LdFalse).expect("ok");
    assert_eq!(top(&state), Value::Bool(false));
}

#[test]
fn ld_const_on_empty_pool_surfaces_index_out_of_bounds() {
    let mut state = state_with_frame(0);
    let err =
        dispatch(&mut state, Bytecode::LdConst(ConstantPoolIndex::new(0))).expect_err("err");
    assert!(matches!(
        err,
        VMError::InvariantViolation {
            reason: InvariantViolationReason::IndexOutOfBoundsPostVerification,
        }
    ));
}

#[test]
fn ld_const_decodes_u64_constant() {
    let mut state = state_with_frame(0);
    let mut module = empty_module();
    let value: u64 = 0x1234_5678;
    module.constant_pool.push(Constant {
        type_: SignatureToken::U64,
        data: bcs::to_bytes(&value).expect("bcs encode"),
    });
    dispatch_instruction(
        &BytecodeInstruction::Inherited(Bytecode::LdConst(ConstantPoolIndex::new(0))),
        &mut state,
        &module,
    )
    .expect("ok");
    assert_eq!(top(&state), Value::U64(value));
}

#[test]
fn ld_const_decodes_bool_constant() {
    let mut state = state_with_frame(0);
    let mut module = empty_module();
    module.constant_pool.push(Constant {
        type_: SignatureToken::Bool,
        data: bcs::to_bytes(&true).expect("bcs encode"),
    });
    dispatch_instruction(
        &BytecodeInstruction::Inherited(Bytecode::LdConst(ConstantPoolIndex::new(0))),
        &mut state,
        &module,
    )
    .expect("ok");
    assert_eq!(top(&state), Value::Bool(true));
}

#[test]
fn ld_const_decodes_address_constant() {
    let mut state = state_with_frame(0);
    let mut module = empty_module();
    let addr = Address::from_bytes([0x42; 32]);
    module.constant_pool.push(Constant {
        type_: SignatureToken::Address,
        data: bcs::to_bytes(&addr.to_bytes()).expect("bcs encode"),
    });
    dispatch_instruction(
        &BytecodeInstruction::Inherited(Bytecode::LdConst(ConstantPoolIndex::new(0))),
        &mut state,
        &module,
    )
    .expect("ok");
    assert_eq!(top(&state), Value::Address(addr));
}

#[test]
fn ld_const_decodes_vector_u8_constant() {
    let mut state = state_with_frame(0);
    let mut module = empty_module();
    let bytes: Vec<u8> = vec![0x01, 0x02, 0x03];
    module.constant_pool.push(Constant {
        type_: SignatureToken::Vector(Box::new(SignatureToken::U8)),
        data: bcs::to_bytes(&bytes).expect("bcs encode"),
    });
    dispatch_instruction(
        &BytecodeInstruction::Inherited(Bytecode::LdConst(ConstantPoolIndex::new(0))),
        &mut state,
        &module,
    )
    .expect("ok");
    if let Value::Vector(elements) = top(&state) {
        assert_eq!(elements.len(), 3);
        assert_eq!(elements[0], Value::U8(0x01));
        assert_eq!(elements[1], Value::U8(0x02));
        assert_eq!(elements[2], Value::U8(0x03));
    } else {
        panic!("expected Vector container");
    }
}

#[test]
fn cast_u8_same_type_succeeds() {
    let mut state = state_with_frame(0);
    push_stack(&mut state, vec![Value::U8(42)]);
    dispatch(&mut state, Bytecode::CastU8).expect("ok");
    assert_eq!(top(&state), Value::U8(42));
}

#[test]
fn cast_u64_widening_from_u8_succeeds() {
    let mut state = state_with_frame(0);
    push_stack(&mut state, vec![Value::U8(42)]);
    dispatch(&mut state, Bytecode::CastU64).expect("ok");
    assert_eq!(top(&state), Value::U64(42));
}

#[test]
fn cast_u8_narrowing_in_range_succeeds() {
    let mut state = state_with_frame(0);
    push_stack(&mut state, vec![Value::U64(255)]);
    dispatch(&mut state, Bytecode::CastU8).expect("ok");
    assert_eq!(top(&state), Value::U8(255));
}

#[test]
fn cast_u8_narrowing_out_of_range_aborts() {
    let mut state = state_with_frame(0);
    push_stack(&mut state, vec![Value::U64(256)]);
    let err = dispatch(&mut state, Bytecode::CastU8).expect_err("aborts");
    assert!(matches!(
        err,
        VMError::ArithmeticError {
            reason: ArithmeticErrorReason::CastNotRepresentable,
        }
    ));
}

#[test]
fn cast_u256_widening_from_u128_succeeds() {
    let mut state = state_with_frame(0);
    push_stack(&mut state, vec![Value::U128(u128::MAX)]);
    dispatch(&mut state, Bytecode::CastU256).expect("ok");
    let u = U256::from_u128(u128::MAX);
    assert_eq!(top(&state), Value::U256(u.to_le_bytes()));
}

#[test]
fn cast_u128_narrowing_from_u256_in_range() {
    let mut state = state_with_frame(0);
    let u = U256::from_u128(u128::MAX);
    push_stack(&mut state, vec![Value::U256(u.to_le_bytes())]);
    dispatch(&mut state, Bytecode::CastU128).expect("ok");
    assert_eq!(top(&state), Value::U128(u128::MAX));
}

#[test]
fn cast_u128_narrowing_from_u256_out_of_range_aborts() {
    let mut state = state_with_frame(0);
    let mut bytes = [0u8; 32];
    bytes[16] = 1;
    push_stack(&mut state, vec![Value::U256(bytes)]);
    let err = dispatch(&mut state, Bytecode::CastU128).expect_err("aborts");
    assert!(matches!(
        err,
        VMError::ArithmeticError {
            reason: ArithmeticErrorReason::CastNotRepresentable,
        }
    ));
}

#[test]
fn cast_u16_pinned() {
    let mut state = state_with_frame(0);
    push_stack(&mut state, vec![Value::U8(42)]);
    dispatch(&mut state, Bytecode::CastU16).expect("ok");
    assert_eq!(top(&state), Value::U16(42));
}

#[test]
fn cast_u32_pinned() {
    let mut state = state_with_frame(0);
    push_stack(&mut state, vec![Value::U64(0xFFFF)]);
    dispatch(&mut state, Bytecode::CastU32).expect("ok");
    assert_eq!(top(&state), Value::U32(0xFFFF));
}

#[test]
fn copy_loc_clones_local_to_stack() {
    let mut state = state_with_frame(2);
    state
        .top_frame_mut()
        .expect("frame")
        .st_loc(0, Value::U64(7))
        .expect("ok");
    dispatch(&mut state, Bytecode::CopyLoc(0)).expect("ok");
    assert_eq!(top(&state), Value::U64(7));
    assert!(state.top_frame().expect("frame").locals[0].is_some());
}

#[test]
fn move_loc_takes_local_to_stack() {
    let mut state = state_with_frame(2);
    state
        .top_frame_mut()
        .expect("frame")
        .st_loc(0, Value::U64(7))
        .expect("ok");
    dispatch(&mut state, Bytecode::MoveLoc(0)).expect("ok");
    assert_eq!(top(&state), Value::U64(7));
    assert!(state.top_frame().expect("frame").locals[0].is_none());
}

#[test]
fn st_loc_stores_stack_top_to_local() {
    let mut state = state_with_frame(2);
    push_stack(&mut state, vec![Value::U64(99)]);
    dispatch(&mut state, Bytecode::StLoc(0)).expect("ok");
    assert_eq!(stack_len(&state), 0);
    assert_eq!(
        state.top_frame().expect("frame").locals[0],
        Some(Value::U64(99))
    );
}

#[test]
fn copy_loc_uninitialized_invariant_violation() {
    let mut state = state_with_frame(2);
    let err = dispatch(&mut state, Bytecode::CopyLoc(0)).expect_err("err");
    assert!(matches!(
        err,
        VMError::InvariantViolation {
            reason: InvariantViolationReason::LocalNotInitialized,
        }
    ));
}

#[test]
fn copy_loc_out_of_bounds_invariant_violation() {
    let mut state = state_with_frame(2);
    let err = dispatch(&mut state, Bytecode::CopyLoc(99)).expect_err("err");
    assert!(matches!(
        err,
        VMError::InvariantViolation {
            reason: InvariantViolationReason::IndexOutOfBoundsPostVerification,
        }
    ));
}

#[test]
fn add_u64_within_range() {
    let mut state = state_with_frame(0);
    push_stack(
        &mut state,
        vec![Value::U64(7), Value::U64(11)],
    );
    dispatch(&mut state, Bytecode::Add).expect("ok");
    assert_eq!(top(&state), Value::U64(18));
}

#[test]
fn add_u64_overflow_aborts() {
    let mut state = state_with_frame(0);
    push_stack(
        &mut state,
        vec![Value::U64(u64::MAX), Value::U64(1)],
    );
    let err = dispatch(&mut state, Bytecode::Add).expect_err("aborts");
    assert!(matches!(
        err,
        VMError::ArithmeticError {
            reason: ArithmeticErrorReason::Overflow,
        }
    ));
}

#[test]
fn sub_u64_underflow_aborts() {
    let mut state = state_with_frame(0);
    push_stack(&mut state, vec![Value::U64(0), Value::U64(1)]);
    let err = dispatch(&mut state, Bytecode::Sub).expect_err("aborts");
    assert!(matches!(
        err,
        VMError::ArithmeticError {
            reason: ArithmeticErrorReason::Underflow,
        }
    ));
}

#[test]
fn mul_u8_overflow_aborts() {
    let mut state = state_with_frame(0);
    push_stack(&mut state, vec![Value::U8(255), Value::U8(2)]);
    let err = dispatch(&mut state, Bytecode::Mul).expect_err("aborts");
    assert!(matches!(
        err,
        VMError::ArithmeticError {
            reason: ArithmeticErrorReason::Overflow,
        }
    ));
}

#[test]
fn div_by_zero_aborts() {
    let mut state = state_with_frame(0);
    push_stack(
        &mut state,
        vec![Value::U64(100), Value::U64(0)],
    );
    let err = dispatch(&mut state, Bytecode::Div).expect_err("aborts");
    assert!(matches!(
        err,
        VMError::ArithmeticError {
            reason: ArithmeticErrorReason::DivisionByZero,
        }
    ));
}

#[test]
fn rem_by_zero_aborts() {
    let mut state = state_with_frame(0);
    push_stack(
        &mut state,
        vec![Value::U64(100), Value::U64(0)],
    );
    let err = dispatch(&mut state, Bytecode::Mod).expect_err("aborts");
    assert!(matches!(
        err,
        VMError::ArithmeticError {
            reason: ArithmeticErrorReason::DivisionByZero,
        }
    ));
}

#[test]
fn div_normal() {
    let mut state = state_with_frame(0);
    push_stack(
        &mut state,
        vec![Value::U64(100), Value::U64(7)],
    );
    dispatch(&mut state, Bytecode::Div).expect("ok");
    assert_eq!(top(&state), Value::U64(14));
}

#[test]
fn mod_normal() {
    let mut state = state_with_frame(0);
    push_stack(
        &mut state,
        vec![Value::U64(100), Value::U64(7)],
    );
    dispatch(&mut state, Bytecode::Mod).expect("ok");
    assert_eq!(top(&state), Value::U64(2));
}

#[test]
fn add_u256_within_range() {
    let mut state = state_with_frame(0);
    let a = U256::from_u64(7);
    let b = U256::from_u64(11);
    push_stack(
        &mut state,
        vec![
            Value::U256(a.to_le_bytes()),
            Value::U256(b.to_le_bytes()),
        ],
    );
    dispatch(&mut state, Bytecode::Add).expect("ok");
    let expected = U256::from_u64(18);
    assert_eq!(top(&state), Value::U256(expected.to_le_bytes()));
}

#[test]
fn add_u256_overflow_aborts() {
    let mut state = state_with_frame(0);
    let max = U256 { lo: u128::MAX, hi: u128::MAX };
    let one = U256::from_u8(1);
    push_stack(
        &mut state,
        vec![
            Value::U256(max.to_le_bytes()),
            Value::U256(one.to_le_bytes()),
        ],
    );
    let err = dispatch(&mut state, Bytecode::Add).expect_err("aborts");
    assert!(matches!(
        err,
        VMError::ArithmeticError {
            reason: ArithmeticErrorReason::Overflow,
        }
    ));
}

#[test]
fn add_mixed_width_invariant_violation() {
    let mut state = state_with_frame(0);
    push_stack(&mut state, vec![Value::U64(1), Value::U32(1)]);
    let err = dispatch(&mut state, Bytecode::Add).expect_err("err");
    assert!(matches!(
        err,
        VMError::InvariantViolation {
            reason: InvariantViolationReason::TypeMismatchOnStack,
        }
    ));
}

#[test]
fn bitand_u64() {
    let mut state = state_with_frame(0);
    push_stack(
        &mut state,
        vec![Value::U64(0xFF), Value::U64(0x0F)],
    );
    dispatch(&mut state, Bytecode::BitAnd).expect("ok");
    assert_eq!(top(&state), Value::U64(0x0F));
}

#[test]
fn bitor_u64() {
    let mut state = state_with_frame(0);
    push_stack(
        &mut state,
        vec![Value::U64(0xF0), Value::U64(0x0F)],
    );
    dispatch(&mut state, Bytecode::BitOr).expect("ok");
    assert_eq!(top(&state), Value::U64(0xFF));
}

#[test]
fn xor_u64() {
    let mut state = state_with_frame(0);
    push_stack(
        &mut state,
        vec![Value::U64(0xFF), Value::U64(0x0F)],
    );
    dispatch(&mut state, Bytecode::Xor).expect("ok");
    assert_eq!(top(&state), Value::U64(0xF0));
}

#[test]
fn and_bool() {
    let mut state = state_with_frame(0);
    push_stack(
        &mut state,
        vec![Value::Bool(true), Value::Bool(false)],
    );
    dispatch(&mut state, Bytecode::And).expect("ok");
    assert_eq!(top(&state), Value::Bool(false));
}

#[test]
fn or_bool() {
    let mut state = state_with_frame(0);
    push_stack(
        &mut state,
        vec![Value::Bool(true), Value::Bool(false)],
    );
    dispatch(&mut state, Bytecode::Or).expect("ok");
    assert_eq!(top(&state), Value::Bool(true));
}

#[test]
fn not_bool() {
    let mut state = state_with_frame(0);
    push_stack(&mut state, vec![Value::Bool(true)]);
    dispatch(&mut state, Bytecode::Not).expect("ok");
    assert_eq!(top(&state), Value::Bool(false));
}

#[test]
fn lt_u64() {
    let mut state = state_with_frame(0);
    push_stack(&mut state, vec![Value::U64(1), Value::U64(2)]);
    dispatch(&mut state, Bytecode::Lt).expect("ok");
    assert_eq!(top(&state), Value::Bool(true));
}

#[test]
fn gt_u64() {
    let mut state = state_with_frame(0);
    push_stack(&mut state, vec![Value::U64(2), Value::U64(1)]);
    dispatch(&mut state, Bytecode::Gt).expect("ok");
    assert_eq!(top(&state), Value::Bool(true));
}

#[test]
fn le_u64_equal() {
    let mut state = state_with_frame(0);
    push_stack(&mut state, vec![Value::U64(5), Value::U64(5)]);
    dispatch(&mut state, Bytecode::Le).expect("ok");
    assert_eq!(top(&state), Value::Bool(true));
}

#[test]
fn ge_u64_equal() {
    let mut state = state_with_frame(0);
    push_stack(&mut state, vec![Value::U64(5), Value::U64(5)]);
    dispatch(&mut state, Bytecode::Ge).expect("ok");
    assert_eq!(top(&state), Value::Bool(true));
}

#[test]
fn lt_u256_unsigned_counter_example() {
    let mut state = state_with_frame(0);
    let one = U256::from_u64(1);
    let five_twelve = U256::from_u64(512);
    push_stack(
        &mut state,
        vec![
            Value::U256(one.to_le_bytes()),
            Value::U256(five_twelve.to_le_bytes()),
        ],
    );
    dispatch(&mut state, Bytecode::Lt).expect("ok");
    assert_eq!(top(&state), Value::Bool(true));
}

#[test]
fn eq_u64_equal() {
    let mut state = state_with_frame(0);
    push_stack(&mut state, vec![Value::U64(7), Value::U64(7)]);
    dispatch(&mut state, Bytecode::Eq).expect("ok");
    assert_eq!(top(&state), Value::Bool(true));
}

#[test]
fn eq_u64_unequal() {
    let mut state = state_with_frame(0);
    push_stack(&mut state, vec![Value::U64(7), Value::U64(8)]);
    dispatch(&mut state, Bytecode::Eq).expect("ok");
    assert_eq!(top(&state), Value::Bool(false));
}

#[test]
fn neq_u64_unequal() {
    let mut state = state_with_frame(0);
    push_stack(&mut state, vec![Value::U64(7), Value::U64(8)]);
    dispatch(&mut state, Bytecode::Neq).expect("ok");
    assert_eq!(top(&state), Value::Bool(true));
}

#[test]
fn eq_bool() {
    let mut state = state_with_frame(0);
    push_stack(
        &mut state,
        vec![Value::Bool(true), Value::Bool(true)],
    );
    dispatch(&mut state, Bytecode::Eq).expect("ok");
    assert_eq!(top(&state), Value::Bool(true));
}

#[test]
fn lt_mixed_width_invariant_violation() {
    let mut state = state_with_frame(0);
    push_stack(&mut state, vec![Value::U64(1), Value::U32(1)]);
    let err = dispatch(&mut state, Bytecode::Lt).expect_err("err");
    assert!(matches!(
        err,
        VMError::InvariantViolation {
            reason: InvariantViolationReason::TypeMismatchOnStack,
        }
    ));
}

#[test]
fn shl_u8_at_bit_width_aborts() {
    let mut state = state_with_frame(0);
    push_stack(&mut state, vec![Value::U8(1), Value::U8(8)]);
    let err = dispatch(&mut state, Bytecode::Shl).expect_err("aborts");
    assert!(matches!(
        err,
        VMError::ArithmeticError {
            reason: ArithmeticErrorReason::ShiftAmountTooLarge,
        }
    ));
}

#[test]
fn shl_u64_at_bit_width_aborts() {
    let mut state = state_with_frame(0);
    push_stack(&mut state, vec![Value::U64(1), Value::U8(64)]);
    let err = dispatch(&mut state, Bytecode::Shl).expect_err("aborts");
    assert!(matches!(
        err,
        VMError::ArithmeticError {
            reason: ArithmeticErrorReason::ShiftAmountTooLarge,
        }
    ));
}

#[test]
fn shl_u128_at_bit_width_aborts() {
    let mut state = state_with_frame(0);
    push_stack(
        &mut state,
        vec![Value::U128(1), Value::U8(128)],
    );
    let err = dispatch(&mut state, Bytecode::Shl).expect_err("aborts");
    assert!(matches!(
        err,
        VMError::ArithmeticError {
            reason: ArithmeticErrorReason::ShiftAmountTooLarge,
        }
    ));
}

#[test]
fn shl_u64_normal() {
    let mut state = state_with_frame(0);
    push_stack(&mut state, vec![Value::U64(1), Value::U8(8)]);
    dispatch(&mut state, Bytecode::Shl).expect("ok");
    assert_eq!(top(&state), Value::U64(256));
}

#[test]
fn shr_u64_normal() {
    let mut state = state_with_frame(0);
    push_stack(
        &mut state,
        vec![Value::U64(256), Value::U8(8)],
    );
    dispatch(&mut state, Bytecode::Shr).expect("ok");
    assert_eq!(top(&state), Value::U64(1));
}

#[test]
fn shl_u256_no_abort_at_max_n_bits() {
    let mut state = state_with_frame(0);
    let one = U256::from_u8(1);
    push_stack(
        &mut state,
        vec![Value::U256(one.to_le_bytes()), Value::U8(255)],
    );
    dispatch(&mut state, Bytecode::Shl).expect("ok");
    let mut expected_bytes = [0u8; 32];
    expected_bytes[31] = 0x80;
    assert_eq!(top(&state), Value::U256(expected_bytes));
}

#[test]
fn nop_advances_pc_only() {
    let mut state = state_with_frame(0);
    dispatch(&mut state, Bytecode::Nop).expect("ok");
    assert_eq!(pc(&state), 1);
    assert_eq!(stack_len(&state), 0);
}

#[test]
fn abort_returns_error() {

    let mut state = state_with_frame(0);
    push_stack(&mut state, vec![Value::U64(42)]);
    let err = dispatch(&mut state, Bytecode::Abort).expect_err("aborts");
    assert!(matches!(
        err,
        VMError::AbortError {
            reason: AbortReason::UserAbort { code: 42 }
        }
    ));
}

#[test]
fn deprecated_opcode_invariant_violation() {
    let mut state = state_with_frame(0);
    let err = dispatch(
        &mut state,
        Bytecode::ExistsDeprecated(StructDefinitionIndex::new(0)),
    )
    .expect_err("err");
    assert!(matches!(
        err,
        VMError::InvariantViolation {
            reason: InvariantViolationReason::DeprecatedOpcodePostVerification,
        }
    ));
}

#[test]
fn call_returns_dispatch_outcome_call() {
    let mut state = state_with_frame(0);
    let outcome = dispatch(&mut state, Bytecode::Call(fh(0))).expect("ok");
    assert!(matches!(outcome, DispatchOutcome::Call(_)));
    assert_eq!(pc(&state), 1);
}

#[test]
fn do_call_pops_args_and_creates_frame() {

    let mut module = empty_module();
    module
        .signatures
        .push(Signature(vec![SignatureToken::U64, SignatureToken::U64]));
    module.signatures.push(Signature(vec![]));
    module.signatures.push(Signature(vec![]));
    module.function_handles.push(FunctionHandle {
        module: ModuleHandleIndex(0),
        name: IdentifierIndex(0),
        parameters: SignatureIndex(0),
        return_: SignatureIndex(1),
        type_parameters: vec![],
    });
    module
        .function_defs
        .push(AdamantFunctionDefinition {
            function: fh(0),
            visibility: Visibility::Private,
            is_entry: false,
            acquires_global_resources: vec![],
            code: Some(AdamantCodeUnit {
                locals: SignatureIndex(2),
                code: vec![],
                jump_tables: vec![],
            }),
        });

    let mut state = state_with_frame(0);
    push_stack(
        &mut state,
        vec![Value::U64(0x100), Value::U64(0x200)],
    );
    let outcome = dispatch_instruction(
        &BytecodeInstruction::Inherited(Bytecode::Call(fh(0))),
        &mut state,
        &module,
    )
    .expect("ok");
    match outcome {
        DispatchOutcome::Call(handle) => {
            do_call(&mut state, &module, handle).expect("ok");
        }
        other => panic!("expected Call outcome, got {other:?}"),
    }
    assert_eq!(state.frame_depth(), 2);
    let new_frame = state.top_frame().expect("frame");
    assert_eq!(new_frame.function_handle.0, 0);
    let cell = &new_frame.locals;
    assert_eq!(cell[0], Some(Value::U64(0x100)));
    assert_eq!(cell[1], Some(Value::U64(0x200)));
}

#[test]
fn do_call_native_function_invariant_violation() {
    let mut module = empty_module();
    module.signatures.push(Signature(vec![]));
    module.signatures.push(Signature(vec![]));
    module.function_handles.push(FunctionHandle {
        module: ModuleHandleIndex(0),
        name: IdentifierIndex(0),
        parameters: SignatureIndex(0),
        return_: SignatureIndex(1),
        type_parameters: vec![],
    });
    module
        .function_defs
        .push(AdamantFunctionDefinition {
            function: fh(0),
            visibility: Visibility::Private,
            is_entry: false,
            acquires_global_resources: vec![],
            code: None,
        });

    let mut state = state_with_frame(0);
    let err = do_call(&mut state, &module, fh(0)).expect_err("err");
    assert!(matches!(
        err,
        VMError::InvariantViolation {
            reason: InvariantViolationReason::DeprecatedOpcodePostVerification,
        }
    ));
}

#[test]
fn do_call_handle_out_of_bounds_invariant_violation() {
    let module = empty_module();
    let mut state = state_with_frame(0);
    let err = do_call(&mut state, &module, fh(99)).expect_err("err");
    assert!(matches!(
        err,
        VMError::InvariantViolation {
            reason: InvariantViolationReason::IndexOutOfBoundsPostVerification,
        }
    ));
}

#[test]
fn call_generic_returns_dispatch_outcome_call_generic() {
    let mut state = state_with_frame(0);
    let outcome = dispatch(
        &mut state,
        Bytecode::CallGeneric(FunctionInstantiationIndex::new(0)),
    )
    .expect("ok");
    assert!(matches!(outcome, DispatchOutcome::CallGeneric(_)));
}

#[test]
fn dispatch_sequence_push_push_add() {
    let mut state = state_with_frame(0);
    dispatch(&mut state, Bytecode::LdU64(7)).expect("ok");
    dispatch(&mut state, Bytecode::LdU64(11)).expect("ok");
    dispatch(&mut state, Bytecode::Add).expect("ok");
    assert_eq!(top(&state), Value::U64(18));
}

#[test]
fn variant_audit_arithmetic_error_overflow() {
    let mut state = state_with_frame(0);
    push_stack(
        &mut state,
        vec![Value::U64(u64::MAX), Value::U64(1)],
    );
    let err = dispatch(&mut state, Bytecode::Add).expect_err("err");
    assert!(matches!(
        err,
        VMError::ArithmeticError {
            reason: ArithmeticErrorReason::Overflow,
        }
    ));
}

#[test]
fn variant_audit_arithmetic_error_underflow() {
    let mut state = state_with_frame(0);
    push_stack(&mut state, vec![Value::U64(0), Value::U64(1)]);
    let err = dispatch(&mut state, Bytecode::Sub).expect_err("err");
    assert!(matches!(
        err,
        VMError::ArithmeticError {
            reason: ArithmeticErrorReason::Underflow,
        }
    ));
}

#[test]
fn variant_audit_arithmetic_error_division_by_zero() {
    let mut state = state_with_frame(0);
    push_stack(&mut state, vec![Value::U64(1), Value::U64(0)]);
    let err = dispatch(&mut state, Bytecode::Div).expect_err("err");
    assert!(matches!(
        err,
        VMError::ArithmeticError {
            reason: ArithmeticErrorReason::DivisionByZero,
        }
    ));
}

#[test]
fn variant_audit_arithmetic_error_shift_amount_too_large() {
    let mut state = state_with_frame(0);
    push_stack(&mut state, vec![Value::U8(1), Value::U8(8)]);
    let err = dispatch(&mut state, Bytecode::Shl).expect_err("err");
    assert!(matches!(
        err,
        VMError::ArithmeticError {
            reason: ArithmeticErrorReason::ShiftAmountTooLarge,
        }
    ));
}

#[test]
fn variant_audit_arithmetic_error_cast_not_representable() {
    let mut state = state_with_frame(0);
    push_stack(&mut state, vec![Value::U64(256)]);
    let err = dispatch(&mut state, Bytecode::CastU8).expect_err("err");
    assert!(matches!(
        err,
        VMError::ArithmeticError {
            reason: ArithmeticErrorReason::CastNotRepresentable,
        }
    ));
}

#[test]
fn variant_audit_invariant_deprecated_opcode() {
    let mut state = state_with_frame(0);
    let err = dispatch(
        &mut state,
        Bytecode::MoveToDeprecated(StructDefinitionIndex::new(0)),
    )
    .expect_err("err");
    assert!(matches!(
        err,
        VMError::InvariantViolation {
            reason: InvariantViolationReason::DeprecatedOpcodePostVerification,
        }
    ));
}

#[test]
fn variant_audit_invariant_stack_underflow() {
    let mut state = state_with_frame(0);
    let err = dispatch(&mut state, Bytecode::Pop).expect_err("err");
    assert!(matches!(
        err,
        VMError::InvariantViolation {
            reason: InvariantViolationReason::StackUnderflow,
        }
    ));
}

#[test]
fn variant_audit_invariant_type_mismatch_on_stack() {
    let mut state = state_with_frame(0);
    push_stack(&mut state, vec![Value::U64(1)]);
    let err = dispatch(&mut state, Bytecode::BrTrue(0)).expect_err("err");
    assert!(matches!(
        err,
        VMError::InvariantViolation {
            reason: InvariantViolationReason::TypeMismatchOnStack,
        }
    ));
}

#[test]
fn variant_audit_invariant_local_index_out_of_bounds() {
    let mut state = state_with_frame(2);
    let err = dispatch(&mut state, Bytecode::CopyLoc(99)).expect_err("err");
    assert!(matches!(
        err,
        VMError::InvariantViolation {
            reason: InvariantViolationReason::IndexOutOfBoundsPostVerification,
        }
    ));
}

#[test]
fn variant_audit_invariant_local_not_initialized() {
    let mut state = state_with_frame(2);
    let err = dispatch(&mut state, Bytecode::CopyLoc(0)).expect_err("err");
    assert!(matches!(
        err,
        VMError::InvariantViolation {
            reason: InvariantViolationReason::LocalNotInitialized,
        }
    ));
}

#[test]
fn variant_audit_invariant_branch_target_out_of_bounds_registered() {
    let _ = InvariantViolationReason::BranchTargetOutOfBounds;
}

#[test]
fn dispatch_with_an_empty_call_stack_fails_and_changes_nothing() {
    let module = empty_module();
    let mut state = InterpreterState::new();
    assert_eq!(
        dispatch_instruction(&BytecodeInstruction::Inherited(Bytecode::Nop), &mut state, &module),
        Err(VMError::InvariantViolation { reason: InvariantViolationReason::StackUnderflow })
    );
    assert_eq!(
        dispatch_instruction(&BytecodeInstruction::Inherited(Bytecode::LdConst(ConstantPoolIndex(3))), &mut state, &module),
        Err(VMError::InvariantViolation { reason: InvariantViolationReason::IndexOutOfBoundsPostVerification })
    );
    assert_eq!(
        dispatch_instruction(
            &BytecodeInstruction::Inherited(Bytecode::MoveToDeprecated(StructDefinitionIndex(0))),
            &mut state,
            &module
        ),
        Err(VMError::InvariantViolation { reason: InvariantViolationReason::DeprecatedOpcodePostVerification })
    );
    assert_eq!(
        dispatch_instruction(
            &BytecodeInstruction::Adamant(adamant_vm::AdamantBytecode::OutOfGas),
            &mut state,
            &module
        ),
        Err(VMError::AbortError {
            reason: AbortReason::OutOfGas { dimension: adamant_vm::GasDimension::ProofGeneration }
        })
    );
    assert!(state.is_empty());
}
