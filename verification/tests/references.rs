//! Reference instructions: borrows, reads and writes through
//! references, vector operations and variants through references.

use adamant_vm::bytecode::{JumpTableInner, VariantHandleIndex, VariantJumpTable, VariantJumpTableIndex};
use adamant_vm::module::{
    EnumDefinition, FieldDefinition, FieldHandle, FunctionHandle, IdentifierIndex,
    ModuleHandleIndex, Signature, SignatureToken, TypeSignature, VariantDefinition,
    VariantHandle, Visibility,
};
use adamant_vm::runtime::interpreter::dispatch_instruction;
use adamant_vm::runtime::{DispatchOutcome, Frame, InterpreterState, InvariantViolationReason, VMError};
use adamant_vm::value::{Reference, VariantValue};
use adamant_vm::{
    AdamantCodeUnit, AdamantCompiledModule, AdamantFunctionDefinition, Bytecode,
    BytecodeInstruction, EnumDefinitionIndex, FieldHandleIndex, FunctionHandleIndex,
    SignatureIndex, StructDefinitionIndex, StructValue, Value,
};

fn fh(idx: u16) -> FunctionHandleIndex {
    FunctionHandleIndex(idx)
}

fn empty_module() -> AdamantCompiledModule {
    AdamantCompiledModule::default()
}

fn state_with_frame(local_count: usize) -> InterpreterState {
    let mut state = InterpreterState::new();
    state.push_frame(Frame::new(fh(0), local_count));
    state
}

fn push_stack(state: &mut InterpreterState, values: Vec<Value>) {
    let frame = state.top_frame_mut().expect("frame");
    for v in values {
        frame.push_value(v);
    }
}

fn dispatch(state: &mut InterpreterState, opcode: Bytecode) -> Result<DispatchOutcome, VMError> {
    let module = empty_module();
    dispatch_instruction(&BytecodeInstruction::Inherited(opcode), state, &module)
}

fn dispatch_in(
    state: &mut InterpreterState,
    module: &AdamantCompiledModule,
    opcode: Bytecode,
) -> Result<DispatchOutcome, VMError> {
    dispatch_instruction(&BytecodeInstruction::Inherited(opcode), state, module)
}

fn top(state: &InterpreterState) -> Value {
    state.top_frame().expect("frame").stack.last().cloned().expect("non-empty stack")
}

fn pc(state: &InterpreterState) -> u16 {
    state.top_frame().expect("frame").pc
}

fn stack_len(state: &InterpreterState) -> usize {
    state.top_frame().expect("frame").stack.len()
}

fn store(state: &mut InterpreterState, idx: u8, v: Value) {
    state.top_frame_mut().expect("frame").st_loc(idx, v).expect("ok");
}

fn local(state: &InterpreterState, idx: usize) -> Option<Value> {
    state.top_frame().expect("frame").locals[idx].clone()
}

#[test]
fn read_ref_on_empty_stack_invariant_violation() {
    let mut state = state_with_frame(0);
    let err = dispatch(&mut state, Bytecode::ReadRef).expect_err("err");
    assert!(matches!(
        err,
        VMError::InvariantViolation { reason: InvariantViolationReason::StackUnderflow }
    ));
}

#[test]
fn imm_borrow_loc_pushes_local_reference() {
    let mut state = state_with_frame(2);
    store(&mut state, 0, Value::U64(42));
    dispatch(&mut state, Bytecode::ImmBorrowLoc(0)).expect("ok");
    if let Value::Reference(r) = top(&state) {
        assert_eq!(r, Reference { frame: 0, local: 0, path: vec![] });
    } else {
        panic!("expected Reference on stack");
    }
    dispatch(&mut state, Bytecode::ReadRef).expect("ok");
    assert_eq!(top(&state), Value::U64(42));
}

#[test]
fn mut_borrow_loc_pushes_local_reference() {
    let mut state = state_with_frame(2);
    store(&mut state, 0, Value::U64(42));
    push_stack(&mut state, vec![Value::U64(99)]);
    dispatch(&mut state, Bytecode::MutBorrowLoc(0)).expect("ok");
    assert!(matches!(top(&state), Value::Reference(_)));
    dispatch(&mut state, Bytecode::WriteRef).expect("ok");
    assert_eq!(local(&state, 0), Some(Value::U64(99)));
}

#[test]
fn read_ref_pops_reference_pushes_value() {
    let mut state = state_with_frame(1);
    store(&mut state, 0, Value::U64(7));
    dispatch(&mut state, Bytecode::ImmBorrowLoc(0)).expect("ok");
    dispatch(&mut state, Bytecode::ReadRef).expect("ok");
    assert_eq!(top(&state), Value::U64(7));
}

#[test]
fn write_ref_writes_through_reference() {
    let mut state = state_with_frame(1);
    store(&mut state, 0, Value::U64(7));
    push_stack(&mut state, vec![Value::U64(99)]);
    dispatch(&mut state, Bytecode::MutBorrowLoc(0)).expect("ok");
    dispatch(&mut state, Bytecode::WriteRef).expect("ok");
    assert_eq!(stack_len(&state), 0);
    assert_eq!(local(&state, 0), Some(Value::U64(99)));
}

#[test]
fn freeze_ref_is_runtime_no_op() {
    let mut state = state_with_frame(1);
    store(&mut state, 0, Value::U64(42));
    dispatch(&mut state, Bytecode::MutBorrowLoc(0)).expect("ok");
    let pre_pc = pc(&state);
    dispatch(&mut state, Bytecode::FreezeRef).expect("ok");
    assert_eq!(pc(&state), pre_pc + 1);
    assert!(matches!(top(&state), Value::Reference(_)));
}

#[test]
fn mut_borrow_field_descends_through_composed_borrow() {
    let outer = Value::Struct(StructValue { fields: vec![Value::U64(7)] });
    let mut state = state_with_frame(1);
    store(&mut state, 0, outer);
    let mut module = empty_module();
    module.field_handles.push(FieldHandle { owner: StructDefinitionIndex(0), field: 0 });
    dispatch_in(&mut state, &module, Bytecode::ImmBorrowLoc(0)).expect("ok");
    dispatch_in(&mut state, &module, Bytecode::MutBorrowField(FieldHandleIndex::new(0))).expect("ok");
    dispatch_in(&mut state, &module, Bytecode::ReadRef).expect("ok");
    assert_eq!(top(&state), Value::U64(7));
}

#[test]
fn vec_imm_borrow_pushes_element_reference() {
    let runtime_vec = Value::Vector(vec![Value::U64(10), Value::U64(20), Value::U64(30)]);
    let mut state = state_with_frame(1);
    store(&mut state, 0, runtime_vec);
    let mut module = empty_module();
    module.signatures.push(Signature(vec![SignatureToken::U64]));
    dispatch_in(&mut state, &module, Bytecode::ImmBorrowLoc(0)).expect("ok");
    push_stack(&mut state, vec![Value::U64(1)]);
    dispatch_in(&mut state, &module, Bytecode::VecImmBorrow(SignatureIndex(0))).expect("ok");
    dispatch_in(&mut state, &module, Bytecode::ReadRef).expect("ok");
    assert_eq!(top(&state), Value::U64(20));
}

#[test]
fn mut_borrow_field_handle_out_of_bounds_invariant_violation() {
    let module = empty_module();
    let mut state = state_with_frame(1);
    store(&mut state, 0, Value::Struct(StructValue { fields: vec![Value::U64(7)] }));
    dispatch_in(&mut state, &module, Bytecode::ImmBorrowLoc(0)).expect("ok");
    let err = dispatch_in(&mut state, &module, Bytecode::MutBorrowField(FieldHandleIndex::new(99)))
        .expect_err("err");
    assert!(matches!(
        err,
        VMError::InvariantViolation {
            reason: InvariantViolationReason::IndexOutOfBoundsPostVerification
        }
    ));
}

#[test]
fn write_through_field_reference_updates_nested_value() {
    let mut state = state_with_frame(1);
    store(
        &mut state,
        0,
        Value::Struct(StructValue { fields: vec![Value::U8(1), Value::U8(2)] }),
    );
    let mut module = empty_module();
    module.field_handles.push(FieldHandle { owner: StructDefinitionIndex(0), field: 1 });
    push_stack(&mut state, vec![Value::U8(9)]);
    dispatch_in(&mut state, &module, Bytecode::MutBorrowLoc(0)).expect("ok");
    dispatch_in(&mut state, &module, Bytecode::MutBorrowField(FieldHandleIndex::new(0))).expect("ok");
    dispatch_in(&mut state, &module, Bytecode::WriteRef).expect("ok");
    assert_eq!(
        local(&state, 0),
        Some(Value::Struct(StructValue { fields: vec![Value::U8(1), Value::U8(9)] }))
    );
}

#[test]
fn vector_operations_through_reference() {
    let mut state = state_with_frame(1);
    store(&mut state, 0, Value::Vector(vec![Value::U64(1), Value::U64(2)]));
    let sig = SignatureIndex(0);

    dispatch(&mut state, Bytecode::MutBorrowLoc(0)).expect("ok");
    dispatch(&mut state, Bytecode::VecLen(sig)).expect("ok");
    assert_eq!(top(&state), Value::U64(2));
    dispatch(&mut state, Bytecode::Pop).expect("ok");

    dispatch(&mut state, Bytecode::MutBorrowLoc(0)).expect("ok");
    push_stack(&mut state, vec![Value::U64(3)]);
    dispatch(&mut state, Bytecode::VecPushBack(sig)).expect("ok");
    assert_eq!(
        local(&state, 0),
        Some(Value::Vector(vec![Value::U64(1), Value::U64(2), Value::U64(3)]))
    );

    dispatch(&mut state, Bytecode::MutBorrowLoc(0)).expect("ok");
    push_stack(&mut state, vec![Value::U64(0), Value::U64(2)]);
    dispatch(&mut state, Bytecode::VecSwap(sig)).expect("ok");
    assert_eq!(
        local(&state, 0),
        Some(Value::Vector(vec![Value::U64(3), Value::U64(2), Value::U64(1)]))
    );

    dispatch(&mut state, Bytecode::MutBorrowLoc(0)).expect("ok");
    dispatch(&mut state, Bytecode::VecPopBack(sig)).expect("ok");
    assert_eq!(top(&state), Value::U64(1));
    assert_eq!(local(&state, 0), Some(Value::Vector(vec![Value::U64(3), Value::U64(2)])));
}

#[test]
fn vec_pop_back_on_empty_vector_fails() {
    let mut state = state_with_frame(1);
    store(&mut state, 0, Value::Vector(vec![]));
    dispatch(&mut state, Bytecode::MutBorrowLoc(0)).expect("ok");
    let err = dispatch(&mut state, Bytecode::VecPopBack(SignatureIndex(0))).expect_err("err");
    assert_eq!(
        err,
        VMError::InvariantViolation {
            reason: InvariantViolationReason::IndexOutOfBoundsPostVerification
        }
    );
}

#[test]
fn vec_swap_out_of_range_fails() {
    let mut state = state_with_frame(1);
    store(&mut state, 0, Value::Vector(vec![Value::U64(1)]));
    dispatch(&mut state, Bytecode::MutBorrowLoc(0)).expect("ok");
    push_stack(&mut state, vec![Value::U64(0), Value::U64(5)]);
    let err = dispatch(&mut state, Bytecode::VecSwap(SignatureIndex(0))).expect_err("err");
    assert_eq!(
        err,
        VMError::InvariantViolation {
            reason: InvariantViolationReason::IndexOutOfBoundsPostVerification
        }
    );
}

#[test]
fn read_ref_of_empty_local_fails() {
    let mut state = state_with_frame(1);
    dispatch(&mut state, Bytecode::ImmBorrowLoc(0)).expect("ok");
    let err = dispatch(&mut state, Bytecode::ReadRef).expect_err("err");
    assert_eq!(
        err,
        VMError::InvariantViolation { reason: InvariantViolationReason::LocalNotInitialized }
    );
}

fn variant_module() -> AdamantCompiledModule {
    let mut module = empty_module();
    let field = |n: u16| FieldDefinition {
        name: IdentifierIndex(n),
        signature: TypeSignature(SignatureToken::U64),
    };
    module.enum_defs.push(EnumDefinition {
        enum_handle: adamant_vm::module::DatatypeHandleIndex(0),
        variants: vec![
            VariantDefinition { variant_name: IdentifierIndex(0), fields: vec![] },
            VariantDefinition { variant_name: IdentifierIndex(1), fields: vec![field(2), field(3)] },
        ],
    });
    module.variant_handles.push(VariantHandle { enum_def: EnumDefinitionIndex(0), variant: 0 });
    module.variant_handles.push(VariantHandle { enum_def: EnumDefinitionIndex(0), variant: 1 });
    module.signatures.push(Signature(vec![]));
    module.function_handles.push(FunctionHandle {
        module: ModuleHandleIndex(0),
        name: IdentifierIndex(0),
        parameters: SignatureIndex(0),
        return_: SignatureIndex(0),
        type_parameters: vec![],
    });
    module.function_defs.push(AdamantFunctionDefinition {
        function: fh(0),
        visibility: Visibility::Private,
        is_entry: false,
        acquires_global_resources: vec![],
        code: Some(AdamantCodeUnit {
            locals: SignatureIndex(0),
            code: vec![],
            jump_tables: vec![VariantJumpTable {
                head_enum: EnumDefinitionIndex(0),
                jump_table: JumpTableInner::Full(vec![10, 20]),
            }],
        }),
    });
    module
}

#[test]
fn unpack_variant_by_reference_pushes_field_references() {
    let module = variant_module();
    let mut state = state_with_frame(1);
    store(
        &mut state,
        0,
        Value::Variant(VariantValue { tag: 1, fields: vec![Value::U64(5), Value::U64(6)] }),
    );
    dispatch_in(&mut state, &module, Bytecode::ImmBorrowLoc(0)).expect("ok");
    dispatch_in(&mut state, &module, Bytecode::UnpackVariantImmRef(VariantHandleIndex(1)))
        .expect("ok");
    assert_eq!(stack_len(&state), 2);
    dispatch_in(&mut state, &module, Bytecode::ReadRef).expect("ok");
    assert_eq!(top(&state), Value::U64(6));
}

#[test]
fn unpack_variant_by_reference_with_wrong_tag_fails() {
    let module = variant_module();
    let mut state = state_with_frame(1);
    store(&mut state, 0, Value::Variant(VariantValue { tag: 0, fields: vec![] }));
    dispatch_in(&mut state, &module, Bytecode::ImmBorrowLoc(0)).expect("ok");
    let err = dispatch_in(&mut state, &module, Bytecode::UnpackVariantMutRef(VariantHandleIndex(1)))
        .expect_err("err");
    assert_eq!(
        err,
        VMError::InvariantViolation { reason: InvariantViolationReason::VariantTagMismatch }
    );
}

#[test]
fn variant_switch_jumps_to_the_tags_offset() {
    let module = variant_module();
    let mut state = state_with_frame(1);
    store(&mut state, 0, Value::Variant(VariantValue { tag: 1, fields: vec![Value::U64(1), Value::U64(2)] }));
    dispatch_in(&mut state, &module, Bytecode::ImmBorrowLoc(0)).expect("ok");
    dispatch_in(&mut state, &module, Bytecode::VariantSwitch(VariantJumpTableIndex(0))).expect("ok");
    assert_eq!(pc(&state), 20);
    assert_eq!(stack_len(&state), 0);
}

#[test]
fn variant_switch_tag_outside_table_fails() {
    let module = variant_module();
    let mut state = state_with_frame(1);
    store(&mut state, 0, Value::Variant(VariantValue { tag: 7, fields: vec![] }));
    dispatch_in(&mut state, &module, Bytecode::ImmBorrowLoc(0)).expect("ok");
    let err = dispatch_in(&mut state, &module, Bytecode::VariantSwitch(VariantJumpTableIndex(0)))
        .expect_err("err");
    assert_eq!(
        err,
        VMError::InvariantViolation { reason: InvariantViolationReason::JumpTableTagOutOfRange }
    );
}
