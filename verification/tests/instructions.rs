//! Further instruction semantics: containers, constants, gas, calls,
//! native calls and cryptographic instructions.

use adamant_vm::bytecode::{EnumDefinitionIndex, VariantHandleIndex, VariantInstantiationHandleIndex, StructDefInstantiationIndex};
use adamant_vm::module::{
    AddressIdentifierIndex, Constant, DatatypeHandleIndex, EnumDefInstantiation,
    EnumDefInstantiationIndex, EnumDefinition, FieldDefinition, FunctionHandle,
    FunctionInstantiation, IdentifierIndex, ModuleHandle, ModuleHandleIndex, Signature,
    SignatureToken, StructDefInstantiation, StructDefinition, StructFieldInformation,
    TypeSignature, VariantDefinition, VariantHandle, VariantInstantiationHandle, Visibility,
};
use adamant_vm::runtime::crypto::{complete_crypto, take_crypto_request};
use adamant_vm::runtime::interpreter::{
    dispatch_instruction, do_call, do_call_generic, do_call_with_privacy,
};
use adamant_vm::runtime::native::{check_caller_mode, finish_native_call, native_call_args};
use adamant_vm::runtime::{
    AbortReason, ArithmeticErrorReason, CryptoRequest, CryptoResponse, DispatchOutcome, Frame,
    GasTracker, InterpreterState, InvariantViolationReason, PrivacyMode, SignatureScheme, VMError,
};
use adamant_vm::value::VariantValue;
use adamant_vm::{
    AdamantBytecode, AdamantCodeUnit, AdamantCompiledModule, AdamantFunctionDefinition, Address,
    Bytecode, BytecodeInstruction, CircuitId, ConstantPoolIndex, FunctionHandleIndex,
    FunctionInstantiationIndex, GasBudget, GasDimension, SignatureIndex, StructDefinitionIndex,
    StructValue, Value, U256,
};

fn fh(idx: u16) -> FunctionHandleIndex {
    FunctionHandleIndex(idx)
}

fn state_with_frame(local_count: usize) -> InterpreterState {
    let mut state = InterpreterState::new();
    state.push_frame(Frame::new(fh(0), local_count));
    state
}

fn push_stack(state: &mut InterpreterState, values: Vec<Value>) {
    let frame = state.top_frame_mut().expect("frame");
    for v in values {
        frame.push_value(v);
    }
}

fn run_in(
    state: &mut InterpreterState,
    module: &AdamantCompiledModule,
    instr: BytecodeInstruction,
) -> Result<DispatchOutcome, VMError> {
    dispatch_instruction(&instr, state, module)
}

fn inherited(
    state: &mut InterpreterState,
    module: &AdamantCompiledModule,
    op: Bytecode,
) -> Result<DispatchOutcome, VMError> {
    run_in(state, module, BytecodeInstruction::Inherited(op))
}

fn adamant(state: &mut InterpreterState, op: AdamantBytecode) -> Result<DispatchOutcome, VMError> {
    run_in(state, &AdamantCompiledModule::default(), BytecodeInstruction::Adamant(op))
}

fn stack(state: &InterpreterState) -> Vec<Value> {
    state.top_frame().expect("frame").stack.clone()
}

fn field(n: u16) -> FieldDefinition {
    FieldDefinition { name: IdentifierIndex(n), signature: TypeSignature(SignatureToken::U64) }
}

fn container_module() -> AdamantCompiledModule {
    let mut m = AdamantCompiledModule::default();
    m.struct_defs.push(StructDefinition {
        struct_handle: DatatypeHandleIndex(0),
        field_information: StructFieldInformation::Declared(vec![field(0), field(1)]),
    });
    m.struct_defs.push(StructDefinition {
        struct_handle: DatatypeHandleIndex(1),
        field_information: StructFieldInformation::Native,
    });
    m.struct_def_instantiations.push(StructDefInstantiation {
        def: StructDefinitionIndex(0),
        type_parameters: SignatureIndex(0),
    });
    m.enum_defs.push(EnumDefinition {
        enum_handle: DatatypeHandleIndex(2),
        variants: vec![
            VariantDefinition { variant_name: IdentifierIndex(0), fields: vec![] },
            VariantDefinition { variant_name: IdentifierIndex(1), fields: vec![field(0)] },
        ],
    });
    m.variant_handles.push(VariantHandle { enum_def: EnumDefinitionIndex(0), variant: 1 });
    m.enum_def_instantiations.push(EnumDefInstantiation {
        def: EnumDefinitionIndex(0),
        type_parameters: SignatureIndex(0),
    });
    m.variant_instantiation_handles.push(VariantInstantiationHandle {
        enum_def: EnumDefInstantiationIndex(0),
        variant: 1,
    });
    m
}

#[test]
fn pack_and_unpack_struct_in_field_order() {
    let m = container_module();
    let mut state = state_with_frame(0);
    push_stack(&mut state, vec![Value::U64(1), Value::U64(2)]);
    inherited(&mut state, &m, Bytecode::Pack(StructDefinitionIndex(0))).expect("pack");
    assert_eq!(
        stack(&state),
        vec![Value::Struct(StructValue { fields: vec![Value::U64(1), Value::U64(2)] })]
    );
    inherited(&mut state, &m, Bytecode::Unpack(StructDefinitionIndex(0))).expect("unpack");
    assert_eq!(stack(&state), vec![Value::U64(1), Value::U64(2)]);
    assert_eq!(state.top_frame().expect("frame").pc, 2);
}

#[test]
fn pack_generic_resolves_the_instantiated_struct() {
    let m = container_module();
    let mut state = state_with_frame(0);
    push_stack(&mut state, vec![Value::U64(3), Value::U64(4)]);
    inherited(&mut state, &m, Bytecode::PackGeneric(StructDefInstantiationIndex(0))).expect("pack");
    inherited(&mut state, &m, Bytecode::UnpackGeneric(StructDefInstantiationIndex(0)))
        .expect("unpack");
    assert_eq!(stack(&state), vec![Value::U64(3), Value::U64(4)]);
}

#[test]
fn pack_native_struct_has_no_fields() {
    let m = container_module();
    let mut state = state_with_frame(0);
    inherited(&mut state, &m, Bytecode::Pack(StructDefinitionIndex(1))).expect("pack");
    assert_eq!(stack(&state), vec![Value::Struct(StructValue { fields: vec![] })]);
}

#[test]
fn pack_with_too_few_values_underflows_and_empties_the_stack() {
    let m = container_module();
    let mut state = state_with_frame(0);
    push_stack(&mut state, vec![Value::U64(1)]);
    let err = inherited(&mut state, &m, Bytecode::Pack(StructDefinitionIndex(0))).expect_err("err");
    assert_eq!(err, VMError::InvariantViolation { reason: InvariantViolationReason::StackUnderflow });
    assert!(stack(&state).is_empty());
}

#[test]
fn pack_unknown_struct_is_out_of_bounds() {
    let m = container_module();
    let mut state = state_with_frame(0);
    let err = inherited(&mut state, &m, Bytecode::Pack(StructDefinitionIndex(9))).expect_err("err");
    assert_eq!(
        err,
        VMError::InvariantViolation {
            reason: InvariantViolationReason::IndexOutOfBoundsPostVerification
        }
    );
}

#[test]
fn vec_pack_and_unpack() {
    let m = AdamantCompiledModule::default();
    let mut state = state_with_frame(0);
    push_stack(&mut state, vec![Value::U8(1), Value::U8(2), Value::U8(3)]);
    inherited(&mut state, &m, Bytecode::VecPack(SignatureIndex(0), 2)).expect("pack");
    assert_eq!(
        stack(&state),
        vec![Value::U8(1), Value::Vector(vec![Value::U8(2), Value::U8(3)])]
    );
    inherited(&mut state, &m, Bytecode::VecUnpack(SignatureIndex(0), 2)).expect("unpack");
    assert_eq!(stack(&state), vec![Value::U8(1), Value::U8(2), Value::U8(3)]);
}

#[test]
fn vec_unpack_with_wrong_length_fails() {
    let m = AdamantCompiledModule::default();
    let mut state = state_with_frame(0);
    push_stack(&mut state, vec![Value::Vector(vec![Value::U8(1)])]);
    let err = inherited(&mut state, &m, Bytecode::VecUnpack(SignatureIndex(0), 2)).expect_err("err");
    assert_eq!(
        err,
        VMError::InvariantViolation {
            reason: InvariantViolationReason::IndexOutOfBoundsPostVerification
        }
    );
}

#[test]
fn pack_and_unpack_variant() {
    let m = container_module();
    let mut state = state_with_frame(0);
    push_stack(&mut state, vec![Value::U64(8)]);
    inherited(&mut state, &m, Bytecode::PackVariant(VariantHandleIndex(0))).expect("pack");
    assert_eq!(
        stack(&state),
        vec![Value::Variant(VariantValue { tag: 1, fields: vec![Value::U64(8)] })]
    );
    inherited(&mut state, &m, Bytecode::UnpackVariantGeneric(VariantInstantiationHandleIndex(0)))
        .expect("unpack");
    assert_eq!(stack(&state), vec![Value::U64(8)]);
}

#[test]
fn unpack_variant_with_other_tag_fails() {
    let m = container_module();
    let mut state = state_with_frame(0);
    push_stack(&mut state, vec![Value::Variant(VariantValue { tag: 0, fields: vec![] })]);
    let err = inherited(&mut state, &m, Bytecode::UnpackVariant(VariantHandleIndex(0))).expect_err("err");
    assert_eq!(err, VMError::InvariantViolation { reason: InvariantViolationReason::VariantTagMismatch });
}

fn module_with_constant(token: SignatureToken, data: Vec<u8>) -> AdamantCompiledModule {
    let mut m = AdamantCompiledModule::default();
    m.constant_pool.push(Constant { type_: token, data });
    m
}

fn load_constant(token: SignatureToken, data: Vec<u8>) -> Result<Value, VMError> {
    let m = module_with_constant(token, data);
    let mut state = state_with_frame(0);
    inherited(&mut state, &m, Bytecode::LdConst(ConstantPoolIndex(0)))?;
    Ok(stack(&state).pop().expect("value"))
}

#[test]
fn constants_of_each_primitive_type_decode() {
    assert_eq!(load_constant(SignatureToken::U8, vec![7]), Ok(Value::U8(7)));
    assert_eq!(load_constant(SignatureToken::U16, vec![0x34, 0x12]), Ok(Value::U16(0x1234)));
    assert_eq!(
        load_constant(SignatureToken::U32, bcs::to_bytes(&0xdead_beefu32).unwrap()),
        Ok(Value::U32(0xdead_beef))
    );
    assert_eq!(
        load_constant(SignatureToken::U128, bcs::to_bytes(&(1u128 << 100)).unwrap()),
        Ok(Value::U128(1u128 << 100))
    );
    let mut bytes = [0u8; 32];
    bytes[31] = 0x80;
    assert_eq!(load_constant(SignatureToken::U256, bytes.to_vec()), Ok(Value::U256(bytes)));
    assert_eq!(load_constant(SignatureToken::Bool, vec![0]), Ok(Value::Bool(false)));
}

#[test]
fn malformed_constants_are_type_mismatches() {
    let mismatch = Err(VMError::InvariantViolation { reason: InvariantViolationReason::TypeMismatchOnStack });
    assert_eq!(load_constant(SignatureToken::U64, vec![1, 2, 3]), mismatch);
    assert_eq!(load_constant(SignatureToken::Bool, vec![2]), mismatch);
    assert_eq!(load_constant(SignatureToken::Signer, vec![]), mismatch);
    assert_eq!(
        load_constant(SignatureToken::Vector(Box::new(SignatureToken::U8)), vec![0x03, 1, 2]),
        mismatch
    );
    assert_eq!(
        load_constant(SignatureToken::Vector(Box::new(SignatureToken::U64)), vec![0x00]),
        mismatch
    );
}

#[test]
fn charge_and_read_gas_through_instructions() {
    let mut state = state_with_frame(0);
    state.set_gas_budget(&GasBudget {
        computation: 100,
        storage: 0,
        rent: 0,
        bandwidth: 0,
        proof_verification: 0,
        proof_generation: 0,
    });
    push_stack(&mut state, vec![Value::U64(30)]);
    adamant(&mut state, AdamantBytecode::ChargeGas(GasDimension::Computation)).expect("charge");
    assert_eq!(state.remaining_gas(GasDimension::Computation), 70);
    adamant(&mut state, AdamantBytecode::RemainingGas(GasDimension::Computation)).expect("read");
    assert_eq!(stack(&state), vec![Value::U64(70)]);
    assert_eq!(state.top_frame().expect("frame").pc, 2);
}

#[test]
fn charge_gas_beyond_budget_aborts_without_charging() {
    let mut state = state_with_frame(0);
    push_stack(&mut state, vec![Value::U64(1)]);
    let err = adamant(&mut state, AdamantBytecode::ChargeGas(GasDimension::Storage)).expect_err("err");
    assert_eq!(
        err,
        VMError::AbortError { reason: AbortReason::OutOfGas { dimension: GasDimension::Storage } }
    );
    assert_eq!(state.gas_tracker(), &GasTracker::empty());
}

#[test]
fn out_of_gas_instruction_aborts_on_proof_generation() {
    let mut state = state_with_frame(0);
    let err = adamant(&mut state, AdamantBytecode::OutOfGas).expect_err("err");
    assert_eq!(
        err,
        VMError::AbortError {
            reason: AbortReason::OutOfGas { dimension: GasDimension::ProofGeneration }
        }
    );
}

#[test]
fn deferred_extensions_are_invalid_instructions() {
    let mut state = state_with_frame(0);
    for op in [
        AdamantBytecode::GenerateProof(CircuitId(1)),
        AdamantBytecode::VerifyProof(CircuitId(1)),
        AdamantBytecode::RecursiveVerify,
        AdamantBytecode::MlKemEncapsulate,
        AdamantBytecode::MlKemDecapsulate,
    ] {
        let err = adamant(&mut state, op).expect_err("err");
        assert_eq!(err, VMError::InvalidInstruction { function_handle: fh(0), pc: 0 });
    }
}

#[test]
fn invoke_extensions_advance_and_ask_for_a_frame() {
    let mut state = state_with_frame(0);
    assert_eq!(
        adamant(&mut state, AdamantBytecode::InvokeShielded(fh(3))),
        Ok(DispatchOutcome::InvokeShielded(fh(3)))
    );
    assert_eq!(
        adamant(&mut state, AdamantBytecode::InvokeTransparent(fh(4))),
        Ok(DispatchOutcome::InvokeTransparent(fh(4)))
    );
    assert_eq!(state.top_frame().expect("frame").pc, 2);
}

fn bytes_value(bytes: &[u8]) -> Value {
    Value::Vector(bytes.iter().map(|b| Value::U8(*b)).collect())
}

#[test]
fn crypto_instruction_takes_operands_and_completes_with_the_result() {
    let mut state = state_with_frame(0);
    push_stack(&mut state, vec![bytes_value(b"pk"), bytes_value(b"msg"), bytes_value(b"sig")]);
    assert_eq!(adamant(&mut state, AdamantBytecode::Ed25519Verify), Ok(DispatchOutcome::Crypto));
    let req = take_crypto_request(&AdamantBytecode::Ed25519Verify, &mut state).expect("request");
    assert_eq!(
        req,
        CryptoRequest::Verify {
            scheme: SignatureScheme::Ed25519,
            public_key: b"pk".to_vec(),
            message: b"msg".to_vec(),
            signature: b"sig".to_vec(),
        }
    );
    assert!(stack(&state).is_empty());
    assert_eq!(complete_crypto(&mut state, CryptoResponse::Flag(true)), Ok(DispatchOutcome::Continue));
    assert_eq!(stack(&state), vec![Value::Bool(true)]);
    assert_eq!(state.top_frame().expect("frame").pc, 1);
}

#[test]
fn hash_request_and_digest_completion() {
    let mut state = state_with_frame(0);
    push_stack(&mut state, vec![bytes_value(&[1, 2, 3])]);
    let req = take_crypto_request(&AdamantBytecode::Sha3_256, &mut state).expect("request");
    assert_eq!(req, CryptoRequest::Sha3_256 { input: vec![1, 2, 3] });
    complete_crypto(&mut state, CryptoResponse::Bytes(vec![9; 32])).expect("complete");
    assert_eq!(stack(&state), vec![bytes_value(&[9; 32])]);
}

#[test]
fn crypto_operand_that_is_not_bytes_is_a_type_mismatch() {
    let mut state = state_with_frame(0);
    push_stack(&mut state, vec![Value::Vector(vec![Value::U64(1)])]);
    let err = take_crypto_request(&AdamantBytecode::Blake3, &mut state).expect_err("err");
    assert_eq!(err, VMError::InvariantViolation { reason: InvariantViolationReason::TypeMismatchOnStack });
}

#[test]
fn sub_view_key_needs_a_sixty_four_byte_seed() {
    let mut state = state_with_frame(0);
    push_stack(&mut state, vec![bytes_value(&[0; 63]), bytes_value(b"scope")]);
    let err = take_crypto_request(&AdamantBytecode::ReleaseSubViewKey, &mut state).expect_err("err");
    assert_eq!(err, VMError::InvariantViolation { reason: InvariantViolationReason::TypeMismatchOnStack });
    let mut state = state_with_frame(0);
    push_stack(&mut state, vec![bytes_value(&[0; 64]), bytes_value(b"scope")]);
    let req = take_crypto_request(&AdamantBytecode::ReleaseSubViewKey, &mut state).expect("ok");
    assert_eq!(req, CryptoRequest::ReleaseSubViewKey { parent_seed: vec![0; 64], scope: b"scope".to_vec() });
}

#[test]
fn kzg_commit_needs_whole_scalars() {
    let mut state = state_with_frame(0);
    push_stack(&mut state, vec![bytes_value(&[0; 33])]);
    let err = take_crypto_request(&AdamantBytecode::KzgCommit, &mut state).expect_err("err");
    assert_eq!(err, VMError::InvariantViolation { reason: InvariantViolationReason::TypeMismatchOnStack });
}

fn call_module(params: Vec<SignatureToken>, with_body: bool) -> AdamantCompiledModule {
    let mut m = AdamantCompiledModule::default();
    m.signatures.push(Signature(params));
    m.signatures.push(Signature(vec![SignatureToken::U64]));
    m.function_handles.push(FunctionHandle {
        module: ModuleHandleIndex(0),
        name: IdentifierIndex(0),
        parameters: SignatureIndex(0),
        return_: SignatureIndex(1),
        type_parameters: vec![],
    });
    m.function_instantiations.push(FunctionInstantiation { handle: fh(0), type_parameters: SignatureIndex(0) });
    m.function_defs.push(AdamantFunctionDefinition {
        function: fh(0),
        visibility: Visibility::Public,
        is_entry: false,
        acquires_global_resources: vec![],
        code: if with_body {
            Some(AdamantCodeUnit { locals: SignatureIndex(1), code: vec![], jump_tables: vec![] })
        } else {
            None
        },
    });
    m
}

#[test]
fn call_with_privacy_pins_the_callee_mode() {
    let m = call_module(vec![SignatureToken::U64], true);
    let mut state = InterpreterState::new();
    state.push_frame(Frame::new_with_privacy(fh(0), 0, PrivacyMode::Shielded));
    push_stack(&mut state, vec![Value::U64(5)]);
    do_call_with_privacy(&mut state, &m, fh(0), PrivacyMode::Shielded).expect("call");
    let callee = state.top_frame().expect("callee");
    assert_eq!(callee.privacy_mode, PrivacyMode::Shielded);
    assert_eq!(callee.locals, vec![Some(Value::U64(5)), None]);
    assert_eq!(callee.pc, 0);
}

#[test]
fn call_with_other_privacy_mode_fails() {
    let m = call_module(vec![], true);
    let mut state = state_with_frame(0);
    let err = do_call_with_privacy(&mut state, &m, fh(0), PrivacyMode::Shielded).expect_err("err");
    assert_eq!(
        err,
        VMError::InvariantViolation {
            reason: InvariantViolationReason::PrivacyModeMismatchPostVerification
        }
    );
    assert_eq!(state.frame_depth(), 1);
}

#[test]
fn generic_call_enters_the_instantiated_function() {
    let m = call_module(vec![], true);
    let mut state = state_with_frame(0);
    do_call_generic(&mut state, &m, FunctionInstantiationIndex(0)).expect("call");
    assert_eq!(state.frame_depth(), 2);
    let err = do_call_generic(&mut state, &m, FunctionInstantiationIndex(5)).expect_err("err");
    assert_eq!(
        err,
        VMError::InvariantViolation {
            reason: InvariantViolationReason::IndexOutOfBoundsPostVerification
        }
    );
}

#[test]
fn call_with_too_few_arguments_underflows() {
    let m = call_module(vec![SignatureToken::U64, SignatureToken::U64], true);
    let mut state = state_with_frame(0);
    push_stack(&mut state, vec![Value::U64(1)]);
    let err = do_call(&mut state, &m, fh(0)).expect_err("err");
    assert_eq!(err, VMError::InvariantViolation { reason: InvariantViolationReason::StackUnderflow });
    assert_eq!(state.frame_depth(), 1);
}

#[test]
fn native_call_halves_move_arguments_and_results() {
    let m = call_module(vec![SignatureToken::U64, SignatureToken::U64], false);
    let mut state = state_with_frame(0);
    push_stack(&mut state, vec![Value::U64(1), Value::U64(2), Value::U64(3)]);
    let (args, results) = native_call_args(&mut state, &m, fh(0)).expect("args");
    assert_eq!(args, vec![Value::U64(2), Value::U64(3)]);
    assert_eq!(results, 1);
    assert_eq!(
        finish_native_call(&mut state, 1, results, vec![]),
        Err(VMError::InvariantViolation {
            reason: InvariantViolationReason::ReturnArityMismatchPostNativeHandler
        })
    );
    assert_eq!(
        finish_native_call(&mut state, 2, results, vec![Value::U64(9)]),
        Err(VMError::InvariantViolation {
            reason: InvariantViolationReason::NativeHandlerMutatedFrameStack
        })
    );
    finish_native_call(&mut state, 1, results, vec![Value::U64(9)]).expect("finish");
    assert_eq!(stack(&state), vec![Value::U64(1), Value::U64(9)]);
}

#[test]
fn caller_mode_check() {
    let state = state_with_frame(0);
    assert_eq!(check_caller_mode(&state, PrivacyMode::Transparent), Ok(()));
    assert_eq!(
        check_caller_mode(&state, PrivacyMode::Shielded),
        Err(VMError::InvariantViolation {
            reason: InvariantViolationReason::PrivacyModeMismatchPostVerification
        })
    );
    assert_eq!(
        check_caller_mode(&InterpreterState::new(), PrivacyMode::Shielded),
        Err(VMError::InvariantViolation { reason: InvariantViolationReason::StackUnderflow })
    );
}

#[test]
fn equality_compares_containers_element_by_element() {
    let m = AdamantCompiledModule::default();
    let mut state = state_with_frame(0);
    let v = Value::Vector(vec![Value::U8(1), Value::Struct(StructValue { fields: vec![Value::Bool(true)] })]);
    push_stack(&mut state, vec![v.clone(), v.clone()]);
    inherited(&mut state, &m, Bytecode::Eq).expect("eq");
    assert_eq!(stack(&state), vec![Value::Bool(true)]);
    push_stack(&mut state, vec![Value::Vector(vec![Value::U8(1)]), Value::Vector(vec![Value::U8(2)])]);
    inherited(&mut state, &m, Bytecode::Neq).expect("neq");
    assert_eq!(stack(&state), vec![Value::Bool(true), Value::Bool(true)]);
    push_stack(&mut state, vec![Value::U8(1), Value::U16(1)]);
    inherited(&mut state, &m, Bytecode::Eq).expect("eq");
    assert_eq!(stack(&state).last(), Some(&Value::Bool(false)));
    let a = Address::from_bytes([1; 32]);
    push_stack(&mut state, vec![Value::Address(a), Value::Address(a)]);
    inherited(&mut state, &m, Bytecode::Eq).expect("eq");
    assert_eq!(stack(&state).last(), Some(&Value::Bool(true)));
}

fn u256_bytes(x: u128, hi: u128) -> [u8; 32] {
    U256 { lo: x, hi }.to_le_bytes()
}

#[test]
fn u256_arithmetic_and_shifts() {
    let m = AdamantCompiledModule::default();
    let mut state = state_with_frame(0);
    push_stack(&mut state, vec![Value::U256(u256_bytes(0, 1)), Value::U256(u256_bytes(3, 0))]);
    inherited(&mut state, &m, Bytecode::Div).expect("div");
    assert_eq!(
        stack(&state),
        vec![Value::U256(u256_bytes(0x5555_5555_5555_5555_5555_5555_5555_5555, 0))]
    );
    push_stack(&mut state, vec![Value::U256(u256_bytes(7, 0))]);
    inherited(&mut state, &m, Bytecode::Mod).expect("mod");
    assert_eq!(stack(&state), vec![Value::U256(u256_bytes(1, 0))]);
    push_stack(&mut state, vec![Value::U8(130)]);
    inherited(&mut state, &m, Bytecode::Shl).expect("shl");
    assert_eq!(stack(&state), vec![Value::U256(u256_bytes(0, 4))]);
    push_stack(&mut state, vec![Value::U8(129)]);
    inherited(&mut state, &m, Bytecode::Shr).expect("shr");
    assert_eq!(stack(&state), vec![Value::U256(u256_bytes(2, 0))]);
    push_stack(&mut state, vec![Value::U256(u256_bytes(u128::MAX, u128::MAX)), Value::U256(u256_bytes(2, 0))]);
    let err = inherited(&mut state, &m, Bytecode::Mul).expect_err("overflow");
    assert_eq!(err, VMError::ArithmeticError { reason: ArithmeticErrorReason::Overflow });
}

#[test]
fn casts_across_widths() {
    let m = AdamantCompiledModule::default();
    let mut state = state_with_frame(0);
    push_stack(&mut state, vec![Value::U32(70_000)]);
    let err = inherited(&mut state, &m, Bytecode::CastU16).expect_err("narrow");
    assert_eq!(err, VMError::ArithmeticError { reason: ArithmeticErrorReason::CastNotRepresentable });
    push_stack(&mut state, vec![Value::U16(65_535)]);
    inherited(&mut state, &m, Bytecode::CastU32).expect("widen");
    inherited(&mut state, &m, Bytecode::CastU256).expect("widen");
    inherited(&mut state, &m, Bytecode::CastU16).expect("narrow back");
    assert_eq!(stack(&state), vec![Value::U16(65_535)]);
    push_stack(&mut state, vec![Value::Bool(true)]);
    let err = inherited(&mut state, &m, Bytecode::CastU64).expect_err("bool");
    assert_eq!(err, VMError::InvariantViolation { reason: InvariantViolationReason::TypeMismatchOnStack });
}

#[test]
fn ret_from_a_callee_continues_the_caller() {
    let m = AdamantCompiledModule::default();
    let mut state = state_with_frame(0);
    state.push_frame(Frame::new(fh(1), 0));
    assert_eq!(inherited(&mut state, &m, Bytecode::Ret), Ok(DispatchOutcome::Continue));
    assert_eq!(state.frame_depth(), 1);
    assert_eq!(inherited(&mut state, &m, Bytecode::Ret), Ok(DispatchOutcome::Halt));
    assert!(state.is_empty());
}

#[test]
fn module_without_extensions_passes_the_inherited_check() {
    let m = call_module(vec![], true);
    assert!(!m.contains_adamant_extensions());
    assert_eq!(m.check_inherited_only(), Ok(()));
    let _ = ModuleHandle { address: AddressIdentifierIndex(0), name: IdentifierIndex(0) };
}
