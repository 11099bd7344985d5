//! Wire format of function bodies: round trips, strict decoding and
//! each decoding error.

use adamant_vm::opcodes;
use adamant_vm::{
    deserialize_function_body, deserialize_function_body_from_cursor, serialize_function_body,
    AdamantBytecode, AdamantOpcodeKind, Bytecode, BytecodeInstruction, CircuitId, CodeOffset,
    ConstantPoolIndex, Cursor, DeserializeConfig, DeserializeError, FieldHandleIndex,
    FieldInstantiationIndex, FunctionHandleIndex, FunctionInstantiationIndex, GasDimension,
    LocalIndex, SignatureIndex, StructDefInstantiationIndex, StructDefinitionIndex,
    VariantHandleIndex, VariantInstantiationHandleIndex, VariantJumpTableIndex, U256,
};

fn round_trip(instr: &BytecodeInstruction) {
    let body = vec![instr.clone()];
    let bytes = serialize_function_body(&body).expect("encode");
    let decoded =
        deserialize_function_body(&bytes, &DeserializeConfig::lenient()).expect("decode");
    assert_eq!(decoded, body, "round-trip mismatch for {instr:?}");
}

fn rt_inherited(bc: Bytecode) {
    round_trip(&BytecodeInstruction::Inherited(bc));
}

fn rt_adamant(ext: AdamantBytecode) {
    round_trip(&BytecodeInstruction::Adamant(ext));
}

#[test]
fn round_trip_zero_operand_inherited() {
    let cases: [Bytecode; 30] = [
        Bytecode::Pop,
        Bytecode::Ret,
        Bytecode::CastU8,
        Bytecode::CastU64,
        Bytecode::CastU128,
        Bytecode::LdTrue,
        Bytecode::LdFalse,
        Bytecode::ReadRef,
        Bytecode::WriteRef,
        Bytecode::FreezeRef,
        Bytecode::Add,
        Bytecode::Sub,
        Bytecode::Mul,
        Bytecode::Mod,
        Bytecode::Div,
        Bytecode::BitOr,
        Bytecode::BitAnd,
        Bytecode::Xor,
        Bytecode::Or,
        Bytecode::And,
        Bytecode::Not,
        Bytecode::Eq,
        Bytecode::Neq,
        Bytecode::Lt,
        Bytecode::Gt,
        Bytecode::Le,
        Bytecode::Ge,
        Bytecode::Abort,
        Bytecode::Nop,
        Bytecode::Shl,
    ];
    for bc in cases {
        rt_inherited(bc);
    }
    rt_inherited(Bytecode::Shr);
    rt_inherited(Bytecode::CastU16);
    rt_inherited(Bytecode::CastU32);
    rt_inherited(Bytecode::CastU256);
}

#[test]
fn round_trip_fixed_width_immediates() {
    rt_inherited(Bytecode::LdU8(0xab));
    rt_inherited(Bytecode::LdU16(0xabcd));
    rt_inherited(Bytecode::LdU32(0xabcd_1234));
    rt_inherited(Bytecode::LdU64(0x0102_0304_0506_0708));
    rt_inherited(Bytecode::LdU128(Box::new(
        0x0102_0304_0506_0708_090a_0b0c_0d0e_0f10,
    )));
    let mut u256_bytes = [0u8; 32];
    for (i, byte) in u256_bytes.iter_mut().enumerate() {
        #[allow(clippy::cast_possible_truncation)]
        let i_u8 = i as u8;
        *byte = i_u8;
    }
    rt_inherited(Bytecode::LdU256(Box::new(U256::from_le_bytes(&u256_bytes))));
}

#[test]
fn round_trip_uleb128_index_variants() {
    for v in [0u16, 1, 0x7F, 0x80, 0x3FFF, 0xFFFF] {
        rt_inherited(Bytecode::BrTrue(v as CodeOffset));
        rt_inherited(Bytecode::BrFalse(v as CodeOffset));
        rt_inherited(Bytecode::Branch(v as CodeOffset));
        rt_inherited(Bytecode::LdConst(ConstantPoolIndex::new(v)));
        rt_inherited(Bytecode::Call(FunctionHandleIndex::new(v)));
        rt_inherited(Bytecode::CallGeneric(FunctionInstantiationIndex::new(v)));
        rt_inherited(Bytecode::Pack(StructDefinitionIndex::new(v)));
        rt_inherited(Bytecode::PackGeneric(StructDefInstantiationIndex::new(v)));
        rt_inherited(Bytecode::Unpack(StructDefinitionIndex::new(v)));
        rt_inherited(Bytecode::UnpackGeneric(StructDefInstantiationIndex::new(v)));
        rt_inherited(Bytecode::MutBorrowField(FieldHandleIndex::new(v)));
        rt_inherited(Bytecode::MutBorrowFieldGeneric(
            FieldInstantiationIndex::new(v),
        ));
        rt_inherited(Bytecode::ImmBorrowField(FieldHandleIndex::new(v)));
        rt_inherited(Bytecode::ImmBorrowFieldGeneric(
            FieldInstantiationIndex::new(v),
        ));
        rt_inherited(Bytecode::PackVariant(VariantHandleIndex::new(v)));
        rt_inherited(Bytecode::PackVariantGeneric(
            VariantInstantiationHandleIndex::new(v),
        ));
        rt_inherited(Bytecode::UnpackVariant(VariantHandleIndex::new(v)));
        rt_inherited(Bytecode::UnpackVariantImmRef(VariantHandleIndex::new(v)));
        rt_inherited(Bytecode::UnpackVariantMutRef(VariantHandleIndex::new(v)));
        rt_inherited(Bytecode::UnpackVariantGeneric(
            VariantInstantiationHandleIndex::new(v),
        ));
        rt_inherited(Bytecode::UnpackVariantGenericImmRef(
            VariantInstantiationHandleIndex::new(v),
        ));
        rt_inherited(Bytecode::UnpackVariantGenericMutRef(
            VariantInstantiationHandleIndex::new(v),
        ));
        rt_inherited(Bytecode::VariantSwitch(VariantJumpTableIndex::new(v)));
    }
    for v in [0u8, 1, 0x7F, 0x80, 0xFF] {
        rt_inherited(Bytecode::CopyLoc(v as LocalIndex));
        rt_inherited(Bytecode::MoveLoc(v as LocalIndex));
        rt_inherited(Bytecode::StLoc(v as LocalIndex));
        rt_inherited(Bytecode::MutBorrowLoc(v as LocalIndex));
        rt_inherited(Bytecode::ImmBorrowLoc(v as LocalIndex));
    }
}

#[test]
fn round_trip_vec_variants() {
    for v in [0u16, 0x7F, 0x80, 0xFFFF] {
        for n in [0u64, 1, 0xFFFF_FFFF] {
            rt_inherited(Bytecode::VecPack(SignatureIndex::new(v), n));
            rt_inherited(Bytecode::VecUnpack(SignatureIndex::new(v), n));
        }
        rt_inherited(Bytecode::VecLen(SignatureIndex::new(v)));
        rt_inherited(Bytecode::VecImmBorrow(SignatureIndex::new(v)));
        rt_inherited(Bytecode::VecMutBorrow(SignatureIndex::new(v)));
        rt_inherited(Bytecode::VecPushBack(SignatureIndex::new(v)));
        rt_inherited(Bytecode::VecPopBack(SignatureIndex::new(v)));
        rt_inherited(Bytecode::VecSwap(SignatureIndex::new(v)));
    }
}

#[test]
fn round_trip_deprecated_variants() {
    for v in [0u16, 0x7F, 0x80, 0xFFFF] {
        rt_inherited(Bytecode::ExistsDeprecated(StructDefinitionIndex::new(v)));
        rt_inherited(Bytecode::ExistsGenericDeprecated(
            StructDefInstantiationIndex::new(v),
        ));
        rt_inherited(Bytecode::MoveFromDeprecated(StructDefinitionIndex::new(v)));
        rt_inherited(Bytecode::MoveFromGenericDeprecated(
            StructDefInstantiationIndex::new(v),
        ));
        rt_inherited(Bytecode::MoveToDeprecated(StructDefinitionIndex::new(v)));
        rt_inherited(Bytecode::MoveToGenericDeprecated(
            StructDefInstantiationIndex::new(v),
        ));
        rt_inherited(Bytecode::MutBorrowGlobalDeprecated(
            StructDefinitionIndex::new(v),
        ));
        rt_inherited(Bytecode::MutBorrowGlobalGenericDeprecated(
            StructDefInstantiationIndex::new(v),
        ));
        rt_inherited(Bytecode::ImmBorrowGlobalDeprecated(
            StructDefinitionIndex::new(v),
        ));
        rt_inherited(Bytecode::ImmBorrowGlobalGenericDeprecated(
            StructDefInstantiationIndex::new(v),
        ));
    }
}

#[test]
fn strict_mode_rejects_each_deprecated_opcode() {
    let cases: [(Bytecode, u8); 10] = [
        (
            Bytecode::ExistsDeprecated(StructDefinitionIndex::new(0)),
            opcodes::EXISTS_DEPRECATED,
        ),
        (
            Bytecode::ExistsGenericDeprecated(StructDefInstantiationIndex::new(0)),
            opcodes::EXISTS_GENERIC_DEPRECATED,
        ),
        (
            Bytecode::MoveFromDeprecated(StructDefinitionIndex::new(0)),
            opcodes::MOVE_FROM_DEPRECATED,
        ),
        (
            Bytecode::MoveFromGenericDeprecated(StructDefInstantiationIndex::new(0)),
            opcodes::MOVE_FROM_GENERIC_DEPRECATED,
        ),
        (
            Bytecode::MoveToDeprecated(StructDefinitionIndex::new(0)),
            opcodes::MOVE_TO_DEPRECATED,
        ),
        (
            Bytecode::MoveToGenericDeprecated(StructDefInstantiationIndex::new(0)),
            opcodes::MOVE_TO_GENERIC_DEPRECATED,
        ),
        (
            Bytecode::MutBorrowGlobalDeprecated(StructDefinitionIndex::new(0)),
            opcodes::MUT_BORROW_GLOBAL_DEPRECATED,
        ),
        (
            Bytecode::MutBorrowGlobalGenericDeprecated(StructDefInstantiationIndex::new(0)),
            opcodes::MUT_BORROW_GLOBAL_GENERIC_DEPRECATED,
        ),
        (
            Bytecode::ImmBorrowGlobalDeprecated(StructDefinitionIndex::new(0)),
            opcodes::IMM_BORROW_GLOBAL_DEPRECATED,
        ),
        (
            Bytecode::ImmBorrowGlobalGenericDeprecated(StructDefInstantiationIndex::new(0)),
            opcodes::IMM_BORROW_GLOBAL_GENERIC_DEPRECATED,
        ),
    ];
    for (bc, expected_byte) in cases {
        let body = vec![BytecodeInstruction::Inherited(bc.clone())];
        let bytes = serialize_function_body(&body).expect("encode");
        let result = deserialize_function_body(&bytes, &DeserializeConfig::strict());
        assert_eq!(
            result,
            Err(DeserializeError::DeprecatedGlobalStorageOpcode(
                expected_byte
            )),
            "strict mode should reject {bc:?}"
        );
        let decoded = deserialize_function_body(&bytes, &DeserializeConfig::lenient())
            .expect("lenient decode succeeds");
        assert_eq!(decoded, body);
    }
}

#[test]
fn cursor_api_leaves_trailing_bytes_for_caller() {
    let bytes = vec![0x01, opcodes::RET, 0xAA, 0xBB, 0xCC];
    let mut cursor = Cursor::new(&bytes[..]);
    let body =
        deserialize_function_body_from_cursor(&mut cursor, &DeserializeConfig::lenient())
            .expect("decode");
    assert_eq!(body, vec![BytecodeInstruction::Inherited(Bytecode::Ret)]);
    assert_eq!(cursor.position(), 2, "cursor advanced past body only");
    let result = deserialize_function_body(&bytes, &DeserializeConfig::lenient());
    assert_eq!(result, Err(DeserializeError::TrailingBytes));
}

#[test]
fn round_trip_adamant_extensions() {
    for v in [0u16, 0x7F, 0x80, 0xFFFF] {
        rt_adamant(AdamantBytecode::InvokeShielded(FunctionHandleIndex::new(v)));
        rt_adamant(AdamantBytecode::InvokeTransparent(
            FunctionHandleIndex::new(v),
        ));
        rt_adamant(AdamantBytecode::GenerateProof(CircuitId(v)));
        rt_adamant(AdamantBytecode::VerifyProof(CircuitId(v)));
    }
    for d in [
        GasDimension::Computation,
        GasDimension::Storage,
        GasDimension::Rent,
        GasDimension::Bandwidth,
        GasDimension::ProofVerification,
        GasDimension::ProofGeneration,
    ] {
        rt_adamant(AdamantBytecode::ChargeGas(d));
        rt_adamant(AdamantBytecode::RemainingGas(d));
    }
    rt_adamant(AdamantBytecode::ReleaseSubViewKey);
    rt_adamant(AdamantBytecode::KzgCommit);
    rt_adamant(AdamantBytecode::KzgVerify);
    rt_adamant(AdamantBytecode::RecursiveVerify);
    rt_adamant(AdamantBytecode::Sha3_256);
    rt_adamant(AdamantBytecode::Blake3);
    rt_adamant(AdamantBytecode::Ed25519Verify);
    rt_adamant(AdamantBytecode::MlDsaVerify65);
    rt_adamant(AdamantBytecode::MlKemEncapsulate);
    rt_adamant(AdamantBytecode::MlKemDecapsulate);
    rt_adamant(AdamantBytecode::BlsVerify);
    rt_adamant(AdamantBytecode::OutOfGas);
}

#[test]
fn round_trip_empty_body() {
    let body: Vec<BytecodeInstruction> = vec![];
    let bytes = serialize_function_body(&body).expect("encode");
    assert_eq!(bytes, vec![0x00]);
    let decoded =
        deserialize_function_body(&bytes, &DeserializeConfig::lenient()).expect("decode");
    assert_eq!(decoded, body);
}

#[test]
fn deserialize_unexpected_eof_empty_input() {
    let result = deserialize_function_body(&[], &DeserializeConfig::lenient());
    assert_eq!(result, Err(DeserializeError::UnexpectedEof));
}

#[test]
fn deserialize_unexpected_eof_truncated_operand() {
    let bytes = vec![0x01, opcodes::LD_U64];
    let result = deserialize_function_body(&bytes, &DeserializeConfig::lenient());
    assert_eq!(result, Err(DeserializeError::UnexpectedEof));
}

#[test]
fn deserialize_unknown_opcode() {
    let bytes = vec![0x01, 0xFF];
    let result = deserialize_function_body(&bytes, &DeserializeConfig::lenient());
    assert_eq!(result, Err(DeserializeError::UnknownOpcode(0xFF)));
}

#[test]
fn deserialize_malformed_uleb128() {
    let bytes = vec![
        0x01,
        opcodes::CALL,
        0xFF,
        0xFF,
        0xFF,
        0xFF,
        0xFF,
        0xFF,
        0xFF,
        0xFF,
        0xFF,
        0xFF,
        0xFF,
    ];
    let result = deserialize_function_body(&bytes, &DeserializeConfig::lenient());
    assert_eq!(result, Err(DeserializeError::MalformedUleb128));
}

#[test]
fn deserialize_trailing_bytes() {
    let bytes = vec![0x01, opcodes::POP, 0xAA];
    let result = deserialize_function_body(&bytes, &DeserializeConfig::lenient());
    assert_eq!(result, Err(DeserializeError::TrailingBytes));
}


#[test]
fn deserialize_invalid_operand_gas_dimension() {
    let bytes = vec![0x01, AdamantOpcodeKind::ChargeGas.opcode_byte(), 0x06];
    let result = deserialize_function_body(&bytes, &DeserializeConfig::lenient());
    assert!(matches!(
        result,
        Err(DeserializeError::InvalidOperand { opcode: 0x8F, .. })
    ));
}

#[test]
fn opcode_byte_space_coverage_unknown() {
    let unknown = [0x00, 0x57, 0x58, 0x5F, 0x60, 0x70, 0x7F, 0xA0, 0xC0, 0xFE, 0xFF];
    for b in unknown {
        let bytes = vec![0x01, b];
        let result = deserialize_function_body(&bytes, &DeserializeConfig::lenient());
        assert_eq!(result, Err(DeserializeError::UnknownOpcode(b)), "byte {b:#04x}");
    }
}

#[test]
fn ld_u64_is_encoded_little_endian_after_its_opcode() {
    let body = vec![BytecodeInstruction::Inherited(Bytecode::LdU64(0x0102_0304_0506_0708))];
    let bytes = serialize_function_body(&body).expect("encode");
    assert_eq!(
        bytes,
        vec![0x01, opcodes::LD_U64, 0x08, 0x07, 0x06, 0x05, 0x04, 0x03, 0x02, 0x01]
    );
}

#[test]
fn index_operand_is_uleb128_encoded() {
    let body = vec![BytecodeInstruction::Inherited(Bytecode::Call(FunctionHandleIndex::new(0x80)))];
    let bytes = serialize_function_body(&body).expect("encode");
    assert_eq!(bytes, vec![0x01, opcodes::CALL, 0x80, 0x01]);
}

#[test]
fn index_operand_above_u16_is_invalid() {
    let bytes = vec![0x01, opcodes::CALL, 0x80, 0x80, 0x04];
    let result = deserialize_function_body(&bytes, &DeserializeConfig::lenient());
    assert!(matches!(result, Err(DeserializeError::InvalidOperand { .. })));
}

#[test]
fn strict_decoding_names_the_first_deprecated_instruction() {
    let body = vec![
        BytecodeInstruction::Inherited(Bytecode::Nop),
        BytecodeInstruction::Inherited(Bytecode::MoveToDeprecated(StructDefinitionIndex::new(1))),
        BytecodeInstruction::Inherited(Bytecode::ExistsDeprecated(StructDefinitionIndex::new(2))),
    ];
    let bytes = serialize_function_body(&body).unwrap();
    assert_eq!(
        deserialize_function_body(&bytes, &DeserializeConfig::strict()),
        Err(DeserializeError::DeprecatedGlobalStorageOpcode(opcodes::MOVE_TO_DEPRECATED))
    );
    assert_eq!(deserialize_function_body(&bytes, &DeserializeConfig::lenient()).unwrap(), body);
}

#[test]
fn a_refused_opcode_leaves_the_cursor_just_past_it() {
    let bytes = [2u8, opcodes::NOP, opcodes::EXISTS_DEPRECATED, 0x05];
    let mut cursor = Cursor::new(&bytes);
    assert_eq!(
        deserialize_function_body_from_cursor(&mut cursor, &DeserializeConfig::strict()),
        Err(DeserializeError::DeprecatedGlobalStorageOpcode(opcodes::EXISTS_DEPRECATED))
    );
    assert_eq!(cursor.position(), 3);

    let bytes = [1u8, 0xFF];
    let mut cursor = Cursor::new(&bytes);
    assert_eq!(
        deserialize_function_body_from_cursor(&mut cursor, &DeserializeConfig::strict()),
        Err(DeserializeError::UnknownOpcode(0xFF))
    );
    assert_eq!(cursor.position(), 2);
}

#[test]
fn a_short_operand_leaves_the_cursor_where_the_operand_starts() {
    let bytes = [1u8, opcodes::LD_U8];
    let mut cursor = Cursor::new(&bytes);
    assert_eq!(
        deserialize_function_body_from_cursor(&mut cursor, &DeserializeConfig::lenient()),
        Err(DeserializeError::UnexpectedEof)
    );
    assert_eq!(cursor.position(), 2);
}
