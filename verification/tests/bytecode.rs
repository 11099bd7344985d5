//! Instruction-set tables: opcode bytes, kinds and instruction shapes.

use adamant_vm::{
    AdamantBytecode, AdamantOpcodeKind, Bytecode, BytecodeInstruction, CircuitId,
    FunctionHandleIndex, GasDimension,
};

#[test]
fn adamant_opcode_kind_all_count_matches_spec() {
    assert_eq!(
        AdamantOpcodeKind::ALL.len(),
        18,
        "the extension set has 18 instructions"
    );
}

#[test]
fn adamant_opcode_kind_bytes_match_spec() {
    let cases: [(AdamantOpcodeKind, u8); 18] = [
        (AdamantOpcodeKind::InvokeShielded, 0x80),
        (AdamantOpcodeKind::InvokeTransparent, 0x81),
        (AdamantOpcodeKind::GenerateProof, 0x82),
        (AdamantOpcodeKind::VerifyProof, 0x83),
        (AdamantOpcodeKind::ReleaseSubViewKey, 0x84),
        (AdamantOpcodeKind::KzgCommit, 0x85),
        (AdamantOpcodeKind::KzgVerify, 0x86),
        (AdamantOpcodeKind::RecursiveVerify, 0x87),
        (AdamantOpcodeKind::Sha3_256, 0x88),
        (AdamantOpcodeKind::Blake3, 0x89),
        (AdamantOpcodeKind::Ed25519Verify, 0x8A),
        (AdamantOpcodeKind::MlDsaVerify65, 0x8B),
        (AdamantOpcodeKind::BlsVerify, 0x8C),
        (AdamantOpcodeKind::MlKemEncapsulate, 0x8D),
        (AdamantOpcodeKind::MlKemDecapsulate, 0x8E),
        (AdamantOpcodeKind::ChargeGas, 0x8F),
        (AdamantOpcodeKind::RemainingGas, 0x90),
        (AdamantOpcodeKind::OutOfGas, 0x91),
    ];
    for (kind, expected) in cases {
        assert_eq!(
            kind.opcode_byte(),
            expected,
            "opcode-byte mismatch for {kind:?}"
        );
    }
}

#[test]
fn opcode_byte_round_trips_through_kind() {
    for &kind in AdamantOpcodeKind::ALL.iter() {
        let byte = kind.opcode_byte();
        assert_eq!(
            AdamantOpcodeKind::try_from_opcode_byte(byte),
            Some(kind),
            "round-trip mismatch for {kind:?} (opcode {byte:#04x})"
        );
    }
}

#[test]
fn try_from_opcode_byte_full_byte_space() {
    for byte in 0u8..=0xFF {
        let in_range = (0x80..=0x91).contains(&byte);
        let parsed = AdamantOpcodeKind::try_from_opcode_byte(byte);
        if in_range {
            assert!(parsed.is_some(), "byte {byte:#04x} should parse to a kind");
        } else {
            assert!(
                parsed.is_none(),
                "byte {byte:#04x} should NOT parse (inherited range or unassigned)"
            );
        }
    }
}

#[test]
fn adamant_bytecode_kind_consistency() {
    let fn_idx = FunctionHandleIndex::new(0);
    let circuit = CircuitId(0);
    let dim = GasDimension::Computation;

    let cases: [(AdamantBytecode, AdamantOpcodeKind); 16] = [
        (
            AdamantBytecode::InvokeShielded(fn_idx),
            AdamantOpcodeKind::InvokeShielded,
        ),
        (
            AdamantBytecode::InvokeTransparent(fn_idx),
            AdamantOpcodeKind::InvokeTransparent,
        ),
        (
            AdamantBytecode::GenerateProof(circuit),
            AdamantOpcodeKind::GenerateProof,
        ),
        (
            AdamantBytecode::VerifyProof(circuit),
            AdamantOpcodeKind::VerifyProof,
        ),
        (
            AdamantBytecode::ReleaseSubViewKey,
            AdamantOpcodeKind::ReleaseSubViewKey,
        ),
        (AdamantBytecode::KzgCommit, AdamantOpcodeKind::KzgCommit),
        (AdamantBytecode::KzgVerify, AdamantOpcodeKind::KzgVerify),
        (
            AdamantBytecode::RecursiveVerify,
            AdamantOpcodeKind::RecursiveVerify,
        ),
        (AdamantBytecode::Sha3_256, AdamantOpcodeKind::Sha3_256),
        (AdamantBytecode::Blake3, AdamantOpcodeKind::Blake3),
        (
            AdamantBytecode::Ed25519Verify,
            AdamantOpcodeKind::Ed25519Verify,
        ),
        (
            AdamantBytecode::MlDsaVerify65,
            AdamantOpcodeKind::MlDsaVerify65,
        ),
        (AdamantBytecode::BlsVerify, AdamantOpcodeKind::BlsVerify),
        (
            AdamantBytecode::ChargeGas(dim),
            AdamantOpcodeKind::ChargeGas,
        ),
        (
            AdamantBytecode::RemainingGas(dim),
            AdamantOpcodeKind::RemainingGas,
        ),
        (AdamantBytecode::OutOfGas, AdamantOpcodeKind::OutOfGas),
    ];
    for (bc, expected_kind) in cases {
        assert_eq!(bc.kind(), expected_kind, "kind mismatch for {bc:?}");
        assert_eq!(
            bc.opcode_byte(),
            expected_kind.opcode_byte(),
            "opcode_byte delegation mismatch for {bc:?}"
        );
    }
}

#[test]
fn gas_dimension_six_variants_in_spec_order() {
    let ordered = [
        GasDimension::Computation,
        GasDimension::Storage,
        GasDimension::Rent,
        GasDimension::Bandwidth,
        GasDimension::ProofVerification,
        GasDimension::ProofGeneration,
    ];
    assert_eq!(ordered.len(), 6);
    for (i, a) in ordered.iter().enumerate() {
        for (j, b) in ordered.iter().enumerate() {
            if i == j {
                assert_eq!(a, b);
            } else {
                assert_ne!(a, b, "variants {i} and {j} must differ");
            }
        }
    }
}

#[test]
fn circuit_id_round_trips_through_u16() {
    let id = CircuitId(0x1234);
    assert_eq!(id.0, 0x1234);
    let id2 = CircuitId(0x1234);
    assert_eq!(id, id2);
}

#[test]
fn bytecode_instruction_constructs_both_variants() {
    let inherited = BytecodeInstruction::Inherited(Bytecode::Pop);
    let adamant = BytecodeInstruction::Adamant(AdamantBytecode::OutOfGas);
    assert_ne!(inherited, adamant);
    assert_eq!(
        inherited.clone(),
        BytecodeInstruction::Inherited(Bytecode::Pop)
    );
    assert_eq!(
        adamant.clone(),
        BytecodeInstruction::Adamant(AdamantBytecode::OutOfGas)
    );
}
