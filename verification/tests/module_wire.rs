//! Module wire format: serialization, deserialization and their
//! round trip.

use adamant_vm::bytecode::{AdamantBytecode, CircuitId, GasDimension, StructDefinitionIndex};
use adamant_vm::cursor::Cursor;
use adamant_vm::module::{
    AbilitySet, AddressIdentifierIndex, Constant, DatatypeHandle, DatatypeHandleIndex,
    DatatypeTyParameter, EnumDefinition, FieldDefinition, FunctionHandle, IdentifierIndex,
    Metadata, ModuleHandle, ModuleHandleIndex, Signature, SignatureToken, StructDefinition,
    StructFieldInformation, TypeSignature, Visibility,
};
use adamant_vm::module_wire::decode::{load_signature_token, load_table_into};
use adamant_vm::module_wire::format::{
    SIGNATURE_TOKEN_DEPTH_MAX, TYPE_U8, TYPE_VECTOR, VERSION_5, VERSION_6, VERSION_MAX,
    VERSION_MIN,
};
use adamant_vm::module_wire::TableType;
use adamant_vm::transaction::Address;
use adamant_vm::{
    adamant_deserialize, adamant_serialize, AdamantCodeUnit, AdamantCompiledModule,
    AdamantDeserializeError, AdamantFunctionDefinition, AdamantSerializeError,
    AdamantToSuiConversionError, Bytecode, BytecodeInstruction, DeserializeError,
    FunctionHandleIndex, SignatureIndex,
};

const MOVE_MAGIC: [u8; 4] = [0xa1, 0x1c, 0xeb, 0x0b];
const UNPUBLISHABLE_MAGIC: [u8; 4] = [0xde, 0xad, 0xc0, 0xde];

fn flavored(version: u32) -> u32 {
    if version <= 6 {
        version
    } else {
        version | 0x0500_0000
    }
}

fn ident(s: &str) -> String {
    s.to_string()
}

fn minimal(version: u32) -> AdamantCompiledModule {
    AdamantCompiledModule {
        version,
        publishable: true,
        self_module_handle_idx: ModuleHandleIndex(0),
        module_handles: vec![ModuleHandle { address: AddressIdentifierIndex(0), name: IdentifierIndex(0) }],
        identifiers: vec![ident("M")],
        address_identifiers: vec![Address([0u8; 32])],
        ..AdamantCompiledModule::default()
    }
}

fn rich(version: u32) -> AdamantCompiledModule {
    let mut m = minimal(version);
    m.identifiers.push(ident("f"));
    m.datatype_handles.push(DatatypeHandle {
        module: ModuleHandleIndex(0),
        name: IdentifierIndex(1),
        abilities: AbilitySet(0x02),
        type_parameters: vec![],
    });
    m.signatures.push(Signature(vec![]));
    m.signatures.push(Signature(vec![SignatureToken::U64]));
    m.function_handles.push(FunctionHandle {
        module: ModuleHandleIndex(0),
        name: IdentifierIndex(1),
        parameters: SignatureIndex(0),
        return_: SignatureIndex(1),
        type_parameters: vec![],
    });
    m.constant_pool.push(Constant { type_: SignatureToken::U64, data: vec![1, 0, 0, 0, 0, 0, 0, 0] });
    if version >= VERSION_5 {
        m.metadata.push(Metadata { key: b"adamant.privacy".to_vec(), value: vec![0x00] });
    }
    m.function_defs.push(AdamantFunctionDefinition {
        function: FunctionHandleIndex(0),
        visibility: Visibility::Public,
        is_entry: false,
        acquires_global_resources: vec![],
        code: Some(AdamantCodeUnit {
            locals: SignatureIndex(0),
            code: vec![
                BytecodeInstruction::Inherited(Bytecode::LdU64(1)),
                BytecodeInstruction::Inherited(Bytecode::Pop),
                BytecodeInstruction::Inherited(Bytecode::Ret),
            ],
            jump_tables: vec![],
        }),
    });
    m
}

fn with_function(body: Vec<BytecodeInstruction>, visibility: Visibility, is_entry: bool, version: u32) -> AdamantCompiledModule {
    AdamantCompiledModule {
        version,
        publishable: true,
        self_module_handle_idx: ModuleHandleIndex(0),
        module_handles: vec![ModuleHandle { address: AddressIdentifierIndex(0), name: IdentifierIndex(0) }],
        identifiers: vec![ident("M"), ident("h")],
        address_identifiers: vec![Address([0u8; 32])],
        signatures: vec![Signature(vec![])],
        function_handles: vec![FunctionHandle {
            module: ModuleHandleIndex(0),
            name: IdentifierIndex(1),
            parameters: SignatureIndex(0),
            return_: SignatureIndex(0),
            type_parameters: vec![],
        }],
        function_defs: vec![AdamantFunctionDefinition {
            function: FunctionHandleIndex(0),
            visibility,
            is_entry,
            acquires_global_resources: vec![],
            code: Some(AdamantCodeUnit { locals: SignatureIndex(0), code: body, jump_tables: vec![] }),
        }],
        ..AdamantCompiledModule::default()
    }
}

fn module_with_extension(extension: AdamantBytecode) -> AdamantCompiledModule {
    with_function(
        vec![BytecodeInstruction::Adamant(extension), BytecodeInstruction::Inherited(Bytecode::Ret)],
        Visibility::Private,
        false,
        VERSION_MAX,
    )
}

fn round_trip_module(module: &AdamantCompiledModule) {
    let mut bytes = Vec::new();
    adamant_serialize(module, &mut bytes).expect("serialize");
    let parsed = adamant_deserialize(&bytes).expect("deserialize");
    assert_eq!(&parsed, module, "round-trip mismatch");
}

#[test]
fn empty_module_serializes_to_expected_bytes() {
    let module = AdamantCompiledModule {
        version: VERSION_MAX,
        publishable: true,
        self_module_handle_idx: ModuleHandleIndex(0),
        ..AdamantCompiledModule::default()
    };
    let mut out = Vec::new();
    adamant_serialize(&module, &mut out).unwrap();
    let mut expected = Vec::new();
    expected.extend_from_slice(&MOVE_MAGIC);
    expected.extend_from_slice(&flavored(VERSION_MAX).to_le_bytes());
    expected.push(0);
    expected.push(0);
    assert_eq!(out, expected);
}

#[test]
fn unpublishable_module_uses_unpublishable_magic() {
    let module = AdamantCompiledModule {
        version: VERSION_MAX,
        publishable: false,
        self_module_handle_idx: ModuleHandleIndex(0),
        ..AdamantCompiledModule::default()
    };
    let mut out = Vec::new();
    adamant_serialize(&module, &mut out).unwrap();
    assert_eq!(&out[..4], &UNPUBLISHABLE_MAGIC);
}

#[test]
fn rejects_version_below_minimum() {
    let module = AdamantCompiledModule { version: VERSION_MIN - 1, ..AdamantCompiledModule::default() };
    let err = adamant_serialize(&module, &mut Vec::new()).unwrap_err();
    assert_eq!(err, AdamantSerializeError::UnsupportedVersion(VERSION_MIN - 1));
}

#[test]
fn rejects_version_above_maximum() {
    let module = AdamantCompiledModule { version: VERSION_MAX + 1, ..AdamantCompiledModule::default() };
    let err = adamant_serialize(&module, &mut Vec::new()).unwrap_err();
    assert_eq!(err, AdamantSerializeError::UnsupportedVersion(VERSION_MAX + 1));
}

#[test]
fn rejects_enum_definitions_at_version_below_7() {
    let mut module = AdamantCompiledModule {
        version: VERSION_6,
        publishable: true,
        self_module_handle_idx: ModuleHandleIndex(0),
        ..AdamantCompiledModule::default()
    };
    module.enum_defs.push(EnumDefinition { enum_handle: DatatypeHandleIndex(0), variants: vec![] });
    let err = adamant_serialize(&module, &mut Vec::new()).unwrap_err();
    assert!(matches!(
        err,
        AdamantSerializeError::VersionFeatureMismatch { feature: "enum tables", .. }
    ));
}

#[test]
fn metadata_below_version_5_check_present() {
    let module = AdamantCompiledModule {
        version: VERSION_5,
        publishable: true,
        self_module_handle_idx: ModuleHandleIndex(0),
        metadata: vec![Metadata { key: b"x".to_vec(), value: b"y".to_vec() }],
        ..AdamantCompiledModule::default()
    };
    let mut out = Vec::new();
    adamant_serialize(&module, &mut out).unwrap();
    assert!(!out.is_empty());
}

#[test]
fn rejects_oversized_metadata_value() {
    let module = AdamantCompiledModule {
        version: VERSION_MAX,
        publishable: true,
        self_module_handle_idx: ModuleHandleIndex(0),
        metadata: vec![Metadata { key: b"k".to_vec(), value: vec![0u8; 65535 + 1] }],
        ..AdamantCompiledModule::default()
    };
    let err = adamant_serialize(&module, &mut Vec::new()).unwrap_err();
    assert!(matches!(
        err,
        AdamantSerializeError::LengthOverflow { kind: "metadata value size", .. }
    ));
}

#[test]
fn extension_in_function_body_serializes_successfully() {
    let module = with_function(
        vec![
            BytecodeInstruction::Adamant(AdamantBytecode::Sha3_256),
            BytecodeInstruction::Inherited(Bytecode::Ret),
        ],
        Visibility::Private,
        false,
        VERSION_MAX,
    );
    let mut out = Vec::new();
    adamant_serialize(&module, &mut out).unwrap();
    assert!(module.contains_adamant_extensions());
    assert!(!out.is_empty());
}

#[test]
fn round_trip_empty_module_all_versions() {
    for version in VERSION_MIN..=VERSION_MAX {
        for publishable in [true, false] {
            let module = AdamantCompiledModule {
                version,
                publishable,
                self_module_handle_idx: ModuleHandleIndex(0),
                ..AdamantCompiledModule::default()
            };
            round_trip_module(&module);
        }
    }
}

#[test]
fn round_trip_rich_pure_sui_module() {
    round_trip_module(&rich(VERSION_MAX));
}

#[test]
fn round_trip_friend_decls() {
    let mut module = minimal(VERSION_MAX);
    module.identifiers.push(ident("FriendMod"));
    module.friend_decls.push(ModuleHandle { address: AddressIdentifierIndex(0), name: IdentifierIndex(1) });
    round_trip_module(&module);
}

#[test]
fn round_trip_vector_u8_signature_token() {
    let mut module = minimal(VERSION_MAX);
    module.constant_pool.push(Constant {
        type_: SignatureToken::Vector(Box::new(SignatureToken::U8)),
        data: vec![],
    });
    round_trip_module(&module);
}

#[test]
fn signature_token_at_max_depth_plus_one_rejected() {
    let depth = SIGNATURE_TOKEN_DEPTH_MAX as usize + 1;
    let mut bytes = Vec::with_capacity(depth + 1);
    for _ in 0..depth {
        bytes.push(TYPE_VECTOR);
    }
    bytes.push(TYPE_U8);
    let mut cursor = Cursor::new(&bytes[..]);
    let result = load_signature_token(&mut cursor);
    assert_eq!(result.unwrap_err(), AdamantDeserializeError::SignatureTooDeep);
}

#[test]
fn round_trip_deep_signature_token_within_depth() {
    let mut module = minimal(VERSION_MAX);
    let mut tok = SignatureToken::U8;
    for _ in 0..64 {
        tok = SignatureToken::Vector(Box::new(tok));
    }
    module.constant_pool.push(Constant { type_: tok, data: vec![] });
    round_trip_module(&module);
}

#[test]
fn round_trip_datatype_instantiation_signature_token() {
    let mut module = minimal(VERSION_MAX);
    module.identifiers.push(ident("S"));
    module.datatype_handles.push(DatatypeHandle {
        module: ModuleHandleIndex(0),
        name: IdentifierIndex(1),
        abilities: AbilitySet(0),
        type_parameters: vec![],
    });
    module.constant_pool.push(Constant {
        type_: SignatureToken::DatatypeInstantiation(Box::new((
            DatatypeHandleIndex(0),
            vec![SignatureToken::U64, SignatureToken::Bool],
        ))),
        data: vec![],
    });
    round_trip_module(&module);
}

#[test]
fn round_trip_function_body_with_extension() {
    let module = with_function(
        vec![
            BytecodeInstruction::Adamant(AdamantBytecode::Sha3_256),
            BytecodeInstruction::Adamant(AdamantBytecode::Blake3),
            BytecodeInstruction::Inherited(Bytecode::Ret),
        ],
        Visibility::Private,
        false,
        VERSION_MAX,
    );
    round_trip_module(&module);
}

#[test]
fn round_trip_public_entry_function_at_v5() {
    let module = with_function(
        vec![BytecodeInstruction::Inherited(Bytecode::Ret)],
        Visibility::Public,
        true,
        VERSION_5,
    );
    round_trip_module(&module);
}

#[test]
fn deserialize_rejects_empty_input() {
    assert_eq!(adamant_deserialize(&[]).unwrap_err(), AdamantDeserializeError::UnexpectedEof);
}

#[test]
fn deserialize_rejects_bad_magic() {
    let mut bytes = vec![0x00; 8];
    bytes[..4].copy_from_slice(b"WXYZ");
    bytes[4..8].copy_from_slice(&VERSION_MAX.to_le_bytes());
    let err = adamant_deserialize(&bytes).unwrap_err();
    assert!(matches!(err, AdamantDeserializeError::BadMagic([b'W', b'X', b'Y', b'Z'])));
}

#[test]
fn deserialize_rejects_version_too_low() {
    let mut bytes = vec![];
    bytes.extend_from_slice(&MOVE_MAGIC);
    bytes.extend_from_slice(&(VERSION_MIN - 1).to_le_bytes());
    bytes.push(0);
    bytes.push(0);
    let err = adamant_deserialize(&bytes).unwrap_err();
    assert_eq!(err, AdamantDeserializeError::UnsupportedVersion(VERSION_MIN - 1));
}

#[test]
fn deserialize_rejects_version_too_high() {
    let mut bytes = vec![];
    bytes.extend_from_slice(&MOVE_MAGIC);
    bytes.extend_from_slice(&(VERSION_MAX + 1).to_le_bytes());
    bytes.push(0);
    bytes.push(0);
    let err = adamant_deserialize(&bytes).unwrap_err();
    assert_eq!(err, AdamantDeserializeError::UnsupportedVersion(VERSION_MAX + 1));
}

#[test]
fn deserialize_rejects_trailing_bytes() {
    let module = AdamantCompiledModule {
        version: VERSION_MAX,
        publishable: true,
        self_module_handle_idx: ModuleHandleIndex(0),
        ..AdamantCompiledModule::default()
    };
    let mut bytes = Vec::new();
    adamant_serialize(&module, &mut bytes).unwrap();
    bytes.push(0xFF);
    let err = adamant_deserialize(&bytes).unwrap_err();
    assert_eq!(err, AdamantDeserializeError::TrailingBytes);
}

#[test]
fn deserialize_rejects_deprecated_global_storage_in_function_body() {
    let module = with_function(
        vec![BytecodeInstruction::Inherited(Bytecode::ExistsDeprecated(StructDefinitionIndex(0)))],
        Visibility::Private,
        false,
        VERSION_MAX,
    );
    let mut bytes = Vec::new();
    adamant_serialize(&module, &mut bytes).expect("serialize");
    let err = adamant_deserialize(&bytes).unwrap_err();
    assert!(
        matches!(err, AdamantDeserializeError::Bytecode(DeserializeError::DeprecatedGlobalStorageOpcode(_))),
        "expected Bytecode(DeprecatedGlobalStorageOpcode(_)), got {err:?}"
    );
}

#[test]
fn round_trip_each_extension_at_module_level() {
    let extensions = [
        AdamantBytecode::InvokeShielded(FunctionHandleIndex(0)),
        AdamantBytecode::InvokeTransparent(FunctionHandleIndex(0)),
        AdamantBytecode::GenerateProof(CircuitId(0)),
        AdamantBytecode::VerifyProof(CircuitId(0)),
        AdamantBytecode::ReleaseSubViewKey,
        AdamantBytecode::KzgCommit,
        AdamantBytecode::KzgVerify,
        AdamantBytecode::RecursiveVerify,
        AdamantBytecode::Sha3_256,
        AdamantBytecode::Blake3,
        AdamantBytecode::Ed25519Verify,
        AdamantBytecode::MlDsaVerify65,
        AdamantBytecode::BlsVerify,
        AdamantBytecode::MlKemEncapsulate,
        AdamantBytecode::MlKemDecapsulate,
        AdamantBytecode::ChargeGas(GasDimension::Computation),
        AdamantBytecode::RemainingGas(GasDimension::Storage),
        AdamantBytecode::OutOfGas,
    ];
    for ext in extensions {
        let module = module_with_extension(ext.clone());
        let mut bytes = Vec::new();
        adamant_serialize(&module, &mut bytes).unwrap_or_else(|e| panic!("serialize failed for {ext:?}: {e:?}"));
        let parsed = adamant_deserialize(&bytes).unwrap_or_else(|e| panic!("deserialize failed for {ext:?}: {e:?}"));
        assert_eq!(parsed, module, "round-trip mismatch for {ext:?}");
        assert!(parsed.contains_adamant_extensions());
        assert_eq!(
            parsed.check_inherited_only(),
            Err(AdamantToSuiConversionError::ContainsAdamantExtensions { function_index: 0, instruction_offset: 0 })
        );
    }
}

#[test]
fn round_trip_rich_multi_extension_function_body() {
    let mut module = module_with_extension(AdamantBytecode::Sha3_256);
    module.function_defs[0].code.as_mut().unwrap().code = vec![
        BytecodeInstruction::Adamant(AdamantBytecode::Sha3_256),
        BytecodeInstruction::Adamant(AdamantBytecode::Blake3),
        BytecodeInstruction::Inherited(Bytecode::Pop),
        BytecodeInstruction::Adamant(AdamantBytecode::Ed25519Verify),
        BytecodeInstruction::Adamant(AdamantBytecode::MlDsaVerify65),
        BytecodeInstruction::Adamant(AdamantBytecode::BlsVerify),
        BytecodeInstruction::Adamant(AdamantBytecode::ChargeGas(GasDimension::Computation)),
        BytecodeInstruction::Adamant(AdamantBytecode::RemainingGas(GasDimension::Bandwidth)),
        BytecodeInstruction::Adamant(AdamantBytecode::OutOfGas),
        BytecodeInstruction::Adamant(AdamantBytecode::GenerateProof(CircuitId(7))),
        BytecodeInstruction::Adamant(AdamantBytecode::VerifyProof(CircuitId(7))),
        BytecodeInstruction::Adamant(AdamantBytecode::InvokeShielded(FunctionHandleIndex(0))),
        BytecodeInstruction::Inherited(Bytecode::Ret),
    ];
    round_trip_module(&module);
}

fn generic(version: u32) -> AdamantCompiledModule {
    let mut m = minimal(version);
    m.identifiers.push(ident("S"));
    m.identifiers.push(ident("f"));
    m.identifiers.push(ident("g"));
    m.signatures.push(Signature(vec![]));
    m.signatures.push(Signature(vec![SignatureToken::TypeParameter(0)]));
    m.datatype_handles.push(DatatypeHandle {
        module: ModuleHandleIndex(0),
        name: IdentifierIndex(1),
        abilities: AbilitySet(0x02),
        type_parameters: vec![DatatypeTyParameter { constraints: AbilitySet(0), is_phantom: false }],
    });
    m.struct_defs.push(StructDefinition {
        struct_handle: DatatypeHandleIndex(0),
        field_information: StructFieldInformation::Declared(vec![FieldDefinition {
            name: IdentifierIndex(2),
            signature: TypeSignature(SignatureToken::TypeParameter(0)),
        }]),
    });
    m.function_handles.push(FunctionHandle {
        module: ModuleHandleIndex(0),
        name: IdentifierIndex(3),
        parameters: SignatureIndex(0),
        return_: SignatureIndex(1),
        type_parameters: vec![AbilitySet(0)],
    });
    m
}

#[test]
fn round_trip_generic_module() {
    round_trip_module(&generic(VERSION_MAX));
}

fn multi_function(version: u32) -> AdamantCompiledModule {
    let mut m = minimal(version);
    m.identifiers.push(ident("alpha"));
    m.identifiers.push(ident("beta"));
    m.signatures.push(Signature(vec![]));
    for name in [1u16, 2] {
        m.function_handles.push(FunctionHandle {
            module: ModuleHandleIndex(0),
            name: IdentifierIndex(name),
            parameters: SignatureIndex(0),
            return_: SignatureIndex(0),
            type_parameters: vec![],
        });
    }
    m.function_defs.push(AdamantFunctionDefinition {
        function: FunctionHandleIndex(0),
        visibility: Visibility::Public,
        is_entry: false,
        acquires_global_resources: vec![],
        code: Some(AdamantCodeUnit {
            locals: SignatureIndex(0),
            code: vec![
                BytecodeInstruction::Inherited(Bytecode::LdU64(42)),
                BytecodeInstruction::Inherited(Bytecode::Pop),
                BytecodeInstruction::Inherited(Bytecode::Ret),
            ],
            jump_tables: vec![],
        }),
    });
    m.function_defs.push(AdamantFunctionDefinition {
        function: FunctionHandleIndex(1),
        visibility: Visibility::Private,
        is_entry: false,
        acquires_global_resources: vec![],
        code: Some(AdamantCodeUnit {
            locals: SignatureIndex(0),
            code: vec![BytecodeInstruction::Inherited(Bytecode::Ret)],
            jump_tables: vec![],
        }),
    });
    m
}

#[test]
fn round_trip_multi_function_module() {
    round_trip_module(&multi_function(VERSION_MAX));
}

#[test]
fn minimal_module_bytes_are_laid_out_table_by_table() {
    let mut out = Vec::new();
    adamant_serialize(&minimal(VERSION_MAX), &mut out).unwrap();
    let mut expected = Vec::new();
    expected.extend_from_slice(&MOVE_MAGIC);
    expected.extend_from_slice(&flavored(VERSION_MAX).to_le_bytes());
    expected.push(3);
    expected.extend_from_slice(&[0x01, 0, 2]);
    expected.extend_from_slice(&[0x07, 2, 2]);
    expected.extend_from_slice(&[0x08, 4, 32]);
    expected.extend_from_slice(&[0, 0]);
    expected.extend_from_slice(&[1, b'M']);
    expected.extend_from_slice(&[0u8; 32]);
    expected.push(0);
    assert_eq!(out, expected);
}

#[test]
fn invalid_identifier_is_refused_on_read() {
    let mut m = minimal(VERSION_MAX);
    m.identifiers[0] = ident("alives");
    let mut bytes = Vec::new();
    adamant_serialize(&m, &mut bytes).unwrap();
    let at = bytes.windows(6).position(|w| w == b"alives").unwrap();
    bytes[at] = b'9';
    assert_eq!(adamant_deserialize(&bytes).unwrap_err(), AdamantDeserializeError::InvalidIdentifier);
}

#[test]
fn invalid_identifier_is_refused_on_write() {
    let mut m = minimal(VERSION_MAX);
    m.identifiers[0] = ident("9lives");
    let mut bytes = vec![0xAA];
    assert_eq!(adamant_serialize(&m, &mut bytes), Err(AdamantSerializeError::InvalidIdentifier));
    assert_eq!(bytes, vec![0xAA]);
}

#[test]
fn loading_a_table_appends_to_its_pool() {
    let mut m = minimal(VERSION_MAX);
    let bytes = [1u8, b'b', 1, b'c'];
    let mut cursor = Cursor::new(&bytes);
    load_table_into(&mut cursor, &mut m, TableType::Identifiers, VERSION_MAX).unwrap();
    assert_eq!(m.identifiers, vec![ident("M"), ident("b"), ident("c")]);
    assert_eq!(cursor.position(), 4);
}

#[test]
fn a_failing_table_keeps_the_entries_read_before_the_bad_one() {
    let mut m = minimal(VERSION_MAX);
    let bytes = [1u8, b'b', 1, b'9', 1, b'c'];
    let mut cursor = Cursor::new(&bytes);
    assert_eq!(
        load_table_into(&mut cursor, &mut m, TableType::Identifiers, VERSION_MAX),
        Err(AdamantDeserializeError::InvalidIdentifier)
    );
    assert_eq!(m.identifiers, vec![ident("M"), ident("b")]);
}

#[test]
fn a_refused_table_kind_changes_nothing() {
    let mut m = minimal(VERSION_6);
    let before = m.clone();
    let bytes = [0u8, 0, 0];
    let mut cursor = Cursor::new(&bytes);
    assert_eq!(
        load_table_into(&mut cursor, &mut m, TableType::EnumDefs, VERSION_6),
        Err(AdamantDeserializeError::VersionFeatureMismatch { feature: "enum tables", version: VERSION_6 })
    );
    assert_eq!(m, before);
    assert_eq!(cursor.position(), 0);
}

#[test]
fn duplicate_table_kind_is_refused() {
    let mut bytes = Vec::new();
    bytes.extend_from_slice(&MOVE_MAGIC);
    bytes.extend_from_slice(&flavored(VERSION_MAX).to_le_bytes());
    bytes.push(2);
    bytes.extend_from_slice(&[0x01, 0, 2]);
    bytes.extend_from_slice(&[0x01, 2, 2]);
    bytes.extend_from_slice(&[0, 0, 0, 0]);
    bytes.push(0);
    assert_eq!(
        adamant_deserialize(&bytes).unwrap_err(),
        AdamantDeserializeError::DuplicateTable(TableType::ModuleHandles)
    );
}

#[test]
fn gap_between_tables_is_refused() {
    let mut bytes = Vec::new();
    bytes.extend_from_slice(&MOVE_MAGIC);
    bytes.extend_from_slice(&flavored(VERSION_MAX).to_le_bytes());
    bytes.push(1);
    bytes.extend_from_slice(&[0x01, 1, 2]);
    bytes.extend_from_slice(&[0, 0, 0]);
    bytes.push(0);
    assert_eq!(
        adamant_deserialize(&bytes).unwrap_err(),
        AdamantDeserializeError::BadTableLayout { reason: "non-contiguous table offsets" }
    );
}

#[test]
fn tables_listed_out_of_order_are_read_by_offset() {
    let mut bytes = Vec::new();
    bytes.extend_from_slice(&MOVE_MAGIC);
    bytes.extend_from_slice(&flavored(VERSION_MAX).to_le_bytes());
    bytes.push(2);
    bytes.extend_from_slice(&[0x07, 2, 2]);
    bytes.extend_from_slice(&[0x01, 0, 2]);
    bytes.extend_from_slice(&[0, 0]);
    bytes.extend_from_slice(&[1, b'M']);
    bytes.push(0);
    let m = adamant_deserialize(&bytes).unwrap();
    assert_eq!(m.identifiers, vec![ident("M")]);
    assert_eq!(m.module_handles, vec![ModuleHandle { address: AddressIdentifierIndex(0), name: IdentifierIndex(0) }]);
}

#[test]
fn unknown_table_kind_and_flavor_are_refused() {
    let mut bytes = Vec::new();
    bytes.extend_from_slice(&MOVE_MAGIC);
    bytes.extend_from_slice(&flavored(VERSION_MAX).to_le_bytes());
    bytes.push(1);
    bytes.extend_from_slice(&[0x09, 0, 1]);
    bytes.push(0);
    bytes.push(0);
    assert_eq!(adamant_deserialize(&bytes).unwrap_err(), AdamantDeserializeError::UnknownTableKind(0x09));
    let mut wrong = Vec::new();
    wrong.extend_from_slice(&MOVE_MAGIC);
    wrong.extend_from_slice(&(7u32 | 0x0600_0000).to_le_bytes());
    wrong.push(0);
    wrong.push(0);
    assert_eq!(adamant_deserialize(&wrong).unwrap_err(), AdamantDeserializeError::UnknownFlavor(6));
}

#[test]
fn oversized_ability_set_is_refused_on_write() {
    let mut m = minimal(VERSION_MAX);
    m.identifiers.push(ident("S"));
    m.datatype_handles.push(DatatypeHandle {
        module: ModuleHandleIndex(0),
        name: IdentifierIndex(1),
        abilities: AbilitySet(0x10),
        type_parameters: vec![],
    });
    assert_eq!(
        adamant_serialize(&m, &mut Vec::new()).unwrap_err(),
        AdamantSerializeError::IndexOverflow { kind: "ability set", value: 16, max: 15 }
    );
}
