//! Module representation: native functions and Adamant extensions.

use adamant_vm::bytecode::AdamantBytecode;
use adamant_vm::module::Visibility;
use adamant_vm::{
    AdamantCodeUnit, AdamantCompiledModule, AdamantFunctionDefinition,
    AdamantToSuiConversionError, Bytecode, BytecodeInstruction, FunctionHandleIndex,
    SignatureIndex,
};
use adamant_vm::module::ModuleHandleIndex;

#[test]
fn default_constructs_empty_module() {
    let m = AdamantCompiledModule::default();
    assert_eq!(m.version, 0);
    assert!(!m.publishable);
    assert_eq!(m.self_module_handle_idx, ModuleHandleIndex(0));
    assert!(m.module_handles.is_empty());
    assert!(m.datatype_handles.is_empty());
    assert!(m.function_handles.is_empty());
    assert!(m.field_handles.is_empty());
    assert!(m.friend_decls.is_empty());
    assert!(m.struct_def_instantiations.is_empty());
    assert!(m.function_instantiations.is_empty());
    assert!(m.field_instantiations.is_empty());
    assert!(m.signatures.is_empty());
    assert!(m.identifiers.is_empty());
    assert!(m.address_identifiers.is_empty());
    assert!(m.constant_pool.is_empty());
    assert!(m.metadata.is_empty());
    assert!(m.struct_defs.is_empty());
    assert!(m.function_defs.is_empty());
    assert!(m.enum_defs.is_empty());
    assert!(m.enum_def_instantiations.is_empty());
    assert!(m.variant_handles.is_empty());
    assert!(m.variant_instantiation_handles.is_empty());
}

#[test]
fn clone_round_trips_through_equality() {
    let m = AdamantCompiledModule {
        version: 7,
        publishable: true,
        ..AdamantCompiledModule::default()
    };
    assert_eq!(m, m.clone());
}

#[test]
fn function_definition_is_native_iff_code_is_none() {
    let native = AdamantFunctionDefinition {
        function: FunctionHandleIndex(0),
        visibility: Visibility::Private,
        is_entry: false,
        acquires_global_resources: vec![],
        code: None,
    };
    assert!(native.is_native());

    let non_native = AdamantFunctionDefinition {
        function: FunctionHandleIndex(0),
        visibility: Visibility::Private,
        is_entry: false,
        acquires_global_resources: vec![],
        code: Some(AdamantCodeUnit {
            locals: SignatureIndex(0),
            code: vec![BytecodeInstruction::Inherited(Bytecode::Ret)],
            jump_tables: vec![],
        }),
    };
    assert!(!non_native.is_native());
}

#[test]
fn contains_adamant_extensions_false_for_pure_sui_module() {
    let m = AdamantCompiledModule {
        function_defs: vec![AdamantFunctionDefinition {
            function: FunctionHandleIndex(0),
            visibility: Visibility::Private,
            is_entry: false,
            acquires_global_resources: vec![],
            code: Some(AdamantCodeUnit {
                locals: SignatureIndex(0),
                code: vec![
                    BytecodeInstruction::Inherited(Bytecode::LdU64(5)),
                    BytecodeInstruction::Inherited(Bytecode::Pop),
                    BytecodeInstruction::Inherited(Bytecode::Ret),
                ],
                jump_tables: vec![],
            }),
        }],
        ..AdamantCompiledModule::default()
    };
    assert!(!m.contains_adamant_extensions());
}

#[test]
fn contains_adamant_extensions_true_when_extension_present() {
    let m = AdamantCompiledModule {
        function_defs: vec![AdamantFunctionDefinition {
            function: FunctionHandleIndex(0),
            visibility: Visibility::Private,
            is_entry: false,
            acquires_global_resources: vec![],
            code: Some(AdamantCodeUnit {
                locals: SignatureIndex(0),
                code: vec![
                    BytecodeInstruction::Inherited(Bytecode::Ret),
                    BytecodeInstruction::Adamant(AdamantBytecode::Sha3_256),
                    BytecodeInstruction::Inherited(Bytecode::Ret),
                ],
                jump_tables: vec![],
            }),
        }],
        ..AdamantCompiledModule::default()
    };
    assert!(m.contains_adamant_extensions());
}

#[test]
fn contains_adamant_extensions_false_for_native_function() {
    let m = AdamantCompiledModule {
        function_defs: vec![AdamantFunctionDefinition {
            function: FunctionHandleIndex(0),
            visibility: Visibility::Private,
            is_entry: false,
            acquires_global_resources: vec![],
            code: None,
        }],
        ..AdamantCompiledModule::default()
    };
    assert!(!m.contains_adamant_extensions());
}

#[test]
fn to_sui_module_round_trips_pure_sui_function() {
    let m = AdamantCompiledModule {
        function_defs: vec![AdamantFunctionDefinition {
            function: FunctionHandleIndex(0),
            visibility: Visibility::Public,
            is_entry: false,
            acquires_global_resources: vec![],
            code: Some(AdamantCodeUnit {
                locals: SignatureIndex(0),
                code: vec![BytecodeInstruction::Inherited(Bytecode::Ret)],
                jump_tables: vec![],
            }),
        }],
        ..AdamantCompiledModule::default()
    };
    assert_eq!(m.check_inherited_only(), Ok(()));
    let fd = &m.function_defs[0];
    let body = fd.code.as_ref().unwrap().code.clone();
    assert_eq!(body, vec![BytecodeInstruction::Inherited(Bytecode::Ret)]);
}

#[test]
fn to_sui_module_refuses_module_with_extension() {
    let m = AdamantCompiledModule {
        function_defs: vec![AdamantFunctionDefinition {
            function: FunctionHandleIndex(0),
            visibility: Visibility::Public,
            is_entry: false,
            acquires_global_resources: vec![],
            code: Some(AdamantCodeUnit {
                locals: SignatureIndex(0),
                code: vec![
                    BytecodeInstruction::Inherited(Bytecode::Pop),
                    BytecodeInstruction::Adamant(AdamantBytecode::Sha3_256),
                    BytecodeInstruction::Inherited(Bytecode::Ret),
                ],
                jump_tables: vec![],
            }),
        }],
        ..AdamantCompiledModule::default()
    };
    let err = m.check_inherited_only().unwrap_err();
    assert_eq!(
        err,
        AdamantToSuiConversionError::ContainsAdamantExtensions {
            function_index: 0,
            instruction_offset: 1,
        }
    );
}

#[test]
fn to_sui_module_reports_first_offending_function() {
    let extension_fd = AdamantFunctionDefinition {
        function: FunctionHandleIndex(0),
        visibility: Visibility::Private,
        is_entry: false,
        acquires_global_resources: vec![],
        code: Some(AdamantCodeUnit {
            locals: SignatureIndex(0),
            code: vec![
                BytecodeInstruction::Adamant(AdamantBytecode::Blake3),
                BytecodeInstruction::Inherited(Bytecode::Ret),
            ],
            jump_tables: vec![],
        }),
    };
    let pure_fd = AdamantFunctionDefinition {
        function: FunctionHandleIndex(0),
        visibility: Visibility::Private,
        is_entry: false,
        acquires_global_resources: vec![],
        code: Some(AdamantCodeUnit {
            locals: SignatureIndex(0),
            code: vec![BytecodeInstruction::Inherited(Bytecode::Ret)],
            jump_tables: vec![],
        }),
    };
    let m = AdamantCompiledModule {
        function_defs: vec![pure_fd, extension_fd.clone(), extension_fd],
        ..AdamantCompiledModule::default()
    };
    let err = m.check_inherited_only().unwrap_err();
    assert_eq!(
        err,
        AdamantToSuiConversionError::ContainsAdamantExtensions {
            function_index: 1,
            instruction_offset: 0,
        }
    );
}

#[test]
fn to_sui_module_passes_native_function_through() {
    let m = AdamantCompiledModule {
        function_defs: vec![AdamantFunctionDefinition {
            function: FunctionHandleIndex(0),
            visibility: Visibility::Private,
            is_entry: false,
            acquires_global_resources: vec![],
            code: None,
        }],
        ..AdamantCompiledModule::default()
    };
    assert_eq!(m.check_inherited_only(), Ok(()));
    assert!(m.function_defs[0].code.is_none());
}

#[test]
fn contains_adamant_extensions_scans_all_functions() {
    let pure_sui_fd = AdamantFunctionDefinition {
        function: FunctionHandleIndex(0),
        visibility: Visibility::Private,
        is_entry: false,
        acquires_global_resources: vec![],
        code: Some(AdamantCodeUnit {
            locals: SignatureIndex(0),
            code: vec![BytecodeInstruction::Inherited(Bytecode::Ret)],
            jump_tables: vec![],
        }),
    };
    let extension_fd = AdamantFunctionDefinition {
        function: FunctionHandleIndex(0),
        visibility: Visibility::Private,
        is_entry: false,
        acquires_global_resources: vec![],
        code: Some(AdamantCodeUnit {
            locals: SignatureIndex(0),
            code: vec![
                BytecodeInstruction::Adamant(AdamantBytecode::Blake3),
                BytecodeInstruction::Inherited(Bytecode::Ret),
            ],
            jump_tables: vec![],
        }),
    };
    let m = AdamantCompiledModule {
        function_defs: vec![pure_sui_fd.clone(), extension_fd, pure_sui_fd],
        ..AdamantCompiledModule::default()
    };
    assert!(m.contains_adamant_extensions());
}
