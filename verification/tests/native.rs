//! Names of called functions and the standard library's address.

use adamant_vm::module::{
    AddressIdentifierIndex, FunctionHandle, IdentifierIndex, ModuleHandle, ModuleHandleIndex,
    Signature,
};
use adamant_vm::runtime::{native_key_from_handle, stdlib_address, NativeKey};
use adamant_vm::{AdamantCompiledModule, Address, FunctionHandleIndex, SignatureIndex};

fn ident(s: &str) -> String {
    s.to_string()
}

#[test]
fn stdlib_address_is_one_in_lsb() {
    let bytes = stdlib_address().to_bytes();
    assert_eq!(bytes[31], 0x01);
    for &b in &bytes[..31] {
        assert_eq!(b, 0x00);
    }
}

#[test]
fn native_key_from_handle_resolves_self_module_call() {
    let mut module = AdamantCompiledModule::default();
    module.module_handles.push(ModuleHandle {
        address: AddressIdentifierIndex(0),
        name: IdentifierIndex(0),
    });
    module.address_identifiers.push(stdlib_address());
    module.identifiers.push(ident("module"));
    module.identifiers.push(ident("deploy"));
    module.signatures.push(Signature(vec![]));
    module.function_handles.push(FunctionHandle {
        module: ModuleHandleIndex(0),
        name: IdentifierIndex(1),
        parameters: SignatureIndex(0),
        return_: SignatureIndex(0),
        type_parameters: vec![],
    });
    let key = native_key_from_handle(&module, FunctionHandleIndex(0)).expect("resolved");
    assert_eq!(key.address, stdlib_address());
    assert_eq!(key.module, ident("module"));
    assert_eq!(key.function, ident("deploy"));
}

#[test]
fn native_key_from_handle_returns_none_on_oob() {
    let module = AdamantCompiledModule::default();
    assert!(native_key_from_handle(&module, FunctionHandleIndex(0)).is_none());
}

#[test]
fn native_key_from_handle_returns_none_when_module_handle_missing() {
    let mut module = AdamantCompiledModule::default();
    module.identifiers.push(ident("f"));
    module.function_handles.push(FunctionHandle {
        module: ModuleHandleIndex(3),
        name: IdentifierIndex(0),
        parameters: SignatureIndex(0),
        return_: SignatureIndex(0),
        type_parameters: vec![],
    });
    assert!(native_key_from_handle(&module, FunctionHandleIndex(0)).is_none());
}

#[test]
fn native_key_distinguishes_addresses() {
    let mut module = AdamantCompiledModule::default();
    module.module_handles.push(ModuleHandle {
        address: AddressIdentifierIndex(0),
        name: IdentifierIndex(0),
    });
    module.address_identifiers.push(Address::from_bytes([0xff; 32]));
    module.identifiers.push(ident("hash"));
    module.function_handles.push(FunctionHandle {
        module: ModuleHandleIndex(0),
        name: IdentifierIndex(0),
        parameters: SignatureIndex(0),
        return_: SignatureIndex(0),
        type_parameters: vec![],
    });
    let key = native_key_from_handle(&module, FunctionHandleIndex(0)).expect("resolved");
    assert_ne!(key.address, stdlib_address());
    assert_eq!(key.module, "hash");
    assert_eq!(key.function, "hash");
}

#[test]
fn key_equality_requires_all_three_components() {
    let key_a = NativeKey::new(stdlib_address(), ident("module"), ident("deploy"));
    let key_b = NativeKey::new(stdlib_address(), ident("module"), ident("deploy"));
    assert_eq!(key_a, key_b);

    let key_other_addr = NativeKey::new(Address::from_bytes([0xff; 32]), ident("module"), ident("deploy"));
    assert_ne!(key_a, key_other_addr, "different address means distinct key");

    let key_other_module = NativeKey::new(stdlib_address(), ident("hash"), ident("deploy"));
    assert_ne!(key_a, key_other_module, "different module means distinct key");

    let key_other_fn = NativeKey::new(stdlib_address(), ident("module"), ident("upgrade"));
    assert_ne!(key_a, key_other_fn, "different function means distinct key");
}
