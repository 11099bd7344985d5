//! The resolver of pre-loaded modules, keyed by each module's self
//! identity.

use adamant_vm::module::{AddressIdentifierIndex, IdentifierIndex, ModuleHandle, ModuleHandleIndex};
use adamant_vm::runtime::{LoadedModulesResolver, MalformedSelfHandle, ModuleId};
use adamant_vm::transaction::Address;
use adamant_vm::AdamantCompiledModule;

fn make_module(address_byte: u8, name: &str) -> AdamantCompiledModule {
    let mut m = AdamantCompiledModule::default();
    m.module_handles.push(ModuleHandle {
        address: AddressIdentifierIndex(0),
        name: IdentifierIndex(0),
    });
    m.identifiers.push(name.to_string());
    m.address_identifiers.push(Address::from_bytes([address_byte; 32]));
    m
}

#[test]
fn empty_resolver_returns_none() {
    let resolver = LoadedModulesResolver::new();
    let id = ModuleId::new(Address::from_bytes([0u8; 32]), "foo".to_string());
    assert!(resolver.resolve(&id).is_none());
    assert_eq!(resolver.len(), 0);
    assert!(resolver.is_empty());
}

#[test]
fn inserted_module_resolves_under_self_id() {
    let mut resolver = LoadedModulesResolver::new();
    let m = make_module(0xab, "bar");
    let id = ModuleId::from_module(&m).unwrap();
    resolver.insert(m).expect("self-handle wired");
    assert!(resolver.resolve(&id).is_some());
    assert_eq!(resolver.len(), 1);
}

#[test]
fn from_modules_loads_all_supplied() {
    let m_a = make_module(0x01, "alpha");
    let m_b = make_module(0x02, "beta");
    let id_a = ModuleId::from_module(&m_a).unwrap();
    let id_b = ModuleId::from_module(&m_b).unwrap();
    let resolver = LoadedModulesResolver::from_modules(vec![m_a, m_b]).expect("ok");
    assert!(resolver.resolve(&id_a).is_some());
    assert!(resolver.resolve(&id_b).is_some());
    assert_eq!(resolver.len(), 2);
}

#[test]
fn insert_with_oob_self_handle_returns_malformed_error() {
    let mut resolver = LoadedModulesResolver::new();
    let m = AdamantCompiledModule {
        self_module_handle_idx: ModuleHandleIndex(0),
        ..AdamantCompiledModule::default()
    };
    let result = resolver.insert(m);
    assert_eq!(result, Err(MalformedSelfHandle));
}

#[test]
fn from_modules_propagates_malformed_self_handle() {
    let bad = AdamantCompiledModule {
        self_module_handle_idx: ModuleHandleIndex(0),
        ..AdamantCompiledModule::default()
    };
    let result = LoadedModulesResolver::from_modules(vec![bad]);
    assert_eq!(result.err(), Some(MalformedSelfHandle));
}

#[test]
fn re_insert_under_same_self_id_returns_previous() {
    let mut resolver = LoadedModulesResolver::new();
    let first = make_module(0xab, "shared_name");
    let id = ModuleId::from_module(&first).unwrap();
    resolver.insert(first).expect("ok");
    let second = make_module(0xab, "shared_name");
    let prev = resolver.insert(second).expect("ok");
    assert!(prev.is_some());
    assert!(resolver.resolve(&id).is_some());
    assert_eq!(resolver.len(), 1);
}

#[test]
fn resolver_passes_as_dyn_module_resolver() {
    let m_a = make_module(0x01, "a");
    let id_a = ModuleId::from_module(&m_a).unwrap();
    let resolver = LoadedModulesResolver::from_modules(vec![m_a]).expect("ok");
    assert!(resolver.resolve(&id_a).is_some());
}

#[test]
fn re_insert_hands_back_the_earlier_module_and_keeps_the_later() {
    let mut resolver = LoadedModulesResolver::new();
    let mut first = make_module(0x07, "m");
    first.version = 5;
    let mut second = make_module(0x07, "m");
    second.version = 6;
    let id = ModuleId::from_module(&first).unwrap();
    assert_eq!(resolver.insert(first).unwrap(), None);
    let prev = resolver.insert(second).unwrap().unwrap();
    assert_eq!(prev.version, 5);
    assert_eq!(resolver.resolve(&id).unwrap().version, 6);
}

#[test]
fn identities_differ_by_address_or_name() {
    let a = ModuleId::from_module(&make_module(0x01, "x")).unwrap();
    let b = ModuleId::from_module(&make_module(0x02, "x")).unwrap();
    let c = ModuleId::from_module(&make_module(0x01, "y")).unwrap();
    let d = ModuleId::from_module(&make_module(0x01, "x")).unwrap();
    assert!(!a.same_as(&b));
    assert!(!a.same_as(&c));
    assert!(a.same_as(&d));
}

#[test]
fn self_handle_with_out_of_bounds_name_has_no_identity() {
    let mut m = make_module(0x01, "x");
    m.module_handles[0].name = IdentifierIndex(3);
    assert!(ModuleId::from_module(&m).is_none());
    let mut resolver = LoadedModulesResolver::new();
    assert_eq!(resolver.insert(m), Err(MalformedSelfHandle));
    assert!(resolver.is_empty());
}
