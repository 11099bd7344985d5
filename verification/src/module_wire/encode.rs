//! Serializing a module.  [`spec_adamant_serialize`] states the bytes
//! of a module, or the error refusing it, and [`adamant_serialize`]
//! produces exactly that.

use super::format::{
    is_valid_identifier, spec_is_valid_identifier, spec_encode_version, spec_magic, spec_table_type_byte, encode_version, TableType,
    ABILITY_SET_ALL, ACQUIRES_COUNT_MAX, CONSTANT_SIZE_MAX, ENUM_FLAG_DECLARED, FIELD_COUNT_MAX,
    FIELD_OFFSET_MAX, FUNCTION_FLAG_ENTRY, FUNCTION_FLAG_NATIVE, IDENTIFIER_SIZE_MAX,
    JUMP_TABLE_FLAG_FULL, METADATA_KEY_SIZE_MAX, METADATA_VALUE_SIZE_MAX, SIGNATURE_SIZE_MAX,
    SIGNATURE_TOKEN_DEPTH_MAX, STRUCT_FLAG_DECLARED, STRUCT_FLAG_NATIVE, TYPE_ADDRESS, TYPE_BOOL,
    TYPE_DATATYPE_INST, TYPE_MUTABLE_REFERENCE, TYPE_PARAMETER_COUNT_MAX, TYPE_REFERENCE,
    TYPE_SIGNER, TYPE_STRUCT, TYPE_TYPE_PARAMETER, TYPE_U128, TYPE_U16, TYPE_U256, TYPE_U32,
    TYPE_U64, TYPE_U8, TYPE_VECTOR, VARIANT_COUNT_MAX, VARIANT_TAG_MAX_VALUE, VERSION_5,
    VERSION_7, VERSION_MAX, VERSION_MIN, VISIBILITY_DEPRECATED_SCRIPT, VISIBILITY_FRIEND,
    VISIBILITY_PRIVATE, VISIBILITY_PUBLIC,
};
use crate::bytecode::{StructDefinitionIndex, VariantJumpTable, JumpTableInner};
use crate::bytecode_wire::{serialize_function_body, spec_encode_function_body, SerializeError};
use crate::module::{
    AbilitySet, AdamantCodeUnit, AdamantCompiledModule, AdamantFunctionDefinition, Constant,
    DatatypeHandle, DatatypeTyParameter, EnumDefInstantiation, EnumDefinition, FieldDefinition,
    FieldHandle, FieldInstantiation, FunctionHandle, FunctionInstantiation, Metadata,
    ModuleHandle, Signature, SignatureToken, StructDefInstantiation, StructDefinition,
    StructFieldInformation, VariantDefinition, VariantHandle, VariantInstantiationHandle,
    Visibility,
};
use crate::transaction::Address;
use crate::uleb128::{uleb128_encode, write_uleb128};
use vstd::bytes::*;
use vstd::prelude::*;
use vstd::string::*;
use vstd::utf8::encode_utf8;

verus! {

broadcast use vstd::std_specs::vec::axiom_vec_index_decreases;

/// Errors from [`adamant_serialize`].
#[derive(Debug, Clone, PartialEq, Eq, Hash)]
pub enum AdamantSerializeError {
    /// The module's version is outside `VERSION_MIN..=VERSION_MAX`.
    UnsupportedVersion(u32),
    /// An index or a small value exceeds the bound of its field.
    IndexOverflow {
        /// Which field.
        kind: &'static str,
        /// The offending value.
        value: u64,
        /// The inclusive bound.
        max: u64,
    },
    /// A length exceeds the bound of its field.
    LengthOverflow {
        /// Which field.
        kind: &'static str,
        /// The offending length.
        len: usize,
        /// The inclusive bound.
        max: u64,
    },
    /// The tables' contents exceed `u32::MAX` bytes.
    BinaryTooLarge(usize),
    /// A type nests deeper than `SIGNATURE_TOKEN_DEPTH_MAX` levels.
    SignatureTooDeep,
    /// The module uses a feature its version lacks.
    VersionFeatureMismatch {
        /// The feature.
        feature: &'static str,
        /// The module's version.
        version: u32,
    },
    /// A function body failed to encode.
    Bytecode(SerializeError),
    /// An identifier-pool entry is not a valid Move identifier.
    InvalidIdentifier,
}

impl From<SerializeError> for AdamantSerializeError {
    fn from(e: SerializeError) -> (r: Self) {
        AdamantSerializeError::Bytecode(e)
    }
}

impl vstd::std_specs::convert::FromSpecImpl<SerializeError> for AdamantSerializeError {
    open spec fn obeys_from_spec() -> bool {
        true
    }

    open spec fn from_spec(e: SerializeError) -> Self {
        AdamantSerializeError::Bytecode(e)
    }
}

/// Field name of an ability set.
pub const KIND_ABILITY_SET: &'static str = "ability set";
/// Field name of a field offset.
pub const KIND_FIELD_OFFSET: &'static str = "field offset";
/// Field name of a variant tag.
pub const KIND_VARIANT_TAG: &'static str = "variant tag";
/// Field name of an identifier's length.
pub const KIND_IDENTIFIER_SIZE: &'static str = "identifier size";
/// Field name of a constant's length.
pub const KIND_CONSTANT_SIZE: &'static str = "constant data size";
/// Field name of a metadata key's length.
pub const KIND_METADATA_KEY_SIZE: &'static str = "metadata key size";
/// Field name of a metadata value's length.
pub const KIND_METADATA_VALUE_SIZE: &'static str = "metadata value size";
/// Field name of a field count.
pub const KIND_FIELD_COUNT: &'static str = "struct/variant field count";
/// Field name of a variant count.
pub const KIND_VARIANT_COUNT: &'static str = "enum variant count";
/// Field name of an acquires list's length.
pub const KIND_ACQUIRES_COUNT: &'static str = "acquires list length";
/// Field name of a signature's length.
pub const KIND_SIGNATURE_LENGTH: &'static str = "signature length";
/// Field name of a type-parameter count.
pub const KIND_TYPE_PARAMETER_COUNT: &'static str = "type parameter count";
/// Field name of a jump table's branch count.
pub const KIND_BRANCH_COUNT: &'static str = "jump table branch count";
/// Field name of a code unit's jump-table count.
pub const KIND_JUMP_TABLES: &'static str = "jump tables";
/// Feature name of the enum tables.
pub const FEATURE_ENUM_TABLES: &'static str = "enum tables";
/// Feature name of jump tables.
pub const FEATURE_JUMP_TABLES: &'static str = "jump tables";

/// The bytes of a part of a module, or the error refusing it.
pub type SerResult = Result<Seq<u8>, AdamantSerializeError>;

/// Two parts one after the other: the first error, or both byte
/// strings.
pub open spec fn chain(a: SerResult, b: SerResult) -> SerResult {
    match a {
        Err(e) => Err(e),
        Ok(x) => match b {
            Err(e) => Err(e),
            Ok(y) => Ok(x + y),
        },
    }
}

/// A ULEB128 value bounded by `max`.
pub open spec fn ser_bounded(value: nat, max: u64, kind: &'static str) -> SerResult {
    if value > max {
        Err(AdamantSerializeError::IndexOverflow { kind, value: value as u64, max })
    } else {
        Ok(uleb128_encode(value))
    }
}

/// A ULEB128 length bounded by `max`.
pub open spec fn ser_length(len: nat, max: u64, kind: &'static str) -> SerResult {
    if len > max {
        Err(AdamantSerializeError::LengthOverflow { kind, len: len as usize, max })
    } else {
        Ok(uleb128_encode(len))
    }
}

/// A value that is written to the module's bytes on its own.
pub trait WireEncode: Sized {
    /// The value's bytes, or the error refusing it.
    spec fn spec_wire(&self) -> SerResult;

    /// Appends the value's bytes.
    fn write_wire(&self, out: &mut Vec<u8>) -> (r: Result<(), AdamantSerializeError>)
        ensures
            match self.spec_wire() {
                Ok(b) => r is Ok && final(out)@ == old(out)@ + b,
                Err(e) => r == Err::<(), AdamantSerializeError>(e),
            },
    ;
}

/// Values one after the other, with no count in front.
pub open spec fn ser_items<T: WireEncode>(s: Seq<T>) -> SerResult
    decreases s.len(),
{
    if s.len() == 0 {
        Ok(Seq::empty())
    } else {
        chain(ser_items(s.drop_last()), s.last().spec_wire())
    }
}

/// A count bounded by `max`, then the values.
pub open spec fn ser_counted<T: WireEncode>(s: Seq<T>, max: u64, kind: &'static str) -> SerResult {
    chain(ser_length(s.len(), max, kind), ser_items(s))
}

/// Once a prefix of a list fails, every longer prefix fails the
/// same way.
proof fn lemma_ser_items_error<T: WireEncode>(s: Seq<T>, n: int)
    requires
        0 <= n <= s.len(),
        ser_items(s.subrange(0, n)) is Err,
    ensures
        ser_items(s) == ser_items(s.subrange(0, n)),
    decreases s.len() - n,
{
    if n < s.len() {
        let t = s.subrange(0, n + 1);
        assert(t.drop_last() =~= s.subrange(0, n));
        lemma_ser_items_error(s, n + 1);
    } else {
        assert(s.subrange(0, n) =~= s);
    }
}

/// Appends a byte string.
fn append_bytes(out: &mut Vec<u8>, bytes: &[u8])
    ensures
        final(out)@ == old(out)@ + bytes@,
{
    let mut i: usize = 0;
    while i < bytes.len()
        invariant
            i <= bytes@.len(),
            out@ == old(out)@ + bytes@.subrange(0, i as int),
        decreases bytes@.len() - i,
    {
        out.push(bytes[i]);
        assert(bytes@.subrange(0, i as int + 1) =~= bytes@.subrange(0, i as int).push(bytes@[i as int]));
        i = i + 1;
    }
    assert(bytes@.subrange(0, bytes@.len() as int) =~= bytes@);
}

/// Appends the values one after the other.
fn write_items<T: WireEncode>(out: &mut Vec<u8>, items: &[T]) -> (r: Result<(), AdamantSerializeError>)
    ensures
        match ser_items(items@) {
            Ok(b) => r is Ok && final(out)@ == old(out)@ + b,
            Err(e) => r == Err::<(), AdamantSerializeError>(e),
        },
{
    let mut i: usize = 0;
    assert(items@.subrange(0, 0) =~= Seq::<T>::empty());
    while i < items.len()
        invariant
            i <= items@.len(),
            ser_items(items@.subrange(0, i as int)) matches Ok(b) && out@ == old(out)@ + b,
        decreases items@.len() - i,
    {
        let ghost before = out@;
        let ghost pre = items@.subrange(0, i as int);
        let ghost post = items@.subrange(0, i as int + 1);
        proof {
            assert(post.drop_last() =~= pre);
            assert(post.last() == items@[i as int]);
        }
        match items[i].write_wire(out) {
            Err(e) => {
                proof {
                    lemma_ser_items_error(items@, i as int + 1);
                }
                return Err(e);
            },
            Ok(()) => {},
        }
        proof {
            let b = ser_items(pre)->Ok_0;
            let c = items@[i as int].spec_wire()->Ok_0;
            assert(out@ =~= old(out)@ + (b + c));
        }
        i = i + 1;
    }
    assert(items@.subrange(0, items@.len() as int) =~= items@);
    Ok(())
}

/// Appends a count, refused above `max`, then the values.
fn write_counted<T: WireEncode>(out: &mut Vec<u8>, items: &[T], max: u64, kind: &'static str) -> (r: Result<(), AdamantSerializeError>)
    ensures
        match ser_counted(items@, max, kind) {
            Ok(b) => r is Ok && final(out)@ == old(out)@ + b,
            Err(e) => r == Err::<(), AdamantSerializeError>(e),
        },
{
    let len = items.len();
    if len as u64 > max {
        return Err(AdamantSerializeError::LengthOverflow { kind, len, max });
    }
    write_uleb128(len as u64, out);
    let ghost mid = out@;
    let r = write_items(out, items);
    proof {
        if r is Ok {
            assert(out@ =~= old(out)@ + (uleb128_encode(len as nat) + ser_items(items@)->Ok_0));
        }
    }
    r
}

/// Appends a ULEB128 value, refused above `max`.
fn write_bounded(out: &mut Vec<u8>, value: u64, max: u64, kind: &'static str) -> (r: Result<(), AdamantSerializeError>)
    ensures
        match ser_bounded(value as nat, max, kind) {
            Ok(b) => r is Ok && final(out)@ == old(out)@ + b,
            Err(e) => r == Err::<(), AdamantSerializeError>(e),
        },
{
    if value > max {
        return Err(AdamantSerializeError::IndexOverflow { kind, value, max });
    }
    write_uleb128(value, out);
    Ok(())
}

// ---------- Pool entries ----------

impl WireEncode for ModuleHandle {
    open spec fn spec_wire(&self) -> SerResult {
        Ok(uleb128_encode(self.address.0 as nat) + uleb128_encode(self.name.0 as nat))
    }

    fn write_wire(&self, out: &mut Vec<u8>) -> (r: Result<(), AdamantSerializeError>) {
        write_uleb128(self.address.0 as u64, out);
        write_uleb128(self.name.0 as u64, out);
        assert(out@ =~= old(out)@ + self.spec_wire()->Ok_0);
        Ok(())
    }
}

impl WireEncode for AbilitySet {
    open spec fn spec_wire(&self) -> SerResult {
        ser_bounded(self.0 as nat, ABILITY_SET_ALL as u64, KIND_ABILITY_SET)
    }

    fn write_wire(&self, out: &mut Vec<u8>) -> (r: Result<(), AdamantSerializeError>) {
        write_bounded(out, self.0 as u64, ABILITY_SET_ALL as u64, KIND_ABILITY_SET)
    }
}

/// The phantom flag's byte.
pub open spec fn phantom_byte(p: bool) -> nat {
    if p {
        1
    } else {
        0
    }
}

impl WireEncode for DatatypeTyParameter {
    open spec fn spec_wire(&self) -> SerResult {
        chain(self.constraints.spec_wire(), Ok(uleb128_encode(phantom_byte(self.is_phantom))))
    }

    fn write_wire(&self, out: &mut Vec<u8>) -> (r: Result<(), AdamantSerializeError>) {
        match self.constraints.write_wire(out) {
            Err(e) => return Err(e),
            Ok(()) => {},
        }
        let ghost mid = out@;
        write_uleb128(if self.is_phantom { 1 } else { 0 }, out);
        assert(out@ =~= old(out)@ + self.spec_wire()->Ok_0);
        Ok(())
    }
}

impl WireEncode for DatatypeHandle {
    open spec fn spec_wire(&self) -> SerResult {
        chain(
            Ok(uleb128_encode(self.module.0 as nat) + uleb128_encode(self.name.0 as nat)),
            chain(
                self.abilities.spec_wire(),
                ser_counted(self.type_parameters@, TYPE_PARAMETER_COUNT_MAX, KIND_TYPE_PARAMETER_COUNT),
            ),
        )
    }

    fn write_wire(&self, out: &mut Vec<u8>) -> (r: Result<(), AdamantSerializeError>) {
        write_uleb128(self.module.0 as u64, out);
        write_uleb128(self.name.0 as u64, out);
        let ghost a = out@;
        match self.abilities.write_wire(out) {
            Err(e) => return Err(e),
            Ok(()) => {},
        }
        let ghost b = out@;
        match write_counted(out, self.type_parameters.as_slice(), TYPE_PARAMETER_COUNT_MAX, KIND_TYPE_PARAMETER_COUNT) {
            Err(e) => return Err(e),
            Ok(()) => {},
        }
        proof {
            let x = uleb128_encode(self.module.0 as nat) + uleb128_encode(self.name.0 as nat);
            let y = self.abilities.spec_wire()->Ok_0;
            let z = ser_counted(self.type_parameters@, TYPE_PARAMETER_COUNT_MAX, KIND_TYPE_PARAMETER_COUNT)->Ok_0;
            assert(a =~= old(out)@ + x);
            assert(out@ =~= old(out)@ + (x + (y + z)));
        }
        Ok(())
    }
}

impl WireEncode for FunctionHandle {
    open spec fn spec_wire(&self) -> SerResult {
        chain(
            Ok(uleb128_encode(self.module.0 as nat) + uleb128_encode(self.name.0 as nat)
                + uleb128_encode(self.parameters.0 as nat) + uleb128_encode(self.return_.0 as nat)),
            ser_counted(self.type_parameters@, TYPE_PARAMETER_COUNT_MAX, KIND_TYPE_PARAMETER_COUNT),
        )
    }

    fn write_wire(&self, out: &mut Vec<u8>) -> (r: Result<(), AdamantSerializeError>) {
        write_uleb128(self.module.0 as u64, out);
        write_uleb128(self.name.0 as u64, out);
        write_uleb128(self.parameters.0 as u64, out);
        write_uleb128(self.return_.0 as u64, out);
        let ghost a = out@;
        match write_counted(out, self.type_parameters.as_slice(), TYPE_PARAMETER_COUNT_MAX, KIND_TYPE_PARAMETER_COUNT) {
            Err(e) => return Err(e),
            Ok(()) => {},
        }
        proof {
            let x = uleb128_encode(self.module.0 as nat) + uleb128_encode(self.name.0 as nat)
                + uleb128_encode(self.parameters.0 as nat) + uleb128_encode(self.return_.0 as nat);
            assert(a =~= old(out)@ + x);
            assert(out@ =~= old(out)@ + (x + ser_counted(self.type_parameters@, TYPE_PARAMETER_COUNT_MAX, KIND_TYPE_PARAMETER_COUNT)->Ok_0));
        }
        Ok(())
    }
}

impl WireEncode for FunctionInstantiation {
    open spec fn spec_wire(&self) -> SerResult {
        Ok(uleb128_encode(self.handle.0 as nat) + uleb128_encode(self.type_parameters.0 as nat))
    }

    fn write_wire(&self, out: &mut Vec<u8>) -> (r: Result<(), AdamantSerializeError>) {
        write_uleb128(self.handle.0 as u64, out);
        write_uleb128(self.type_parameters.0 as u64, out);
        assert(out@ =~= old(out)@ + self.spec_wire()->Ok_0);
        Ok(())
    }
}


// ---------- Types ----------

/// The bytes of a type whose outermost node lies at nesting depth
/// `depth` (the outermost type of a signature at depth 1), written in
/// preorder: each node's tag and operands, then its children.  A node
/// deeper than `SIGNATURE_TOKEN_DEPTH_MAX` is refused.
pub open spec fn ser_token(t: SignatureToken, depth: nat) -> SerResult
    decreases t, 0nat,
{
    if depth > SIGNATURE_TOKEN_DEPTH_MAX {
        Err(AdamantSerializeError::SignatureTooDeep)
    } else {
        match t {
            SignatureToken::Bool => Ok(seq![TYPE_BOOL]),
            SignatureToken::U8 => Ok(seq![TYPE_U8]),
            SignatureToken::U16 => Ok(seq![TYPE_U16]),
            SignatureToken::U32 => Ok(seq![TYPE_U32]),
            SignatureToken::U64 => Ok(seq![TYPE_U64]),
            SignatureToken::U128 => Ok(seq![TYPE_U128]),
            SignatureToken::U256 => Ok(seq![TYPE_U256]),
            SignatureToken::Address => Ok(seq![TYPE_ADDRESS]),
            SignatureToken::Signer => Ok(seq![TYPE_SIGNER]),
            SignatureToken::Vector(inner) => chain(Ok(seq![TYPE_VECTOR]), ser_token(*inner, depth + 1)),
            SignatureToken::Datatype(idx) => Ok(seq![TYPE_STRUCT] + uleb128_encode(idx.0 as nat)),
            SignatureToken::DatatypeInstantiation(inst) => chain(
                Ok(seq![TYPE_DATATYPE_INST] + uleb128_encode(inst.0.0 as nat)),
                chain(
                    ser_length(inst.1@.len(), SIGNATURE_SIZE_MAX, KIND_SIGNATURE_LENGTH),
                    ser_tokens(inst.1, depth + 1),
                ),
            ),
            SignatureToken::Reference(inner) => chain(Ok(seq![TYPE_REFERENCE]), ser_token(*inner, depth + 1)),
            SignatureToken::MutableReference(inner) => chain(
                Ok(seq![TYPE_MUTABLE_REFERENCE]),
                ser_token(*inner, depth + 1),
            ),
            SignatureToken::TypeParameter(i) => Ok(seq![TYPE_TYPE_PARAMETER] + uleb128_encode(i as nat)),
        }
    }
}

/// The bytes of the type arguments of an instantiation, each at
/// nesting depth `depth`.
pub open spec fn ser_tokens(v: Vec<SignatureToken>, depth: nat) -> SerResult
    decreases v, 1nat,
{
    ser_tokens_upto(v, v@.len() as int, depth)
}

/// The bytes of the first `n` type arguments.
pub open spec fn ser_tokens_upto(v: Vec<SignatureToken>, n: int, depth: nat) -> SerResult
    decreases v, 0nat, n,
{
    if n <= 0 || n > v@.len() {
        Ok(Seq::empty())
    } else {
        chain(ser_tokens_upto(v, n - 1, depth), ser_token(v@[n - 1], depth))
    }
}

/// Appends the bytes of a type at nesting depth `depth`.
fn write_token(out: &mut Vec<u8>, t: &SignatureToken, depth: u64) -> (r: Result<(), AdamantSerializeError>)
    requires
        depth <= SIGNATURE_TOKEN_DEPTH_MAX + 1,
    ensures
        match ser_token(*t, depth as nat) {
            Ok(b) => r is Ok && final(out)@ == old(out)@ + b,
            Err(e) => r == Err::<(), AdamantSerializeError>(e),
        },
    decreases t, 0nat,
{
    if depth > SIGNATURE_TOKEN_DEPTH_MAX {
        return Err(AdamantSerializeError::SignatureTooDeep);
    }
    let tag: u8 = match t {
        SignatureToken::Bool => TYPE_BOOL,
        SignatureToken::U8 => TYPE_U8,
        SignatureToken::U16 => TYPE_U16,
        SignatureToken::U32 => TYPE_U32,
        SignatureToken::U64 => TYPE_U64,
        SignatureToken::U128 => TYPE_U128,
        SignatureToken::U256 => TYPE_U256,
        SignatureToken::Address => TYPE_ADDRESS,
        SignatureToken::Signer => TYPE_SIGNER,
        SignatureToken::Vector(_) => TYPE_VECTOR,
        SignatureToken::Datatype(_) => TYPE_STRUCT,
        SignatureToken::DatatypeInstantiation(_) => TYPE_DATATYPE_INST,
        SignatureToken::Reference(_) => TYPE_REFERENCE,
        SignatureToken::MutableReference(_) => TYPE_MUTABLE_REFERENCE,
        SignatureToken::TypeParameter(_) => TYPE_TYPE_PARAMETER,
    };
    out.push(tag);
    let ghost head = out@;
    match t {
        SignatureToken::Vector(inner) | SignatureToken::Reference(inner) | SignatureToken::MutableReference(inner) => {
            let r = write_token(out, inner, depth + 1);
            proof {
                if r is Ok {
                    assert(out@ =~= old(out)@ + (seq![tag] + ser_token(**inner, depth as nat + 1)->Ok_0));
                }
            }
            r
        },
        SignatureToken::Datatype(idx) => {
            write_uleb128(idx.0 as u64, out);
            assert(out@ =~= old(out)@ + (seq![tag] + uleb128_encode(idx.0 as nat)));
            Ok(())
        },
        SignatureToken::TypeParameter(i) => {
            write_uleb128(*i as u64, out);
            assert(out@ =~= old(out)@ + (seq![tag] + uleb128_encode(*i as nat)));
            Ok(())
        },
        SignatureToken::DatatypeInstantiation(inst) => {
            write_uleb128(inst.0.0 as u64, out);
            let ghost a = out@;
            let n = inst.1.len();
            if n as u64 > SIGNATURE_SIZE_MAX {
                return Err(AdamantSerializeError::LengthOverflow { kind: KIND_SIGNATURE_LENGTH, len: n, max: SIGNATURE_SIZE_MAX });
            }
            write_uleb128(n as u64, out);
            let ghost b = out@;
            let r = write_tokens(out, &inst.1, depth + 1);
            proof {
                if r is Ok {
                    let x = seq![tag] + uleb128_encode(inst.0.0 as nat);
                    let y = uleb128_encode(n as nat);
                    let z = ser_tokens(inst.1, depth as nat + 1)->Ok_0;
                    assert(a =~= old(out)@ + x);
                    assert(out@ =~= old(out)@ + (x + (y + z)));
                }
            }
            r
        },
        _ => {
            assert(out@ =~= old(out)@ + seq![tag]);
            Ok(())
        },
    }
}

/// Appends the bytes of the type arguments of an instantiation.
fn write_tokens(out: &mut Vec<u8>, v: &Vec<SignatureToken>, depth: u64) -> (r: Result<(), AdamantSerializeError>)
    requires
        depth <= SIGNATURE_TOKEN_DEPTH_MAX + 1,
    ensures
        match ser_tokens(*v, depth as nat) {
            Ok(b) => r is Ok && final(out)@ == old(out)@ + b,
            Err(e) => r == Err::<(), AdamantSerializeError>(e),
        },
    decreases v, 1nat,
{
    let mut i: usize = 0;
    while i < v.len()
        invariant
            i <= v@.len(),
            depth <= SIGNATURE_TOKEN_DEPTH_MAX + 1,
            ser_tokens_upto(*v, i as int, depth as nat) matches Ok(b) && out@ == old(out)@ + b,
        decreases v@.len() - i,
    {
        match write_token(out, &v[i], depth) {
            Err(e) => {
                proof {
                    lemma_ser_tokens_error(*v, i as int + 1, depth as nat);
                }
                return Err(e);
            },
            Ok(()) => {},
        }
        proof {
            let b = ser_tokens_upto(*v, i as int, depth as nat)->Ok_0;
            let c = ser_token(v@[i as int], depth as nat)->Ok_0;
            assert(out@ =~= old(out)@ + (b + c));
        }
        i = i + 1;
    }
    Ok(())
}

/// Once a prefix of the type arguments fails, every longer prefix
/// fails the same way.
proof fn lemma_ser_tokens_error(v: Vec<SignatureToken>, n: int, depth: nat)
    requires
        0 <= n <= v@.len(),
        ser_tokens_upto(v, n, depth) is Err,
    ensures
        ser_tokens(v, depth) == ser_tokens_upto(v, n, depth),
    decreases v@.len() - n,
{
    if n < v@.len() {
        lemma_ser_tokens_error(v, n + 1, depth);
    }
}

impl WireEncode for SignatureToken {
    open spec fn spec_wire(&self) -> SerResult {
        ser_token(*self, 1)
    }

    fn write_wire(&self, out: &mut Vec<u8>) -> (r: Result<(), AdamantSerializeError>) {
        write_token(out, self, 1)
    }
}

impl WireEncode for Signature {
    open spec fn spec_wire(&self) -> SerResult {
        ser_counted(self.0@, SIGNATURE_SIZE_MAX, KIND_SIGNATURE_LENGTH)
    }

    fn write_wire(&self, out: &mut Vec<u8>) -> (r: Result<(), AdamantSerializeError>) {
        write_counted(out, self.0.as_slice(), SIGNATURE_SIZE_MAX, KIND_SIGNATURE_LENGTH)
    }
}

// ---------- Identifiers, addresses, constants, metadata ----------

/// A length-prefixed byte string, the length bounded by `max`.
pub open spec fn ser_blob(bytes: Seq<u8>, max: u64, kind: &'static str) -> SerResult {
    chain(ser_length(bytes.len(), max, kind), Ok(bytes))
}

/// Appends a length-prefixed byte string.
fn write_blob(out: &mut Vec<u8>, bytes: &[u8], max: u64, kind: &'static str) -> (r: Result<(), AdamantSerializeError>)
    ensures
        match ser_blob(bytes@, max, kind) {
            Ok(b) => r is Ok && final(out)@ == old(out)@ + b,
            Err(e) => r == Err::<(), AdamantSerializeError>(e),
        },
{
    let len = bytes.len();
    if len as u64 > max {
        return Err(AdamantSerializeError::LengthOverflow { kind, len, max });
    }
    write_uleb128(len as u64, out);
    append_bytes(out, bytes);
    assert(out@ =~= old(out)@ + (uleb128_encode(len as nat) + bytes@));
    Ok(())
}

impl WireEncode for String {
    /// An identifier: refused unless it is a valid Move identifier,
    /// then its UTF-8 bytes with their length.
    open spec fn spec_wire(&self) -> SerResult {
        if !spec_is_valid_identifier(encode_utf8(self@)) {
            Err(AdamantSerializeError::InvalidIdentifier)
        } else {
            ser_blob(encode_utf8(self@), IDENTIFIER_SIZE_MAX, KIND_IDENTIFIER_SIZE)
        }
    }

    fn write_wire(&self, out: &mut Vec<u8>) -> (r: Result<(), AdamantSerializeError>) {
        let bytes = self.as_str().as_bytes();
        if !is_valid_identifier(bytes) {
            return Err(AdamantSerializeError::InvalidIdentifier);
        }
        write_blob(out, bytes, IDENTIFIER_SIZE_MAX, KIND_IDENTIFIER_SIZE)
    }
}

impl WireEncode for Address {
    open spec fn spec_wire(&self) -> SerResult {
        Ok(self.0@)
    }

    fn write_wire(&self, out: &mut Vec<u8>) -> (r: Result<(), AdamantSerializeError>) {
        append_bytes(out, self.0.as_slice());
        Ok(())
    }
}

impl WireEncode for Constant {
    open spec fn spec_wire(&self) -> SerResult {
        chain(ser_token(self.type_, 1), ser_blob(self.data@, CONSTANT_SIZE_MAX, KIND_CONSTANT_SIZE))
    }

    fn write_wire(&self, out: &mut Vec<u8>) -> (r: Result<(), AdamantSerializeError>) {
        match write_token(out, &self.type_, 1) {
            Err(e) => return Err(e),
            Ok(()) => {},
        }
        let ghost a = out@;
        let r = write_blob(out, self.data.as_slice(), CONSTANT_SIZE_MAX, KIND_CONSTANT_SIZE);
        proof {
            if r is Ok {
                assert(out@ =~= old(out)@ + (ser_token(self.type_, 1)->Ok_0 + ser_blob(self.data@, CONSTANT_SIZE_MAX, KIND_CONSTANT_SIZE)->Ok_0));
            }
        }
        r
    }
}

impl WireEncode for Metadata {
    open spec fn spec_wire(&self) -> SerResult {
        chain(
            ser_blob(self.key@, METADATA_KEY_SIZE_MAX, KIND_METADATA_KEY_SIZE),
            ser_blob(self.value@, METADATA_VALUE_SIZE_MAX, KIND_METADATA_VALUE_SIZE),
        )
    }

    fn write_wire(&self, out: &mut Vec<u8>) -> (r: Result<(), AdamantSerializeError>) {
        match write_blob(out, self.key.as_slice(), METADATA_KEY_SIZE_MAX, KIND_METADATA_KEY_SIZE) {
            Err(e) => return Err(e),
            Ok(()) => {},
        }
        let ghost a = out@;
        let r = write_blob(out, self.value.as_slice(), METADATA_VALUE_SIZE_MAX, KIND_METADATA_VALUE_SIZE);
        proof {
            if r is Ok {
                assert(out@ =~= old(out)@ + (ser_blob(self.key@, METADATA_KEY_SIZE_MAX, KIND_METADATA_KEY_SIZE)->Ok_0
                    + ser_blob(self.value@, METADATA_VALUE_SIZE_MAX, KIND_METADATA_VALUE_SIZE)->Ok_0));
            }
        }
        r
    }
}


// ---------- Definitions ----------

impl WireEncode for FieldDefinition {
    open spec fn spec_wire(&self) -> SerResult {
        chain(Ok(uleb128_encode(self.name.0 as nat)), ser_token(self.signature.0, 1))
    }

    fn write_wire(&self, out: &mut Vec<u8>) -> (r: Result<(), AdamantSerializeError>) {
        write_uleb128(self.name.0 as u64, out);
        let ghost a = out@;
        let r = write_token(out, &self.signature.0, 1);
        proof {
            if r is Ok {
                assert(out@ =~= old(out)@ + (uleb128_encode(self.name.0 as nat) + ser_token(self.signature.0, 1)->Ok_0));
            }
        }
        r
    }
}

impl WireEncode for StructDefinition {
    open spec fn spec_wire(&self) -> SerResult {
        chain(
            Ok(uleb128_encode(self.struct_handle.0 as nat)),
            match self.field_information {
                StructFieldInformation::Native => Ok(seq![STRUCT_FLAG_NATIVE]),
                StructFieldInformation::Declared(fields) => chain(
                    Ok(seq![STRUCT_FLAG_DECLARED]),
                    ser_counted(fields@, FIELD_COUNT_MAX, KIND_FIELD_COUNT),
                ),
            },
        )
    }

    fn write_wire(&self, out: &mut Vec<u8>) -> (r: Result<(), AdamantSerializeError>) {
        write_uleb128(self.struct_handle.0 as u64, out);
        match &self.field_information {
            StructFieldInformation::Native => {
                out.push(STRUCT_FLAG_NATIVE);
                assert(out@ =~= old(out)@ + (uleb128_encode(self.struct_handle.0 as nat) + seq![STRUCT_FLAG_NATIVE]));
                Ok(())
            },
            StructFieldInformation::Declared(fields) => {
                out.push(STRUCT_FLAG_DECLARED);
                let ghost a = out@;
                let r = write_counted(out, fields.as_slice(), FIELD_COUNT_MAX, KIND_FIELD_COUNT);
                proof {
                    if r is Ok {
                        assert(out@ =~= old(out)@ + (uleb128_encode(self.struct_handle.0 as nat) + (seq![STRUCT_FLAG_DECLARED]
                            + ser_counted(fields@, FIELD_COUNT_MAX, KIND_FIELD_COUNT)->Ok_0)));
                    }
                }
                r
            },
        }
    }
}

impl WireEncode for StructDefInstantiation {
    open spec fn spec_wire(&self) -> SerResult {
        Ok(uleb128_encode(self.def.0 as nat) + uleb128_encode(self.type_parameters.0 as nat))
    }

    fn write_wire(&self, out: &mut Vec<u8>) -> (r: Result<(), AdamantSerializeError>) {
        write_uleb128(self.def.0 as u64, out);
        write_uleb128(self.type_parameters.0 as u64, out);
        assert(out@ =~= old(out)@ + self.spec_wire()->Ok_0);
        Ok(())
    }
}

impl WireEncode for FieldHandle {
    open spec fn spec_wire(&self) -> SerResult {
        chain(Ok(uleb128_encode(self.owner.0 as nat)), ser_bounded(self.field as nat, FIELD_OFFSET_MAX, KIND_FIELD_OFFSET))
    }

    fn write_wire(&self, out: &mut Vec<u8>) -> (r: Result<(), AdamantSerializeError>) {
        write_uleb128(self.owner.0 as u64, out);
        let ghost a = out@;
        let r = write_bounded(out, self.field as u64, FIELD_OFFSET_MAX, KIND_FIELD_OFFSET);
        proof {
            if r is Ok {
                assert(out@ =~= old(out)@ + (uleb128_encode(self.owner.0 as nat) + uleb128_encode(self.field as nat)));
            }
        }
        r
    }
}

impl WireEncode for FieldInstantiation {
    open spec fn spec_wire(&self) -> SerResult {
        Ok(uleb128_encode(self.handle.0 as nat) + uleb128_encode(self.type_parameters.0 as nat))
    }

    fn write_wire(&self, out: &mut Vec<u8>) -> (r: Result<(), AdamantSerializeError>) {
        write_uleb128(self.handle.0 as u64, out);
        write_uleb128(self.type_parameters.0 as u64, out);
        assert(out@ =~= old(out)@ + self.spec_wire()->Ok_0);
        Ok(())
    }
}

impl WireEncode for VariantDefinition {
    open spec fn spec_wire(&self) -> SerResult {
        chain(Ok(uleb128_encode(self.variant_name.0 as nat)), ser_counted(self.fields@, FIELD_COUNT_MAX, KIND_FIELD_COUNT))
    }

    fn write_wire(&self, out: &mut Vec<u8>) -> (r: Result<(), AdamantSerializeError>) {
        write_uleb128(self.variant_name.0 as u64, out);
        let ghost a = out@;
        let r = write_counted(out, self.fields.as_slice(), FIELD_COUNT_MAX, KIND_FIELD_COUNT);
        proof {
            if r is Ok {
                assert(out@ =~= old(out)@ + (uleb128_encode(self.variant_name.0 as nat) + ser_counted(self.fields@, FIELD_COUNT_MAX, KIND_FIELD_COUNT)->Ok_0));
            }
        }
        r
    }
}

impl WireEncode for EnumDefinition {
    open spec fn spec_wire(&self) -> SerResult {
        chain(
            Ok(uleb128_encode(self.enum_handle.0 as nat) + seq![ENUM_FLAG_DECLARED]),
            ser_counted(self.variants@, VARIANT_COUNT_MAX, KIND_VARIANT_COUNT),
        )
    }

    fn write_wire(&self, out: &mut Vec<u8>) -> (r: Result<(), AdamantSerializeError>) {
        write_uleb128(self.enum_handle.0 as u64, out);
        out.push(ENUM_FLAG_DECLARED);
        let ghost a = out@;
        let r = write_counted(out, self.variants.as_slice(), VARIANT_COUNT_MAX, KIND_VARIANT_COUNT);
        proof {
            if r is Ok {
                assert(out@ =~= old(out)@ + ((uleb128_encode(self.enum_handle.0 as nat) + seq![ENUM_FLAG_DECLARED])
                    + ser_counted(self.variants@, VARIANT_COUNT_MAX, KIND_VARIANT_COUNT)->Ok_0));
            }
        }
        r
    }
}

impl WireEncode for EnumDefInstantiation {
    open spec fn spec_wire(&self) -> SerResult {
        Ok(uleb128_encode(self.def.0 as nat) + uleb128_encode(self.type_parameters.0 as nat))
    }

    fn write_wire(&self, out: &mut Vec<u8>) -> (r: Result<(), AdamantSerializeError>) {
        write_uleb128(self.def.0 as u64, out);
        write_uleb128(self.type_parameters.0 as u64, out);
        assert(out@ =~= old(out)@ + self.spec_wire()->Ok_0);
        Ok(())
    }
}

impl WireEncode for VariantHandle {
    open spec fn spec_wire(&self) -> SerResult {
        chain(Ok(uleb128_encode(self.enum_def.0 as nat)), ser_bounded(self.variant as nat, VARIANT_TAG_MAX_VALUE, KIND_VARIANT_TAG))
    }

    fn write_wire(&self, out: &mut Vec<u8>) -> (r: Result<(), AdamantSerializeError>) {
        write_uleb128(self.enum_def.0 as u64, out);
        let ghost a = out@;
        let r = write_bounded(out, self.variant as u64, VARIANT_TAG_MAX_VALUE, KIND_VARIANT_TAG);
        proof {
            if r is Ok {
                assert(out@ =~= old(out)@ + (uleb128_encode(self.enum_def.0 as nat) + uleb128_encode(self.variant as nat)));
            }
        }
        r
    }
}

impl WireEncode for VariantInstantiationHandle {
    open spec fn spec_wire(&self) -> SerResult {
        chain(Ok(uleb128_encode(self.enum_def.0 as nat)), ser_bounded(self.variant as nat, VARIANT_TAG_MAX_VALUE, KIND_VARIANT_TAG))
    }

    fn write_wire(&self, out: &mut Vec<u8>) -> (r: Result<(), AdamantSerializeError>) {
        write_uleb128(self.enum_def.0 as u64, out);
        let ghost a = out@;
        let r = write_bounded(out, self.variant as u64, VARIANT_TAG_MAX_VALUE, KIND_VARIANT_TAG);
        proof {
            if r is Ok {
                assert(out@ =~= old(out)@ + (uleb128_encode(self.enum_def.0 as nat) + uleb128_encode(self.variant as nat)));
            }
        }
        r
    }
}

// ---------- Function definitions ----------

impl WireEncode for StructDefinitionIndex {
    open spec fn spec_wire(&self) -> SerResult {
        Ok(uleb128_encode(self.0 as nat))
    }

    fn write_wire(&self, out: &mut Vec<u8>) -> (r: Result<(), AdamantSerializeError>) {
        write_uleb128(self.0 as u64, out);
        Ok(())
    }
}

impl WireEncode for u16 {
    open spec fn spec_wire(&self) -> SerResult {
        Ok(uleb128_encode(*self as nat))
    }

    fn write_wire(&self, out: &mut Vec<u8>) -> (r: Result<(), AdamantSerializeError>) {
        write_uleb128(*self as u64, out);
        Ok(())
    }
}

impl WireEncode for VariantJumpTable {
    open spec fn spec_wire(&self) -> SerResult {
        match self.jump_table {
            JumpTableInner::Full(branches) => chain(
                Ok(uleb128_encode(self.head_enum.0 as nat)),
                chain(
                    ser_length(branches@.len(), VARIANT_COUNT_MAX, KIND_BRANCH_COUNT),
                    chain(Ok(seq![JUMP_TABLE_FLAG_FULL]), ser_items(branches@)),
                ),
            ),
        }
    }

    fn write_wire(&self, out: &mut Vec<u8>) -> (r: Result<(), AdamantSerializeError>) {
        let JumpTableInner::Full(branches) = &self.jump_table;
        write_uleb128(self.head_enum.0 as u64, out);
        let n = branches.len();
        if n as u64 > VARIANT_COUNT_MAX {
            return Err(AdamantSerializeError::LengthOverflow { kind: KIND_BRANCH_COUNT, len: n, max: VARIANT_COUNT_MAX });
        }
        write_uleb128(n as u64, out);
        out.push(JUMP_TABLE_FLAG_FULL);
        let ghost a = out@;
        let r = write_items(out, branches.as_slice());
        proof {
            lemma_branches_ok(branches@);
            assert(out@ =~= old(out)@ + (uleb128_encode(self.head_enum.0 as nat) + (uleb128_encode(n as nat)
                + (seq![JUMP_TABLE_FLAG_FULL] + ser_items(branches@)->Ok_0))));
        }
        r
    }
}

/// Branch targets always encode.
proof fn lemma_branches_ok(s: Seq<u16>)
    ensures
        ser_items(s) is Ok,
    decreases s.len(),
{
    if s.len() > 0 {
        lemma_branches_ok(s.drop_last());
    }
}

/// The jump tables of a code unit: refused before version 7 unless
/// there are none, refused above 255 tables; otherwise their count
/// and the tables.
pub open spec fn ser_jump_tables(version: u32, jts: Seq<VariantJumpTable>) -> SerResult {
    if version < VERSION_7 {
        if jts.len() > 0 {
            Err(AdamantSerializeError::VersionFeatureMismatch { feature: FEATURE_JUMP_TABLES, version })
        } else {
            Ok(Seq::empty())
        }
    } else if jts.len() > 255 {
        Err(AdamantSerializeError::LengthOverflow { kind: KIND_JUMP_TABLES, len: jts.len() as usize, max: 255 })
    } else {
        chain(Ok(uleb128_encode(jts.len())), ser_items(jts))
    }
}

/// The bytes of a code unit: the locals' signature index, the body,
/// the jump tables.
pub open spec fn ser_code_unit(version: u32, unit: AdamantCodeUnit) -> SerResult {
    chain(
        Ok(uleb128_encode(unit.locals.0 as nat) + spec_encode_function_body(unit.code@)),
        ser_jump_tables(version, unit.jump_tables@),
    )
}

/// The byte of a visibility.
pub open spec fn spec_visibility_byte(v: Visibility) -> u8 {
    match v {
        Visibility::Private => VISIBILITY_PRIVATE,
        Visibility::Public => VISIBILITY_PUBLIC,
        Visibility::Friend => VISIBILITY_FRIEND,
    }
}

/// The visibility byte of a function definition: before version 5 a
/// public entry function is written with the deprecated script
/// visibility.
pub open spec fn spec_function_visibility_byte(version: u32, fd: AdamantFunctionDefinition) -> u8 {
    if version < VERSION_5 && fd.visibility == Visibility::Public && fd.is_entry {
        VISIBILITY_DEPRECATED_SCRIPT
    } else {
        spec_visibility_byte(fd.visibility)
    }
}

/// The flags byte of a function definition: entry (from version 5
/// on) and native.
pub open spec fn spec_function_flags(version: u32, fd: AdamantFunctionDefinition) -> u8 {
    ((if version >= VERSION_5 && fd.is_entry { FUNCTION_FLAG_ENTRY } else { 0u8 })
        + (if fd.code is None { FUNCTION_FLAG_NATIVE } else { 0u8 })) as u8
}

/// The bytes of a function definition at `version`.
pub open spec fn ser_function_def(version: u32, fd: AdamantFunctionDefinition) -> SerResult {
    chain(
        Ok(uleb128_encode(fd.function.0 as nat) + seq![
            spec_function_visibility_byte(version, fd),
            spec_function_flags(version, fd),
        ]),
        chain(
            ser_counted(fd.acquires_global_resources@, ACQUIRES_COUNT_MAX, KIND_ACQUIRES_COUNT),
            match fd.code {
                Some(unit) => ser_code_unit(version, unit),
                None => Ok(Seq::empty()),
            },
        ),
    )
}

/// Appends the bytes of a code unit.
fn write_code_unit(out: &mut Vec<u8>, version: u32, unit: &AdamantCodeUnit) -> (r: Result<(), AdamantSerializeError>)
    ensures
        match ser_code_unit(version, *unit) {
            Ok(b) => r is Ok && final(out)@ == old(out)@ + b,
            Err(e) => r == Err::<(), AdamantSerializeError>(e),
        },
{
    write_uleb128(unit.locals.0 as u64, out);
    let body = match serialize_function_body(unit.code.as_slice()) {
        Ok(b) => b,
        Err(e) => return Err(AdamantSerializeError::from(e)),
    };
    append_bytes(out, body.as_slice());
    let ghost a = out@;
    assert(a =~= old(out)@ + (uleb128_encode(unit.locals.0 as nat) + spec_encode_function_body(unit.code@)));
    let n = unit.jump_tables.len();
    if version < VERSION_7 {
        if n > 0 {
            return Err(AdamantSerializeError::VersionFeatureMismatch { feature: FEATURE_JUMP_TABLES, version });
        }
        assert(out@ =~= a + Seq::<u8>::empty());
        return Ok(());
    }
    if n > 255 {
        return Err(AdamantSerializeError::LengthOverflow { kind: KIND_JUMP_TABLES, len: n, max: 255 });
    }
    write_uleb128(n as u64, out);
    let r = write_items(out, unit.jump_tables.as_slice());
    proof {
        if r is Ok {
            assert(out@ =~= old(out)@ + ((uleb128_encode(unit.locals.0 as nat) + spec_encode_function_body(unit.code@))
                + (uleb128_encode(n as nat) + ser_items(unit.jump_tables@)->Ok_0)));
        }
    }
    r
}

/// Appends the bytes of a function definition at `version`.
fn write_function_def(out: &mut Vec<u8>, version: u32, fd: &AdamantFunctionDefinition) -> (r: Result<(), AdamantSerializeError>)
    ensures
        match ser_function_def(version, *fd) {
            Ok(b) => r is Ok && final(out)@ == old(out)@ + b,
            Err(e) => r == Err::<(), AdamantSerializeError>(e),
        },
{
    write_uleb128(fd.function.0 as u64, out);
    let visibility: u8 = match fd.visibility {
        Visibility::Private => VISIBILITY_PRIVATE,
        Visibility::Public => if version < VERSION_5 && fd.is_entry {
            VISIBILITY_DEPRECATED_SCRIPT
        } else {
            VISIBILITY_PUBLIC
        },
        Visibility::Friend => VISIBILITY_FRIEND,
    };
    out.push(visibility);
    let mut flags: u8 = 0;
    if version >= VERSION_5 && fd.is_entry {
        flags = flags + FUNCTION_FLAG_ENTRY;
    }
    if fd.is_native() {
        flags = flags + FUNCTION_FLAG_NATIVE;
    }
    out.push(flags);
    let ghost head = out@;
    let ghost x = uleb128_encode(fd.function.0 as nat) + seq![
        spec_function_visibility_byte(version, *fd),
        spec_function_flags(version, *fd),
    ];
    assert(head =~= old(out)@ + x);
    match write_counted(out, fd.acquires_global_resources.as_slice(), ACQUIRES_COUNT_MAX, KIND_ACQUIRES_COUNT) {
        Err(e) => return Err(e),
        Ok(()) => {},
    }
    let ghost mid = out@;
    let ghost y = ser_counted(fd.acquires_global_resources@, ACQUIRES_COUNT_MAX, KIND_ACQUIRES_COUNT)->Ok_0;
    match &fd.code {
        Some(unit) => {
            let r = write_code_unit(out, version, unit);
            proof {
                if r is Ok {
                    assert(out@ =~= old(out)@ + (x + (y + ser_code_unit(version, *unit)->Ok_0)));
                }
            }
            r
        },
        None => {
            assert(out@ =~= old(out)@ + (x + (y + Seq::<u8>::empty())));
            Ok(())
        },
    }
}


/// The function definitions one after the other, at `version`.
pub open spec fn ser_function_defs(version: u32, s: Seq<AdamantFunctionDefinition>) -> SerResult
    decreases s.len(),
{
    if s.len() == 0 {
        Ok(Seq::empty())
    } else {
        chain(ser_function_defs(version, s.drop_last()), ser_function_def(version, s.last()))
    }
}

proof fn lemma_ser_function_defs_error(version: u32, s: Seq<AdamantFunctionDefinition>, n: int)
    requires
        0 <= n <= s.len(),
        ser_function_defs(version, s.subrange(0, n)) is Err,
    ensures
        ser_function_defs(version, s) == ser_function_defs(version, s.subrange(0, n)),
    decreases s.len() - n,
{
    if n < s.len() {
        assert(s.subrange(0, n + 1).drop_last() =~= s.subrange(0, n));
        lemma_ser_function_defs_error(version, s, n + 1);
    } else {
        assert(s.subrange(0, n) =~= s);
    }
}

/// Appends the function definitions one after the other.
fn write_function_defs(out: &mut Vec<u8>, version: u32, defs: &[AdamantFunctionDefinition]) -> (r: Result<(), AdamantSerializeError>)
    ensures
        match ser_function_defs(version, defs@) {
            Ok(b) => r is Ok && final(out)@ == old(out)@ + b,
            Err(e) => r == Err::<(), AdamantSerializeError>(e),
        },
{
    let mut i: usize = 0;
    assert(defs@.subrange(0, 0) =~= Seq::<AdamantFunctionDefinition>::empty());
    while i < defs.len()
        invariant
            i <= defs@.len(),
            ser_function_defs(version, defs@.subrange(0, i as int)) matches Ok(b) && out@ == old(out)@ + b,
        decreases defs@.len() - i,
    {
        let ghost pre = defs@.subrange(0, i as int);
        proof {
            assert(defs@.subrange(0, i as int + 1).drop_last() =~= pre);
        }
        match write_function_def(out, version, &defs[i]) {
            Err(e) => {
                proof {
                    lemma_ser_function_defs_error(version, defs@, i as int + 1);
                }
                return Err(e);
            },
            Ok(()) => {},
        }
        proof {
            let b = ser_function_defs(version, pre)->Ok_0;
            let c = ser_function_def(version, defs@[i as int])->Ok_0;
            assert(out@ =~= old(out)@ + (b + c));
        }
        i = i + 1;
    }
    assert(defs@.subrange(0, defs@.len() as int) =~= defs@);
    Ok(())
}

// ---------- Tables ----------

/// The position and length of a table's contents.
pub type TableSlot = (TableType, u32, u32);

/// The tables' contents written so far and their slots, or the error
/// that stopped the writing.
pub type TableAcc = Result<(Seq<u8>, Seq<TableSlot>), AdamantSerializeError>;

/// Writing one table: an empty table is skipped; otherwise its
/// contents follow the earlier tables', refused when they would end
/// past `u32::MAX` bytes.
#[verifier::opaque]
pub open spec fn table_step(acc: TableAcc, kind: TableType, nonempty: bool, content: SerResult) -> TableAcc {
    match acc {
        Err(e) => Err(e),
        Ok((bytes, slots)) => if !nonempty {
            Ok((bytes, slots))
        } else {
            match content {
                Err(e) => Err(e),
                Ok(c) => if bytes.len() + c.len() > u32::MAX {
                    Err(AdamantSerializeError::BinaryTooLarge((bytes.len() + c.len()) as usize))
                } else {
                    Ok((bytes + c, slots.push((kind, bytes.len() as u32, c.len() as u32))))
                },
            }
        },
    }
}

/// A table after an earlier error keeps that error.
pub broadcast proof fn lemma_table_step_err(e: AdamantSerializeError, kind: TableType, nonempty: bool, content: SerResult)
    ensures
        #[trigger] table_step(Err(e), kind, nonempty, content) == Err::<(Seq<u8>, Seq<TableSlot>), AdamantSerializeError>(e),
{
    reveal(table_step);
}

/// A check between tables: refused with `e` when `refuse` holds.
pub open spec fn table_refuse(acc: TableAcc, refuse: bool, e: AdamantSerializeError) -> TableAcc {
    match acc {
        Err(x) => Err(x),
        Ok(v) => if refuse {
            Err(e)
        } else {
            Ok(v)
        },
    }
}

/// Whether the module has an enum table.
pub open spec fn has_enum_tables(m: AdamantCompiledModule) -> bool {
    m.enum_defs@.len() > 0 || m.enum_def_instantiations@.len() > 0 || m.variant_handles@.len() > 0
        || m.variant_instantiation_handles@.len() > 0
}

/// The table kind written at position `r`.
pub open spec fn kind_of_rank(r: nat) -> TableType {
    if r == 0 {
        TableType::ModuleHandles
    } else if r == 1 {
        TableType::DatatypeHandles
    } else if r == 2 {
        TableType::FunctionHandles
    } else if r == 3 {
        TableType::FunctionInst
    } else if r == 4 {
        TableType::Signatures
    } else if r == 5 {
        TableType::Identifiers
    } else if r == 6 {
        TableType::AddressIdentifiers
    } else if r == 7 {
        TableType::ConstantPool
    } else if r == 8 {
        TableType::Metadata
    } else if r == 9 {
        TableType::StructDefs
    } else if r == 10 {
        TableType::StructDefInst
    } else if r == 11 {
        TableType::FunctionDefs
    } else if r == 12 {
        TableType::FieldHandle
    } else if r == 13 {
        TableType::FieldInst
    } else if r == 14 {
        TableType::FriendDecls
    } else if r == 15 {
        TableType::EnumDefs
    } else if r == 16 {
        TableType::EnumDefInst
    } else if r == 17 {
        TableType::VariantHandles
    } else {
        TableType::VariantInstHandles
    }
}

/// The number of table kinds written at `version`.
pub open spec fn plan_len(version: u32) -> nat {
    if version >= super::format::VERSION_7 {
        19
    } else {
        15
    }
}

/// Whether the module's pool of kind `k` has entries.
pub open spec fn table_nonempty(m: AdamantCompiledModule, k: TableType) -> bool {
    match k {
        TableType::ModuleHandles => m.module_handles@.len() > 0,
        TableType::DatatypeHandles => m.datatype_handles@.len() > 0,
        TableType::FunctionHandles => m.function_handles@.len() > 0,
        TableType::FunctionInst => m.function_instantiations@.len() > 0,
        TableType::Signatures => m.signatures@.len() > 0,
        TableType::Identifiers => m.identifiers@.len() > 0,
        TableType::AddressIdentifiers => m.address_identifiers@.len() > 0,
        TableType::ConstantPool => m.constant_pool@.len() > 0,
        TableType::Metadata => m.metadata@.len() > 0,
        TableType::StructDefs => m.struct_defs@.len() > 0,
        TableType::StructDefInst => m.struct_def_instantiations@.len() > 0,
        TableType::FunctionDefs => m.function_defs@.len() > 0,
        TableType::FieldHandle => m.field_handles@.len() > 0,
        TableType::FieldInst => m.field_instantiations@.len() > 0,
        TableType::FriendDecls => m.friend_decls@.len() > 0,
        TableType::EnumDefs => m.enum_defs@.len() > 0,
        TableType::EnumDefInst => m.enum_def_instantiations@.len() > 0,
        TableType::VariantHandles => m.variant_handles@.len() > 0,
        TableType::VariantInstHandles => m.variant_instantiation_handles@.len() > 0,
    }
}

/// The contents of the module's table of kind `k`.
pub open spec fn table_enc(m: AdamantCompiledModule, k: TableType) -> SerResult {
    match k {
        TableType::ModuleHandles => ser_items(m.module_handles@),
        TableType::DatatypeHandles => ser_items(m.datatype_handles@),
        TableType::FunctionHandles => ser_items(m.function_handles@),
        TableType::FunctionInst => ser_items(m.function_instantiations@),
        TableType::Signatures => ser_items(m.signatures@),
        TableType::Identifiers => ser_items(m.identifiers@),
        TableType::AddressIdentifiers => ser_items(m.address_identifiers@),
        TableType::ConstantPool => ser_items(m.constant_pool@),
        TableType::Metadata => ser_items(m.metadata@),
        TableType::StructDefs => ser_items(m.struct_defs@),
        TableType::StructDefInst => ser_items(m.struct_def_instantiations@),
        TableType::FunctionDefs => ser_function_defs(m.version, m.function_defs@),
        TableType::FieldHandle => ser_items(m.field_handles@),
        TableType::FieldInst => ser_items(m.field_instantiations@),
        TableType::FriendDecls => ser_items(m.friend_decls@),
        TableType::EnumDefs => ser_items(m.enum_defs@),
        TableType::EnumDefInst => ser_items(m.enum_def_instantiations@),
        TableType::VariantHandles => ser_items(m.variant_handles@),
        TableType::VariantInstHandles => ser_items(m.variant_instantiation_handles@),
    }
}

/// Writing the tables at positions `i` to `n` in writing order.
#[verifier::opaque]
pub open spec fn fold_tables(acc: TableAcc, m: AdamantCompiledModule, i: nat, n: nat) -> TableAcc
    decreases n - i,
{
    if i >= n {
        acc
    } else {
        fold_tables(table_step(acc, kind_of_rank(i), table_nonempty(m, kind_of_rank(i)), table_enc(m, kind_of_rank(i))), m, i + 1, n)
    }
}

/// The table written at position `i`, then the rest.
pub proof fn lemma_fold_step(acc: TableAcc, m: AdamantCompiledModule, i: nat, n: nat)
    requires
        i < n,
    ensures
        fold_tables(acc, m, i, n) == fold_tables(table_step(acc, kind_of_rank(i), table_nonempty(m, kind_of_rank(i)), table_enc(m, kind_of_rank(i))), m, i + 1, n),
{
    reveal(fold_tables);
}

/// Past the last position, nothing more is written.
pub proof fn lemma_fold_done(acc: TableAcc, m: AdamantCompiledModule, i: nat, n: nat)
    requires
        i >= n,
    ensures
        fold_tables(acc, m, i, n) == acc,
{
    reveal(fold_tables);
}

/// Once an error stops the writing, the later tables keep it.
pub proof fn lemma_fold_err(e: AdamantSerializeError, m: AdamantCompiledModule, i: nat, n: nat)
    ensures
        fold_tables(Err(e), m, i, n) == Err::<(Seq<u8>, Seq<TableSlot>), AdamantSerializeError>(e),
    decreases n - i,
{
    broadcast use lemma_table_step_err;

    if i < n {
        lemma_fold_step(Err(e), m, i, n);
        lemma_fold_err(e, m, i + 1, n);
    } else {
        lemma_fold_done(Err(e), m, i, n);
    }
}

/// All tables, in writing order: the common tables, the module's
/// definitions, then from version 7 on the enum tables; before
/// version 7 a module with an enum table is refused.
pub open spec fn spec_tables(m: AdamantCompiledModule) -> TableAcc {
    let a = fold_tables(Ok((Seq::<u8>::empty(), Seq::<TableSlot>::empty())), m, 0, plan_len(m.version));
    if m.version >= VERSION_7 {
        a
    } else {
        table_refuse(a, has_enum_tables(m), AdamantSerializeError::VersionFeatureMismatch { feature: FEATURE_ENUM_TABLES, version: m.version })
    }
}

/// The contents and slots written so far.
pub struct TableWriter {
    /// The tables' contents.
    pub content: Vec<u8>,
    /// The slots of the written tables.
    pub slots: Vec<TableSlot>,
}

impl TableWriter {
    /// What the writer holds, in the form of a table accumulator.
    pub open spec fn acc(&self) -> TableAcc {
        Ok((self.content@, self.slots@))
    }
}

/// Writes one table of values.
fn write_table<T: WireEncode>(w: &mut TableWriter, kind: TableType, items: &[T]) -> (r: Result<(), AdamantSerializeError>)
    requires
        old(w).content@.len() <= u32::MAX,
    ensures
        match table_step(old(w).acc(), kind, items@.len() > 0, ser_items(items@)) {
            Ok(v) => r is Ok && final(w).acc() == Ok::<(Seq<u8>, Seq<TableSlot>), AdamantSerializeError>(v),
            Err(e) => r == Err::<(), AdamantSerializeError>(e),
        },
        r is Ok ==> final(w).content@.len() <= u32::MAX,
{
    reveal(table_step);
    if items.len() == 0 {
        return Ok(());
    }
    let start = w.content.len();
    match write_items(&mut w.content, items) {
        Err(e) => return Err(e),
        Ok(()) => {},
    }
    let end = w.content.len();
    if end > 0xffff_ffff {
        return Err(AdamantSerializeError::BinaryTooLarge(end));
    }
    w.slots.push((kind, start as u32, (end - start) as u32));
    Ok(())
}

/// Writes the function-definition table.
fn write_function_def_table(w: &mut TableWriter, version: u32, defs: &[AdamantFunctionDefinition]) -> (r: Result<(), AdamantSerializeError>)
    requires
        old(w).content@.len() <= u32::MAX,
    ensures
        match table_step(old(w).acc(), TableType::FunctionDefs, defs@.len() > 0, ser_function_defs(version, defs@)) {
            Ok(v) => r is Ok && final(w).acc() == Ok::<(Seq<u8>, Seq<TableSlot>), AdamantSerializeError>(v),
            Err(e) => r == Err::<(), AdamantSerializeError>(e),
        },
        r is Ok ==> final(w).content@.len() <= u32::MAX,
{
    reveal(table_step);
    if defs.len() == 0 {
        return Ok(());
    }
    let start = w.content.len();
    match write_function_defs(&mut w.content, version, defs) {
        Err(e) => return Err(e),
        Ok(()) => {},
    }
    let end = w.content.len();
    if end > 0xffff_ffff {
        return Err(AdamantSerializeError::BinaryTooLarge(end));
    }
    w.slots.push((TableType::FunctionDefs, start as u32, (end - start) as u32));
    Ok(())
}

/// Writes the table of kind `k`.
fn write_kind(w: &mut TableWriter, m: &AdamantCompiledModule, k: TableType) -> (r: Result<(), AdamantSerializeError>)
    requires
        old(w).content@.len() <= u32::MAX,
    ensures
        match table_step(old(w).acc(), k, table_nonempty(*m, k), table_enc(*m, k)) {
            Ok(v) => r is Ok && final(w).acc() == Ok::<(Seq<u8>, Seq<TableSlot>), AdamantSerializeError>(v),
            Err(e) => r == Err::<(), AdamantSerializeError>(e),
        },
        r is Ok ==> final(w).content@.len() <= u32::MAX,
{
    match k {
        TableType::ModuleHandles => write_table(w, k, m.module_handles.as_slice()),
        TableType::DatatypeHandles => write_table(w, k, m.datatype_handles.as_slice()),
        TableType::FunctionHandles => write_table(w, k, m.function_handles.as_slice()),
        TableType::FunctionInst => write_table(w, k, m.function_instantiations.as_slice()),
        TableType::Signatures => write_table(w, k, m.signatures.as_slice()),
        TableType::Identifiers => write_table(w, k, m.identifiers.as_slice()),
        TableType::AddressIdentifiers => write_table(w, k, m.address_identifiers.as_slice()),
        TableType::ConstantPool => write_table(w, k, m.constant_pool.as_slice()),
        TableType::Metadata => write_table(w, k, m.metadata.as_slice()),
        TableType::StructDefs => write_table(w, k, m.struct_defs.as_slice()),
        TableType::StructDefInst => write_table(w, k, m.struct_def_instantiations.as_slice()),
        TableType::FunctionDefs => write_function_def_table(w, m.version, m.function_defs.as_slice()),
        TableType::FieldHandle => write_table(w, k, m.field_handles.as_slice()),
        TableType::FieldInst => write_table(w, k, m.field_instantiations.as_slice()),
        TableType::FriendDecls => write_table(w, k, m.friend_decls.as_slice()),
        TableType::EnumDefs => write_table(w, k, m.enum_defs.as_slice()),
        TableType::EnumDefInst => write_table(w, k, m.enum_def_instantiations.as_slice()),
        TableType::VariantHandles => write_table(w, k, m.variant_handles.as_slice()),
        TableType::VariantInstHandles => write_table(w, k, m.variant_instantiation_handles.as_slice()),
    }
}

/// The table kind written at position `r`.
fn kind_at(r: u64) -> (k: TableType)
    ensures
        k == kind_of_rank(r as nat),
{
    if r == 0 {
        TableType::ModuleHandles
    } else if r == 1 {
        TableType::DatatypeHandles
    } else if r == 2 {
        TableType::FunctionHandles
    } else if r == 3 {
        TableType::FunctionInst
    } else if r == 4 {
        TableType::Signatures
    } else if r == 5 {
        TableType::Identifiers
    } else if r == 6 {
        TableType::AddressIdentifiers
    } else if r == 7 {
        TableType::ConstantPool
    } else if r == 8 {
        TableType::Metadata
    } else if r == 9 {
        TableType::StructDefs
    } else if r == 10 {
        TableType::StructDefInst
    } else if r == 11 {
        TableType::FunctionDefs
    } else if r == 12 {
        TableType::FieldHandle
    } else if r == 13 {
        TableType::FieldInst
    } else if r == 14 {
        TableType::FriendDecls
    } else if r == 15 {
        TableType::EnumDefs
    } else if r == 16 {
        TableType::EnumDefInst
    } else if r == 17 {
        TableType::VariantHandles
    } else {
        TableType::VariantInstHandles
    }
}

/// Writes all tables.
fn write_tables(w: &mut TableWriter, m: &AdamantCompiledModule) -> (r: Result<(), AdamantSerializeError>)
    requires
        old(w).content@.len() == 0,
        old(w).slots@.len() == 0,
    ensures
        match spec_tables(*m) {
            Ok(v) => r is Ok && final(w).acc() == Ok::<(Seq<u8>, Seq<TableSlot>), AdamantSerializeError>(v),
            Err(e) => r == Err::<(), AdamantSerializeError>(e),
        },
        r is Ok ==> final(w).content@.len() <= u32::MAX,
{
    let n: u64 = if m.version >= VERSION_7 { 19 } else { 15 };
    let ghost init: TableAcc = Ok((Seq::<u8>::empty(), Seq::<TableSlot>::empty()));
    assert(w.content@ =~= Seq::<u8>::empty());
    assert(w.slots@ =~= Seq::<TableSlot>::empty());
    let mut i: u64 = 0;
    while i < n
        invariant
            i <= n,
            n == plan_len(m.version),
            w.content@.len() <= u32::MAX,
            init == Ok::<(Seq<u8>, Seq<TableSlot>), AdamantSerializeError>((Seq::<u8>::empty(), Seq::<TableSlot>::empty())),
            fold_tables(init, *m, 0, n as nat) == fold_tables(w.acc(), *m, i as nat, n as nat),
        decreases n - i,
    {
        let k = kind_at(i);
        let ghost acc0 = w.acc();
        proof {
            lemma_fold_step(acc0, *m, i as nat, n as nat);
        }
        match write_kind(w, m, k) {
            Ok(()) => {},
            Err(e) => {
                proof {
                    assert(table_step(acc0, k, table_nonempty(*m, k), table_enc(*m, k)) == Err::<(Seq<u8>, Seq<TableSlot>), AdamantSerializeError>(e));
                    lemma_fold_err(e, *m, i as nat + 1, n as nat);
                    assert(fold_tables(init, *m, 0, n as nat) == Err::<(Seq<u8>, Seq<TableSlot>), AdamantSerializeError>(e));
                }
                return Err(e);
            },
        }
        i = i + 1;
    }
    proof {
        lemma_fold_done(w.acc(), *m, n as nat, n as nat);
    }
    if m.version < VERSION_7 && (m.enum_defs.len() > 0 || m.enum_def_instantiations.len() > 0
        || m.variant_handles.len() > 0 || m.variant_instantiation_handles.len() > 0) {
        return Err(AdamantSerializeError::VersionFeatureMismatch { feature: FEATURE_ENUM_TABLES, version: m.version });
    }
    Ok(())
}

/// The entry of one slot in the table index: the kind's byte, the
/// offset and the length, for a nonempty table.
pub open spec fn spec_index_entry(slot: TableSlot) -> Seq<u8> {
    if slot.2 != 0 {
        seq![spec_table_type_byte(slot.0)] + uleb128_encode(slot.1 as nat) + uleb128_encode(slot.2 as nat)
    } else {
        Seq::empty()
    }
}

/// The entries of the table index.
pub open spec fn spec_index_entries(slots: Seq<TableSlot>) -> Seq<u8>
    decreases slots.len(),
{
    if slots.len() == 0 {
        Seq::empty()
    } else {
        spec_index_entries(slots.drop_last()) + spec_index_entry(slots.last())
    }
}

/// Appends the table index: the number of tables, then each entry.
fn write_table_index(out: &mut Vec<u8>, slots: &Vec<TableSlot>)
    ensures
        final(out)@ == old(out)@ + uleb128_encode(slots@.len()) + spec_index_entries(slots@),
{
    write_uleb128(slots.len() as u64, out);
    let ghost start = out@;
    let mut i: usize = 0;
    while i < slots.len()
        invariant
            i <= slots@.len(),
            out@ == start + spec_index_entries(slots@.subrange(0, i as int)),
        decreases slots@.len() - i,
    {
        let (kind, offset, len) = slots[i];
        let ghost before = out@;
        if len != 0 {
            out.push(kind.byte());
            write_uleb128(offset as u64, out);
            write_uleb128(len as u64, out);
        }
        proof {
            let pre = slots@.subrange(0, i as int);
            let post = slots@.subrange(0, i as int + 1);
            assert(post.drop_last() =~= pre);
            assert(post.last() == slots@[i as int]);
            assert(out@ =~= before + spec_index_entry(slots@[i as int]));
            assert(out@ =~= start + spec_index_entries(post));
        }
        i = i + 1;
    }
    assert(slots@.subrange(0, slots@.len() as int) =~= slots@);
}

/// The bytes of a module: the magic, the version word, the table
/// index, the tables' contents and the index of the module's own
/// handle; or the first error.  Versions outside
/// `VERSION_MIN..=VERSION_MAX` are refused first.
pub open spec fn spec_adamant_serialize(m: AdamantCompiledModule) -> SerResult {
    if m.version < VERSION_MIN || m.version > VERSION_MAX {
        Err(AdamantSerializeError::UnsupportedVersion(m.version))
    } else {
        match spec_tables(m) {
            Err(e) => Err(e),
            Ok((content, slots)) => Ok(spec_magic(m.publishable) + spec_u32_to_le_bytes(spec_encode_version(m.version))
                + uleb128_encode(slots.len()) + spec_index_entries(slots) + content
                + uleb128_encode(m.self_module_handle_idx.0 as nat)),
        }
    }
}

/// Serializes a module, appending its bytes to `out`.  On error
/// `out` is left as it was.
pub fn adamant_serialize(module: &AdamantCompiledModule, out: &mut Vec<u8>) -> (r: Result<(), AdamantSerializeError>)
    ensures
        match spec_adamant_serialize(*module) {
            Ok(b) => r is Ok && final(out)@ == old(out)@ + b,
            Err(e) => r == Err::<(), AdamantSerializeError>(e) && final(out)@ == old(out)@,
        },
{
    if module.version < VERSION_MIN || module.version > VERSION_MAX {
        return Err(AdamantSerializeError::UnsupportedVersion(module.version));
    }
    let mut w = TableWriter { content: Vec::new(), slots: Vec::new() };
    match write_tables(&mut w, module) {
        Err(e) => return Err(e),
        Ok(()) => {},
    }
    if w.content.len() > 0xffff_ffff {
        return Err(AdamantSerializeError::BinaryTooLarge(w.content.len()));
    }
    if module.publishable {
        out.push(0xa1);
        out.push(0x1c);
        out.push(0xeb);
        out.push(0x0b);
    } else {
        out.push(0xde);
        out.push(0xad);
        out.push(0xc0);
        out.push(0xde);
    }
    let ghost a = out@;
    assert(a =~= old(out)@ + spec_magic(module.publishable));
    let mut word = u32_to_le_bytes(encode_version(module.version));
    out.append(&mut word);
    let ghost b = out@;
    write_table_index(out, &w.slots);
    let ghost c = out@;
    append_bytes(out, w.content.as_slice());
    write_uleb128(module.self_module_handle_idx.0 as u64, out);
    proof {
        assert(out@ =~= old(out)@ + (spec_magic(module.publishable) + spec_u32_to_le_bytes(spec_encode_version(module.version))
            + uleb128_encode(w.slots@.len()) + spec_index_entries(w.slots@) + w.content@
            + uleb128_encode(module.self_module_handle_idx.0 as nat)));
    }
    Ok(())
}

} // verus!
