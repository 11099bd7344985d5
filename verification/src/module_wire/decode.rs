//! Deserializing a module.  [`spec_adamant_deserialize`] states the
//! module a byte string decodes to (as its [`ModuleModel`]), or the
//! error refusing it, and [`adamant_deserialize`] produces exactly
//! that.  Decoding is strict: every table must be contiguous,
//! nonempty and of a distinct kind, every byte must be consumed, and
//! function bodies refuse the deprecated global-storage opcodes.

use super::format::{
    decode_flavor, decode_version, is_valid_identifier, spec_decode_flavor, spec_decode_version, spec_magic,
    spec_is_valid_identifier, spec_table_type_of_byte, TableType, ABILITY_SET_ALL,
    ACQUIRES_COUNT_MAX, BYTECODE_INDEX_MAX, CONSTANT_SIZE_MAX, ENUM_FLAG_DECLARED,
    FIELD_COUNT_MAX, FIELD_OFFSET_MAX, FUNCTION_FLAG_ENTRY, FUNCTION_FLAG_NATIVE,
    IDENTIFIER_SIZE_MAX, JUMP_TABLE_FLAG_FULL, JUMP_TABLE_INDEX_MAX, METADATA_KEY_SIZE_MAX,
    METADATA_VALUE_SIZE_MAX, SIGNATURE_SIZE_MAX, SIGNATURE_TOKEN_DEPTH_MAX, STRUCT_FLAG_DECLARED,
    STRUCT_FLAG_NATIVE, SUI_FLAVOR, TABLE_COUNT_MAX, TABLE_INDEX_MAX, TYPE_ADDRESS, TYPE_BOOL,
    TYPE_DATATYPE_INST, TYPE_MUTABLE_REFERENCE, TYPE_PARAMETER_COUNT_MAX,
    TYPE_PARAMETER_INDEX_MAX, TYPE_REFERENCE, TYPE_SIGNER, TYPE_STRUCT, TYPE_TYPE_PARAMETER,
    TYPE_U128, TYPE_U16, TYPE_U256, TYPE_U32, TYPE_U64, TYPE_U8, TYPE_VECTOR, VARIANT_COUNT_MAX,
    VARIANT_TAG_MAX_VALUE, VERSION_5, VERSION_7, VERSION_MAX, VERSION_MIN,
    VISIBILITY_DEPRECATED_SCRIPT, VISIBILITY_FRIEND, VISIBILITY_PRIVATE, VISIBILITY_PUBLIC,
};
use crate::bytecode::{
    BytecodeInstruction, EnumDefinitionIndex, FieldHandleIndex, FunctionHandleIndex,
    JumpTableInner, SignatureIndex, StructDefinitionIndex, VariantJumpTable,
};
use crate::bytecode_wire::{
    deserialize_function_body_from_cursor, spec_decode_function_body_at, DeserializeConfig,
    DeserializeError,
};
use crate::cursor::Cursor;
use crate::module::{
    AbilitySet, AdamantCodeUnit, AdamantCompiledModule, AdamantFunctionDefinition,
    AddressIdentifierIndex, Constant, DatatypeHandle, DatatypeHandleIndex, DatatypeTyParameter,
    EnumDefInstantiation, EnumDefInstantiationIndex, EnumDefinition, FieldDefinition,
    FieldHandle, FieldInstantiation, FunctionHandle, FunctionInstantiation, IdentifierIndex,
    Metadata, ModuleHandle, ModuleHandleIndex, Signature, SignatureToken,
    StructDefInstantiation, StructDefinition, StructFieldInformation, TypeSignature,
    VariantDefinition, VariantHandle, VariantInstantiationHandle, Visibility,
};
use crate::transaction::Address;
use crate::uleb128::uleb128_decode;
use vstd::bytes::*;
use vstd::prelude::*;
use vstd::string::*;
use vstd::utf8::{decode_utf8, encode_utf8_decode_utf8, valid_utf8};

verus! {

/// Errors from [`adamant_deserialize`].
#[derive(Debug, Clone, PartialEq, Eq, Hash)]
pub enum AdamantDeserializeError {
    /// The bytes ended inside a value.
    UnexpectedEof,
    /// The first four bytes are neither magic.
    BadMagic([u8; 4]),
    /// The version is outside `VERSION_MIN..=VERSION_MAX`.
    UnsupportedVersion(u32),
    /// The flavor byte of the version word is not the expected one.
    UnknownFlavor(u8),
    /// A table-index entry names no table kind.
    UnknownTableKind(u8),
    /// Two tables of one kind.
    DuplicateTable(TableType),
    /// The tables are not laid out one after the other from the
    /// start of the contents.
    BadTableLayout {
        /// What is wrong.
        reason: &'static str,
    },
    /// A ULEB128 sequence overflows `u64` or is not canonical.
    MalformedUleb128,
    /// A value exceeds the bound of its field.
    OutOfRange {
        /// Which field.
        kind: &'static str,
        /// The offending value.
        value: u64,
        /// The inclusive bound.
        max: u64,
    },
    /// A type nests deeper than the format allows.
    SignatureTooDeep,
    /// A table the version lacks.
    VersionFeatureMismatch {
        /// The feature.
        feature: &'static str,
        /// The module's version.
        version: u32,
    },
    /// Bytes remain after the module.
    TrailingBytes,
    /// A function body failed to decode.
    Bytecode(DeserializeError),
    /// An identifier-pool entry is not a valid identifier.
    InvalidIdentifier,
    /// A function definition's flags byte has an unknown bit.
    UnknownFunctionFlag(u8),
    /// A type tag names no type.
    UnknownSerializedType(u8),
    /// A struct definition's flag byte is unknown.
    UnknownStructFlag(u8),
    /// An enum definition's flag byte is unknown.
    UnknownEnumFlag(u8),
    /// A jump table's flag byte is unknown.
    UnknownJumpTableFlag(u8),
    /// A visibility byte is unknown.
    UnknownVisibility(u8),
    /// An ability set has unknown bits.
    InvalidAbilitySet(u8),
}

impl From<DeserializeError> for AdamantDeserializeError {
    fn from(e: DeserializeError) -> (r: Self) {
        AdamantDeserializeError::Bytecode(e)
    }
}

impl vstd::std_specs::convert::FromSpecImpl<DeserializeError> for AdamantDeserializeError {
    open spec fn obeys_from_spec() -> bool {
        true
    }

    open spec fn from_spec(e: DeserializeError) -> Self {
        AdamantDeserializeError::Bytecode(e)
    }
}

/// Field name of a module handle index.
pub const KIND_MODULE_HANDLE_INDEX: &'static str = "ModuleHandleIndex";
/// Field name of a datatype handle index.
pub const KIND_DATATYPE_HANDLE_INDEX: &'static str = "DatatypeHandleIndex";
/// Field name of a function handle index.
pub const KIND_FUNCTION_HANDLE_INDEX: &'static str = "FunctionHandleIndex";
/// Field name of an identifier index.
pub const KIND_IDENTIFIER_INDEX: &'static str = "IdentifierIndex";
/// Field name of an address index.
pub const KIND_ADDRESS_INDEX: &'static str = "AddressIdentifierIndex";
/// Field name of a signature index.
pub const KIND_SIGNATURE_INDEX: &'static str = "SignatureIndex";
/// Field name of a struct definition index.
pub const KIND_STRUCT_DEF_INDEX: &'static str = "StructDefinitionIndex";
/// Field name of an enum definition index.
pub const KIND_ENUM_DEF_INDEX: &'static str = "EnumDefinitionIndex";
/// Field name of an enum instantiation index.
pub const KIND_ENUM_DEF_INST_INDEX: &'static str = "EnumDefInstantiationIndex";
/// Field name of a field handle index.
pub const KIND_FIELD_HANDLE_INDEX: &'static str = "FieldHandleIndex";
/// Field name of a field offset.
pub const KIND_FIELD_OFFSET: &'static str = "field offset";
/// Field name of a variant tag.
pub const KIND_VARIANT_TAG: &'static str = "variant tag";
/// Field name of a type-parameter index.
pub const KIND_TYPE_PARAMETER_INDEX: &'static str = "type parameter index";
/// Field name of a type-parameter count.
pub const KIND_TYPE_PARAMETER_COUNT: &'static str = "type parameter count";
/// Field name of a phantom flag.
pub const KIND_PHANTOM_FLAG: &'static str = "phantom flag";
/// Field name of an identifier's length.
pub const KIND_IDENTIFIER_SIZE: &'static str = "identifier size";
/// Field name of a constant's length.
pub const KIND_CONSTANT_SIZE: &'static str = "constant data size";
/// Field name of a metadata key's length.
pub const KIND_METADATA_KEY_SIZE: &'static str = "metadata key size";
/// Field name of a metadata value's length.
pub const KIND_METADATA_VALUE_SIZE: &'static str = "metadata value size";
/// Field name of a signature's length.
pub const KIND_SIGNATURE_LENGTH: &'static str = "signature length";
/// Field name of an instantiation's arity.
pub const KIND_INSTANTIATION_ARITY: &'static str = "instantiation arity";
/// Field name of a field count.
pub const KIND_FIELD_COUNT: &'static str = "field count";
/// Field name of a variant count.
pub const KIND_VARIANT_COUNT: &'static str = "variant count";
/// Field name of an acquires list's length.
pub const KIND_ACQUIRES_COUNT: &'static str = "acquires list length";
/// Field name of a code unit's jump-table count.
pub const KIND_JUMP_TABLE_COUNT: &'static str = "jump table count";
/// Field name of a jump table's branch count.
pub const KIND_BRANCH_COUNT: &'static str = "jump table branch count";
/// Field name of a bytecode offset.
pub const KIND_BYTECODE_OFFSET: &'static str = "bytecode offset";
/// Field name of a table offset.
pub const KIND_TABLE_OFFSET: &'static str = "table offset";
/// Field name of a table size.
pub const KIND_TABLE_SIZE: &'static str = "table size";
/// Feature name of the metadata table.
pub const FEATURE_METADATA: &'static str = "metadata";
/// Feature name of the enum tables.
pub const FEATURE_ENUM_TABLES: &'static str = "enum tables";
/// Layout fault: a version word without its flavor byte.
pub const LAYOUT_MISSING_FLAVOR: &'static str = "v≥7 requires flavor byte";
/// Layout fault: a table does not start where the previous ended.
pub const LAYOUT_NON_CONTIGUOUS: &'static str = "non-contiguous table offsets";
/// Layout fault: an empty table.
pub const LAYOUT_ZERO_LENGTH: &'static str = "zero-length table";
/// Layout fault: the tables' total size overflows `u32`.
pub const LAYOUT_OVERFLOW: &'static str = "table content size overflows u32";
/// Layout fault: a table extends past the end of the bytes.
pub const LAYOUT_PAST_END: &'static str = "table content extends past binary";

/// A decoded value and the position after it, or the error.
pub type DeResult<T> = Result<(T, int), AdamantDeserializeError>;

// ---------- Primitive reads ----------

/// Reading one byte at `p`.
pub open spec fn de_u8(s: Seq<u8>, p: int) -> DeResult<u8> {
    if 0 <= p < s.len() {
        Ok((s[p], p + 1))
    } else {
        Err(AdamantDeserializeError::UnexpectedEof)
    }
}

/// Reading a ULEB128 value at `p`: a failure at the end of the bytes
/// is an early end, before it a malformed sequence.
pub open spec fn de_uleb(s: Seq<u8>, p: int) -> DeResult<nat> {
    match uleb128_decode(s, p) {
        Ok((v, q)) => Ok((v, q)),
        Err(f) => if f >= s.len() {
            Err(AdamantDeserializeError::UnexpectedEof)
        } else {
            Err(AdamantDeserializeError::MalformedUleb128)
        },
    }
}

/// Reading a ULEB128 value bounded by `max`.
pub open spec fn de_bounded(s: Seq<u8>, p: int, max: u64, kind: &'static str) -> DeResult<nat> {
    match de_uleb(s, p) {
        Err(e) => Err(e),
        Ok((v, q)) => if v > max {
            Err(AdamantDeserializeError::OutOfRange { kind, value: v as u64, max })
        } else {
            Ok((v, q))
        },
    }
}

/// Reading a table index (bounded by `TABLE_INDEX_MAX`).
pub open spec fn de_index(s: Seq<u8>, p: int, kind: &'static str) -> DeResult<u16> {
    match de_bounded(s, p, TABLE_INDEX_MAX, kind) {
        Err(e) => Err(e),
        Ok((v, q)) => Ok((v as u16, q)),
    }
}

/// Reading `n` raw bytes at `p`.
pub open spec fn de_fixed(s: Seq<u8>, p: int, n: nat) -> DeResult<Seq<u8>> {
    if p + n > s.len() {
        Err(AdamantDeserializeError::UnexpectedEof)
    } else {
        Ok((s.subrange(p, p + n), p + n))
    }
}

/// Reading a length-prefixed byte string, the length bounded by
/// `max`.
pub open spec fn de_blob(s: Seq<u8>, p: int, max: u64, kind: &'static str) -> DeResult<Seq<u8>> {
    match de_bounded(s, p, max, kind) {
        Err(e) => Err(e),
        Ok((n, q)) => de_fixed(s, q, n),
    }
}

/// Reads one byte.
fn read_u8(cursor: &mut Cursor) -> (r: Result<u8, AdamantDeserializeError>)
    ensures
        final(cursor).data() == old(cursor).data(),
        match de_u8(old(cursor).data(), old(cursor).pos() as int) {
            Ok((v, q)) => r == Ok::<u8, AdamantDeserializeError>(v) && final(cursor).pos() == q,
            Err(e) => r == Err::<u8, AdamantDeserializeError>(e),
        },
{
    match cursor.read_u8() {
        Some(b) => Ok(b),
        None => Err(AdamantDeserializeError::UnexpectedEof),
    }
}

/// Reads a ULEB128 value.
fn read_uleb(cursor: &mut Cursor) -> (r: Result<u64, AdamantDeserializeError>)
    ensures
        final(cursor).data() == old(cursor).data(),
        match de_uleb(old(cursor).data(), old(cursor).pos() as int) {
            Ok((v, q)) => r == Ok::<u64, AdamantDeserializeError>(v as u64) && final(cursor).pos() == q,
            Err(e) => r == Err::<u64, AdamantDeserializeError>(e),
        },
{
    match cursor.read_uleb128() {
        Ok(v) => Ok(v),
        Err(()) => {
            if cursor.position() >= cursor.get_ref().len() as u64 {
                Err(AdamantDeserializeError::UnexpectedEof)
            } else {
                Err(AdamantDeserializeError::MalformedUleb128)
            }
        },
    }
}

/// Reads a ULEB128 value bounded by `max`.
fn read_bounded(cursor: &mut Cursor, max: u64, kind: &'static str) -> (r: Result<u64, AdamantDeserializeError>)
    ensures
        final(cursor).data() == old(cursor).data(),
        match de_bounded(old(cursor).data(), old(cursor).pos() as int, max, kind) {
            Ok((v, q)) => r == Ok::<u64, AdamantDeserializeError>(v as u64) && final(cursor).pos() == q,
            Err(e) => r == Err::<u64, AdamantDeserializeError>(e),
        },
{
    proof {
        crate::uleb128::lemma_uleb128_decode_bound(cursor.data(), cursor.pos() as int);
    }
    let v = match read_uleb(cursor) {
        Ok(v) => v,
        Err(e) => return Err(e),
    };
    if v > max {
        return Err(AdamantDeserializeError::OutOfRange { kind, value: v, max });
    }
    Ok(v)
}

/// Reads a table index.
fn read_index(cursor: &mut Cursor, kind: &'static str) -> (r: Result<u16, AdamantDeserializeError>)
    ensures
        final(cursor).data() == old(cursor).data(),
        match de_index(old(cursor).data(), old(cursor).pos() as int, kind) {
            Ok((v, q)) => r == Ok::<u16, AdamantDeserializeError>(v) && final(cursor).pos() == q,
            Err(e) => r == Err::<u16, AdamantDeserializeError>(e),
        },
{
    match read_bounded(cursor, TABLE_INDEX_MAX, kind) {
        Ok(v) => Ok(v as u16),
        Err(e) => Err(e),
    }
}

/// A copy of a byte slice.
fn bytes_to_vec(b: &[u8]) -> (r: Vec<u8>)
    ensures
        r@ == b@,
{
    let mut out: Vec<u8> = Vec::new();
    let mut i: usize = 0;
    while i < b.len()
        invariant
            i <= b@.len(),
            out@ == b@.subrange(0, i as int),
        decreases b@.len() - i,
    {
        out.push(b[i]);
        assert(b@.subrange(0, i as int + 1) =~= b@.subrange(0, i as int).push(b@[i as int]));
        i = i + 1;
    }
    assert(b@.subrange(0, b@.len() as int) =~= b@);
    out
}

/// Reads `n` raw bytes.
fn read_fixed(cursor: &mut Cursor, n: usize) -> (r: Result<Vec<u8>, AdamantDeserializeError>)
    ensures
        final(cursor).data() == old(cursor).data(),
        match de_fixed(old(cursor).data(), old(cursor).pos() as int, n as nat) {
            Ok((v, q)) => r matches Ok(b) && b@ == v && final(cursor).pos() == q,
            Err(e) => r == Err::<Vec<u8>, AdamantDeserializeError>(e),
        },
{
    match cursor.take(n) {
        Some(b) => Ok(bytes_to_vec(b)),
        None => Err(AdamantDeserializeError::UnexpectedEof),
    }
}

/// Reads a length-prefixed byte string.
fn read_blob(cursor: &mut Cursor, max: u64, kind: &'static str) -> (r: Result<Vec<u8>, AdamantDeserializeError>)
    requires
        max <= 0xffff,
    ensures
        final(cursor).data() == old(cursor).data(),
        match de_blob(old(cursor).data(), old(cursor).pos() as int, max, kind) {
            Ok((v, q)) => r matches Ok(b) && b@ == v && final(cursor).pos() == q,
            Err(e) => r == Err::<Vec<u8>, AdamantDeserializeError>(e),
        },
{
    let n = match read_bounded(cursor, max, kind) {
        Ok(n) => n,
        Err(e) => return Err(e),
    };
    read_fixed(cursor, n as usize)
}


// ---------- Values read on their own ----------

/// A value that is read from a module's bytes on its own.
pub trait WireDecode: Sized {
    /// What a decoded value holds, as plain data.
    type Model;

    /// The value's model.
    spec fn model(&self) -> Self::Model;

    /// Reading a value at `p`: its model and the position after it,
    /// or the error.
    spec fn spec_read(s: Seq<u8>, p: int) -> DeResult<Self::Model>;

    /// Reads a value.
    fn read(cursor: &mut Cursor) -> (r: Result<Self, AdamantDeserializeError>)
        ensures
            final(cursor).data() == old(cursor).data(),
            match Self::spec_read(old(cursor).data(), old(cursor).pos() as int) {
                Ok((v, q)) => r matches Ok(x) && x.model() == v && final(cursor).pos() == q,
                Err(e) => r == Err::<Self, AdamantDeserializeError>(e),
            },
    ;
}

/// The models of a sequence of values.
pub open spec fn models<T: WireDecode>(s: Seq<T>) -> Seq<T::Model> {
    s.map_values(|x: T| x.model())
}

/// Reading `n` values one after the other from `p`.
pub open spec fn de_items<T: WireDecode>(s: Seq<u8>, p: int, n: nat) -> DeResult<Seq<T::Model>>
    decreases n,
{
    if n == 0 {
        Ok((Seq::empty(), p))
    } else {
        match de_items::<T>(s, p, (n - 1) as nat) {
            Err(e) => Err(e),
            Ok((vs, q)) => match T::spec_read(s, q) {
                Err(e) => Err(e),
                Ok((v, r)) => Ok((vs.push(v), r)),
            },
        }
    }
}

/// Reading a count bounded by `max`, then that many values.
pub open spec fn de_counted<T: WireDecode>(s: Seq<u8>, p: int, max: u64, kind: &'static str) -> DeResult<Seq<T::Model>> {
    match de_bounded(s, p, max, kind) {
        Err(e) => Err(e),
        Ok((n, q)) => de_items::<T>(s, q, n),
    }
}

/// Once reading fails at some count, it fails the same way at every
/// larger count.
proof fn lemma_de_items_error<T: WireDecode>(s: Seq<u8>, p: int, n: nat, m: nat)
    requires
        n <= m,
        de_items::<T>(s, p, n) is Err,
    ensures
        de_items::<T>(s, p, m) == de_items::<T>(s, p, n),
    decreases m - n,
{
    if n < m {
        lemma_de_items_error::<T>(s, p, n, (m - 1) as nat);
    }
}

/// Reads `n` values.
fn read_items<T: WireDecode>(cursor: &mut Cursor, n: u64) -> (r: Result<Vec<T>, AdamantDeserializeError>)
    ensures
        final(cursor).data() == old(cursor).data(),
        match de_items::<T>(old(cursor).data(), old(cursor).pos() as int, n as nat) {
            Ok((vs, q)) => r matches Ok(v) && models(v@) == vs && final(cursor).pos() == q,
            Err(e) => r == Err::<Vec<T>, AdamantDeserializeError>(e),
        },
{
    let ghost s = cursor.data();
    let ghost p = cursor.pos() as int;
    let mut out: Vec<T> = Vec::new();
    let mut i: u64 = 0;
    assert(models(out@) =~= Seq::<T::Model>::empty());
    while i < n
        invariant
            i <= n,
            cursor.data() == s,
            s == old(cursor).data(),
            p == old(cursor).pos(),
            de_items::<T>(s, p, i as nat) == Ok::<(Seq<T::Model>, int), AdamantDeserializeError>((models(out@), cursor.pos() as int)),
        decreases n - i,
    {
        match T::read(cursor) {
            Ok(x) => {
                let ghost before = out@;
                out.push(x);
                assert(models(out@) =~= models(before).push(x.model()));
            },
            Err(e) => {
                proof {
                    lemma_de_items_error::<T>(s, p, (i + 1) as nat, n as nat);
                }
                return Err(e);
            },
        }
        i = i + 1;
    }
    Ok(out)
}

/// Reads a count bounded by `max`, then that many values.
fn read_counted<T: WireDecode>(cursor: &mut Cursor, max: u64, kind: &'static str) -> (r: Result<Vec<T>, AdamantDeserializeError>)
    ensures
        final(cursor).data() == old(cursor).data(),
        match de_counted::<T>(old(cursor).data(), old(cursor).pos() as int, max, kind) {
            Ok((vs, q)) => r matches Ok(v) && models(v@) == vs && final(cursor).pos() == q,
            Err(e) => r == Err::<Vec<T>, AdamantDeserializeError>(e),
        },
{
    let n = match read_bounded(cursor, max, kind) {
        Ok(n) => n,
        Err(e) => return Err(e),
    };
    read_items::<T>(cursor, n)
}

/// Reading values one after the other from `p` to the end of the
/// bytes.
pub open spec fn de_until<T: WireDecode>(s: Seq<u8>, p: int) -> DeResult<Seq<T::Model>>
    decreases s.len() - p,
{
    if p >= s.len() {
        Ok((Seq::empty(), p))
    } else {
        match T::spec_read(s, p) {
            Err(e) => Err(e),
            Ok((v, q)) => if q <= p || q > s.len() {
                // A read always consumes bytes within the slice.
                Err(AdamantDeserializeError::UnexpectedEof)
            } else {
                match de_until::<T>(s, q) {
                    Err(e) => Err(e),
                    Ok((vs, r)) => Ok((seq![v] + vs, r)),
                }
            },
        }
    }
}

/// Values read so far in front of what reading the rest gives.
pub open spec fn prepend<M>(pre: Seq<M>, rest: DeResult<Seq<M>>) -> DeResult<Seq<M>> {
    match rest {
        Err(e) => Err(e),
        Ok((vs, r)) => Ok((pre + vs, r)),
    }
}

/// The values read from `p` before reading stops: all of them when
/// reading reaches the end, those before the failing one otherwise.
pub open spec fn de_until_read<T: WireDecode>(s: Seq<u8>, p: int) -> Seq<T::Model>
    decreases s.len() - p,
{
    if p >= s.len() {
        Seq::empty()
    } else {
        match T::spec_read(s, p) {
            Err(e) => Seq::empty(),
            Ok((v, q)) => if q <= p || q > s.len() {
                Seq::empty()
            } else {
                seq![v] + de_until_read::<T>(s, q)
            },
        }
    }
}

/// Reads values to the end of the bytes, pushing each onto `out`.
/// On an error `out` keeps the values read before the failing one.
fn read_until<T: WireDecode>(cursor: &mut Cursor, out: &mut Vec<T>) -> (r: Result<(), AdamantDeserializeError>)
    ensures
        final(cursor).data() == old(cursor).data(),
        match de_until::<T>(old(cursor).data(), old(cursor).pos() as int) {
            Ok((vs, q)) => r is Ok && models(final(out)@) == models(old(out)@) + vs && final(cursor).pos() == q
                && (old(cursor).pos() <= old(cursor).data().len() ==> q == old(cursor).data().len()),
            Err(e) => r == Err::<(), AdamantDeserializeError>(e) && models(final(out)@) == models(old(out)@)
                + de_until_read::<T>(old(cursor).data(), old(cursor).pos() as int),
        },
{
    let ghost s = cursor.data();
    let ghost p = cursor.pos() as int;
    let ghost base = models(out@);
    let ghost mut pre: Seq<T::Model> = Seq::empty();
    let len = cursor.get_ref().len() as u64;
    proof {
        assert(base + pre =~= base);
        let rest = de_until::<T>(s, p);
        assert(prepend(Seq::<T::Model>::empty(), rest) =~~= rest) by {
            match rest {
                Ok((vs, r)) => {
                    assert(Seq::<T::Model>::empty() + vs =~= vs);
                },
                Err(e) => {},
            }
        }
        assert(Seq::<T::Model>::empty() + de_until_read::<T>(s, p) =~= de_until_read::<T>(s, p));
    }
    if cursor.position() > len {
        return Ok(());
    }
    while !cursor.at_end()
        invariant
            cursor.data() == s,
            s == old(cursor).data(),
            p == old(cursor).pos(),
            p <= s.len(),
            len == s.len(),
            cursor.pos() <= s.len(),
            base == models(old(out)@),
            models(out@) == base + pre,
            de_until::<T>(s, p) == prepend(pre, de_until::<T>(s, cursor.pos() as int)),
            de_until_read::<T>(s, p) == pre + de_until_read::<T>(s, cursor.pos() as int),
        decreases s.len() - cursor.pos(),
    {
        let before = cursor.position();
        let x = match T::read(cursor) {
            Ok(x) => x,
            Err(e) => {
                proof {
                    assert(pre + Seq::<T::Model>::empty() =~= pre);
                }
                return Err(e);
            },
        };
        let after = cursor.position();
        if after <= before || after > len {
            proof {
                assert(pre + Seq::<T::Model>::empty() =~= pre);
            }
            return Err(AdamantDeserializeError::UnexpectedEof);
        }
        let ghost old_out = out@;
        out.push(x);
        proof {
            assert(models(out@) =~= models(old_out).push(x.model()));
            let rest = de_until::<T>(s, after as int);
            match rest {
                Ok((vs, r)) => {
                    assert(pre + (seq![x.model()] + vs) =~= pre.push(x.model()) + vs);
                },
                Err(e) => {},
            }
            assert(pre + (seq![x.model()] + de_until_read::<T>(s, after as int)) =~= pre.push(x.model()) + de_until_read::<T>(s, after as int));
            assert(base + pre.push(x.model()) =~= (base + pre).push(x.model()));
            pre = pre.push(x.model());
        }
    }
    proof {
        assert(pre + Seq::<T::Model>::empty() =~= pre);
    }
    Ok(())
}

// ---------- Plain entries ----------

impl WireDecode for ModuleHandle {
    type Model = ModuleHandle;

    open spec fn model(&self) -> ModuleHandle {
        *self
    }

    open spec fn spec_read(s: Seq<u8>, p: int) -> DeResult<ModuleHandle> {
        match de_index(s, p, KIND_ADDRESS_INDEX) {
            Err(e) => Err(e),
            Ok((a, q)) => match de_index(s, q, KIND_IDENTIFIER_INDEX) {
                Err(e) => Err(e),
                Ok((n, r)) => Ok((ModuleHandle { address: AddressIdentifierIndex(a), name: IdentifierIndex(n) }, r)),
            },
        }
    }

    fn read(cursor: &mut Cursor) -> (r: Result<ModuleHandle, AdamantDeserializeError>) {
        let a = match read_index(cursor, KIND_ADDRESS_INDEX) {
            Ok(v) => v,
            Err(e) => return Err(e),
        };
        let n = match read_index(cursor, KIND_IDENTIFIER_INDEX) {
            Ok(v) => v,
            Err(e) => return Err(e),
        };
        Ok(ModuleHandle { address: AddressIdentifierIndex(a), name: IdentifierIndex(n) })
    }
}

/// Reading an ability set: a ULEB128 value with no bits beyond the
/// four abilities.
pub open spec fn de_ability_set(s: Seq<u8>, p: int) -> DeResult<AbilitySet> {
    match de_uleb(s, p) {
        Err(e) => Err(e),
        Ok((v, q)) => if v > ABILITY_SET_ALL {
            Err(AdamantDeserializeError::InvalidAbilitySet(v as u8))
        } else {
            Ok((AbilitySet(v as u8), q))
        },
    }
}

impl WireDecode for AbilitySet {
    type Model = AbilitySet;

    open spec fn model(&self) -> AbilitySet {
        *self
    }

    open spec fn spec_read(s: Seq<u8>, p: int) -> DeResult<AbilitySet> {
        de_ability_set(s, p)
    }

    fn read(cursor: &mut Cursor) -> (r: Result<AbilitySet, AdamantDeserializeError>) {
        proof {
            crate::uleb128::lemma_uleb128_decode_bound(cursor.data(), cursor.pos() as int);
        }
        let v = match read_uleb(cursor) {
            Ok(v) => v,
            Err(e) => return Err(e),
        };
        if v > ABILITY_SET_ALL as u64 {
            return Err(AdamantDeserializeError::InvalidAbilitySet(v as u8));
        }
        Ok(AbilitySet(v as u8))
    }
}

impl WireDecode for DatatypeTyParameter {
    type Model = DatatypeTyParameter;

    open spec fn model(&self) -> DatatypeTyParameter {
        *self
    }

    open spec fn spec_read(s: Seq<u8>, p: int) -> DeResult<DatatypeTyParameter> {
        match de_ability_set(s, p) {
            Err(e) => Err(e),
            Ok((c, q)) => match de_bounded(s, q, 1, KIND_PHANTOM_FLAG) {
                Err(e) => Err(e),
                Ok((f, r)) => Ok((DatatypeTyParameter { constraints: c, is_phantom: f == 1 }, r)),
            },
        }
    }

    fn read(cursor: &mut Cursor) -> (r: Result<DatatypeTyParameter, AdamantDeserializeError>) {
        let c = match AbilitySet::read(cursor) {
            Ok(v) => v,
            Err(e) => return Err(e),
        };
        let f = match read_bounded(cursor, 1, KIND_PHANTOM_FLAG) {
            Ok(v) => v,
            Err(e) => return Err(e),
        };
        Ok(DatatypeTyParameter { constraints: c, is_phantom: f == 1 })
    }
}

impl WireDecode for FunctionInstantiation {
    type Model = FunctionInstantiation;

    open spec fn model(&self) -> FunctionInstantiation {
        *self
    }

    open spec fn spec_read(s: Seq<u8>, p: int) -> DeResult<FunctionInstantiation> {
        match de_index(s, p, KIND_FUNCTION_HANDLE_INDEX) {
            Err(e) => Err(e),
            Ok((h, q)) => match de_index(s, q, KIND_SIGNATURE_INDEX) {
                Err(e) => Err(e),
                Ok((t, r)) => Ok((FunctionInstantiation { handle: FunctionHandleIndex(h), type_parameters: SignatureIndex(t) }, r)),
            },
        }
    }

    fn read(cursor: &mut Cursor) -> (r: Result<FunctionInstantiation, AdamantDeserializeError>) {
        let h = match read_index(cursor, KIND_FUNCTION_HANDLE_INDEX) {
            Ok(v) => v,
            Err(e) => return Err(e),
        };
        let t = match read_index(cursor, KIND_SIGNATURE_INDEX) {
            Ok(v) => v,
            Err(e) => return Err(e),
        };
        Ok(FunctionInstantiation { handle: FunctionHandleIndex(h), type_parameters: SignatureIndex(t) })
    }
}

impl WireDecode for StructDefInstantiation {
    type Model = StructDefInstantiation;

    open spec fn model(&self) -> StructDefInstantiation {
        *self
    }

    open spec fn spec_read(s: Seq<u8>, p: int) -> DeResult<StructDefInstantiation> {
        match de_index(s, p, KIND_STRUCT_DEF_INDEX) {
            Err(e) => Err(e),
            Ok((d, q)) => match de_index(s, q, KIND_SIGNATURE_INDEX) {
                Err(e) => Err(e),
                Ok((t, r)) => Ok((StructDefInstantiation { def: StructDefinitionIndex(d), type_parameters: SignatureIndex(t) }, r)),
            },
        }
    }

    fn read(cursor: &mut Cursor) -> (r: Result<StructDefInstantiation, AdamantDeserializeError>) {
        let d = match read_index(cursor, KIND_STRUCT_DEF_INDEX) {
            Ok(v) => v,
            Err(e) => return Err(e),
        };
        let t = match read_index(cursor, KIND_SIGNATURE_INDEX) {
            Ok(v) => v,
            Err(e) => return Err(e),
        };
        Ok(StructDefInstantiation { def: StructDefinitionIndex(d), type_parameters: SignatureIndex(t) })
    }
}

impl WireDecode for EnumDefInstantiation {
    type Model = EnumDefInstantiation;

    open spec fn model(&self) -> EnumDefInstantiation {
        *self
    }

    open spec fn spec_read(s: Seq<u8>, p: int) -> DeResult<EnumDefInstantiation> {
        match de_index(s, p, KIND_ENUM_DEF_INDEX) {
            Err(e) => Err(e),
            Ok((d, q)) => match de_index(s, q, KIND_SIGNATURE_INDEX) {
                Err(e) => Err(e),
                Ok((t, r)) => Ok((EnumDefInstantiation { def: EnumDefinitionIndex(d), type_parameters: SignatureIndex(t) }, r)),
            },
        }
    }

    fn read(cursor: &mut Cursor) -> (r: Result<EnumDefInstantiation, AdamantDeserializeError>) {
        let d = match read_index(cursor, KIND_ENUM_DEF_INDEX) {
            Ok(v) => v,
            Err(e) => return Err(e),
        };
        let t = match read_index(cursor, KIND_SIGNATURE_INDEX) {
            Ok(v) => v,
            Err(e) => return Err(e),
        };
        Ok(EnumDefInstantiation { def: EnumDefinitionIndex(d), type_parameters: SignatureIndex(t) })
    }
}

impl WireDecode for FieldHandle {
    type Model = FieldHandle;

    open spec fn model(&self) -> FieldHandle {
        *self
    }

    open spec fn spec_read(s: Seq<u8>, p: int) -> DeResult<FieldHandle> {
        match de_index(s, p, KIND_STRUCT_DEF_INDEX) {
            Err(e) => Err(e),
            Ok((o, q)) => match de_bounded(s, q, FIELD_OFFSET_MAX, KIND_FIELD_OFFSET) {
                Err(e) => Err(e),
                Ok((f, r)) => Ok((FieldHandle { owner: StructDefinitionIndex(o), field: f as u16 }, r)),
            },
        }
    }

    fn read(cursor: &mut Cursor) -> (r: Result<FieldHandle, AdamantDeserializeError>) {
        let o = match read_index(cursor, KIND_STRUCT_DEF_INDEX) {
            Ok(v) => v,
            Err(e) => return Err(e),
        };
        let f = match read_bounded(cursor, FIELD_OFFSET_MAX, KIND_FIELD_OFFSET) {
            Ok(v) => v,
            Err(e) => return Err(e),
        };
        Ok(FieldHandle { owner: StructDefinitionIndex(o), field: f as u16 })
    }
}

impl WireDecode for FieldInstantiation {
    type Model = FieldInstantiation;

    open spec fn model(&self) -> FieldInstantiation {
        *self
    }

    open spec fn spec_read(s: Seq<u8>, p: int) -> DeResult<FieldInstantiation> {
        match de_index(s, p, KIND_FIELD_HANDLE_INDEX) {
            Err(e) => Err(e),
            Ok((h, q)) => match de_index(s, q, KIND_SIGNATURE_INDEX) {
                Err(e) => Err(e),
                Ok((t, r)) => Ok((FieldInstantiation { handle: FieldHandleIndex(h), type_parameters: SignatureIndex(t) }, r)),
            },
        }
    }

    fn read(cursor: &mut Cursor) -> (r: Result<FieldInstantiation, AdamantDeserializeError>) {
        let h = match read_index(cursor, KIND_FIELD_HANDLE_INDEX) {
            Ok(v) => v,
            Err(e) => return Err(e),
        };
        let t = match read_index(cursor, KIND_SIGNATURE_INDEX) {
            Ok(v) => v,
            Err(e) => return Err(e),
        };
        Ok(FieldInstantiation { handle: FieldHandleIndex(h), type_parameters: SignatureIndex(t) })
    }
}

impl WireDecode for VariantHandle {
    type Model = VariantHandle;

    open spec fn model(&self) -> VariantHandle {
        *self
    }

    open spec fn spec_read(s: Seq<u8>, p: int) -> DeResult<VariantHandle> {
        match de_index(s, p, KIND_ENUM_DEF_INDEX) {
            Err(e) => Err(e),
            Ok((d, q)) => match de_bounded(s, q, VARIANT_TAG_MAX_VALUE, KIND_VARIANT_TAG) {
                Err(e) => Err(e),
                Ok((t, r)) => Ok((VariantHandle { enum_def: EnumDefinitionIndex(d), variant: t as u16 }, r)),
            },
        }
    }

    fn read(cursor: &mut Cursor) -> (r: Result<VariantHandle, AdamantDeserializeError>) {
        let d = match read_index(cursor, KIND_ENUM_DEF_INDEX) {
            Ok(v) => v,
            Err(e) => return Err(e),
        };
        let t = match read_bounded(cursor, VARIANT_TAG_MAX_VALUE, KIND_VARIANT_TAG) {
            Ok(v) => v,
            Err(e) => return Err(e),
        };
        Ok(VariantHandle { enum_def: EnumDefinitionIndex(d), variant: t as u16 })
    }
}

impl WireDecode for VariantInstantiationHandle {
    type Model = VariantInstantiationHandle;

    open spec fn model(&self) -> VariantInstantiationHandle {
        *self
    }

    open spec fn spec_read(s: Seq<u8>, p: int) -> DeResult<VariantInstantiationHandle> {
        match de_index(s, p, KIND_ENUM_DEF_INST_INDEX) {
            Err(e) => Err(e),
            Ok((d, q)) => match de_bounded(s, q, VARIANT_TAG_MAX_VALUE, KIND_VARIANT_TAG) {
                Err(e) => Err(e),
                Ok((t, r)) => Ok((VariantInstantiationHandle { enum_def: EnumDefInstantiationIndex(d), variant: t as u16 }, r)),
            },
        }
    }

    fn read(cursor: &mut Cursor) -> (r: Result<VariantInstantiationHandle, AdamantDeserializeError>) {
        let d = match read_index(cursor, KIND_ENUM_DEF_INST_INDEX) {
            Ok(v) => v,
            Err(e) => return Err(e),
        };
        let t = match read_bounded(cursor, VARIANT_TAG_MAX_VALUE, KIND_VARIANT_TAG) {
            Ok(v) => v,
            Err(e) => return Err(e),
        };
        Ok(VariantInstantiationHandle { enum_def: EnumDefInstantiationIndex(d), variant: t as u16 })
    }
}

impl WireDecode for StructDefinitionIndex {
    type Model = StructDefinitionIndex;

    open spec fn model(&self) -> StructDefinitionIndex {
        *self
    }

    open spec fn spec_read(s: Seq<u8>, p: int) -> DeResult<StructDefinitionIndex> {
        match de_index(s, p, KIND_STRUCT_DEF_INDEX) {
            Err(e) => Err(e),
            Ok((d, q)) => Ok((StructDefinitionIndex(d), q)),
        }
    }

    fn read(cursor: &mut Cursor) -> (r: Result<StructDefinitionIndex, AdamantDeserializeError>) {
        match read_index(cursor, KIND_STRUCT_DEF_INDEX) {
            Ok(v) => Ok(StructDefinitionIndex(v)),
            Err(e) => Err(e),
        }
    }
}

impl WireDecode for u16 {
    type Model = u16;

    open spec fn model(&self) -> u16 {
        *self
    }

    open spec fn spec_read(s: Seq<u8>, p: int) -> DeResult<u16> {
        match de_bounded(s, p, BYTECODE_INDEX_MAX, KIND_BYTECODE_OFFSET) {
            Err(e) => Err(e),
            Ok((v, q)) => Ok((v as u16, q)),
        }
    }

    fn read(cursor: &mut Cursor) -> (r: Result<u16, AdamantDeserializeError>) {
        match read_bounded(cursor, BYTECODE_INDEX_MAX, KIND_BYTECODE_OFFSET) {
            Ok(v) => Ok(v as u16),
            Err(e) => Err(e),
        }
    }
}

impl WireDecode for Address {
    type Model = Seq<u8>;

    open spec fn model(&self) -> Seq<u8> {
        self.0@
    }

    open spec fn spec_read(s: Seq<u8>, p: int) -> DeResult<Seq<u8>> {
        de_fixed(s, p, 32)
    }

    fn read(cursor: &mut Cursor) -> (r: Result<Address, AdamantDeserializeError>) {
        let b = match cursor.take(32) {
            Some(b) => b,
            None => return Err(AdamantDeserializeError::UnexpectedEof),
        };
        let mut a = [0u8; 32];
        let mut i: usize = 0;
        while i < 32
            invariant
                i <= 32,
                b@.len() == 32,
                forall|k: int| 0 <= k < i ==> a@[k] == b@[k],
            decreases 32 - i,
        {
            a[i] = b[i];
            i = i + 1;
        }
        assert(a@ =~= b@);
        Ok(Address(a))
    }
}


// ---------- Identifiers and byte strings ----------

/// `std::str::from_utf8`: the bytes as a string slice when they are
/// valid UTF-8, nothing otherwise.
#[verifier::external_body]
fn str_from_utf8(bytes: &[u8]) -> (r: Option<&str>)
    ensures
        r is Some <==> valid_utf8(bytes@),
        r matches Some(t) ==> t.spec_bytes() == bytes@,
{
    match std::str::from_utf8(bytes) {
        Ok(t) => Some(t),
        Err(_) => None,
    }
}

/// Reading an identifier: a length-prefixed byte string that is valid
/// UTF-8 and a valid identifier; its model is its characters.
pub open spec fn de_identifier(s: Seq<u8>, p: int) -> DeResult<Seq<char>> {
    match de_blob(s, p, IDENTIFIER_SIZE_MAX, KIND_IDENTIFIER_SIZE) {
        Err(e) => Err(e),
        Ok((b, q)) => if !valid_utf8(b) || !spec_is_valid_identifier(b) {
            Err(AdamantDeserializeError::InvalidIdentifier)
        } else {
            Ok((decode_utf8(b), q))
        },
    }
}

impl WireDecode for String {
    type Model = Seq<char>;

    open spec fn model(&self) -> Seq<char> {
        self@
    }

    open spec fn spec_read(s: Seq<u8>, p: int) -> DeResult<Seq<char>> {
        de_identifier(s, p)
    }

    fn read(cursor: &mut Cursor) -> (r: Result<String, AdamantDeserializeError>) {
        let bytes = match read_blob(cursor, IDENTIFIER_SIZE_MAX, KIND_IDENTIFIER_SIZE) {
            Ok(b) => b,
            Err(e) => return Err(e),
        };
        let t = match str_from_utf8(bytes.as_slice()) {
            Some(t) => t,
            None => return Err(AdamantDeserializeError::InvalidIdentifier),
        };
        if !is_valid_identifier(bytes.as_slice()) {
            return Err(AdamantDeserializeError::InvalidIdentifier);
        }
        proof {
            encode_utf8_decode_utf8(t@);
        }
        Ok(t.to_owned())
    }
}

/// What a metadata entry holds: its key and its value.
pub type MetadataModel = (Seq<u8>, Seq<u8>);

impl WireDecode for Metadata {
    type Model = MetadataModel;

    open spec fn model(&self) -> MetadataModel {
        (self.key@, self.value@)
    }

    open spec fn spec_read(s: Seq<u8>, p: int) -> DeResult<MetadataModel> {
        match de_blob(s, p, METADATA_KEY_SIZE_MAX, KIND_METADATA_KEY_SIZE) {
            Err(e) => Err(e),
            Ok((k, q)) => match de_blob(s, q, METADATA_VALUE_SIZE_MAX, KIND_METADATA_VALUE_SIZE) {
                Err(e) => Err(e),
                Ok((v, r)) => Ok(((k, v), r)),
            },
        }
    }

    fn read(cursor: &mut Cursor) -> (r: Result<Metadata, AdamantDeserializeError>) {
        let key = match read_blob(cursor, METADATA_KEY_SIZE_MAX, KIND_METADATA_KEY_SIZE) {
            Ok(b) => b,
            Err(e) => return Err(e),
        };
        let value = match read_blob(cursor, METADATA_VALUE_SIZE_MAX, KIND_METADATA_VALUE_SIZE) {
            Ok(b) => b,
            Err(e) => return Err(e),
        };
        Ok(Metadata { key, value })
    }
}

// ---------- Handles ----------

/// What a datatype handle holds, as plain data.
pub struct DatatypeHandleModel {
    /// The defining module.
    pub module: ModuleHandleIndex,
    /// The type's name.
    pub name: IdentifierIndex,
    /// The type's abilities.
    pub abilities: AbilitySet,
    /// The type's parameters.
    pub type_parameters: Seq<DatatypeTyParameter>,
}

impl WireDecode for DatatypeHandle {
    type Model = DatatypeHandleModel;

    open spec fn model(&self) -> DatatypeHandleModel {
        DatatypeHandleModel {
            module: self.module,
            name: self.name,
            abilities: self.abilities,
            type_parameters: models(self.type_parameters@),
        }
    }

    open spec fn spec_read(s: Seq<u8>, p: int) -> DeResult<DatatypeHandleModel> {
        match de_index(s, p, KIND_MODULE_HANDLE_INDEX) {
            Err(e) => Err(e),
            Ok((m, q1)) => match de_index(s, q1, KIND_IDENTIFIER_INDEX) {
                Err(e) => Err(e),
                Ok((n, q2)) => match de_ability_set(s, q2) {
                    Err(e) => Err(e),
                    Ok((a, q3)) => match de_counted::<DatatypeTyParameter>(s, q3, TYPE_PARAMETER_COUNT_MAX, KIND_TYPE_PARAMETER_COUNT) {
                        Err(e) => Err(e),
                        Ok((tps, q4)) => Ok((DatatypeHandleModel {
                            module: ModuleHandleIndex(m),
                            name: IdentifierIndex(n),
                            abilities: a,
                            type_parameters: tps,
                        }, q4)),
                    },
                },
            },
        }
    }

    fn read(cursor: &mut Cursor) -> (r: Result<DatatypeHandle, AdamantDeserializeError>) {
        let m = match read_index(cursor, KIND_MODULE_HANDLE_INDEX) {
            Ok(v) => v,
            Err(e) => return Err(e),
        };
        let n = match read_index(cursor, KIND_IDENTIFIER_INDEX) {
            Ok(v) => v,
            Err(e) => return Err(e),
        };
        let a = match AbilitySet::read(cursor) {
            Ok(v) => v,
            Err(e) => return Err(e),
        };
        let tps = match read_counted::<DatatypeTyParameter>(cursor, TYPE_PARAMETER_COUNT_MAX, KIND_TYPE_PARAMETER_COUNT) {
            Ok(v) => v,
            Err(e) => return Err(e),
        };
        Ok(DatatypeHandle { module: ModuleHandleIndex(m), name: IdentifierIndex(n), abilities: a, type_parameters: tps })
    }
}

/// What a function handle holds, as plain data.
pub struct FunctionHandleModel {
    /// The defining module.
    pub module: ModuleHandleIndex,
    /// The function's name.
    pub name: IdentifierIndex,
    /// Signature of the parameters.
    pub parameters: SignatureIndex,
    /// Signature of the results.
    pub return_: SignatureIndex,
    /// Constraints of the type parameters.
    pub type_parameters: Seq<AbilitySet>,
}

impl WireDecode for FunctionHandle {
    type Model = FunctionHandleModel;

    open spec fn model(&self) -> FunctionHandleModel {
        FunctionHandleModel {
            module: self.module,
            name: self.name,
            parameters: self.parameters,
            return_: self.return_,
            type_parameters: models(self.type_parameters@),
        }
    }

    open spec fn spec_read(s: Seq<u8>, p: int) -> DeResult<FunctionHandleModel> {
        match de_index(s, p, KIND_MODULE_HANDLE_INDEX) {
            Err(e) => Err(e),
            Ok((m, q1)) => match de_index(s, q1, KIND_IDENTIFIER_INDEX) {
                Err(e) => Err(e),
                Ok((n, q2)) => match de_index(s, q2, KIND_SIGNATURE_INDEX) {
                    Err(e) => Err(e),
                    Ok((pa, q3)) => match de_index(s, q3, KIND_SIGNATURE_INDEX) {
                        Err(e) => Err(e),
                        Ok((re, q4)) => match de_counted::<AbilitySet>(s, q4, TYPE_PARAMETER_COUNT_MAX, KIND_TYPE_PARAMETER_COUNT) {
                            Err(e) => Err(e),
                            Ok((tps, q5)) => Ok((FunctionHandleModel {
                                module: ModuleHandleIndex(m),
                                name: IdentifierIndex(n),
                                parameters: SignatureIndex(pa),
                                return_: SignatureIndex(re),
                                type_parameters: tps,
                            }, q5)),
                        },
                    },
                },
            },
        }
    }

    fn read(cursor: &mut Cursor) -> (r: Result<FunctionHandle, AdamantDeserializeError>) {
        let m = match read_index(cursor, KIND_MODULE_HANDLE_INDEX) {
            Ok(v) => v,
            Err(e) => return Err(e),
        };
        let n = match read_index(cursor, KIND_IDENTIFIER_INDEX) {
            Ok(v) => v,
            Err(e) => return Err(e),
        };
        let pa = match read_index(cursor, KIND_SIGNATURE_INDEX) {
            Ok(v) => v,
            Err(e) => return Err(e),
        };
        let re = match read_index(cursor, KIND_SIGNATURE_INDEX) {
            Ok(v) => v,
            Err(e) => return Err(e),
        };
        let tps = match read_counted::<AbilitySet>(cursor, TYPE_PARAMETER_COUNT_MAX, KIND_TYPE_PARAMETER_COUNT) {
            Ok(v) => v,
            Err(e) => return Err(e),
        };
        Ok(FunctionHandle {
            module: ModuleHandleIndex(m),
            name: IdentifierIndex(n),
            parameters: SignatureIndex(pa),
            return_: SignatureIndex(re),
            type_parameters: tps,
        })
    }
}


// ---------- Types ----------

/// A type as plain data.
pub enum TokenModel {
    /// `bool`.
    Bool,
    /// `u8`.
    U8,
    /// `u16`.
    U16,
    /// `u32`.
    U32,
    /// `u64`.
    U64,
    /// `u128`.
    U128,
    /// `u256`.
    U256,
    /// `address`.
    Address,
    /// `signer`.
    Signer,
    /// A vector of the inner type.
    Vector(Box<TokenModel>),
    /// A non-generic datatype.
    Datatype(DatatypeHandleIndex),
    /// A generic datatype at type arguments.
    DatatypeInstantiation(DatatypeHandleIndex, Seq<TokenModel>),
    /// An immutable reference.
    Reference(Box<TokenModel>),
    /// A mutable reference.
    MutableReference(Box<TokenModel>),
    /// A type parameter.
    TypeParameter(u16),
}

/// The model of a type.
pub open spec fn token_model(t: SignatureToken) -> TokenModel
    decreases t, 0nat,
{
    match t {
        SignatureToken::Bool => TokenModel::Bool,
        SignatureToken::U8 => TokenModel::U8,
        SignatureToken::U16 => TokenModel::U16,
        SignatureToken::U32 => TokenModel::U32,
        SignatureToken::U64 => TokenModel::U64,
        SignatureToken::U128 => TokenModel::U128,
        SignatureToken::U256 => TokenModel::U256,
        SignatureToken::Address => TokenModel::Address,
        SignatureToken::Signer => TokenModel::Signer,
        SignatureToken::Vector(inner) => TokenModel::Vector(Box::new(token_model(*inner))),
        SignatureToken::Datatype(idx) => TokenModel::Datatype(idx),
        SignatureToken::DatatypeInstantiation(inst) => TokenModel::DatatypeInstantiation(
            inst.0,
            token_models_prefix(inst.1, inst.1@.len()),
        ),
        SignatureToken::Reference(inner) => TokenModel::Reference(Box::new(token_model(*inner))),
        SignatureToken::MutableReference(inner) => TokenModel::MutableReference(Box::new(token_model(*inner))),
        SignatureToken::TypeParameter(i) => TokenModel::TypeParameter(i),
    }
}

/// The models of the first `n` types of `v`.
pub open spec fn token_models_prefix(v: Vec<SignatureToken>, n: nat) -> Seq<TokenModel>
    decreases v, n,
{
    if n == 0 || n > v@.len() {
        Seq::empty()
    } else {
        token_models_prefix(v, (n - 1) as nat).push(token_model(v@[n - 1]))
    }
}

/// The models of a sequence of types.
pub open spec fn token_seq_model(s: Seq<SignatureToken>) -> Seq<TokenModel> {
    s.map_values(|t: SignatureToken| token_model(t))
}

/// The prefix models of a vector are the models of its prefix.
pub proof fn lemma_token_models_prefix(v: Vec<SignatureToken>, n: nat)
    requires
        n <= v@.len(),
    ensures
        token_models_prefix(v, n) == token_seq_model(v@.subrange(0, n as int)),
    decreases n,
{
    if n > 0 {
        lemma_token_models_prefix(v, (n - 1) as nat);
        assert(token_seq_model(v@.subrange(0, n as int)) =~= token_seq_model(v@.subrange(0, n - 1)).push(token_model(v@[n - 1])));
    } else {
        assert(token_seq_model(v@.subrange(0, 0)) =~= Seq::<TokenModel>::empty());
    }
}

/// Reading a type at `p` whose node sits below `depth` unfinished
/// enclosing nodes: a node below more than
/// `SIGNATURE_TOKEN_DEPTH_MAX` of them is refused before its tag is
/// read.  Children are read below one more.
pub open spec fn de_token(s: Seq<u8>, p: int, depth: nat) -> DeResult<TokenModel>
    decreases SIGNATURE_TOKEN_DEPTH_MAX + 1 - depth, 0nat, 0nat,
{
    if depth > SIGNATURE_TOKEN_DEPTH_MAX {
        Err(AdamantDeserializeError::SignatureTooDeep)
    } else {
        match de_u8(s, p) {
            Err(e) => Err(e),
            Ok((tag, q)) => if tag == TYPE_BOOL {
                Ok((TokenModel::Bool, q))
            } else if tag == TYPE_U8 {
                Ok((TokenModel::U8, q))
            } else if tag == TYPE_U16 {
                Ok((TokenModel::U16, q))
            } else if tag == TYPE_U32 {
                Ok((TokenModel::U32, q))
            } else if tag == TYPE_U64 {
                Ok((TokenModel::U64, q))
            } else if tag == TYPE_U128 {
                Ok((TokenModel::U128, q))
            } else if tag == TYPE_U256 {
                Ok((TokenModel::U256, q))
            } else if tag == TYPE_ADDRESS {
                Ok((TokenModel::Address, q))
            } else if tag == TYPE_SIGNER {
                Ok((TokenModel::Signer, q))
            } else if tag == TYPE_VECTOR {
                match de_token(s, q, depth + 1) {
                    Err(e) => Err(e),
                    Ok((t, r)) => Ok((TokenModel::Vector(Box::new(t)), r)),
                }
            } else if tag == TYPE_REFERENCE {
                match de_token(s, q, depth + 1) {
                    Err(e) => Err(e),
                    Ok((t, r)) => Ok((TokenModel::Reference(Box::new(t)), r)),
                }
            } else if tag == TYPE_MUTABLE_REFERENCE {
                match de_token(s, q, depth + 1) {
                    Err(e) => Err(e),
                    Ok((t, r)) => Ok((TokenModel::MutableReference(Box::new(t)), r)),
                }
            } else if tag == TYPE_STRUCT {
                match de_index(s, q, KIND_DATATYPE_HANDLE_INDEX) {
                    Err(e) => Err(e),
                    Ok((i, r)) => Ok((TokenModel::Datatype(DatatypeHandleIndex(i)), r)),
                }
            } else if tag == TYPE_DATATYPE_INST {
                match de_index(s, q, KIND_DATATYPE_HANDLE_INDEX) {
                    Err(e) => Err(e),
                    Ok((i, r)) => match de_bounded(s, r, SIGNATURE_SIZE_MAX, KIND_INSTANTIATION_ARITY) {
                        Err(e) => Err(e),
                        Ok((n, r2)) => match de_tokens(s, r2, depth + 1, n) {
                            Err(e) => Err(e),
                            Ok((ts, r3)) => Ok((TokenModel::DatatypeInstantiation(DatatypeHandleIndex(i), ts), r3)),
                        },
                    },
                }
            } else if tag == TYPE_TYPE_PARAMETER {
                match de_bounded(s, q, TYPE_PARAMETER_INDEX_MAX, KIND_TYPE_PARAMETER_INDEX) {
                    Err(e) => Err(e),
                    Ok((v, r)) => Ok((TokenModel::TypeParameter(v as u16), r)),
                }
            } else {
                Err(AdamantDeserializeError::UnknownSerializedType(tag))
            },
        }
    }
}

/// Reading `n` types one after the other, each below `depth`
/// enclosing nodes.
pub open spec fn de_tokens(s: Seq<u8>, p: int, depth: nat, n: nat) -> DeResult<Seq<TokenModel>>
    decreases SIGNATURE_TOKEN_DEPTH_MAX + 1 - depth, 1nat, n,
{
    if n == 0 {
        Ok((Seq::empty(), p))
    } else {
        match de_tokens(s, p, depth, (n - 1) as nat) {
            Err(e) => Err(e),
            Ok((ts, q)) => match de_token(s, q, depth) {
                Err(e) => Err(e),
                Ok((t, r)) => Ok((ts.push(t), r)),
            },
        }
    }
}

proof fn lemma_de_tokens_error(s: Seq<u8>, p: int, depth: nat, n: nat, m: nat)
    requires
        n <= m,
        de_tokens(s, p, depth, n) is Err,
    ensures
        de_tokens(s, p, depth, m) == de_tokens(s, p, depth, n),
    decreases m - n,
{
    if n < m {
        lemma_de_tokens_error(s, p, depth, n, (m - 1) as nat);
    }
}

/// Reads a type below `depth` enclosing nodes.
pub fn load_signature_token_at(cursor: &mut Cursor, depth: u64) -> (r: Result<SignatureToken, AdamantDeserializeError>)
    requires
        depth <= SIGNATURE_TOKEN_DEPTH_MAX + 1,
    ensures
        final(cursor).data() == old(cursor).data(),
        match de_token(old(cursor).data(), old(cursor).pos() as int, depth as nat) {
            Ok((t, q)) => r matches Ok(x) && token_model(x) == t && final(cursor).pos() == q,
            Err(e) => r == Err::<SignatureToken, AdamantDeserializeError>(e),
        },
    decreases SIGNATURE_TOKEN_DEPTH_MAX + 1 - depth, 0nat, 0nat,
{
    if depth > SIGNATURE_TOKEN_DEPTH_MAX {
        return Err(AdamantDeserializeError::SignatureTooDeep);
    }
    let tag = match read_u8(cursor) {
        Ok(t) => t,
        Err(e) => return Err(e),
    };
    if tag == TYPE_BOOL {
        Ok(SignatureToken::Bool)
    } else if tag == TYPE_U8 {
        Ok(SignatureToken::U8)
    } else if tag == TYPE_U16 {
        Ok(SignatureToken::U16)
    } else if tag == TYPE_U32 {
        Ok(SignatureToken::U32)
    } else if tag == TYPE_U64 {
        Ok(SignatureToken::U64)
    } else if tag == TYPE_U128 {
        Ok(SignatureToken::U128)
    } else if tag == TYPE_U256 {
        Ok(SignatureToken::U256)
    } else if tag == TYPE_ADDRESS {
        Ok(SignatureToken::Address)
    } else if tag == TYPE_SIGNER {
        Ok(SignatureToken::Signer)
    } else if tag == TYPE_VECTOR {
        match load_signature_token_at(cursor, depth + 1) {
            Ok(t) => Ok(SignatureToken::Vector(Box::new(t))),
            Err(e) => Err(e),
        }
    } else if tag == TYPE_REFERENCE {
        match load_signature_token_at(cursor, depth + 1) {
            Ok(t) => Ok(SignatureToken::Reference(Box::new(t))),
            Err(e) => Err(e),
        }
    } else if tag == TYPE_MUTABLE_REFERENCE {
        match load_signature_token_at(cursor, depth + 1) {
            Ok(t) => Ok(SignatureToken::MutableReference(Box::new(t))),
            Err(e) => Err(e),
        }
    } else if tag == TYPE_STRUCT {
        match read_index(cursor, KIND_DATATYPE_HANDLE_INDEX) {
            Ok(i) => Ok(SignatureToken::Datatype(DatatypeHandleIndex(i))),
            Err(e) => Err(e),
        }
    } else if tag == TYPE_DATATYPE_INST {
        let i = match read_index(cursor, KIND_DATATYPE_HANDLE_INDEX) {
            Ok(i) => i,
            Err(e) => return Err(e),
        };
        let n = match read_bounded(cursor, SIGNATURE_SIZE_MAX, KIND_INSTANTIATION_ARITY) {
            Ok(n) => n,
            Err(e) => return Err(e),
        };
        let ts = match load_signature_tokens(cursor, depth + 1, n) {
            Ok(ts) => ts,
            Err(e) => return Err(e),
        };
        Ok(SignatureToken::DatatypeInstantiation(Box::new((DatatypeHandleIndex(i), ts))))
    } else if tag == TYPE_TYPE_PARAMETER {
        match read_bounded(cursor, TYPE_PARAMETER_INDEX_MAX, KIND_TYPE_PARAMETER_INDEX) {
            Ok(v) => Ok(SignatureToken::TypeParameter(v as u16)),
            Err(e) => Err(e),
        }
    } else {
        Err(AdamantDeserializeError::UnknownSerializedType(tag))
    }
}

/// Reads `n` types below `depth` enclosing nodes.
fn load_signature_tokens(cursor: &mut Cursor, depth: u64, n: u64) -> (r: Result<Vec<SignatureToken>, AdamantDeserializeError>)
    requires
        depth <= SIGNATURE_TOKEN_DEPTH_MAX + 1,
    ensures
        final(cursor).data() == old(cursor).data(),
        match de_tokens(old(cursor).data(), old(cursor).pos() as int, depth as nat, n as nat) {
            Ok((ts, q)) => r matches Ok(v) && token_models_prefix(v, v@.len()) == ts && final(cursor).pos() == q,
            Err(e) => r == Err::<Vec<SignatureToken>, AdamantDeserializeError>(e),
        },
    decreases SIGNATURE_TOKEN_DEPTH_MAX + 1 - depth, 1nat, 0nat,
{
    let ghost s = cursor.data();
    let ghost p = cursor.pos() as int;
    let mut out: Vec<SignatureToken> = Vec::new();
    let mut i: u64 = 0;
    proof {
        assert(token_seq_model(out@) =~= Seq::<TokenModel>::empty());
    }
    while i < n
        invariant
            i <= n,
            depth <= SIGNATURE_TOKEN_DEPTH_MAX + 1,
            cursor.data() == s,
            s == old(cursor).data(),
            p == old(cursor).pos(),
            de_tokens(s, p, depth as nat, i as nat) == Ok::<(Seq<TokenModel>, int), AdamantDeserializeError>((token_seq_model(out@), cursor.pos() as int)),
        decreases n - i,
    {
        match load_signature_token_at(cursor, depth) {
            Ok(x) => {
                let ghost before = out@;
                out.push(x);
                assert(token_seq_model(out@) =~= token_seq_model(before).push(token_model(x)));
            },
            Err(e) => {
                proof {
                    lemma_de_tokens_error(s, p, depth as nat, (i + 1) as nat, n as nat);
                }
                return Err(e);
            },
        }
        i = i + 1;
    }
    proof {
        lemma_token_models_prefix(out, out@.len());
        assert(out@.subrange(0, out@.len() as int) =~= out@);
    }
    Ok(out)
}

/// Reads a type: the outermost node below no enclosing node.
pub fn load_signature_token(cursor: &mut Cursor) -> (r: Result<SignatureToken, AdamantDeserializeError>)
    ensures
        final(cursor).data() == old(cursor).data(),
        match de_token(old(cursor).data(), old(cursor).pos() as int, 0) {
            Ok((t, q)) => r matches Ok(x) && token_model(x) == t && final(cursor).pos() == q,
            Err(e) => r == Err::<SignatureToken, AdamantDeserializeError>(e),
        },
{
    load_signature_token_at(cursor, 0)
}

impl WireDecode for SignatureToken {
    type Model = TokenModel;

    open spec fn model(&self) -> TokenModel {
        token_model(*self)
    }

    open spec fn spec_read(s: Seq<u8>, p: int) -> DeResult<TokenModel> {
        de_token(s, p, 0)
    }

    fn read(cursor: &mut Cursor) -> (r: Result<SignatureToken, AdamantDeserializeError>) {
        load_signature_token(cursor)
    }
}

impl WireDecode for Signature {
    type Model = Seq<TokenModel>;

    open spec fn model(&self) -> Seq<TokenModel> {
        models(self.0@)
    }

    open spec fn spec_read(s: Seq<u8>, p: int) -> DeResult<Seq<TokenModel>> {
        de_counted::<SignatureToken>(s, p, SIGNATURE_SIZE_MAX, KIND_SIGNATURE_LENGTH)
    }

    fn read(cursor: &mut Cursor) -> (r: Result<Signature, AdamantDeserializeError>) {
        match read_counted::<SignatureToken>(cursor, SIGNATURE_SIZE_MAX, KIND_SIGNATURE_LENGTH) {
            Ok(v) => Ok(Signature(v)),
            Err(e) => Err(e),
        }
    }
}

/// What a constant holds: its type and its serialized value.
pub type ConstantModel = (TokenModel, Seq<u8>);

impl WireDecode for Constant {
    type Model = ConstantModel;

    open spec fn model(&self) -> ConstantModel {
        (token_model(self.type_), self.data@)
    }

    open spec fn spec_read(s: Seq<u8>, p: int) -> DeResult<ConstantModel> {
        match de_token(s, p, 0) {
            Err(e) => Err(e),
            Ok((t, q)) => match de_blob(s, q, CONSTANT_SIZE_MAX, KIND_CONSTANT_SIZE) {
                Err(e) => Err(e),
                Ok((d, r)) => Ok(((t, d), r)),
            },
        }
    }

    fn read(cursor: &mut Cursor) -> (r: Result<Constant, AdamantDeserializeError>) {
        let t = match load_signature_token(cursor) {
            Ok(t) => t,
            Err(e) => return Err(e),
        };
        let d = match read_blob(cursor, CONSTANT_SIZE_MAX, KIND_CONSTANT_SIZE) {
            Ok(d) => d,
            Err(e) => return Err(e),
        };
        Ok(Constant { type_: t, data: d })
    }
}


// ---------- Definitions ----------

/// What a field definition holds: its name and its type.
pub type FieldModel = (IdentifierIndex, TokenModel);

impl WireDecode for FieldDefinition {
    type Model = FieldModel;

    open spec fn model(&self) -> FieldModel {
        (self.name, token_model(self.signature.0))
    }

    open spec fn spec_read(s: Seq<u8>, p: int) -> DeResult<FieldModel> {
        match de_index(s, p, KIND_IDENTIFIER_INDEX) {
            Err(e) => Err(e),
            Ok((n, q)) => match de_token(s, q, 0) {
                Err(e) => Err(e),
                Ok((t, r)) => Ok(((IdentifierIndex(n), t), r)),
            },
        }
    }

    fn read(cursor: &mut Cursor) -> (r: Result<FieldDefinition, AdamantDeserializeError>) {
        let n = match read_index(cursor, KIND_IDENTIFIER_INDEX) {
            Ok(v) => v,
            Err(e) => return Err(e),
        };
        let t = match load_signature_token(cursor) {
            Ok(t) => t,
            Err(e) => return Err(e),
        };
        Ok(FieldDefinition { name: IdentifierIndex(n), signature: TypeSignature(t) })
    }
}

/// What a struct definition holds: its handle, and its fields unless
/// it is native.
pub type StructModel = (DatatypeHandleIndex, Option<Seq<FieldModel>>);

impl WireDecode for StructDefinition {
    type Model = StructModel;

    open spec fn model(&self) -> StructModel {
        (self.struct_handle, match self.field_information {
            StructFieldInformation::Native => None,
            StructFieldInformation::Declared(fields) => Some(models(fields@)),
        })
    }

    open spec fn spec_read(s: Seq<u8>, p: int) -> DeResult<StructModel> {
        match de_index(s, p, KIND_DATATYPE_HANDLE_INDEX) {
            Err(e) => Err(e),
            Ok((h, q)) => match de_u8(s, q) {
                Err(e) => Err(e),
                Ok((flag, r)) => if flag == STRUCT_FLAG_NATIVE {
                    Ok(((DatatypeHandleIndex(h), None), r))
                } else if flag == STRUCT_FLAG_DECLARED {
                    match de_counted::<FieldDefinition>(s, r, FIELD_COUNT_MAX, KIND_FIELD_COUNT) {
                        Err(e) => Err(e),
                        Ok((fs, r2)) => Ok(((DatatypeHandleIndex(h), Some(fs)), r2)),
                    }
                } else {
                    Err(AdamantDeserializeError::UnknownStructFlag(flag))
                },
            },
        }
    }

    fn read(cursor: &mut Cursor) -> (r: Result<StructDefinition, AdamantDeserializeError>) {
        let h = match read_index(cursor, KIND_DATATYPE_HANDLE_INDEX) {
            Ok(v) => v,
            Err(e) => return Err(e),
        };
        let flag = match read_u8(cursor) {
            Ok(v) => v,
            Err(e) => return Err(e),
        };
        let field_information = if flag == STRUCT_FLAG_NATIVE {
            StructFieldInformation::Native
        } else if flag == STRUCT_FLAG_DECLARED {
            match read_counted::<FieldDefinition>(cursor, FIELD_COUNT_MAX, KIND_FIELD_COUNT) {
                Ok(fs) => StructFieldInformation::Declared(fs),
                Err(e) => return Err(e),
            }
        } else {
            return Err(AdamantDeserializeError::UnknownStructFlag(flag));
        };
        Ok(StructDefinition { struct_handle: DatatypeHandleIndex(h), field_information })
    }
}

/// What a variant definition holds: its name and its fields.
pub type VariantModel = (IdentifierIndex, Seq<FieldModel>);

impl WireDecode for VariantDefinition {
    type Model = VariantModel;

    open spec fn model(&self) -> VariantModel {
        (self.variant_name, models(self.fields@))
    }

    open spec fn spec_read(s: Seq<u8>, p: int) -> DeResult<VariantModel> {
        match de_index(s, p, KIND_IDENTIFIER_INDEX) {
            Err(e) => Err(e),
            Ok((n, q)) => match de_counted::<FieldDefinition>(s, q, FIELD_COUNT_MAX, KIND_FIELD_COUNT) {
                Err(e) => Err(e),
                Ok((fs, r)) => Ok(((IdentifierIndex(n), fs), r)),
            },
        }
    }

    fn read(cursor: &mut Cursor) -> (r: Result<VariantDefinition, AdamantDeserializeError>) {
        let n = match read_index(cursor, KIND_IDENTIFIER_INDEX) {
            Ok(v) => v,
            Err(e) => return Err(e),
        };
        let fields = match read_counted::<FieldDefinition>(cursor, FIELD_COUNT_MAX, KIND_FIELD_COUNT) {
            Ok(fs) => fs,
            Err(e) => return Err(e),
        };
        Ok(VariantDefinition { variant_name: IdentifierIndex(n), fields })
    }
}

/// What an enum definition holds: its handle and its variants.
pub type EnumModel = (DatatypeHandleIndex, Seq<VariantModel>);

impl WireDecode for EnumDefinition {
    type Model = EnumModel;

    open spec fn model(&self) -> EnumModel {
        (self.enum_handle, models(self.variants@))
    }

    open spec fn spec_read(s: Seq<u8>, p: int) -> DeResult<EnumModel> {
        match de_index(s, p, KIND_DATATYPE_HANDLE_INDEX) {
            Err(e) => Err(e),
            Ok((h, q)) => match de_u8(s, q) {
                Err(e) => Err(e),
                Ok((flag, r)) => if flag != ENUM_FLAG_DECLARED {
                    Err(AdamantDeserializeError::UnknownEnumFlag(flag))
                } else {
                    match de_counted::<VariantDefinition>(s, r, VARIANT_COUNT_MAX, KIND_VARIANT_COUNT) {
                        Err(e) => Err(e),
                        Ok((vs, r2)) => Ok(((DatatypeHandleIndex(h), vs), r2)),
                    }
                },
            },
        }
    }

    fn read(cursor: &mut Cursor) -> (r: Result<EnumDefinition, AdamantDeserializeError>) {
        let h = match read_index(cursor, KIND_DATATYPE_HANDLE_INDEX) {
            Ok(v) => v,
            Err(e) => return Err(e),
        };
        let flag = match read_u8(cursor) {
            Ok(v) => v,
            Err(e) => return Err(e),
        };
        if flag != ENUM_FLAG_DECLARED {
            return Err(AdamantDeserializeError::UnknownEnumFlag(flag));
        }
        let variants = match read_counted::<VariantDefinition>(cursor, VARIANT_COUNT_MAX, KIND_VARIANT_COUNT) {
            Ok(vs) => vs,
            Err(e) => return Err(e),
        };
        Ok(EnumDefinition { enum_handle: DatatypeHandleIndex(h), variants })
    }
}

// ---------- Function definitions ----------

/// What a jump table holds: the enum and the branch targets.
pub type JumpTableModel = (EnumDefinitionIndex, Seq<u16>);

impl WireDecode for VariantJumpTable {
    type Model = JumpTableModel;

    open spec fn model(&self) -> JumpTableModel {
        match self.jump_table {
            JumpTableInner::Full(branches) => (self.head_enum, branches@),
        }
    }

    open spec fn spec_read(s: Seq<u8>, p: int) -> DeResult<JumpTableModel> {
        match de_index(s, p, KIND_ENUM_DEF_INDEX) {
            Err(e) => Err(e),
            Ok((h, q)) => match de_bounded(s, q, VARIANT_COUNT_MAX, KIND_BRANCH_COUNT) {
                Err(e) => Err(e),
                Ok((n, r)) => match de_u8(s, r) {
                    Err(e) => Err(e),
                    Ok((flag, r2)) => if flag != JUMP_TABLE_FLAG_FULL {
                        Err(AdamantDeserializeError::UnknownJumpTableFlag(flag))
                    } else {
                        match de_items::<u16>(s, r2, n) {
                            Err(e) => Err(e),
                            Ok((bs, r3)) => Ok(((EnumDefinitionIndex(h), bs), r3)),
                        }
                    },
                },
            },
        }
    }

    fn read(cursor: &mut Cursor) -> (r: Result<VariantJumpTable, AdamantDeserializeError>) {
        let h = match read_index(cursor, KIND_ENUM_DEF_INDEX) {
            Ok(v) => v,
            Err(e) => return Err(e),
        };
        let n = match read_bounded(cursor, VARIANT_COUNT_MAX, KIND_BRANCH_COUNT) {
            Ok(v) => v,
            Err(e) => return Err(e),
        };
        let flag = match read_u8(cursor) {
            Ok(v) => v,
            Err(e) => return Err(e),
        };
        if flag != JUMP_TABLE_FLAG_FULL {
            return Err(AdamantDeserializeError::UnknownJumpTableFlag(flag));
        }
        let branches = match read_items::<u16>(cursor, n) {
            Ok(bs) => bs,
            Err(e) => return Err(e),
        };
        proof {
            assert(models(branches@) =~= branches@);
        }
        Ok(VariantJumpTable { head_enum: EnumDefinitionIndex(h), jump_table: JumpTableInner::Full(branches) })
    }
}

/// What a code unit holds, as plain data.
pub struct CodeUnitModel {
    /// Signature of the locals after the parameters.
    pub locals: SignatureIndex,
    /// The instructions.
    pub code: Seq<BytecodeInstruction>,
    /// The jump tables.
    pub jump_tables: Seq<JumpTableModel>,
}

/// The model of a code unit.
pub open spec fn code_unit_model(u: AdamantCodeUnit) -> CodeUnitModel {
    CodeUnitModel { locals: u.locals, code: u.code@, jump_tables: models(u.jump_tables@) }
}

/// What a function definition holds, as plain data.
pub struct FunctionDefModel {
    /// The function's handle.
    pub function: FunctionHandleIndex,
    /// The function's visibility.
    pub visibility: Visibility,
    /// Whether the function is an entry point.
    pub is_entry: bool,
    /// The acquires list.
    pub acquires: Seq<StructDefinitionIndex>,
    /// The body; `None` marks a native function.
    pub code: Option<CodeUnitModel>,
}

/// The model of a function definition.
pub open spec fn function_def_model(f: AdamantFunctionDefinition) -> FunctionDefModel {
    FunctionDefModel {
        function: f.function,
        visibility: f.visibility,
        is_entry: f.is_entry,
        acquires: f.acquires_global_resources@,
        code: match f.code {
            Some(u) => Some(code_unit_model(u)),
            None => None,
        },
    }
}

/// The models of a sequence of function definitions.
pub open spec fn function_defs_model(s: Seq<AdamantFunctionDefinition>) -> Seq<FunctionDefModel> {
    s.map_values(|f: AdamantFunctionDefinition| function_def_model(f))
}

/// Reading the jump tables of a code unit: none before version 7,
/// otherwise a bounded count and that many tables.
pub open spec fn de_jump_tables(s: Seq<u8>, p: int, version: u32) -> DeResult<Seq<JumpTableModel>> {
    if version < VERSION_7 {
        Ok((Seq::empty(), p))
    } else {
        match de_bounded(s, p, JUMP_TABLE_INDEX_MAX, KIND_JUMP_TABLE_COUNT) {
            Err(e) => Err(e),
            Ok((n, q)) => de_items::<VariantJumpTable>(s, q, n),
        }
    }
}

/// Reading a code unit: the locals' signature index, the body (strict:
/// the deprecated global-storage opcodes are refused), the jump
/// tables.
pub open spec fn de_code_unit(s: Seq<u8>, p: int, version: u32) -> DeResult<CodeUnitModel> {
    match de_index(s, p, KIND_SIGNATURE_INDEX) {
        Err(e) => Err(e),
        Ok((l, q)) => match spec_decode_function_body_at(s, q, true) {
            Err(e) => Err(AdamantDeserializeError::Bytecode(e)),
            Ok((code, r)) => match de_jump_tables(s, r, version) {
                Err(e) => Err(e),
                Ok((jts, r2)) => Ok((CodeUnitModel { locals: SignatureIndex(l), code, jump_tables: jts }, r2)),
            },
        },
    }
}

/// The visibility a byte names, if any.
pub open spec fn spec_visibility_of_byte(b: u8) -> Option<Visibility> {
    if b == VISIBILITY_PRIVATE {
        Some(Visibility::Private)
    } else if b == VISIBILITY_PUBLIC {
        Some(Visibility::Public)
    } else if b == VISIBILITY_FRIEND {
        Some(Visibility::Friend)
    } else {
        None
    }
}

/// The visibility and entry-ness a visibility byte gives at
/// `version`: before version 5 the deprecated script visibility
/// stands for a public entry function.
pub open spec fn spec_read_visibility(b: u8, version: u32) -> Option<(Visibility, bool)> {
    if version < VERSION_5 && b == VISIBILITY_DEPRECATED_SCRIPT {
        Some((Visibility::Public, true))
    } else {
        match spec_visibility_of_byte(b) {
            Some(v) => Some((v, false)),
            None => None,
        }
    }
}

/// Whether a flags byte holds only the entry and native bits.
pub open spec fn known_function_flags(f: u8) -> bool {
    f == 0 || f == FUNCTION_FLAG_NATIVE || f == FUNCTION_FLAG_ENTRY || f == FUNCTION_FLAG_NATIVE + FUNCTION_FLAG_ENTRY
}

/// Whether a flags byte holds the entry bit.
pub open spec fn has_entry_flag(f: u8) -> bool {
    f == FUNCTION_FLAG_ENTRY || f == FUNCTION_FLAG_NATIVE + FUNCTION_FLAG_ENTRY
}

/// Whether a flags byte holds the native bit.
pub open spec fn has_native_flag(f: u8) -> bool {
    f == FUNCTION_FLAG_NATIVE || f == FUNCTION_FLAG_NATIVE + FUNCTION_FLAG_ENTRY
}

/// Reading a function definition at `version`.
pub open spec fn de_function_def(s: Seq<u8>, p: int, version: u32) -> DeResult<FunctionDefModel> {
    match de_index(s, p, KIND_FUNCTION_HANDLE_INDEX) {
        Err(e) => Err(e),
        Ok((h, q1)) => match de_u8(s, q1) {
            Err(e) => Err(e),
            Ok((vb, q2)) => match spec_read_visibility(vb, version) {
                None => Err(AdamantDeserializeError::UnknownVisibility(vb)),
                Some((vis, script_entry)) => match de_u8(s, q2) {
                    Err(e) => Err(e),
                    Ok((flags, q3)) => if !known_function_flags(flags) {
                        Err(AdamantDeserializeError::UnknownFunctionFlag(flags))
                    } else if has_entry_flag(flags) && version < VERSION_5 {
                        Err(AdamantDeserializeError::UnknownFunctionFlag(flags))
                    } else {
                        match de_counted::<StructDefinitionIndex>(s, q3, ACQUIRES_COUNT_MAX, KIND_ACQUIRES_COUNT) {
                            Err(e) => Err(e),
                            Ok((acq, q4)) => {
                                let is_entry = script_entry || has_entry_flag(flags);
                                if has_native_flag(flags) {
                                    Ok((FunctionDefModel { function: FunctionHandleIndex(h), visibility: vis, is_entry, acquires: acq, code: None }, q4))
                                } else {
                                    match de_code_unit(s, q4, version) {
                                        Err(e) => Err(e),
                                        Ok((u, q5)) => Ok((FunctionDefModel { function: FunctionHandleIndex(h), visibility: vis, is_entry, acquires: acq, code: Some(u) }, q5)),
                                    }
                                }
                            },
                        }
                    },
                },
            },
        },
    }
}

/// Reads a code unit at `version`.
fn load_code_unit(cursor: &mut Cursor, version: u32) -> (r: Result<AdamantCodeUnit, AdamantDeserializeError>)
    ensures
        final(cursor).data() == old(cursor).data(),
        match de_code_unit(old(cursor).data(), old(cursor).pos() as int, version) {
            Ok((u, q)) => r matches Ok(x) && code_unit_model(x) == u && final(cursor).pos() == q,
            Err(e) => r == Err::<AdamantCodeUnit, AdamantDeserializeError>(e),
        },
{
    let l = match read_index(cursor, KIND_SIGNATURE_INDEX) {
        Ok(v) => v,
        Err(e) => return Err(e),
    };
    let code = match deserialize_function_body_from_cursor(cursor, &DeserializeConfig::strict()) {
        Ok(c) => c,
        Err(e) => return Err(AdamantDeserializeError::from(e)),
    };
    let jump_tables = if version < VERSION_7 {
        let v: Vec<VariantJumpTable> = Vec::new();
        assert(models(v@) =~= Seq::<JumpTableModel>::empty());
        v
    } else {
        let n = match read_bounded(cursor, JUMP_TABLE_INDEX_MAX, KIND_JUMP_TABLE_COUNT) {
            Ok(n) => n,
            Err(e) => return Err(e),
        };
        match read_items::<VariantJumpTable>(cursor, n) {
            Ok(v) => v,
            Err(e) => return Err(e),
        }
    };
    Ok(AdamantCodeUnit { locals: SignatureIndex(l), code, jump_tables })
}

/// Reads a function definition at `version`.
fn load_function_definition(cursor: &mut Cursor, version: u32) -> (r: Result<AdamantFunctionDefinition, AdamantDeserializeError>)
    ensures
        final(cursor).data() == old(cursor).data(),
        match de_function_def(old(cursor).data(), old(cursor).pos() as int, version) {
            Ok((f, q)) => r matches Ok(x) && function_def_model(x) == f && final(cursor).pos() == q,
            Err(e) => r == Err::<AdamantFunctionDefinition, AdamantDeserializeError>(e),
        },
{
    let h = match read_index(cursor, KIND_FUNCTION_HANDLE_INDEX) {
        Ok(v) => v,
        Err(e) => return Err(e),
    };
    let vb = match read_u8(cursor) {
        Ok(v) => v,
        Err(e) => return Err(e),
    };
    let (visibility, script_entry) = if version < VERSION_5 && vb == VISIBILITY_DEPRECATED_SCRIPT {
        (Visibility::Public, true)
    } else if vb == VISIBILITY_PRIVATE {
        (Visibility::Private, false)
    } else if vb == VISIBILITY_PUBLIC {
        (Visibility::Public, false)
    } else if vb == VISIBILITY_FRIEND {
        (Visibility::Friend, false)
    } else {
        return Err(AdamantDeserializeError::UnknownVisibility(vb));
    };
    let flags = match read_u8(cursor) {
        Ok(v) => v,
        Err(e) => return Err(e),
    };
    if !(flags == 0 || flags == FUNCTION_FLAG_NATIVE || flags == FUNCTION_FLAG_ENTRY || flags == FUNCTION_FLAG_NATIVE + FUNCTION_FLAG_ENTRY) {
        return Err(AdamantDeserializeError::UnknownFunctionFlag(flags));
    }
    let entry_flag = flags == FUNCTION_FLAG_ENTRY || flags == FUNCTION_FLAG_NATIVE + FUNCTION_FLAG_ENTRY;
    if entry_flag && version < VERSION_5 {
        return Err(AdamantDeserializeError::UnknownFunctionFlag(flags));
    }
    let is_native = flags == FUNCTION_FLAG_NATIVE || flags == FUNCTION_FLAG_NATIVE + FUNCTION_FLAG_ENTRY;
    let acquires = match read_counted::<StructDefinitionIndex>(cursor, ACQUIRES_COUNT_MAX, KIND_ACQUIRES_COUNT) {
        Ok(v) => v,
        Err(e) => return Err(e),
    };
    proof {
        assert(models(acquires@) =~= acquires@);
    }
    let code = if is_native {
        None
    } else {
        match load_code_unit(cursor, version) {
            Ok(u) => Some(u),
            Err(e) => return Err(e),
        }
    };
    Ok(AdamantFunctionDefinition {
        function: FunctionHandleIndex(h),
        visibility,
        is_entry: script_entry || entry_flag,
        acquires_global_resources: acquires,
        code,
    })
}


/// Reading function definitions at `version` from `p` to the end of
/// the bytes.
pub open spec fn de_function_defs_until(s: Seq<u8>, p: int, version: u32) -> DeResult<Seq<FunctionDefModel>>
    decreases s.len() - p,
{
    if p >= s.len() {
        Ok((Seq::empty(), p))
    } else {
        match de_function_def(s, p, version) {
            Err(e) => Err(e),
            Ok((v, q)) => if q <= p || q > s.len() {
                // A read always consumes bytes within the slice.
                Err(AdamantDeserializeError::UnexpectedEof)
            } else {
                match de_function_defs_until(s, q, version) {
                    Err(e) => Err(e),
                    Ok((vs, r)) => Ok((seq![v] + vs, r)),
                }
            },
        }
    }
}

/// The function definitions read from `p` before reading stops: all
/// of them when reading reaches the end, those before the failing one
/// otherwise.
pub open spec fn de_function_defs_read(s: Seq<u8>, p: int, version: u32) -> Seq<FunctionDefModel>
    decreases s.len() - p,
{
    if p >= s.len() {
        Seq::empty()
    } else {
        match de_function_def(s, p, version) {
            Err(e) => Seq::empty(),
            Ok((v, q)) => if q <= p || q > s.len() {
                Seq::empty()
            } else {
                seq![v] + de_function_defs_read(s, q, version)
            },
        }
    }
}

/// Reads function definitions at `version` to the end of the bytes,
/// pushing each onto `out`.  On an error `out` keeps the definitions
/// read before the failing one.
fn load_function_definitions(cursor: &mut Cursor, out: &mut Vec<AdamantFunctionDefinition>, version: u32) -> (r: Result<(), AdamantDeserializeError>)
    ensures
        final(cursor).data() == old(cursor).data(),
        match de_function_defs_until(old(cursor).data(), old(cursor).pos() as int, version) {
            Ok((vs, q)) => r is Ok && function_defs_model(final(out)@) == function_defs_model(old(out)@) + vs
                && final(cursor).pos() == q
                && (old(cursor).pos() <= old(cursor).data().len() ==> q == old(cursor).data().len()),
            Err(e) => r == Err::<(), AdamantDeserializeError>(e) && function_defs_model(final(out)@)
                == function_defs_model(old(out)@) + de_function_defs_read(old(cursor).data(), old(cursor).pos() as int, version),
        },
{
    let ghost s = cursor.data();
    let ghost p = cursor.pos() as int;
    let ghost base = function_defs_model(out@);
    let ghost mut pre: Seq<FunctionDefModel> = Seq::empty();
    let len = cursor.get_ref().len() as u64;
    proof {
        assert(base + pre =~= base);
        let rest = de_function_defs_until(s, p, version);
        assert(prepend(Seq::<FunctionDefModel>::empty(), rest) =~~= rest) by {
            match rest {
                Ok((vs, r)) => {
                    assert(Seq::<FunctionDefModel>::empty() + vs =~= vs);
                },
                Err(e) => {},
            }
        }
        assert(Seq::<FunctionDefModel>::empty() + de_function_defs_read(s, p, version) =~= de_function_defs_read(s, p, version));
    }
    if cursor.position() > len {
        return Ok(());
    }
    while !cursor.at_end()
        invariant
            cursor.data() == s,
            s == old(cursor).data(),
            p == old(cursor).pos(),
            p <= s.len(),
            len == s.len(),
            cursor.pos() <= s.len(),
            base == function_defs_model(old(out)@),
            function_defs_model(out@) == base + pre,
            de_function_defs_until(s, p, version) == prepend(pre, de_function_defs_until(s, cursor.pos() as int, version)),
            de_function_defs_read(s, p, version) == pre + de_function_defs_read(s, cursor.pos() as int, version),
        decreases s.len() - cursor.pos(),
    {
        let before = cursor.position();
        let x = match load_function_definition(cursor, version) {
            Ok(x) => x,
            Err(e) => {
                proof {
                    assert(pre + Seq::<FunctionDefModel>::empty() =~= pre);
                }
                return Err(e);
            },
        };
        let after = cursor.position();
        if after <= before || after > len {
            proof {
                assert(pre + Seq::<FunctionDefModel>::empty() =~= pre);
            }
            return Err(AdamantDeserializeError::UnexpectedEof);
        }
        let ghost old_out = out@;
        out.push(x);
        proof {
            assert(function_defs_model(out@) =~= function_defs_model(old_out).push(function_def_model(x)));
            let rest = de_function_defs_until(s, after as int, version);
            match rest {
                Ok((vs, r)) => {
                    assert(pre + (seq![function_def_model(x)] + vs) =~= pre.push(function_def_model(x)) + vs);
                },
                Err(e) => {},
            }
            assert(pre + (seq![function_def_model(x)] + de_function_defs_read(s, after as int, version))
                =~= pre.push(function_def_model(x)) + de_function_defs_read(s, after as int, version));
            assert(base + pre.push(function_def_model(x)) =~= (base + pre).push(function_def_model(x)));
            pre = pre.push(function_def_model(x));
        }
    }
    proof {
        assert(pre + Seq::<FunctionDefModel>::empty() =~= pre);
    }
    Ok(())
}

// ---------- The module ----------

/// What a module holds, as plain data.
pub struct ModuleModel {
    /// Binary-format version.
    pub version: u32,
    /// Whether the module may be published.
    pub publishable: bool,
    /// Handle of this module.
    pub self_module_handle_idx: ModuleHandleIndex,
    /// Module handles.
    pub module_handles: Seq<ModuleHandle>,
    /// Datatype handles.
    pub datatype_handles: Seq<DatatypeHandleModel>,
    /// Function handles.
    pub function_handles: Seq<FunctionHandleModel>,
    /// Field handles.
    pub field_handles: Seq<FieldHandle>,
    /// Friend modules.
    pub friend_decls: Seq<ModuleHandle>,
    /// Struct instantiations.
    pub struct_def_instantiations: Seq<StructDefInstantiation>,
    /// Function instantiations.
    pub function_instantiations: Seq<FunctionInstantiation>,
    /// Field instantiations.
    pub field_instantiations: Seq<FieldInstantiation>,
    /// The signature pool.
    pub signatures: Seq<Seq<TokenModel>>,
    /// The identifier pool, as characters.
    pub identifiers: Seq<Seq<char>>,
    /// The address pool, as bytes.
    pub address_identifiers: Seq<Seq<u8>>,
    /// The constant pool.
    pub constant_pool: Seq<ConstantModel>,
    /// Metadata entries.
    pub metadata: Seq<MetadataModel>,
    /// Struct definitions.
    pub struct_defs: Seq<StructModel>,
    /// Function definitions.
    pub function_defs: Seq<FunctionDefModel>,
    /// Enum definitions.
    pub enum_defs: Seq<EnumModel>,
    /// Enum instantiations.
    pub enum_def_instantiations: Seq<EnumDefInstantiation>,
    /// Variant handles.
    pub variant_handles: Seq<VariantHandle>,
    /// Variant instantiation handles.
    pub variant_instantiation_handles: Seq<VariantInstantiationHandle>,
}

/// The model of a module.
pub open spec fn module_model(m: AdamantCompiledModule) -> ModuleModel {
    ModuleModel {
        version: m.version,
        publishable: m.publishable,
        self_module_handle_idx: m.self_module_handle_idx,
        module_handles: models(m.module_handles@),
        datatype_handles: models(m.datatype_handles@),
        function_handles: models(m.function_handles@),
        field_handles: models(m.field_handles@),
        friend_decls: models(m.friend_decls@),
        struct_def_instantiations: models(m.struct_def_instantiations@),
        function_instantiations: models(m.function_instantiations@),
        field_instantiations: models(m.field_instantiations@),
        signatures: models(m.signatures@),
        identifiers: models(m.identifiers@),
        address_identifiers: models(m.address_identifiers@),
        constant_pool: models(m.constant_pool@),
        metadata: models(m.metadata@),
        struct_defs: models(m.struct_defs@),
        function_defs: function_defs_model(m.function_defs@),
        enum_defs: models(m.enum_defs@),
        enum_def_instantiations: models(m.enum_def_instantiations@),
        variant_handles: models(m.variant_handles@),
        variant_instantiation_handles: models(m.variant_instantiation_handles@),
    }
}

/// The model of a module with no tables.
pub open spec fn empty_module_model(version: u32, publishable: bool) -> ModuleModel {
    ModuleModel {
        version,
        publishable,
        self_module_handle_idx: ModuleHandleIndex(0),
        module_handles: Seq::empty(),
        datatype_handles: Seq::empty(),
        function_handles: Seq::empty(),
        field_handles: Seq::empty(),
        friend_decls: Seq::empty(),
        struct_def_instantiations: Seq::empty(),
        function_instantiations: Seq::empty(),
        field_instantiations: Seq::empty(),
        signatures: Seq::empty(),
        identifiers: Seq::empty(),
        address_identifiers: Seq::empty(),
        constant_pool: Seq::empty(),
        metadata: Seq::empty(),
        struct_defs: Seq::empty(),
        function_defs: Seq::empty(),
        enum_defs: Seq::empty(),
        enum_def_instantiations: Seq::empty(),
        variant_handles: Seq::empty(),
        variant_instantiation_handles: Seq::empty(),
    }
}

/// Whether a table of kind `kind` is refused at `version` before any
/// of its bytes is read: the metadata table before version 5, the
/// enum tables before version 7.
pub open spec fn table_refused(kind: TableType, version: u32) -> bool {
    match kind {
        TableType::Metadata => version < VERSION_5,
        TableType::EnumDefs | TableType::EnumDefInst | TableType::VariantHandles
        | TableType::VariantInstHandles => version < VERSION_7,
        _ => false,
    }
}

/// The error of a refused table kind at `version`.
pub open spec fn table_refusal(kind: TableType, version: u32) -> AdamantDeserializeError {
    match kind {
        TableType::Metadata => AdamantDeserializeError::VersionFeatureMismatch { feature: FEATURE_METADATA, version },
        _ => AdamantDeserializeError::VersionFeatureMismatch { feature: FEATURE_ENUM_TABLES, version },
    }
}

/// Loading one table's bytes `t` of kind `kind` into the model: the
/// table's entries, read to the end of its bytes, are appended to
/// that pool.  A refused kind (see [`table_refused`]) fails first.
#[verifier::opaque]
pub open spec fn load_table(mm: ModuleModel, t: Seq<u8>, kind: TableType, version: u32) -> Result<ModuleModel, AdamantDeserializeError> {
    if table_refused(kind, version) {
        Err(table_refusal(kind, version))
    } else {
        match kind {
            TableType::ModuleHandles => match de_until::<ModuleHandle>(t, 0) {
                Err(e) => Err(e),
                Ok((vs, _)) => Ok(ModuleModel { module_handles: mm.module_handles + vs, ..mm }),
            },
            TableType::DatatypeHandles => match de_until::<DatatypeHandle>(t, 0) {
                Err(e) => Err(e),
                Ok((vs, _)) => Ok(ModuleModel { datatype_handles: mm.datatype_handles + vs, ..mm }),
            },
            TableType::FunctionHandles => match de_until::<FunctionHandle>(t, 0) {
                Err(e) => Err(e),
                Ok((vs, _)) => Ok(ModuleModel { function_handles: mm.function_handles + vs, ..mm }),
            },
            TableType::FunctionInst => match de_until::<FunctionInstantiation>(t, 0) {
                Err(e) => Err(e),
                Ok((vs, _)) => Ok(ModuleModel { function_instantiations: mm.function_instantiations + vs, ..mm }),
            },
            TableType::Signatures => match de_until::<Signature>(t, 0) {
                Err(e) => Err(e),
                Ok((vs, _)) => Ok(ModuleModel { signatures: mm.signatures + vs, ..mm }),
            },
            TableType::Identifiers => match de_until::<String>(t, 0) {
                Err(e) => Err(e),
                Ok((vs, _)) => Ok(ModuleModel { identifiers: mm.identifiers + vs, ..mm }),
            },
            TableType::AddressIdentifiers => match de_until::<Address>(t, 0) {
                Err(e) => Err(e),
                Ok((vs, _)) => Ok(ModuleModel { address_identifiers: mm.address_identifiers + vs, ..mm }),
            },
            TableType::ConstantPool => match de_until::<Constant>(t, 0) {
                Err(e) => Err(e),
                Ok((vs, _)) => Ok(ModuleModel { constant_pool: mm.constant_pool + vs, ..mm }),
            },
            TableType::Metadata => match de_until::<Metadata>(t, 0) {
                Err(e) => Err(e),
                Ok((vs, _)) => Ok(ModuleModel { metadata: mm.metadata + vs, ..mm }),
            },
            TableType::StructDefs => match de_until::<StructDefinition>(t, 0) {
                Err(e) => Err(e),
                Ok((vs, _)) => Ok(ModuleModel { struct_defs: mm.struct_defs + vs, ..mm }),
            },
            TableType::StructDefInst => match de_until::<StructDefInstantiation>(t, 0) {
                Err(e) => Err(e),
                Ok((vs, _)) => Ok(ModuleModel { struct_def_instantiations: mm.struct_def_instantiations + vs, ..mm }),
            },
            TableType::FunctionDefs => match de_function_defs_until(t, 0, version) {
                Err(e) => Err(e),
                Ok((vs, _)) => Ok(ModuleModel { function_defs: mm.function_defs + vs, ..mm }),
            },
            TableType::FieldHandle => match de_until::<FieldHandle>(t, 0) {
                Err(e) => Err(e),
                Ok((vs, _)) => Ok(ModuleModel { field_handles: mm.field_handles + vs, ..mm }),
            },
            TableType::FieldInst => match de_until::<FieldInstantiation>(t, 0) {
                Err(e) => Err(e),
                Ok((vs, _)) => Ok(ModuleModel { field_instantiations: mm.field_instantiations + vs, ..mm }),
            },
            TableType::FriendDecls => match de_until::<ModuleHandle>(t, 0) {
                Err(e) => Err(e),
                Ok((vs, _)) => Ok(ModuleModel { friend_decls: mm.friend_decls + vs, ..mm }),
            },
            TableType::EnumDefs => match de_until::<EnumDefinition>(t, 0) {
                Err(e) => Err(e),
                Ok((vs, _)) => Ok(ModuleModel { enum_defs: mm.enum_defs + vs, ..mm }),
            },
            TableType::EnumDefInst => match de_until::<EnumDefInstantiation>(t, 0) {
                Err(e) => Err(e),
                Ok((vs, _)) => Ok(ModuleModel { enum_def_instantiations: mm.enum_def_instantiations + vs, ..mm }),
            },
            TableType::VariantHandles => match de_until::<VariantHandle>(t, 0) {
                Err(e) => Err(e),
                Ok((vs, _)) => Ok(ModuleModel { variant_handles: mm.variant_handles + vs, ..mm }),
            },
            TableType::VariantInstHandles => match de_until::<VariantInstantiationHandle>(t, 0) {
                Err(e) => Err(e),
                Ok((vs, _)) => Ok(ModuleModel { variant_instantiation_handles: mm.variant_instantiation_handles + vs, ..mm }),
            },
        }
    }
}

/// The model after loading a table fails: a refused kind leaves it as
/// it was; otherwise the entries read before the failing one have been
/// appended to that pool.
pub open spec fn load_table_partial(mm: ModuleModel, t: Seq<u8>, kind: TableType, version: u32) -> ModuleModel {
    if table_refused(kind, version) {
        mm
    } else {
        match kind {
            TableType::ModuleHandles => ModuleModel { module_handles: mm.module_handles + de_until_read::<ModuleHandle>(t, 0), ..mm },
            TableType::DatatypeHandles => ModuleModel { datatype_handles: mm.datatype_handles + de_until_read::<DatatypeHandle>(t, 0), ..mm },
            TableType::FunctionHandles => ModuleModel { function_handles: mm.function_handles + de_until_read::<FunctionHandle>(t, 0), ..mm },
            TableType::FunctionInst => ModuleModel { function_instantiations: mm.function_instantiations + de_until_read::<FunctionInstantiation>(t, 0), ..mm },
            TableType::Signatures => ModuleModel { signatures: mm.signatures + de_until_read::<Signature>(t, 0), ..mm },
            TableType::Identifiers => ModuleModel { identifiers: mm.identifiers + de_until_read::<String>(t, 0), ..mm },
            TableType::AddressIdentifiers => ModuleModel { address_identifiers: mm.address_identifiers + de_until_read::<Address>(t, 0), ..mm },
            TableType::ConstantPool => ModuleModel { constant_pool: mm.constant_pool + de_until_read::<Constant>(t, 0), ..mm },
            TableType::Metadata => ModuleModel { metadata: mm.metadata + de_until_read::<Metadata>(t, 0), ..mm },
            TableType::StructDefs => ModuleModel { struct_defs: mm.struct_defs + de_until_read::<StructDefinition>(t, 0), ..mm },
            TableType::StructDefInst => ModuleModel { struct_def_instantiations: mm.struct_def_instantiations + de_until_read::<StructDefInstantiation>(t, 0), ..mm },
            TableType::FunctionDefs => ModuleModel { function_defs: mm.function_defs + de_function_defs_read(t, 0, version), ..mm },
            TableType::FieldHandle => ModuleModel { field_handles: mm.field_handles + de_until_read::<FieldHandle>(t, 0), ..mm },
            TableType::FieldInst => ModuleModel { field_instantiations: mm.field_instantiations + de_until_read::<FieldInstantiation>(t, 0), ..mm },
            TableType::FriendDecls => ModuleModel { friend_decls: mm.friend_decls + de_until_read::<ModuleHandle>(t, 0), ..mm },
            TableType::EnumDefs => ModuleModel { enum_defs: mm.enum_defs + de_until_read::<EnumDefinition>(t, 0), ..mm },
            TableType::EnumDefInst => ModuleModel { enum_def_instantiations: mm.enum_def_instantiations + de_until_read::<EnumDefInstantiation>(t, 0), ..mm },
            TableType::VariantHandles => ModuleModel { variant_handles: mm.variant_handles + de_until_read::<VariantHandle>(t, 0), ..mm },
            TableType::VariantInstHandles => ModuleModel { variant_instantiation_handles: mm.variant_instantiation_handles + de_until_read::<VariantInstantiationHandle>(t, 0), ..mm },
        }
    }
}

/// Loads one table's bytes into the module, appending its entries to
/// the pool of its kind.  On an error the entries read before the
/// failing one stay appended; a refused kind changes nothing.
pub fn load_table_into(cursor: &mut Cursor, module: &mut AdamantCompiledModule, kind: TableType, version: u32) -> (r: Result<(), AdamantDeserializeError>)
    requires
        old(cursor).pos() == 0,
    ensures
        final(cursor).data() == old(cursor).data(),
        table_refused(kind, version) ==> *final(cursor) == *old(cursor),
        match load_table(module_model(*old(module)), old(cursor).data(), kind, version) {
            Ok(mm) => r is Ok && module_model(*final(module)) == mm && final(cursor).pos() == old(cursor).data().len(),
            Err(e) => r == Err::<(), AdamantDeserializeError>(e) && module_model(*final(module))
                == load_table_partial(module_model(*old(module)), old(cursor).data(), kind, version),
        },
{
    reveal(load_table);
    match kind {
        TableType::ModuleHandles => {
            read_until::<ModuleHandle>(cursor, &mut module.module_handles)
        },
        TableType::DatatypeHandles => {
            read_until::<DatatypeHandle>(cursor, &mut module.datatype_handles)
        },
        TableType::FunctionHandles => {
            read_until::<FunctionHandle>(cursor, &mut module.function_handles)
        },
        TableType::FunctionInst => {
            read_until::<FunctionInstantiation>(cursor, &mut module.function_instantiations)
        },
        TableType::Signatures => {
            read_until::<Signature>(cursor, &mut module.signatures)
        },
        TableType::Identifiers => {
            read_until::<String>(cursor, &mut module.identifiers)
        },
        TableType::AddressIdentifiers => {
            read_until::<Address>(cursor, &mut module.address_identifiers)
        },
        TableType::ConstantPool => {
            read_until::<Constant>(cursor, &mut module.constant_pool)
        },
        TableType::Metadata => {
            if version < VERSION_5 {
                return Err(AdamantDeserializeError::VersionFeatureMismatch { feature: FEATURE_METADATA, version });
            }
            read_until::<Metadata>(cursor, &mut module.metadata)
        },
        TableType::StructDefs => {
            read_until::<StructDefinition>(cursor, &mut module.struct_defs)
        },
        TableType::StructDefInst => {
            read_until::<StructDefInstantiation>(cursor, &mut module.struct_def_instantiations)
        },
        TableType::FunctionDefs => {
            load_function_definitions(cursor, &mut module.function_defs, version)
        },
        TableType::FieldHandle => {
            read_until::<FieldHandle>(cursor, &mut module.field_handles)
        },
        TableType::FieldInst => {
            read_until::<FieldInstantiation>(cursor, &mut module.field_instantiations)
        },
        TableType::FriendDecls => {
            read_until::<ModuleHandle>(cursor, &mut module.friend_decls)
        },
        TableType::EnumDefs => {
            if version < VERSION_7 {
                return Err(AdamantDeserializeError::VersionFeatureMismatch { feature: FEATURE_ENUM_TABLES, version });
            }
            read_until::<EnumDefinition>(cursor, &mut module.enum_defs)
        },
        TableType::EnumDefInst => {
            if version < VERSION_7 {
                return Err(AdamantDeserializeError::VersionFeatureMismatch { feature: FEATURE_ENUM_TABLES, version });
            }
            read_until::<EnumDefInstantiation>(cursor, &mut module.enum_def_instantiations)
        },
        TableType::VariantHandles => {
            if version < VERSION_7 {
                return Err(AdamantDeserializeError::VersionFeatureMismatch { feature: FEATURE_ENUM_TABLES, version });
            }
            read_until::<VariantHandle>(cursor, &mut module.variant_handles)
        },
        TableType::VariantInstHandles => {
            if version < VERSION_7 {
                return Err(AdamantDeserializeError::VersionFeatureMismatch { feature: FEATURE_ENUM_TABLES, version });
            }
            read_until::<VariantInstantiationHandle>(cursor, &mut module.variant_instantiation_handles)
        },
    }
}


// ---------- Header and table index ----------

/// The four bytes of a magic, as an array.
pub open spec fn magic_of(b: Seq<u8>) -> [u8; 4] {
    choose|a: [u8; 4]| a@ == b
}

/// An array is the array of its bytes.
proof fn lemma_magic_of(a: [u8; 4], b: Seq<u8>)
    requires
        a@ == b,
    ensures
        magic_of(b) == a,
{
    broadcast use vstd::array::axiom_array_ext_equal;

    let c = magic_of(b);
    assert(c@ == b);
    assert(forall|i: int| 0 <= i < 4 ==> c[i] == c@[i] && a[i] == a@[i]);
    assert(c =~= a);
}


/// A table-index entry: the table's kind, offset and length.
pub type TableEntry = (TableType, u32, u32);

/// Reading a table-index entry: the kind's byte, the offset and the
/// length, each bounded by `u32::MAX`.
pub open spec fn de_table_entry(s: Seq<u8>, p: int) -> DeResult<TableEntry> {
    match de_u8(s, p) {
        Err(e) => Err(e),
        Ok((kb, q)) => match spec_table_type_of_byte(kb) {
            None => Err(AdamantDeserializeError::UnknownTableKind(kb)),
            Some(k) => match de_bounded(s, q, 0xffff_ffff, KIND_TABLE_OFFSET) {
                Err(e) => Err(e),
                Ok((off, r)) => match de_bounded(s, r, 0xffff_ffff, KIND_TABLE_SIZE) {
                    Err(e) => Err(e),
                    Ok((cnt, r2)) => Ok(((k, off as u32, cnt as u32), r2)),
                },
            },
        },
    }
}

/// Reading `n` table-index entries.
pub open spec fn de_table_entries(s: Seq<u8>, p: int, n: nat) -> DeResult<Seq<TableEntry>>
    decreases n,
{
    if n == 0 {
        Ok((Seq::empty(), p))
    } else {
        match de_table_entries(s, p, (n - 1) as nat) {
            Err(e) => Err(e),
            Ok((es, q)) => match de_table_entry(s, q) {
                Err(e) => Err(e),
                Ok((t, r)) => Ok((es.push(t), r)),
            },
        }
    }
}

proof fn lemma_de_table_entries_error(s: Seq<u8>, p: int, n: nat, m: nat)
    requires
        n <= m,
        de_table_entries(s, p, n) is Err,
    ensures
        de_table_entries(s, p, m) == de_table_entries(s, p, n),
    decreases m - n,
{
    if n < m {
        lemma_de_table_entries_error(s, p, n, (m - 1) as nat);
    }
}

/// Reads a table-index entry.
fn read_table_entry(cursor: &mut Cursor) -> (r: Result<TableEntry, AdamantDeserializeError>)
    ensures
        final(cursor).data() == old(cursor).data(),
        match de_table_entry(old(cursor).data(), old(cursor).pos() as int) {
            Ok((t, q)) => r == Ok::<TableEntry, AdamantDeserializeError>(t) && final(cursor).pos() == q,
            Err(e) => r == Err::<TableEntry, AdamantDeserializeError>(e),
        },
{
    let kb = match read_u8(cursor) {
        Ok(b) => b,
        Err(e) => return Err(e),
    };
    let k = match TableType::from_byte(kb) {
        Some(k) => k,
        None => return Err(AdamantDeserializeError::UnknownTableKind(kb)),
    };
    let off = match read_bounded(cursor, 0xffff_ffff, KIND_TABLE_OFFSET) {
        Ok(v) => v,
        Err(e) => return Err(e),
    };
    let cnt = match read_bounded(cursor, 0xffff_ffff, KIND_TABLE_SIZE) {
        Ok(v) => v,
        Err(e) => return Err(e),
    };
    Ok((k, off as u32, cnt as u32))
}

/// Reads `n` table-index entries.
fn read_table_entries(cursor: &mut Cursor, n: u8) -> (r: Result<Vec<TableEntry>, AdamantDeserializeError>)
    ensures
        final(cursor).data() == old(cursor).data(),
        match de_table_entries(old(cursor).data(), old(cursor).pos() as int, n as nat) {
            Ok((es, q)) => r matches Ok(v) && v@ == es && final(cursor).pos() == q,
            Err(e) => r == Err::<Vec<TableEntry>, AdamantDeserializeError>(e),
        },
{
    let ghost s = cursor.data();
    let ghost p = cursor.pos() as int;
    let mut out: Vec<TableEntry> = Vec::new();
    let mut i: u8 = 0;
    while i < n
        invariant
            i <= n,
            cursor.data() == s,
            s == old(cursor).data(),
            p == old(cursor).pos(),
            de_table_entries(s, p, i as nat) == Ok::<(Seq<TableEntry>, int), AdamantDeserializeError>((out@, cursor.pos() as int)),
        decreases n - i,
    {
        match read_table_entry(cursor) {
            Ok(t) => out.push(t),
            Err(e) => {
                proof {
                    lemma_de_table_entries_error(s, p, (i + 1) as nat, n as nat);
                }
                return Err(e);
            },
        }
        i = i + 1;
    }
    Ok(out)
}

/// Where an entry with offset `key` goes in a list sorted by offset:
/// after every entry whose offset is at most `key`.
pub open spec fn insert_pos(sorted: Seq<TableEntry>, key: u32) -> int
    decreases sorted.len(),
{
    if sorted.len() == 0 {
        0
    } else if sorted.last().1 <= key {
        sorted.len() as int
    } else {
        insert_pos(sorted.drop_last(), key)
    }
}

/// The entries ordered by offset, entries with equal offsets kept in
/// their order (a stable sort).
pub open spec fn sort_tables(ts: Seq<TableEntry>) -> Seq<TableEntry>
    decreases ts.len(),
{
    if ts.len() == 0 {
        Seq::empty()
    } else {
        let s = sort_tables(ts.drop_last());
        s.insert(insert_pos(s, ts.last().1), ts.last())
    }
}

proof fn lemma_insert_pos_bound(sorted: Seq<TableEntry>, key: u32)
    ensures
        0 <= insert_pos(sorted, key) <= sorted.len(),
    decreases sorted.len(),
{
    if sorted.len() > 0 {
        lemma_insert_pos_bound(sorted.drop_last(), key);
    }
}

/// Sorts the entries by offset, stably.
fn sort_table_entries(entries: &Vec<TableEntry>) -> (r: Vec<TableEntry>)
    ensures
        r@ == sort_tables(entries@),
{
    let mut sorted: Vec<TableEntry> = Vec::new();
    let mut i: usize = 0;
    assert(entries@.subrange(0, 0) =~= Seq::<TableEntry>::empty());
    while i < entries.len()
        invariant
            i <= entries@.len(),
            sorted@ == sort_tables(entries@.subrange(0, i as int)),
        decreases entries@.len() - i,
    {
        let e = entries[i];
        let mut j: usize = sorted.len();
        assert(sorted@.subrange(0, sorted@.len() as int) =~= sorted@);
        while j > 0 && sorted[j - 1].1 > e.1
            invariant
                j <= sorted@.len(),
                insert_pos(sorted@, e.1) == insert_pos(sorted@.subrange(0, j as int), e.1),
            decreases j,
        {
            assert(sorted@.subrange(0, j as int).drop_last() =~= sorted@.subrange(0, j as int - 1));
            j = j - 1;
        }
        proof {
            assert(sorted@.subrange(0, sorted@.len() as int) =~= sorted@);
            if j > 0 {
                assert(sorted@.subrange(0, j as int).last() == sorted@[j as int - 1]);
            }
            let pre = entries@.subrange(0, i as int);
            let post = entries@.subrange(0, i as int + 1);
            assert(post.drop_last() =~= pre);
            assert(post.last() == e);
        }
        sorted.insert(j, e);
        i = i + 1;
    }
    assert(entries@.subrange(0, entries@.len() as int) =~= entries@);
    sorted
}

/// Checking the sorted tables from position `i`: each must start
/// where the previous ended (`cur`), be nonempty, keep the total
/// within `u32`, be of a kind not yet seen, and end within the
/// `avail` bytes of contents.  The result is the tables' total size.
pub open spec fn check_tables_from(ts: Seq<TableEntry>, i: nat, cur: nat, seen: Seq<TableType>, avail: nat) -> Result<nat, AdamantDeserializeError>
    decreases ts.len() - i,
{
    if i >= ts.len() {
        Ok(cur)
    } else {
        let t = ts[i as int];
        if t.1 != cur {
            Err(AdamantDeserializeError::BadTableLayout { reason: LAYOUT_NON_CONTIGUOUS })
        } else if t.2 == 0 {
            Err(AdamantDeserializeError::BadTableLayout { reason: LAYOUT_ZERO_LENGTH })
        } else if cur + t.2 > u32::MAX {
            Err(AdamantDeserializeError::BadTableLayout { reason: LAYOUT_OVERFLOW })
        } else if seen.contains(t.0) {
            Err(AdamantDeserializeError::DuplicateTable(t.0))
        } else if cur + t.2 > avail {
            Err(AdamantDeserializeError::BadTableLayout { reason: LAYOUT_PAST_END })
        } else {
            check_tables_from(ts, i + 1, (cur + t.2) as nat, seen.push(t.0), avail)
        }
    }
}

/// After a successful check every table from `i` ends within the
/// total, and the total within the contents.
proof fn lemma_check_tables_bounds(ts: Seq<TableEntry>, i: nat, cur: nat, seen: Seq<TableType>, avail: nat)
    requires
        cur <= avail,
        check_tables_from(ts, i, cur, seen, avail) is Ok,
    ensures
        cur <= check_tables_from(ts, i, cur, seen, avail)->Ok_0 <= avail,
        forall|j: int| i <= j < ts.len() ==> ts[j].1 + ts[j].2 <= check_tables_from(ts, i, cur, seen, avail)->Ok_0,
    decreases ts.len() - i,
{
    if i < ts.len() {
        let t = ts[i as int];
        lemma_check_tables_bounds(ts, i + 1, (cur + t.2) as nat, seen.push(t.0), avail);
    }
}

/// Whether a kind is among those seen.
fn seen_contains(seen: &Vec<TableType>, k: TableType) -> (r: bool)
    ensures
        r == seen@.contains(k),
{
    let mut i: usize = 0;
    while i < seen.len()
        invariant
            i <= seen@.len(),
            forall|j: int| 0 <= j < i ==> seen@[j] != k,
        decreases seen@.len() - i,
    {
        if seen[i] == k {
            return true;
        }
        i = i + 1;
    }
    false
}

/// Checks the sorted tables; returns their total size.
fn check_tables(ts: &Vec<TableEntry>, avail: usize) -> (r: Result<u32, AdamantDeserializeError>)
    ensures
        match check_tables_from(ts@, 0, 0, Seq::empty(), avail as nat) {
            Ok(total) => r == Ok::<u32, AdamantDeserializeError>(total as u32) && total <= u32::MAX,
            Err(e) => r == Err::<u32, AdamantDeserializeError>(e),
        },
{
    let mut cur: u32 = 0;
    let mut seen: Vec<TableType> = Vec::new();
    let mut i: usize = 0;
    while i < ts.len()
        invariant
            i <= ts@.len(),
            check_tables_from(ts@, 0, 0, Seq::empty(), avail as nat) == check_tables_from(ts@, i as nat, cur as nat, seen@, avail as nat),
        decreases ts@.len() - i,
    {
        let (kind, offset, count) = ts[i];
        if offset != cur {
            return Err(AdamantDeserializeError::BadTableLayout { reason: LAYOUT_NON_CONTIGUOUS });
        }
        if count == 0 {
            return Err(AdamantDeserializeError::BadTableLayout { reason: LAYOUT_ZERO_LENGTH });
        }
        if cur as u64 + count as u64 > 0xffff_ffff {
            return Err(AdamantDeserializeError::BadTableLayout { reason: LAYOUT_OVERFLOW });
        }
        if seen_contains(&seen, kind) {
            return Err(AdamantDeserializeError::DuplicateTable(kind));
        }
        let next = cur + count;
        if next as usize > avail {
            return Err(AdamantDeserializeError::BadTableLayout { reason: LAYOUT_PAST_END });
        }
        seen.push(kind);
        cur = next;
        i = i + 1;
    }
    Ok(cur)
}

/// Loading the sorted tables from position `i` into the model, each
/// from its bytes within the contents starting at `cs`.
#[verifier::opaque]
pub open spec fn load_tables_from(b: Seq<u8>, cs: int, ts: Seq<TableEntry>, i: nat, mm: ModuleModel, version: u32) -> Result<ModuleModel, AdamantDeserializeError>
    decreases ts.len() - i,
{
    if i >= ts.len() {
        Ok(mm)
    } else {
        let t = ts[i as int];
        match load_table(mm, b.subrange(cs + t.1, cs + t.1 + t.2), t.0, version) {
            Err(e) => Err(e),
            Ok(mm2) => load_tables_from(b, cs, ts, i + 1, mm2, version),
        }
    }
}

/// Loading from position `i` takes one table, then the rest.
pub proof fn lemma_load_tables_step(b: Seq<u8>, cs: int, ts: Seq<TableEntry>, i: nat, mm: ModuleModel, version: u32)
    requires
        i < ts.len(),
    ensures
        load_tables_from(b, cs, ts, i, mm, version) == (match load_table(mm, b.subrange(cs + ts[i as int].1, cs + ts[i as int].1 + ts[i as int].2), ts[i as int].0, version) {
            Err(e) => Err(e),
            Ok(mm2) => load_tables_from(b, cs, ts, i + 1, mm2, version),
        }),
{
    reveal(load_tables_from);
}

/// Loading from past the last table leaves the model as it is.
pub proof fn lemma_load_tables_done(b: Seq<u8>, cs: int, ts: Seq<TableEntry>, i: nat, mm: ModuleModel, version: u32)
    requires
        i >= ts.len(),
    ensures
        load_tables_from(b, cs, ts, i, mm, version) == Ok::<ModuleModel, AdamantDeserializeError>(mm),
{
    reveal(load_tables_from);
}

/// Loads the sorted tables into the module.
fn load_all_tables(bytes: &[u8], cs: usize, sorted: &Vec<TableEntry>, total: u32, module: &mut AdamantCompiledModule, version: u32) -> (r: Result<(), AdamantDeserializeError>)
    requires
        cs + total <= bytes@.len(),
        forall|j: int| 0 <= j < sorted@.len() ==> sorted@[j].1 + sorted@[j].2 <= total,
    ensures
        match load_tables_from(bytes@, cs as int, sorted@, 0, module_model(*old(module)), version) {
            Ok(mm) => r is Ok && module_model(*final(module)) == mm,
            Err(e) => r == Err::<(), AdamantDeserializeError>(e),
        },
{
    let ghost b = bytes@;
    let ghost start_model = module_model(*module);
    let n = bytes.len();
    let mut i: usize = 0;
    while i < sorted.len()
        invariant
            i <= sorted@.len(),
            b == bytes@,
            n == b.len(),
            cs + total <= b.len(),
            forall|j: int| 0 <= j < sorted@.len() ==> sorted@[j].1 + sorted@[j].2 <= total,
            start_model == module_model(*old(module)),
            load_tables_from(b, cs as int, sorted@, 0, start_model, version)
                == load_tables_from(b, cs as int, sorted@, i as nat, module_model(*module), version),
        decreases sorted@.len() - i,
    {
        let (kind, offset, len) = sorted[i];
        assert(sorted@[i as int].1 + sorted@[i as int].2 <= total);
        let start = cs + offset as usize;
        let end = start + len as usize;
        let sub = vstd::slice::slice_subrange(bytes, start, end);
        let mut tc = Cursor::new(sub);
        proof {
            lemma_load_tables_step(b, cs as int, sorted@, i as nat, module_model(*module), version);
        }
        match load_table_into(&mut tc, module, kind, version) {
            Ok(()) => {},
            Err(e) => return Err(e),
        }
        i = i + 1;
    }
    proof {
        lemma_load_tables_done(b, cs as int, sorted@, i as nat, module_model(*module), version);
    }
    Ok(())
}

/// Whether the first four bytes are the publishable or the
/// unpublishable magic.
pub open spec fn known_magic(b: Seq<u8>) -> bool {
    b.subrange(0, 4) == spec_magic(true) || b.subrange(0, 4) == spec_magic(false)
}

/// The module a byte string decodes to, or the first error: at least
/// eight bytes; a known magic; a supported version (with the flavor
/// byte from version 7 on); the table count and index; the tables,
/// checked in order of offset and loaded in that order; the index of
/// the module's own handle right after the contents; no byte left.
pub open spec fn spec_adamant_deserialize(b: Seq<u8>) -> Result<ModuleModel, AdamantDeserializeError> {
    if b.len() < 8 {
        Err(AdamantDeserializeError::UnexpectedEof)
    } else if !known_magic(b) {
        Err(AdamantDeserializeError::BadMagic(magic_of(b.subrange(0, 4))))
    } else {
        let publishable = b.subrange(0, 4) == spec_magic(true);
        let word = spec_u32_from_le_bytes(b.subrange(4, 8));
        let version = spec_decode_version(word);
        if version < VERSION_MIN || version > VERSION_MAX {
            Err(AdamantDeserializeError::UnsupportedVersion(version))
        } else if version >= VERSION_7 && spec_decode_flavor(word) != Some(SUI_FLAVOR) {
            match spec_decode_flavor(word) {
                Some(f) => Err(AdamantDeserializeError::UnknownFlavor(f)),
                None => Err(AdamantDeserializeError::BadTableLayout { reason: LAYOUT_MISSING_FLAVOR }),
            }
        } else {
            match de_u8(b, 8) {
                Err(e) => Err(e),
                Ok((count, p)) => match de_table_entries(b, p, count as nat) {
                    Err(e) => Err(e),
                    Ok((entries, cs)) => if cs > b.len() {
                        Err(AdamantDeserializeError::UnexpectedEof)
                    } else {
                        let sorted = sort_tables(entries);
                        match check_tables_from(sorted, 0, 0, Seq::empty(), (b.len() - cs) as nat) {
                            Err(e) => Err(e),
                            Ok(total) => match load_tables_from(b, cs, sorted, 0, empty_module_model(version, publishable), version) {
                                Err(e) => Err(e),
                                Ok(mm) => match de_index(b, cs + total, KIND_MODULE_HANDLE_INDEX) {
                                    Err(e) => Err(e),
                                    Ok((idx, q)) => if q != b.len() {
                                        Err(AdamantDeserializeError::TrailingBytes)
                                    } else {
                                        Ok(ModuleModel { self_module_handle_idx: ModuleHandleIndex(idx), ..mm })
                                    },
                                },
                            },
                        }
                    },
                },
            }
        }
    }
}

/// The models of no values.
pub proof fn lemma_models_empty<T: WireDecode>(s: Seq<T>)
    requires
        s.len() == 0,
    ensures
        models(s) == Seq::<T::Model>::empty(),
{
    assert(models(s) =~= Seq::<T::Model>::empty());
}

/// A module with no tables.
fn empty_module(version: u32, publishable: bool) -> (r: AdamantCompiledModule)
    ensures
        module_model(r) == empty_module_model(version, publishable),
{
    let m = AdamantCompiledModule {
        version,
        publishable,
        self_module_handle_idx: ModuleHandleIndex(0),
        module_handles: Vec::new(),
        datatype_handles: Vec::new(),
        function_handles: Vec::new(),
        field_handles: Vec::new(),
        friend_decls: Vec::new(),
        struct_def_instantiations: Vec::new(),
        function_instantiations: Vec::new(),
        field_instantiations: Vec::new(),
        signatures: Vec::new(),
        identifiers: Vec::new(),
        address_identifiers: Vec::new(),
        constant_pool: Vec::new(),
        metadata: Vec::new(),
        struct_defs: Vec::new(),
        function_defs: Vec::new(),
        enum_defs: Vec::new(),
        enum_def_instantiations: Vec::new(),
        variant_handles: Vec::new(),
        variant_instantiation_handles: Vec::new(),
    };
    proof {
        lemma_models_empty(m.module_handles@);
        lemma_models_empty(m.datatype_handles@);
        lemma_models_empty(m.function_handles@);
        lemma_models_empty(m.field_handles@);
        lemma_models_empty(m.friend_decls@);
        lemma_models_empty(m.struct_def_instantiations@);
        lemma_models_empty(m.function_instantiations@);
        lemma_models_empty(m.field_instantiations@);
        lemma_models_empty(m.signatures@);
        lemma_models_empty(m.identifiers@);
        lemma_models_empty(m.address_identifiers@);
        lemma_models_empty(m.constant_pool@);
        lemma_models_empty(m.metadata@);
        lemma_models_empty(m.struct_defs@);
        lemma_models_empty(m.enum_defs@);
        lemma_models_empty(m.enum_def_instantiations@);
        lemma_models_empty(m.variant_handles@);
        lemma_models_empty(m.variant_instantiation_handles@);
        assert(function_defs_model(m.function_defs@) =~= Seq::<FunctionDefModel>::empty());
    }
    m
}

/// Deserializes a module.  Decoding is strict and canonical: it
/// accepts exactly the bytes [`crate::module_wire::adamant_serialize`]
/// writes.
pub fn adamant_deserialize(bytes: &[u8]) -> (r: Result<AdamantCompiledModule, AdamantDeserializeError>)
    ensures
        match spec_adamant_deserialize(bytes@) {
            Ok(mm) => r matches Ok(m) && module_model(m) == mm,
            Err(e) => r == Err::<AdamantCompiledModule, AdamantDeserializeError>(e),
        },
{
    let ghost b = bytes@;
    if bytes.len() < 8 {
        return Err(AdamantDeserializeError::UnexpectedEof);
    }
    let publishable = if bytes[0] == 0xa1 && bytes[1] == 0x1c && bytes[2] == 0xeb && bytes[3] == 0x0b {
        assert(b.subrange(0, 4) =~= spec_magic(true));
        true
    } else if bytes[0] == 0xde && bytes[1] == 0xad && bytes[2] == 0xc0 && bytes[3] == 0xde {
        assert(b.subrange(0, 4) =~= spec_magic(false));
        assert(b.subrange(0, 4) != spec_magic(true)) by {
            assert(b.subrange(0, 4)[0] != spec_magic(true)[0]);
        }
        false
    } else {
        let magic: [u8; 4] = [bytes[0], bytes[1], bytes[2], bytes[3]];
        proof {
            assert(magic@ =~= b.subrange(0, 4));
            if b.subrange(0, 4) == spec_magic(true) {
                assert(b.subrange(0, 4)[0] == spec_magic(true)[0]);
                assert(b.subrange(0, 4)[1] == spec_magic(true)[1]);
                assert(b.subrange(0, 4)[2] == spec_magic(true)[2]);
                assert(b.subrange(0, 4)[3] == spec_magic(true)[3]);
            }
            if b.subrange(0, 4) == spec_magic(false) {
                assert(b.subrange(0, 4)[0] == spec_magic(false)[0]);
                assert(b.subrange(0, 4)[1] == spec_magic(false)[1]);
                assert(b.subrange(0, 4)[2] == spec_magic(false)[2]);
                assert(b.subrange(0, 4)[3] == spec_magic(false)[3]);
            }
            lemma_magic_of(magic, b.subrange(0, 4));
        }
        return Err(AdamantDeserializeError::BadMagic(magic));
    };
    let word = u32_from_le_bytes(vstd::slice::slice_subrange(bytes, 4, 8));
    let version = decode_version(word);
    if version < VERSION_MIN || version > VERSION_MAX {
        return Err(AdamantDeserializeError::UnsupportedVersion(version));
    }
    if version >= VERSION_7 {
        match decode_flavor(word) {
            Some(f) => {
                if f != SUI_FLAVOR {
                    return Err(AdamantDeserializeError::UnknownFlavor(f));
                }
            },
            None => {
                return Err(AdamantDeserializeError::BadTableLayout { reason: LAYOUT_MISSING_FLAVOR });
            },
        }
    }
    let mut cursor = Cursor::new(bytes);
    cursor.set_position(8);
    let count = match read_u8(&mut cursor) {
        Ok(c) => c,
        Err(e) => return Err(e),
    };
    let entries = match read_table_entries(&mut cursor, count) {
        Ok(es) => es,
        Err(e) => return Err(e),
    };
    let cs = cursor.position();
    if cs > bytes.len() as u64 {
        return Err(AdamantDeserializeError::UnexpectedEof);
    }
    let cs = cs as usize;
    let sorted = sort_table_entries(&entries);
    let total = match check_tables(&sorted, bytes.len() - cs) {
        Ok(t) => t,
        Err(e) => return Err(e),
    };
    proof {
        lemma_check_tables_bounds(sorted@, 0, 0, Seq::empty(), (b.len() - cs) as nat);
    }
    let mut module = empty_module(version, publishable);
    match load_all_tables(bytes, cs, &sorted, total, &mut module, version) {
        Ok(()) => {},
        Err(e) => return Err(e),
    }
    cursor.set_position((cs + total as usize) as u64);
    let idx = match read_index(&mut cursor, KIND_MODULE_HANDLE_INDEX) {
        Ok(v) => v,
        Err(e) => return Err(e),
    };
    if cursor.position() != bytes.len() as u64 {
        return Err(AdamantDeserializeError::TrailingBytes);
    }
    module.self_module_handle_idx = ModuleHandleIndex(idx);
    Ok(module)
}

} // verus!
