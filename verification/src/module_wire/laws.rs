//! Round trip of the module wire format: decoding the bytes of a
//! module gives back the module (as its model), for every module
//! whose serialization succeeds and whose function bodies hold no
//! deprecated global-storage instruction ([`lemma_module_round_trip`]).

use super::decode::{
    code_unit_model, de_ability_set, de_blob, de_bounded, de_code_unit, de_counted, de_fixed,
    de_function_def, de_function_defs_until, de_index, de_items, de_jump_tables, de_token,
    de_tokens, de_u8, de_uleb, de_until, function_def_model, function_defs_model, models,
    token_model, token_models_prefix, DeResult, FunctionDefModel, WireDecode, check_tables_from,
    de_table_entries, de_table_entry, insert_pos, sort_tables, TableEntry, empty_module_model,
    lemma_load_tables_done, lemma_load_tables_step, lemma_models_empty, load_table,
    load_tables_from, module_model, ModuleModel, known_magic, spec_adamant_deserialize, TokenModel,
    AdamantDeserializeError,
};
use super::encode::{
    chain, phantom_byte, ser_blob, ser_bounded, ser_code_unit, ser_counted, ser_function_def,
    ser_function_defs, ser_items, ser_jump_tables, ser_length, ser_token, ser_tokens,
    ser_tokens_upto, spec_function_flags, spec_function_visibility_byte,
    spec_tables, spec_visibility_byte, table_refuse, table_step, has_enum_tables, lemma_table_step_err,
    fold_tables, kind_of_rank, plan_len, table_enc, table_nonempty, lemma_fold_step, lemma_fold_done,
    lemma_fold_err, spec_index_entries, spec_index_entry,
    SerResult, TableAcc, TableSlot, WireEncode, AdamantSerializeError, spec_adamant_serialize,
};
use super::format::{
    lemma_table_type_byte_round_trip, lemma_version_word_round_trip, spec_encode_version,
    spec_is_valid_identifier, spec_magic, spec_table_type_byte, TableType,
};
use crate::bytecode::{BytecodeInstruction, StructDefinitionIndex, VariantJumpTable, JumpTableInner};
use crate::bytecode_wire::{
    lemma_round_trip_at, spec_encode_function_body, spec_instruction_parts,
    spec_is_deprecated_global_storage_opcode,
};
use crate::module::ModuleHandleIndex;
use crate::module::{
    AbilitySet, AdamantCodeUnit, AdamantCompiledModule, AdamantFunctionDefinition, Visibility, Constant, DatatypeHandle, DatatypeTyParameter, EnumDefInstantiation,
    EnumDefinition, FieldDefinition, FieldHandle, FieldInstantiation, FunctionHandle,
    FunctionInstantiation, Metadata, ModuleHandle, Signature, SignatureToken,
    StructDefInstantiation, StructDefinition, StructFieldInformation, VariantDefinition,
    VariantHandle, VariantInstantiationHandle,
};
use crate::transaction::Address;
use crate::uleb128::{lemma_uleb128_encode_len, lemma_uleb128_round_trip, uleb128_encode};
use vstd::bytes::{lemma_auto_spec_u32_to_from_le_bytes, spec_u32_from_le_bytes, spec_u32_to_le_bytes};
use vstd::prelude::*;
use vstd::utf8::{decode_utf8, encode_utf8, encode_utf8_decode_utf8, encode_utf8_valid_utf8};

verus! {

broadcast use vstd::std_specs::vec::axiom_vec_index_decreases;

/// The bytes `b` stand in `s` from position `p`.
pub open spec fn at(s: Seq<u8>, p: int, b: Seq<u8>) -> bool {
    &&& 0 <= p
    &&& p + b.len() <= s.len()
    &&& s.subrange(p, p + b.len()) == b
}

/// Two byte strings standing one after the other.
pub proof fn lemma_at_split(s: Seq<u8>, p: int, a: Seq<u8>, b: Seq<u8>)
    requires
        at(s, p, a + b),
    ensures
        at(s, p, a),
        at(s, p + a.len(), b),
{
    let ab = a + b;
    assert(ab.len() == a.len() + b.len());
    assert(s.subrange(p, p + ab.len()) == ab);
    assert forall|k: int| 0 <= k < a.len() implies s.subrange(p, p + a.len())[k] == a[k] by {
        assert(s.subrange(p, p + ab.len())[k] == ab[k]);
    }
    assert(s.subrange(p, p + a.len()) =~= a);
    assert forall|k: int| 0 <= k < b.len() implies s.subrange(p + a.len(), p + a.len() + b.len())[k] == b[k] by {
        assert(s.subrange(p, p + ab.len())[a.len() + k] == ab[a.len() + k]);
    }
    assert(s.subrange(p + a.len(), p + a.len() + b.len()) =~= b);
}

/// Reading a ULEB128 value back from its encoding.
pub proof fn lemma_uleb_at(v: nat, s: Seq<u8>, p: int)
    requires
        v <= u64::MAX,
        at(s, p, uleb128_encode(v)),
    ensures
        de_uleb(s, p) == Ok::<(nat, int), super::decode::AdamantDeserializeError>((v, p + uleb128_encode(v).len())),
        uleb128_encode(v).len() >= 1,
{
    lemma_uleb128_round_trip(v, s, p);
    lemma_uleb128_encode_len(v);
}

/// Reading a bounded ULEB128 value back from its encoding.
pub proof fn lemma_bounded_at(v: nat, max: u64, kind: &'static str, s: Seq<u8>, p: int)
    requires
        v <= max,
        at(s, p, uleb128_encode(v)),
    ensures
        de_bounded(s, p, max, kind) == Ok::<(nat, int), super::decode::AdamantDeserializeError>((v, p + uleb128_encode(v).len())),
        uleb128_encode(v).len() >= 1,
{
    lemma_uleb_at(v, s, p);
}

/// Reading a table index back from its encoding.
pub proof fn lemma_index_at(v: u16, kind: &'static str, s: Seq<u8>, p: int)
    requires
        at(s, p, uleb128_encode(v as nat)),
    ensures
        de_index(s, p, kind) == Ok::<(u16, int), super::decode::AdamantDeserializeError>((v, p + uleb128_encode(v as nat).len())),
        uleb128_encode(v as nat).len() >= 1,
{
    lemma_uleb_at(v as nat, s, p);
}

/// Two table indices one after the other.
pub proof fn lemma_two_indices_at(a: u16, ka: &'static str, b: u16, kb: &'static str, s: Seq<u8>, p: int)
    requires
        at(s, p, uleb128_encode(a as nat) + uleb128_encode(b as nat)),
    ensures
        de_index(s, p, ka) == Ok::<(u16, int), super::decode::AdamantDeserializeError>((a, p + uleb128_encode(a as nat).len())),
        de_index(s, p + uleb128_encode(a as nat).len(), kb) == Ok::<(u16, int), super::decode::AdamantDeserializeError>(
            (b, p + uleb128_encode(a as nat).len() + uleb128_encode(b as nat).len()),
        ),
        uleb128_encode(a as nat).len() >= 1,
{
    lemma_at_split(s, p, uleb128_encode(a as nat), uleb128_encode(b as nat));
    lemma_index_at(a, ka, s, p);
    lemma_index_at(b, kb, s, p + uleb128_encode(a as nat).len());
}

/// Reading a length-prefixed byte string back from its encoding.
pub proof fn lemma_blob_at(bytes: Seq<u8>, max: u64, kind: &'static str, dmax: u64, dkind: &'static str, s: Seq<u8>, p: int)
    requires
        ser_blob(bytes, max, kind) is Ok,
        max <= dmax,
        at(s, p, ser_blob(bytes, max, kind)->Ok_0),
    ensures
        de_blob(s, p, dmax, dkind) == Ok::<(Seq<u8>, int), super::decode::AdamantDeserializeError>((bytes, p + ser_blob(bytes, max, kind)->Ok_0.len())),
        ser_blob(bytes, max, kind)->Ok_0.len() >= 1,
{
    let head = uleb128_encode(bytes.len());
    lemma_at_split(s, p, head, bytes);
    lemma_bounded_at(bytes.len(), dmax, dkind, s, p);
}

/// A value written and read back with the same format.
pub trait WireCodec: WireEncode + WireDecode {
    /// Reading a value's bytes gives the value's model back, and a
    /// value's bytes are never empty.
    proof fn lemma_codec(x: Self, s: Seq<u8>, p: int)
        requires
            x.spec_wire() is Ok,
            at(s, p, x.spec_wire()->Ok_0),
        ensures
            Self::spec_read(s, p) == Ok::<(Self::Model, int), super::decode::AdamantDeserializeError>((x.model(), p + x.spec_wire()->Ok_0.len())),
            x.spec_wire()->Ok_0.len() >= 1,
    ;
}

/// Reading values back from their bytes, one after the other.
pub proof fn lemma_items_at<T: WireCodec>(items: Seq<T>, s: Seq<u8>, p: int)
    requires
        ser_items(items) is Ok,
        at(s, p, ser_items(items)->Ok_0),
    ensures
        de_items::<T>(s, p, items.len()) == Ok::<(Seq<T::Model>, int), super::decode::AdamantDeserializeError>((models(items), p + ser_items(items)->Ok_0.len())),
    decreases items.len(),
{
    if items.len() == 0 {
        assert(models(items) =~= Seq::<T::Model>::empty());
    } else {
        let pre = items.drop_last();
        let x = items.last();
        let a = ser_items(pre)->Ok_0;
        let b = x.spec_wire()->Ok_0;
        lemma_at_split(s, p, a, b);
        lemma_items_at(pre, s, p);
        T::lemma_codec(x, s, p + a.len());
        assert(models(items) =~= models(pre).push(x.model()));
    }
}

/// Reading a counted list back from its bytes.
pub proof fn lemma_counted_at<T: WireCodec>(items: Seq<T>, max: u64, kind: &'static str, dmax: u64, dkind: &'static str, s: Seq<u8>, p: int)
    requires
        ser_counted(items, max, kind) is Ok,
        max <= dmax,
        at(s, p, ser_counted(items, max, kind)->Ok_0),
    ensures
        de_counted::<T>(s, p, dmax, dkind) == Ok::<(Seq<T::Model>, int), super::decode::AdamantDeserializeError>((models(items), p + ser_counted(items, max, kind)->Ok_0.len())),
        ser_counted(items, max, kind)->Ok_0.len() >= 1,
{
    let head = uleb128_encode(items.len());
    let tail = ser_items(items)->Ok_0;
    lemma_at_split(s, p, head, tail);
    lemma_bounded_at(items.len(), dmax, dkind, s, p);
    lemma_items_at(items, s, p + head.len());
}

/// `chain` is associative.
pub proof fn lemma_chain_assoc(a: SerResult, b: SerResult, c: SerResult)
    ensures
        chain(chain(a, b), c) == chain(a, chain(b, c)),
{
    match (a, b, c) {
        (Ok(x), Ok(y), Ok(z)) => {
            assert((x + y) + z =~= x + (y + z));
        },
        _ => {},
    }
}

/// The bytes of a list are those of its first value, then those of
/// the rest.
pub proof fn lemma_ser_items_cons<T: WireEncode>(x: T, rest: Seq<T>)
    ensures
        ser_items(seq![x] + rest) == chain(x.spec_wire(), ser_items(rest)),
    decreases rest.len(),
{
    let all = seq![x] + rest;
    if rest.len() == 0 {
        assert(all.drop_last() =~= Seq::<T>::empty());
        assert(all.last() == x);
        match x.spec_wire() {
            Ok(b) => {
                assert(Seq::<u8>::empty() + b =~= b);
                assert(b + Seq::<u8>::empty() =~= b);
            },
            Err(_) => {},
        }
    } else {
        assert(all.drop_last() =~= seq![x] + rest.drop_last());
        assert(all.last() == rest.last());
        lemma_ser_items_cons(x, rest.drop_last());
        lemma_chain_assoc(x.spec_wire(), ser_items(rest.drop_last()), rest.last().spec_wire());
        assert(ser_items(all) == chain(ser_items(all.drop_last()), all.last().spec_wire()));
        assert(ser_items(rest) == chain(ser_items(rest.drop_last()), rest.last().spec_wire()));
    }
}

/// Reading values to the end of their bytes gives them all back.
pub proof fn lemma_until_at<T: WireCodec>(items: Seq<T>, s: Seq<u8>, p: int)
    requires
        ser_items(items) is Ok,
        at(s, p, ser_items(items)->Ok_0),
        p + ser_items(items)->Ok_0.len() == s.len(),
    ensures
        de_until::<T>(s, p) == Ok::<(Seq<T::Model>, int), super::decode::AdamantDeserializeError>((models(items), s.len() as int)),
    decreases items.len(),
{
    if items.len() == 0 {
        assert(models(items) =~= Seq::<T::Model>::empty());
    } else {
        let x = items[0];
        let rest = items.drop_first();
        assert(items =~= seq![x] + rest);
        lemma_ser_items_cons(x, rest);
        let a = x.spec_wire()->Ok_0;
        let b = ser_items(rest)->Ok_0;
        lemma_at_split(s, p, a, b);
        T::lemma_codec(x, s, p);
        lemma_until_at(rest, s, p + a.len());
        assert(models(items) =~= seq![x.model()] + models(rest));
    }
}

// ---------- Plain entries ----------

impl WireCodec for ModuleHandle {
    proof fn lemma_codec(x: Self, s: Seq<u8>, p: int) {
        lemma_two_indices_at(x.address.0, super::decode::KIND_ADDRESS_INDEX, x.name.0, super::decode::KIND_IDENTIFIER_INDEX, s, p);
    }
}

impl WireCodec for AbilitySet {
    proof fn lemma_codec(x: Self, s: Seq<u8>, p: int) {
        lemma_uleb_at(x.0 as nat, s, p);
    }
}

impl WireCodec for DatatypeTyParameter {
    proof fn lemma_codec(x: Self, s: Seq<u8>, p: int) {
        let a = x.constraints.spec_wire()->Ok_0;
        let b = uleb128_encode(phantom_byte(x.is_phantom));
        lemma_at_split(s, p, a, b);
        AbilitySet::lemma_codec(x.constraints, s, p);
        lemma_bounded_at(phantom_byte(x.is_phantom), 1, super::decode::KIND_PHANTOM_FLAG, s, p + a.len());
    }
}

impl WireCodec for FunctionInstantiation {
    proof fn lemma_codec(x: Self, s: Seq<u8>, p: int) {
        lemma_two_indices_at(x.handle.0, super::decode::KIND_FUNCTION_HANDLE_INDEX, x.type_parameters.0, super::decode::KIND_SIGNATURE_INDEX, s, p);
    }
}

impl WireCodec for StructDefInstantiation {
    proof fn lemma_codec(x: Self, s: Seq<u8>, p: int) {
        lemma_two_indices_at(x.def.0, super::decode::KIND_STRUCT_DEF_INDEX, x.type_parameters.0, super::decode::KIND_SIGNATURE_INDEX, s, p);
    }
}

impl WireCodec for EnumDefInstantiation {
    proof fn lemma_codec(x: Self, s: Seq<u8>, p: int) {
        lemma_two_indices_at(x.def.0, super::decode::KIND_ENUM_DEF_INDEX, x.type_parameters.0, super::decode::KIND_SIGNATURE_INDEX, s, p);
    }
}

impl WireCodec for FieldInstantiation {
    proof fn lemma_codec(x: Self, s: Seq<u8>, p: int) {
        lemma_two_indices_at(x.handle.0, super::decode::KIND_FIELD_HANDLE_INDEX, x.type_parameters.0, super::decode::KIND_SIGNATURE_INDEX, s, p);
    }
}

impl WireCodec for FieldHandle {
    proof fn lemma_codec(x: Self, s: Seq<u8>, p: int) {
        let a = uleb128_encode(x.owner.0 as nat);
        let b = uleb128_encode(x.field as nat);
        lemma_at_split(s, p, a, b);
        lemma_index_at(x.owner.0, super::decode::KIND_STRUCT_DEF_INDEX, s, p);
        lemma_bounded_at(x.field as nat, super::format::FIELD_OFFSET_MAX, super::decode::KIND_FIELD_OFFSET, s, p + a.len());
    }
}

impl WireCodec for VariantHandle {
    proof fn lemma_codec(x: Self, s: Seq<u8>, p: int) {
        let a = uleb128_encode(x.enum_def.0 as nat);
        let b = uleb128_encode(x.variant as nat);
        lemma_at_split(s, p, a, b);
        lemma_index_at(x.enum_def.0, super::decode::KIND_ENUM_DEF_INDEX, s, p);
        lemma_bounded_at(x.variant as nat, super::format::VARIANT_TAG_MAX_VALUE, super::decode::KIND_VARIANT_TAG, s, p + a.len());
    }
}

impl WireCodec for VariantInstantiationHandle {
    proof fn lemma_codec(x: Self, s: Seq<u8>, p: int) {
        let a = uleb128_encode(x.enum_def.0 as nat);
        let b = uleb128_encode(x.variant as nat);
        lemma_at_split(s, p, a, b);
        lemma_index_at(x.enum_def.0, super::decode::KIND_ENUM_DEF_INST_INDEX, s, p);
        lemma_bounded_at(x.variant as nat, super::format::VARIANT_TAG_MAX_VALUE, super::decode::KIND_VARIANT_TAG, s, p + a.len());
    }
}

impl WireCodec for StructDefinitionIndex {
    proof fn lemma_codec(x: Self, s: Seq<u8>, p: int) {
        lemma_index_at(x.0, super::decode::KIND_STRUCT_DEF_INDEX, s, p);
    }
}

impl WireCodec for u16 {
    proof fn lemma_codec(x: Self, s: Seq<u8>, p: int) {
        lemma_bounded_at(x as nat, super::format::BYTECODE_INDEX_MAX, super::decode::KIND_BYTECODE_OFFSET, s, p);
    }
}

impl WireCodec for Address {
    proof fn lemma_codec(x: Self, s: Seq<u8>, p: int) {
        assert(x.0@.len() == 32);
    }
}

impl WireCodec for String {
    proof fn lemma_codec(x: Self, s: Seq<u8>, p: int) {
        let b = encode_utf8(x@);
        lemma_blob_at(b, super::format::IDENTIFIER_SIZE_MAX, super::encode::KIND_IDENTIFIER_SIZE,
            super::format::IDENTIFIER_SIZE_MAX, super::decode::KIND_IDENTIFIER_SIZE, s, p);
        encode_utf8_valid_utf8(x@);
        encode_utf8_decode_utf8(x@);
    }
}

impl WireCodec for Metadata {
    proof fn lemma_codec(x: Self, s: Seq<u8>, p: int) {
        let a = ser_blob(x.key@, super::format::METADATA_KEY_SIZE_MAX, super::encode::KIND_METADATA_KEY_SIZE)->Ok_0;
        let b = ser_blob(x.value@, super::format::METADATA_VALUE_SIZE_MAX, super::encode::KIND_METADATA_VALUE_SIZE)->Ok_0;
        lemma_at_split(s, p, a, b);
        lemma_blob_at(x.key@, super::format::METADATA_KEY_SIZE_MAX, super::encode::KIND_METADATA_KEY_SIZE,
            super::format::METADATA_KEY_SIZE_MAX, super::decode::KIND_METADATA_KEY_SIZE, s, p);
        lemma_blob_at(x.value@, super::format::METADATA_VALUE_SIZE_MAX, super::encode::KIND_METADATA_VALUE_SIZE,
            super::format::METADATA_VALUE_SIZE_MAX, super::decode::KIND_METADATA_VALUE_SIZE, s, p + a.len());
    }
}


// ---------- Types ----------

/// Reading a type back from its bytes.  The writer counts the
/// outermost node at depth 1, the reader counts the enclosing nodes
/// (0 for the outermost).
pub proof fn lemma_token_at(t: SignatureToken, depth: nat, s: Seq<u8>, p: int)
    requires
        1 <= depth,
        ser_token(t, depth) is Ok,
        at(s, p, ser_token(t, depth)->Ok_0),
    ensures
        de_token(s, p, (depth - 1) as nat) == Ok::<(super::decode::TokenModel, int), super::decode::AdamantDeserializeError>(
            (token_model(t), p + ser_token(t, depth)->Ok_0.len()),
        ),
        ser_token(t, depth)->Ok_0.len() >= 1,
    decreases t, 0nat,
{
    let enc = ser_token(t, depth)->Ok_0;
    assert(s[p] == s.subrange(p, p + enc.len())[0]);
    match t {
        SignatureToken::Vector(inner) | SignatureToken::Reference(inner) | SignatureToken::MutableReference(inner) => {
            let tail = ser_token(*inner, depth + 1)->Ok_0;
            assert(enc == seq![enc[0]] + tail);
            lemma_at_split(s, p, seq![enc[0]], tail);
            lemma_token_at(*inner, depth + 1, s, p + 1);
        },
        SignatureToken::Datatype(idx) => {
            let tail = uleb128_encode(idx.0 as nat);
            lemma_at_split(s, p, seq![super::format::TYPE_STRUCT], tail);
            lemma_index_at(idx.0, super::decode::KIND_DATATYPE_HANDLE_INDEX, s, p + 1);
        },
        SignatureToken::TypeParameter(i) => {
            let tail = uleb128_encode(i as nat);
            lemma_at_split(s, p, seq![super::format::TYPE_TYPE_PARAMETER], tail);
            lemma_bounded_at(i as nat, super::format::TYPE_PARAMETER_INDEX_MAX, super::decode::KIND_TYPE_PARAMETER_INDEX, s, p + 1);
        },
        SignatureToken::DatatypeInstantiation(inst) => {
            let x = seq![super::format::TYPE_DATATYPE_INST] + uleb128_encode(inst.0.0 as nat);
            let n = inst.1@.len();
            let y = uleb128_encode(n);
            let z = ser_tokens(inst.1, depth + 1)->Ok_0;
            assert(enc == x + (y + z));
            lemma_at_split(s, p, x, y + z);
            lemma_at_split(s, p + x.len(), y, z);
            lemma_at_split(s, p, seq![super::format::TYPE_DATATYPE_INST], uleb128_encode(inst.0.0 as nat));
            lemma_index_at(inst.0.0, super::decode::KIND_DATATYPE_HANDLE_INDEX, s, p + 1);
            lemma_bounded_at(n, super::format::SIGNATURE_SIZE_MAX, super::decode::KIND_INSTANTIATION_ARITY, s, p + x.len());
            lemma_tokens_at(inst.1, n, depth + 1, s, p + x.len() + y.len());
        },
        _ => {},
    }
}

/// The serialized-type byte each type is written with, as the Move
/// binary format fixes it: a primitive type is that one byte (`bool`
/// 0x01, `u8` 0x02, `u64` 0x03, `u128` 0x04, `address` 0x05, `signer`
/// 0x0c, `u16` 0x0d, `u32` 0x0e, `u256` 0x0f); a compound type starts
/// with its head's byte (reference 0x06, mutable reference 0x07,
/// datatype 0x08, type parameter 0x09, vector 0x0a, instantiation
/// 0x0b).  A type deeper than the limit is refused.
pub proof fn lemma_token_tags(t: SignatureToken, depth: nat)
    ensures
        depth > super::format::SIGNATURE_TOKEN_DEPTH_MAX ==> ser_token(t, depth) == Err::<Seq<u8>, AdamantSerializeError>(
            AdamantSerializeError::SignatureTooDeep,
        ),
        depth <= super::format::SIGNATURE_TOKEN_DEPTH_MAX ==> {
            &&& t is Bool ==> ser_token(t, depth) == Ok::<Seq<u8>, AdamantSerializeError>(seq![0x01u8])
            &&& t is U8 ==> ser_token(t, depth) == Ok::<Seq<u8>, AdamantSerializeError>(seq![0x02u8])
            &&& t is U64 ==> ser_token(t, depth) == Ok::<Seq<u8>, AdamantSerializeError>(seq![0x03u8])
            &&& t is U128 ==> ser_token(t, depth) == Ok::<Seq<u8>, AdamantSerializeError>(seq![0x04u8])
            &&& t is Address ==> ser_token(t, depth) == Ok::<Seq<u8>, AdamantSerializeError>(seq![0x05u8])
            &&& t is Signer ==> ser_token(t, depth) == Ok::<Seq<u8>, AdamantSerializeError>(seq![0x0cu8])
            &&& t is U16 ==> ser_token(t, depth) == Ok::<Seq<u8>, AdamantSerializeError>(seq![0x0du8])
            &&& t is U32 ==> ser_token(t, depth) == Ok::<Seq<u8>, AdamantSerializeError>(seq![0x0eu8])
            &&& t is U256 ==> ser_token(t, depth) == Ok::<Seq<u8>, AdamantSerializeError>(seq![0x0fu8])
            &&& (t is Reference && ser_token(t, depth) is Ok) ==> ser_token(t, depth)->Ok_0[0] == 0x06u8
            &&& (t is MutableReference && ser_token(t, depth) is Ok) ==> ser_token(t, depth)->Ok_0[0] == 0x07u8
            &&& t matches SignatureToken::Datatype(i) ==> ser_token(t, depth) == Ok::<Seq<u8>, AdamantSerializeError>(
                seq![0x08u8] + uleb128_encode(i.0 as nat),
            )
            &&& t matches SignatureToken::TypeParameter(i) ==> ser_token(t, depth) == Ok::<Seq<u8>, AdamantSerializeError>(
                seq![0x09u8] + uleb128_encode(i as nat),
            )
            &&& (t is Vector && ser_token(t, depth) is Ok) ==> ser_token(t, depth)->Ok_0[0] == 0x0au8
            &&& (t is DatatypeInstantiation && ser_token(t, depth) is Ok) ==> ser_token(t, depth)->Ok_0[0] == 0x0bu8
        },
{
}

/// Reading a type whose serialized-type byte is a primitive type's
/// gives that type and takes the one byte; a reference, mutable
/// reference or vector byte wraps the type that follows it.
pub proof fn lemma_token_tag_reads(s: Seq<u8>, p: int, depth: nat)
    requires
        0 <= p < s.len(),
        depth <= super::format::SIGNATURE_TOKEN_DEPTH_MAX,
    ensures
        s[p] == 0x01u8 ==> de_token(s, p, depth) == Ok::<(TokenModel, int), AdamantDeserializeError>((TokenModel::Bool, p + 1)),
        s[p] == 0x02u8 ==> de_token(s, p, depth) == Ok::<(TokenModel, int), AdamantDeserializeError>((TokenModel::U8, p + 1)),
        s[p] == 0x03u8 ==> de_token(s, p, depth) == Ok::<(TokenModel, int), AdamantDeserializeError>((TokenModel::U64, p + 1)),
        s[p] == 0x04u8 ==> de_token(s, p, depth) == Ok::<(TokenModel, int), AdamantDeserializeError>((TokenModel::U128, p + 1)),
        s[p] == 0x05u8 ==> de_token(s, p, depth) == Ok::<(TokenModel, int), AdamantDeserializeError>((TokenModel::Address, p + 1)),
        s[p] == 0x0cu8 ==> de_token(s, p, depth) == Ok::<(TokenModel, int), AdamantDeserializeError>((TokenModel::Signer, p + 1)),
        s[p] == 0x0du8 ==> de_token(s, p, depth) == Ok::<(TokenModel, int), AdamantDeserializeError>((TokenModel::U16, p + 1)),
        s[p] == 0x0eu8 ==> de_token(s, p, depth) == Ok::<(TokenModel, int), AdamantDeserializeError>((TokenModel::U32, p + 1)),
        s[p] == 0x0fu8 ==> de_token(s, p, depth) == Ok::<(TokenModel, int), AdamantDeserializeError>((TokenModel::U256, p + 1)),
        s[p] == 0x06u8 ==> de_token(s, p, depth) == (match de_token(s, p + 1, depth + 1) {
            Ok((t, r)) => Ok::<(TokenModel, int), AdamantDeserializeError>((TokenModel::Reference(Box::new(t)), r)),
            Err(e) => Err(e),
        }),
        s[p] == 0x07u8 ==> de_token(s, p, depth) == (match de_token(s, p + 1, depth + 1) {
            Ok((t, r)) => Ok::<(TokenModel, int), AdamantDeserializeError>((TokenModel::MutableReference(Box::new(t)), r)),
            Err(e) => Err(e),
        }),
        s[p] == 0x0au8 ==> de_token(s, p, depth) == (match de_token(s, p + 1, depth + 1) {
            Ok((t, r)) => Ok::<(TokenModel, int), AdamantDeserializeError>((TokenModel::Vector(Box::new(t)), r)),
            Err(e) => Err(e),
        }),
{
}

/// The round trip of a type: reading back the bytes of a type written
/// as the outermost type of a signature gives the type back (as its
/// model) and ends right after those bytes.
pub proof fn lemma_signature_token_round_trip(t: SignatureToken)
    requires
        ser_token(t, 1) is Ok,
    ensures
        de_token(ser_token(t, 1)->Ok_0, 0, 0) == Ok::<(super::decode::TokenModel, int), super::decode::AdamantDeserializeError>(
            (token_model(t), ser_token(t, 1)->Ok_0.len() as int),
        ),
{
    let b = ser_token(t, 1)->Ok_0;
    assert(b.subrange(0, b.len() as int) =~= b);
    lemma_token_at(t, 1, b, 0);
}

/// Reading the first `n` type arguments back from their bytes.
pub proof fn lemma_tokens_at(v: Vec<SignatureToken>, n: nat, depth: nat, s: Seq<u8>, p: int)
    requires
        1 <= depth,
        n <= v@.len(),
        ser_tokens_upto(v, n as int, depth) is Ok,
        at(s, p, ser_tokens_upto(v, n as int, depth)->Ok_0),
    ensures
        de_tokens(s, p, (depth - 1) as nat, n) == Ok::<(Seq<super::decode::TokenModel>, int), super::decode::AdamantDeserializeError>(
            (token_models_prefix(v, n), p + ser_tokens_upto(v, n as int, depth)->Ok_0.len()),
        ),
    decreases v, 0nat, n,
{
    if n > 0 {
        let a = ser_tokens_upto(v, n - 1, depth)->Ok_0;
        let b = ser_token(v@[n - 1], depth)->Ok_0;
        lemma_at_split(s, p, a, b);
        lemma_tokens_at(v, (n - 1) as nat, depth, s, p);
        lemma_token_at(v@[n - 1], depth, s, p + a.len());
    }
}

impl WireCodec for SignatureToken {
    proof fn lemma_codec(x: Self, s: Seq<u8>, p: int) {
        lemma_token_at(x, 1, s, p);
    }
}

impl WireCodec for Signature {
    proof fn lemma_codec(x: Self, s: Seq<u8>, p: int) {
        lemma_counted_at(x.0@, super::format::SIGNATURE_SIZE_MAX, super::encode::KIND_SIGNATURE_LENGTH,
            super::format::SIGNATURE_SIZE_MAX, super::decode::KIND_SIGNATURE_LENGTH, s, p);
    }
}

impl WireCodec for Constant {
    proof fn lemma_codec(x: Self, s: Seq<u8>, p: int) {
        let a = ser_token(x.type_, 1)->Ok_0;
        let b = ser_blob(x.data@, super::format::CONSTANT_SIZE_MAX, super::encode::KIND_CONSTANT_SIZE)->Ok_0;
        lemma_at_split(s, p, a, b);
        lemma_token_at(x.type_, 1, s, p);
        lemma_blob_at(x.data@, super::format::CONSTANT_SIZE_MAX, super::encode::KIND_CONSTANT_SIZE,
            super::format::CONSTANT_SIZE_MAX, super::decode::KIND_CONSTANT_SIZE, s, p + a.len());
    }
}

impl WireCodec for DatatypeHandle {
    proof fn lemma_codec(x: Self, s: Seq<u8>, p: int) {
        let a = uleb128_encode(x.module.0 as nat) + uleb128_encode(x.name.0 as nat);
        let b = x.abilities.spec_wire()->Ok_0;
        let c = ser_counted(x.type_parameters@, super::format::TYPE_PARAMETER_COUNT_MAX, super::encode::KIND_TYPE_PARAMETER_COUNT)->Ok_0;
        lemma_at_split(s, p, a, b + c);
        lemma_at_split(s, p + a.len(), b, c);
        lemma_two_indices_at(x.module.0, super::decode::KIND_MODULE_HANDLE_INDEX, x.name.0, super::decode::KIND_IDENTIFIER_INDEX, s, p);
        AbilitySet::lemma_codec(x.abilities, s, p + a.len());
        lemma_counted_at(x.type_parameters@, super::format::TYPE_PARAMETER_COUNT_MAX, super::encode::KIND_TYPE_PARAMETER_COUNT,
            super::format::TYPE_PARAMETER_COUNT_MAX, super::decode::KIND_TYPE_PARAMETER_COUNT, s, p + a.len() + b.len());
    }
}

impl WireCodec for FunctionHandle {
    proof fn lemma_codec(x: Self, s: Seq<u8>, p: int) {
        let a1 = uleb128_encode(x.module.0 as nat) + uleb128_encode(x.name.0 as nat);
        let a2 = uleb128_encode(x.parameters.0 as nat) + uleb128_encode(x.return_.0 as nat);
        let c = ser_counted(x.type_parameters@, super::format::TYPE_PARAMETER_COUNT_MAX, super::encode::KIND_TYPE_PARAMETER_COUNT)->Ok_0;
        assert(x.spec_wire()->Ok_0 == (a1 + a2) + c) by {
            assert(uleb128_encode(x.module.0 as nat) + uleb128_encode(x.name.0 as nat) + uleb128_encode(x.parameters.0 as nat)
                + uleb128_encode(x.return_.0 as nat) =~= a1 + a2);
        }
        lemma_at_split(s, p, a1 + a2, c);
        lemma_at_split(s, p, a1, a2);
        lemma_two_indices_at(x.module.0, super::decode::KIND_MODULE_HANDLE_INDEX, x.name.0, super::decode::KIND_IDENTIFIER_INDEX, s, p);
        lemma_two_indices_at(x.parameters.0, super::decode::KIND_SIGNATURE_INDEX, x.return_.0, super::decode::KIND_SIGNATURE_INDEX, s, p + a1.len());
        lemma_counted_at(x.type_parameters@, super::format::TYPE_PARAMETER_COUNT_MAX, super::encode::KIND_TYPE_PARAMETER_COUNT,
            super::format::TYPE_PARAMETER_COUNT_MAX, super::decode::KIND_TYPE_PARAMETER_COUNT, s, p + a1.len() + a2.len());
    }
}

impl WireCodec for FieldDefinition {
    proof fn lemma_codec(x: Self, s: Seq<u8>, p: int) {
        let a = uleb128_encode(x.name.0 as nat);
        let b = ser_token(x.signature.0, 1)->Ok_0;
        lemma_at_split(s, p, a, b);
        lemma_index_at(x.name.0, super::decode::KIND_IDENTIFIER_INDEX, s, p);
        lemma_token_at(x.signature.0, 1, s, p + a.len());
    }
}

impl WireCodec for StructDefinition {
    proof fn lemma_codec(x: Self, s: Seq<u8>, p: int) {
        let a = uleb128_encode(x.struct_handle.0 as nat);
        match x.field_information {
            StructFieldInformation::Native => {
                lemma_at_split(s, p, a, seq![super::format::STRUCT_FLAG_NATIVE]);
                lemma_index_at(x.struct_handle.0, super::decode::KIND_DATATYPE_HANDLE_INDEX, s, p);
                assert(s[p + a.len()] == s.subrange(p + a.len(), p + a.len() + 1)[0]);
            },
            StructFieldInformation::Declared(fields) => {
                let c = ser_counted(fields@, super::format::FIELD_COUNT_MAX, super::encode::KIND_FIELD_COUNT)->Ok_0;
                let b = seq![super::format::STRUCT_FLAG_DECLARED] + c;
                lemma_at_split(s, p, a, b);
                lemma_at_split(s, p + a.len(), seq![super::format::STRUCT_FLAG_DECLARED], c);
                lemma_index_at(x.struct_handle.0, super::decode::KIND_DATATYPE_HANDLE_INDEX, s, p);
                assert(s[p + a.len()] == s.subrange(p + a.len(), p + a.len() + 1)[0]);
                lemma_counted_at(fields@, super::format::FIELD_COUNT_MAX, super::encode::KIND_FIELD_COUNT,
                    super::format::FIELD_COUNT_MAX, super::decode::KIND_FIELD_COUNT, s, p + a.len() + 1);
            },
        }
    }
}

impl WireCodec for VariantDefinition {
    proof fn lemma_codec(x: Self, s: Seq<u8>, p: int) {
        let a = uleb128_encode(x.variant_name.0 as nat);
        let c = ser_counted(x.fields@, super::format::FIELD_COUNT_MAX, super::encode::KIND_FIELD_COUNT)->Ok_0;
        lemma_at_split(s, p, a, c);
        lemma_index_at(x.variant_name.0, super::decode::KIND_IDENTIFIER_INDEX, s, p);
        lemma_counted_at(x.fields@, super::format::FIELD_COUNT_MAX, super::encode::KIND_FIELD_COUNT,
            super::format::FIELD_COUNT_MAX, super::decode::KIND_FIELD_COUNT, s, p + a.len());
    }
}

impl WireCodec for EnumDefinition {
    proof fn lemma_codec(x: Self, s: Seq<u8>, p: int) {
        let a = uleb128_encode(x.enum_handle.0 as nat);
        let f = seq![super::format::ENUM_FLAG_DECLARED];
        let c = ser_counted(x.variants@, super::format::VARIANT_COUNT_MAX, super::encode::KIND_VARIANT_COUNT)->Ok_0;
        lemma_at_split(s, p, a + f, c);
        lemma_at_split(s, p, a, f);
        lemma_index_at(x.enum_handle.0, super::decode::KIND_DATATYPE_HANDLE_INDEX, s, p);
        assert(s[p + a.len()] == s.subrange(p + a.len(), p + a.len() + 1)[0]);
        lemma_counted_at(x.variants@, super::format::VARIANT_COUNT_MAX, super::encode::KIND_VARIANT_COUNT,
            super::format::VARIANT_COUNT_MAX, super::decode::KIND_VARIANT_COUNT, s, p + a.len() + 1);
    }
}

impl WireCodec for VariantJumpTable {
    proof fn lemma_codec(x: Self, s: Seq<u8>, p: int) {
        let JumpTableInner::Full(branches) = x.jump_table;
        let a = uleb128_encode(x.head_enum.0 as nat);
        let n = branches@.len();
        let y = uleb128_encode(n);
        let f = seq![super::format::JUMP_TABLE_FLAG_FULL];
        let z = ser_items(branches@)->Ok_0;
        assert(x.spec_wire()->Ok_0 == a + (y + (f + z)));
        lemma_at_split(s, p, a, y + (f + z));
        lemma_at_split(s, p + a.len(), y, f + z);
        lemma_at_split(s, p + a.len() + y.len(), f, z);
        lemma_index_at(x.head_enum.0, super::decode::KIND_ENUM_DEF_INDEX, s, p);
        lemma_bounded_at(n, super::format::VARIANT_COUNT_MAX, super::decode::KIND_BRANCH_COUNT, s, p + a.len());
        assert(s[p + a.len() + y.len()] == s.subrange(p + a.len() + y.len(), p + a.len() + y.len() + 1)[0]);
        lemma_items_at(branches@, s, p + a.len() + y.len() + 1);
        assert(models(branches@) =~= branches@);
    }
}


// ---------- Function definitions ----------

/// Whether a function body reads back in strict mode: no deprecated
/// global-storage instruction (and a length a `u64` holds).
pub open spec fn body_reads_back(code: Seq<BytecodeInstruction>) -> bool {
    &&& code.len() <= u64::MAX
    &&& forall|k: int|
        0 <= k < code.len() ==> !spec_is_deprecated_global_storage_opcode(
            #[trigger] spec_instruction_parts(code[k]).0,
        )
}

/// Whether a function definition reads back.
pub open spec fn function_def_reads_back(fd: AdamantFunctionDefinition) -> bool {
    match fd.code {
        Some(u) => body_reads_back(u.code@),
        None => true,
    }
}

/// Reading a code unit back from its bytes.
pub proof fn lemma_code_unit_at(version: u32, u: AdamantCodeUnit, s: Seq<u8>, p: int)
    requires
        super::format::VERSION_MIN <= version <= super::format::VERSION_MAX,
        ser_code_unit(version, u) is Ok,
        body_reads_back(u.code@),
        at(s, p, ser_code_unit(version, u)->Ok_0),
    ensures
        de_code_unit(s, p, version) == Ok::<(super::decode::CodeUnitModel, int), super::decode::AdamantDeserializeError>(
            (code_unit_model(u), p + ser_code_unit(version, u)->Ok_0.len()),
        ),
        ser_code_unit(version, u)->Ok_0.len() >= 1,
{
    let a = uleb128_encode(u.locals.0 as nat);
    let b = spec_encode_function_body(u.code@);
    let c = ser_jump_tables(version, u.jump_tables@)->Ok_0;
    assert(ser_code_unit(version, u)->Ok_0 == (a + b) + c);
    lemma_at_split(s, p, a + b, c);
    lemma_at_split(s, p, a, b);
    lemma_index_at(u.locals.0, super::decode::KIND_SIGNATURE_INDEX, s, p);
    lemma_round_trip_at(u.code@, s, p + a.len(), true);
    let q = p + a.len() + b.len();
    if version < super::format::VERSION_7 {
        assert(models(u.jump_tables@) =~= Seq::<super::decode::JumpTableModel>::empty());
        assert(c =~= Seq::<u8>::empty());
    } else {
        let n = u.jump_tables@.len();
        let y = uleb128_encode(n);
        let z = ser_items(u.jump_tables@)->Ok_0;
        lemma_at_split(s, q, y, z);
        lemma_bounded_at(n, super::format::JUMP_TABLE_INDEX_MAX, super::decode::KIND_JUMP_TABLE_COUNT, s, q);
        lemma_items_at(u.jump_tables@, s, q + y.len());
    }
}

/// Reading a function definition back from its bytes.
pub proof fn lemma_function_def_at(version: u32, fd: AdamantFunctionDefinition, s: Seq<u8>, p: int)
    requires
        super::format::VERSION_MIN <= version <= super::format::VERSION_MAX,
        ser_function_def(version, fd) is Ok,
        function_def_reads_back(fd),
        at(s, p, ser_function_def(version, fd)->Ok_0),
    ensures
        de_function_def(s, p, version) == Ok::<(FunctionDefModel, int), super::decode::AdamantDeserializeError>(
            (function_def_model(fd), p + ser_function_def(version, fd)->Ok_0.len()),
        ),
        ser_function_def(version, fd)->Ok_0.len() >= 1,
{
    let vb = spec_function_visibility_byte(version, fd);
    let fl = spec_function_flags(version, fd);
    let a = uleb128_encode(fd.function.0 as nat);
    let x = a + seq![vb, fl];
    let acq = ser_counted(fd.acquires_global_resources@, super::format::ACQUIRES_COUNT_MAX, super::encode::KIND_ACQUIRES_COUNT)->Ok_0;
    let code = match fd.code {
        Some(u) => ser_code_unit(version, u)->Ok_0,
        None => Seq::<u8>::empty(),
    };
    assert(ser_function_def(version, fd)->Ok_0 == x + (acq + code));
    lemma_at_split(s, p, x, acq + code);
    lemma_at_split(s, p + x.len(), acq, code);
    lemma_at_split(s, p, a, seq![vb, fl]);
    lemma_index_at(fd.function.0, super::decode::KIND_FUNCTION_HANDLE_INDEX, s, p);
    assert(s[p + a.len()] == s.subrange(p + a.len(), p + a.len() + 2)[0]);
    assert(s[p + a.len() + 1] == s.subrange(p + a.len(), p + a.len() + 2)[1]);
    lemma_counted_at(fd.acquires_global_resources@, super::format::ACQUIRES_COUNT_MAX, super::encode::KIND_ACQUIRES_COUNT,
        super::format::ACQUIRES_COUNT_MAX, super::decode::KIND_ACQUIRES_COUNT, s, p + x.len());
    assert(models(fd.acquires_global_resources@) =~= fd.acquires_global_resources@);
    match fd.code {
        Some(u) => {
            lemma_code_unit_at(version, u, s, p + x.len() + acq.len());
        },
        None => {},
    }
}

/// The bytes of a list of function definitions are those of the
/// first, then those of the rest.
pub proof fn lemma_ser_function_defs_cons(version: u32, x: AdamantFunctionDefinition, rest: Seq<AdamantFunctionDefinition>)
    ensures
        ser_function_defs(version, seq![x] + rest) == chain(ser_function_def(version, x), ser_function_defs(version, rest)),
    decreases rest.len(),
{
    let all = seq![x] + rest;
    if rest.len() == 0 {
        assert(all.drop_last() =~= Seq::<AdamantFunctionDefinition>::empty());
        assert(all.last() == x);
        match ser_function_def(version, x) {
            Ok(b) => {
                assert(Seq::<u8>::empty() + b =~= b);
                assert(b + Seq::<u8>::empty() =~= b);
            },
            Err(_) => {},
        }
    } else {
        assert(all.drop_last() =~= seq![x] + rest.drop_last());
        assert(all.last() == rest.last());
        lemma_ser_function_defs_cons(version, x, rest.drop_last());
        lemma_chain_assoc(ser_function_def(version, x), ser_function_defs(version, rest.drop_last()), ser_function_def(version, rest.last()));
        assert(ser_function_defs(version, all) == chain(ser_function_defs(version, all.drop_last()), ser_function_def(version, all.last())));
        assert(ser_function_defs(version, rest) == chain(ser_function_defs(version, rest.drop_last()), ser_function_def(version, rest.last())));
    }
}

/// Whether every function definition of a list reads back.
pub open spec fn all_function_defs_read_back(s: Seq<AdamantFunctionDefinition>) -> bool {
    forall|i: int| 0 <= i < s.len() ==> function_def_reads_back(#[trigger] s[i])
}

/// Reading function definitions to the end of their bytes gives them
/// all back.
pub proof fn lemma_function_defs_until_at(version: u32, defs: Seq<AdamantFunctionDefinition>, s: Seq<u8>, p: int)
    requires
        super::format::VERSION_MIN <= version <= super::format::VERSION_MAX,
        ser_function_defs(version, defs) is Ok,
        all_function_defs_read_back(defs),
        at(s, p, ser_function_defs(version, defs)->Ok_0),
        p + ser_function_defs(version, defs)->Ok_0.len() == s.len(),
    ensures
        de_function_defs_until(s, p, version) == Ok::<(Seq<FunctionDefModel>, int), super::decode::AdamantDeserializeError>(
            (function_defs_model(defs), s.len() as int),
        ),
    decreases defs.len(),
{
    if defs.len() == 0 {
        assert(function_defs_model(defs) =~= Seq::<FunctionDefModel>::empty());
    } else {
        let x = defs[0];
        let rest = defs.drop_first();
        assert(defs =~= seq![x] + rest);
        lemma_ser_function_defs_cons(version, x, rest);
        let a = ser_function_def(version, x)->Ok_0;
        let b = ser_function_defs(version, rest)->Ok_0;
        lemma_at_split(s, p, a, b);
        assert(function_def_reads_back(x));
        assert(all_function_defs_read_back(rest)) by {
            assert forall|i: int| 0 <= i < rest.len() implies function_def_reads_back(#[trigger] rest[i]) by {
                assert(rest[i] == defs[i + 1]);
            }
        }
        lemma_function_def_at(version, x, s, p);
        lemma_function_defs_until_at(version, rest, s, p + a.len());
        assert(function_defs_model(defs) =~= seq![function_def_model(x)] + function_defs_model(rest));
    }
}


// ---------- The tables of a module ----------


// ---------- Where the tables land ----------

/// Whether a module's function bodies read back in strict mode.
pub open spec fn module_reads_back(m: AdamantCompiledModule) -> bool {
    all_function_defs_read_back(m.function_defs@)
}

/// The position of a table kind in writing order.
pub open spec fn table_rank(k: TableType) -> nat {
    match k {
        TableType::ModuleHandles => 0,
        TableType::DatatypeHandles => 1,
        TableType::FunctionHandles => 2,
        TableType::FunctionInst => 3,
        TableType::Signatures => 4,
        TableType::Identifiers => 5,
        TableType::AddressIdentifiers => 6,
        TableType::ConstantPool => 7,
        TableType::Metadata => 8,
        TableType::StructDefs => 9,
        TableType::StructDefInst => 10,
        TableType::FunctionDefs => 11,
        TableType::FieldHandle => 12,
        TableType::FieldInst => 13,
        TableType::FriendDecls => 14,
        TableType::EnumDefs => 15,
        TableType::EnumDefInst => 16,
        TableType::VariantHandles => 17,
        TableType::VariantInstHandles => 18,
    }
}

/// The kind written at a position has that position.
pub proof fn lemma_rank_of_kind(i: nat)
    requires
        i < 19,
    ensures
        table_rank(kind_of_rank(i)) == i,
{
}

/// A list of values that is not empty has bytes.
pub proof fn lemma_items_nonempty<T: WireCodec>(items: Seq<T>)
    requires
        items.len() > 0,
        ser_items(items) is Ok,
    ensures
        ser_items(items)->Ok_0.len() >= 1,
{
    let x = items.last();
    let w = x.spec_wire()->Ok_0;
    assert(x == items[items.len() - 1]);
    assert(w.subrange(0, w.len() as int) =~= w);
    T::lemma_codec(x, w, 0);
}

/// A list of function definitions that is not empty has bytes.
pub proof fn lemma_function_defs_nonempty(version: u32, defs: Seq<AdamantFunctionDefinition>)
    requires
        super::format::VERSION_MIN <= version <= super::format::VERSION_MAX,
        defs.len() > 0,
        ser_function_defs(version, defs) is Ok,
        all_function_defs_read_back(defs),
    ensures
        ser_function_defs(version, defs)->Ok_0.len() >= 1,
{
    let x = defs.last();
    let w = ser_function_def(version, x)->Ok_0;
    assert(x == defs[defs.len() - 1]);
    assert(w.subrange(0, w.len() as int) =~= w);
    lemma_function_def_at(version, x, w, 0);
}

/// A nonempty table has bytes.
pub proof fn lemma_table_enc_nonempty(m: AdamantCompiledModule, k: TableType)
    requires
        super::format::VERSION_MIN <= m.version <= super::format::VERSION_MAX,
        module_reads_back(m),
        table_nonempty(m, k),
        table_enc(m, k) is Ok,
    ensures
        table_enc(m, k)->Ok_0.len() >= 1,
{
    match k {
        TableType::ModuleHandles => lemma_items_nonempty(m.module_handles@),
        TableType::DatatypeHandles => lemma_items_nonempty(m.datatype_handles@),
        TableType::FunctionHandles => lemma_items_nonempty(m.function_handles@),
        TableType::FunctionInst => lemma_items_nonempty(m.function_instantiations@),
        TableType::Signatures => lemma_items_nonempty(m.signatures@),
        TableType::Identifiers => lemma_items_nonempty(m.identifiers@),
        TableType::AddressIdentifiers => lemma_items_nonempty(m.address_identifiers@),
        TableType::ConstantPool => lemma_items_nonempty(m.constant_pool@),
        TableType::Metadata => lemma_items_nonempty(m.metadata@),
        TableType::StructDefs => lemma_items_nonempty(m.struct_defs@),
        TableType::StructDefInst => lemma_items_nonempty(m.struct_def_instantiations@),
        TableType::FunctionDefs => lemma_function_defs_nonempty(m.version, m.function_defs@),
        TableType::FieldHandle => lemma_items_nonempty(m.field_handles@),
        TableType::FieldInst => lemma_items_nonempty(m.field_instantiations@),
        TableType::FriendDecls => lemma_items_nonempty(m.friend_decls@),
        TableType::EnumDefs => lemma_items_nonempty(m.enum_defs@),
        TableType::EnumDefInst => lemma_items_nonempty(m.enum_def_instantiations@),
        TableType::VariantHandles => lemma_items_nonempty(m.variant_handles@),
        TableType::VariantInstHandles => lemma_items_nonempty(m.variant_instantiation_handles@),
    }
}

/// A slot holds its table's nonempty contents within the bytes.
#[verifier::opaque]
pub open spec fn slot_holds(m: AdamantCompiledModule, bytes: Seq<u8>, slot: TableSlot) -> bool {
    &&& table_nonempty(m, slot.0)
    &&& table_enc(m, slot.0) is Ok
    &&& slot.2 == table_enc(m, slot.0)->Ok_0.len()
    &&& slot.2 >= 1
    &&& slot.1 + slot.2 <= bytes.len()
    &&& bytes.subrange(slot.1 as int, slot.1 + slot.2) == table_enc(m, slot.0)->Ok_0
}

/// The slots lie one after the other from the start of the
/// contents, in writing order, each holding its table.
pub open spec fn slots_wf(m: AdamantCompiledModule, bytes: Seq<u8>, slots: Seq<TableSlot>) -> bool {
    &&& slots_layout(bytes.len(), slots)
    &&& forall|j: int| 0 <= j < slots.len() ==> slot_holds(m, bytes, #[trigger] slots[j])
}

/// The slots lie one after the other from the start of `n` bytes of
/// contents, nonempty, in writing order.
pub open spec fn slots_layout(n: nat, slots: Seq<TableSlot>) -> bool {
    &&& n <= u32::MAX
    &&& forall|j: int| 0 <= j < slots.len() ==> (#[trigger] slots[j]).2 >= 1 && slots[j].1 + slots[j].2 <= n
    &&& forall|i: int, j: int|
        #![trigger slots[i], slots[j]]
        0 <= i < j < slots.len() ==> table_rank(slots[i].0) < table_rank(slots[j].0) && slots[i].1 + slots[i].2 <= slots[j].1
    &&& slots.len() == 0 ==> n == 0
    &&& slots.len() > 0 ==> slots[0].1 == 0 && slots.last().1 + slots.last().2 == n
    &&& forall|j: int| 0 <= j < slots.len() - 1 ==> #[trigger] slots[j].1 + slots[j].2 == slots[j + 1].1
}

/// Whether some slot holds the table of kind `k`.
pub open spec fn slots_have(slots: Seq<TableSlot>, k: TableType) -> bool {
    exists|j: int| 0 <= j < slots.len() && (#[trigger] slots[j]).0 == k
}

/// The slots are those of the nonempty tables among the first `r`
/// kinds.
pub open spec fn covered(m: AdamantCompiledModule, slots: Seq<TableSlot>, r: nat) -> bool {
    &&& forall|j: int| 0 <= j < slots.len() ==> table_rank((#[trigger] slots[j]).0) < r
    &&& forall|k: TableType| table_rank(k) < r ==> (table_nonempty(m, k) <==> #[trigger] slots_have(slots, k))
}

/// Writing the tables from position `i` keeps the slots well formed
/// and, once done, covers every kind up to `n`.
#[verifier::spinoff_prover]
#[verifier::rlimit(40)]
pub proof fn lemma_fold_wf(m: AdamantCompiledModule, bytes: Seq<u8>, slots: Seq<TableSlot>, i: nat, n: nat)
    requires
        super::format::VERSION_MIN <= m.version <= super::format::VERSION_MAX,
        module_reads_back(m),
        slots_wf(m, bytes, slots),
        covered(m, slots, i),
        i <= n <= 19,
        fold_tables(Ok((bytes, slots)), m, i, n) is Ok,
    ensures
        slots_wf(m, fold_tables(Ok((bytes, slots)), m, i, n)->Ok_0.0, fold_tables(Ok((bytes, slots)), m, i, n)->Ok_0.1),
        covered(m, fold_tables(Ok((bytes, slots)), m, i, n)->Ok_0.1, n),
    decreases n - i,
{
    let acc: TableAcc = Ok((bytes, slots));
    reveal(slot_holds);
    if i >= n {
        lemma_fold_done(acc, m, i, n);
    } else {
        let k = kind_of_rank(i);
        lemma_rank_of_kind(i);
        lemma_fold_step(acc, m, i, n);
        reveal(table_step);
        if !table_nonempty(m, k) {
            assert(covered(m, slots, i + 1)) by {
                assert forall|k2: TableType| table_rank(k2) < i + 1 implies (table_nonempty(m, k2) <==> #[trigger] slots_have(slots, k2)) by {
                    if table_rank(k2) == i {
                        assert(k2 == k);
                        if slots_have(slots, k2) {
                            let j = choose|j: int| 0 <= j < slots.len() && (#[trigger] slots[j]).0 == k2;
                            assert(table_rank(slots[j].0) < i);
                        }
                    }
                }
            }
            lemma_fold_wf(m, bytes, slots, i + 1, n);
        } else {
            match table_enc(m, k) {
                Err(e) => {
                    lemma_fold_err(e, m, i + 1, n);
                },
                Ok(c) => {
                    if bytes.len() + c.len() > u32::MAX {
                        lemma_fold_err(AdamantSerializeError::BinaryTooLarge((bytes.len() + c.len()) as usize), m, i + 1, n);
                    } else {
                        lemma_table_enc_nonempty(m, k);
                        let b2 = bytes + c;
                        let slot: TableSlot = (k, bytes.len() as u32, c.len() as u32);
                        let s2 = slots.push(slot);
                        assert(slots_wf(m, b2, s2)) by {
                            assert forall|j: int| 0 <= j < s2.len() implies (#[trigger] s2[j]).2 >= 1 && s2[j].1 + s2[j].2 <= b2.len() by {
                                if j < slots.len() {
                                    assert(s2[j] == slots[j]);
                                }
                            }
                            assert forall|j: int| 0 <= j < s2.len() implies slot_holds(m, b2, #[trigger] s2[j]) by {
                                if j < slots.len() {
                                    assert(s2[j] == slots[j]);
                                    assert(slot_holds(m, bytes, slots[j]));
                                    let sl = slots[j];
                                    assert(b2.subrange(sl.1 as int, sl.1 + sl.2) =~= bytes.subrange(sl.1 as int, sl.1 + sl.2));
                                } else {
                                    assert(b2.subrange(bytes.len() as int, (bytes.len() + c.len()) as int) =~= c);
                                }
                            }
                            assert forall|a: int, b: int|
                                #![trigger s2[a], s2[b]]
                                0 <= a < b < s2.len() implies table_rank(s2[a].0) < table_rank(s2[b].0) && s2[a].1 + s2[a].2 <= s2[b].1 by {
                                if b < slots.len() {
                                    assert(s2[a] == slots[a] && s2[b] == slots[b]);
                                } else {
                                    assert(s2[a] == slots[a]);
                                    assert(slot_holds(m, bytes, slots[a]));
                                    assert(table_rank(slots[a].0) < i);
                                }
                            }
                            assert forall|j: int| 0 <= j < s2.len() - 1 implies #[trigger] s2[j].1 + s2[j].2 == s2[j + 1].1 by {
                                if j + 1 < slots.len() {
                                    assert(s2[j] == slots[j] && s2[j + 1] == slots[j + 1]);
                                } else {
                                    assert(s2[j] == slots.last());
                                }
                            }
                            if slots.len() > 0 {
                                assert(s2[0] == slots[0]);
                            }
                        }
                        assert(covered(m, s2, i + 1)) by {
                            assert forall|j: int| 0 <= j < s2.len() implies table_rank((#[trigger] s2[j]).0) < i + 1 by {
                                if j < slots.len() {
                                    assert(s2[j] == slots[j]);
                                }
                            }
                            assert forall|k2: TableType| table_rank(k2) < i + 1 implies (table_nonempty(m, k2) <==> #[trigger] slots_have(s2, k2)) by {
                                if table_rank(k2) == i {
                                    assert(k2 == k);
                                    assert(s2[slots.len() as int].0 == k2);
                                } else {
                                    if slots_have(slots, k2) {
                                        let j = choose|j: int| 0 <= j < slots.len() && (#[trigger] slots[j]).0 == k2;
                                        assert(s2[j] == slots[j]);
                                    }
                                    if slots_have(s2, k2) {
                                        let j = choose|j: int| 0 <= j < s2.len() && (#[trigger] s2[j]).0 == k2;
                                        if j < slots.len() {
                                            assert(s2[j] == slots[j]);
                                        }
                                    }
                                }
                            }
                        }
                        lemma_fold_wf(m, b2, s2, i + 1, n);
                    }
                },
            }
        }
    }
}


// ---------- Reading the table index back ----------

/// Reading the table-index entries back from their bytes.
pub proof fn lemma_entries_at(slots: Seq<TableSlot>, s: Seq<u8>, p: int)
    requires
        forall|j: int| 0 <= j < slots.len() ==> (#[trigger] slots[j]).2 != 0,
        at(s, p, spec_index_entries(slots)),
    ensures
        de_table_entries(s, p, slots.len()) == Ok::<(Seq<TableEntry>, int), super::decode::AdamantDeserializeError>(
            (slots, p + spec_index_entries(slots).len()),
        ),
    decreases slots.len(),
{
    if slots.len() == 0 {
        assert(slots =~= Seq::<TableSlot>::empty());
    } else {
        let pre = slots.drop_last();
        let sl = slots.last();
        assert(sl == slots[slots.len() - 1]);
        let a = spec_index_entries(pre);
        let e = spec_index_entry(sl);
        lemma_at_split(s, p, a, e);
        assert forall|j: int| 0 <= j < pre.len() implies (#[trigger] pre[j]).2 != 0 by {
            assert(pre[j] == slots[j]);
        }
        lemma_entries_at(pre, s, p);
        let q = p + a.len();
        let kb = seq![spec_table_type_byte(sl.0)];
        let off = uleb128_encode(sl.1 as nat);
        let len = uleb128_encode(sl.2 as nat);
        assert(e == kb + off + len);
        lemma_at_split(s, q, kb + off, len);
        lemma_at_split(s, q, kb, off);
        assert(s[q] == s.subrange(q, q + 1)[0]);
        lemma_table_type_byte_round_trip(sl.0);
        lemma_bounded_at(sl.1 as nat, 0xffff_ffff, super::decode::KIND_TABLE_OFFSET, s, q + 1);
        lemma_bounded_at(sl.2 as nat, 0xffff_ffff, super::decode::KIND_TABLE_SIZE, s, q + 1 + off.len());
        assert(pre.push(sl) =~= slots);
    }
}

/// Entries already ordered by strictly increasing offset stay as
/// they are when sorted.
pub proof fn lemma_sorted_fixed(ts: Seq<TableEntry>)
    requires
        forall|i: int, j: int| #![trigger ts[i], ts[j]] 0 <= i < j < ts.len() ==> ts[i].1 < ts[j].1,
    ensures
        sort_tables(ts) == ts,
    decreases ts.len(),
{
    if ts.len() > 0 {
        let pre = ts.drop_last();
        assert forall|i: int, j: int| #![trigger pre[i], pre[j]] 0 <= i < j < pre.len() implies pre[i].1 < pre[j].1 by {
            assert(pre[i] == ts[i] && pre[j] == ts[j]);
        }
        lemma_sorted_fixed(pre);
        if pre.len() > 0 {
            assert(pre.last() == ts[ts.len() - 2]);
            assert(ts.last() == ts[ts.len() - 1]);
        }
        assert(insert_pos(pre, ts.last().1) == pre.len());
        assert(pre.insert(pre.len() as int, ts.last()) =~= ts);
    }
}

/// The kinds of the first `i` slots.
pub open spec fn slot_kinds(slots: Seq<TableSlot>, i: int) -> Seq<TableType> {
    Seq::new(i as nat, |j: int| slots[j].0)
}

/// Checking well-formed slots from position `i` succeeds with the
/// contents' length.
pub proof fn lemma_check_at(n: nat, slots: Seq<TableSlot>, i: nat, avail: nat)
    requires
        slots_layout(n, slots),
        i <= slots.len(),
        avail >= n,
    ensures
        check_tables_from(slots, i, if i < slots.len() { slots[i as int].1 as nat } else { n }, slot_kinds(slots, i as int), avail)
            == Ok::<nat, super::decode::AdamantDeserializeError>(n),
    decreases slots.len() - i,
{
    if i < slots.len() {
        let t = slots[i as int];
        let cur = t.1 as nat;
        let seen = slot_kinds(slots, i as int);
        assert(!seen.contains(t.0)) by {
            if seen.contains(t.0) {
                let j = choose|j: int| 0 <= j < seen.len() && seen[j] == t.0;
                assert(seen[j] == slots[j].0);
            }
        }
        assert(seen.push(t.0) =~= slot_kinds(slots, (i + 1) as int));
        let next = if i + 1 < slots.len() { slots[(i + 1) as int].1 as nat } else { n };
        if i + 1 < slots.len() {
            assert(slots[i as int].1 + slots[i as int].2 == slots[(i + 1) as int].1);
        } else {
            assert(t == slots.last());
        }
        assert(cur + t.2 == next);
        lemma_check_at(n, slots, i + 1, avail);
    }
}


// ---------- Loading the tables back ----------

/// The model the tables load into: the module's, with the handle of
/// the module itself not yet read.
pub open spec fn target_model(m: AdamantCompiledModule) -> ModuleModel {
    ModuleModel { self_module_handle_idx: ModuleHandleIndex(0), ..module_model(m) }
}

/// The model with the pool of kind `k` replaced by the module's.
pub open spec fn set_field(mm: ModuleModel, k: TableType, m: AdamantCompiledModule) -> ModuleModel {
    let t = target_model(m);
    match k {
        TableType::ModuleHandles => ModuleModel { module_handles: t.module_handles, ..mm },
        TableType::DatatypeHandles => ModuleModel { datatype_handles: t.datatype_handles, ..mm },
        TableType::FunctionHandles => ModuleModel { function_handles: t.function_handles, ..mm },
        TableType::FunctionInst => ModuleModel { function_instantiations: t.function_instantiations, ..mm },
        TableType::Signatures => ModuleModel { signatures: t.signatures, ..mm },
        TableType::Identifiers => ModuleModel { identifiers: t.identifiers, ..mm },
        TableType::AddressIdentifiers => ModuleModel { address_identifiers: t.address_identifiers, ..mm },
        TableType::ConstantPool => ModuleModel { constant_pool: t.constant_pool, ..mm },
        TableType::Metadata => ModuleModel { metadata: t.metadata, ..mm },
        TableType::StructDefs => ModuleModel { struct_defs: t.struct_defs, ..mm },
        TableType::StructDefInst => ModuleModel { struct_def_instantiations: t.struct_def_instantiations, ..mm },
        TableType::FunctionDefs => ModuleModel { function_defs: t.function_defs, ..mm },
        TableType::FieldHandle => ModuleModel { field_handles: t.field_handles, ..mm },
        TableType::FieldInst => ModuleModel { field_instantiations: t.field_instantiations, ..mm },
        TableType::FriendDecls => ModuleModel { friend_decls: t.friend_decls, ..mm },
        TableType::EnumDefs => ModuleModel { enum_defs: t.enum_defs, ..mm },
        TableType::EnumDefInst => ModuleModel { enum_def_instantiations: t.enum_def_instantiations, ..mm },
        TableType::VariantHandles => ModuleModel { variant_handles: t.variant_handles, ..mm },
        TableType::VariantInstHandles => ModuleModel { variant_instantiation_handles: t.variant_instantiation_handles, ..mm },
    }
}

/// Whether two models agree on the pool of kind `k`.
pub open spec fn field_eq(a: ModuleModel, b: ModuleModel, k: TableType) -> bool {
    match k {
        TableType::ModuleHandles => a.module_handles == b.module_handles,
        TableType::DatatypeHandles => a.datatype_handles == b.datatype_handles,
        TableType::FunctionHandles => a.function_handles == b.function_handles,
        TableType::FunctionInst => a.function_instantiations == b.function_instantiations,
        TableType::Signatures => a.signatures == b.signatures,
        TableType::Identifiers => a.identifiers == b.identifiers,
        TableType::AddressIdentifiers => a.address_identifiers == b.address_identifiers,
        TableType::ConstantPool => a.constant_pool == b.constant_pool,
        TableType::Metadata => a.metadata == b.metadata,
        TableType::StructDefs => a.struct_defs == b.struct_defs,
        TableType::StructDefInst => a.struct_def_instantiations == b.struct_def_instantiations,
        TableType::FunctionDefs => a.function_defs == b.function_defs,
        TableType::FieldHandle => a.field_handles == b.field_handles,
        TableType::FieldInst => a.field_instantiations == b.field_instantiations,
        TableType::FriendDecls => a.friend_decls == b.friend_decls,
        TableType::EnumDefs => a.enum_defs == b.enum_defs,
        TableType::EnumDefInst => a.enum_def_instantiations == b.enum_def_instantiations,
        TableType::VariantHandles => a.variant_handles == b.variant_handles,
        TableType::VariantInstHandles => a.variant_instantiation_handles == b.variant_instantiation_handles,
    }
}

/// Whether the model's pool of kind `k` is empty.
pub open spec fn field_empty(mm: ModuleModel, k: TableType) -> bool {
    match k {
        TableType::ModuleHandles => mm.module_handles.len() == 0,
        TableType::DatatypeHandles => mm.datatype_handles.len() == 0,
        TableType::FunctionHandles => mm.function_handles.len() == 0,
        TableType::FunctionInst => mm.function_instantiations.len() == 0,
        TableType::Signatures => mm.signatures.len() == 0,
        TableType::Identifiers => mm.identifiers.len() == 0,
        TableType::AddressIdentifiers => mm.address_identifiers.len() == 0,
        TableType::ConstantPool => mm.constant_pool.len() == 0,
        TableType::Metadata => mm.metadata.len() == 0,
        TableType::StructDefs => mm.struct_defs.len() == 0,
        TableType::StructDefInst => mm.struct_def_instantiations.len() == 0,
        TableType::FunctionDefs => mm.function_defs.len() == 0,
        TableType::FieldHandle => mm.field_handles.len() == 0,
        TableType::FieldInst => mm.field_instantiations.len() == 0,
        TableType::FriendDecls => mm.friend_decls.len() == 0,
        TableType::EnumDefs => mm.enum_defs.len() == 0,
        TableType::EnumDefInst => mm.enum_def_instantiations.len() == 0,
        TableType::VariantHandles => mm.variant_handles.len() == 0,
        TableType::VariantInstHandles => mm.variant_instantiation_handles.len() == 0,
    }
}

/// Every pool of the model of a module with no tables is empty.
proof fn lemma_empty_model_fields(version: u32, publishable: bool)
    ensures
        forall|k: TableType| #[trigger] field_empty(empty_module_model(version, publishable), k),
{
    assert forall|k: TableType| #[trigger] field_empty(empty_module_model(version, publishable), k) by {}
}

/// Setting one pool makes the model agree with the target there and
/// changes no other pool or header field.
pub proof fn lemma_set_field(mm: ModuleModel, k: TableType, m: AdamantCompiledModule, k2: TableType)
    ensures
        field_eq(set_field(mm, k, m), target_model(m), k),
        k2 != k ==> field_eq(set_field(mm, k, m), target_model(m), k2) == field_eq(mm, target_model(m), k2),
        k2 != k ==> field_empty(set_field(mm, k, m), k2) == field_empty(mm, k2),
        set_field(mm, k, m).version == mm.version,
        set_field(mm, k, m).publishable == mm.publishable,
        set_field(mm, k, m).self_module_handle_idx == mm.self_module_handle_idx,
{
}

/// Models that agree on every pool and header field are equal.
pub proof fn lemma_field_eq_all(a: ModuleModel, b: ModuleModel)
    requires
        a.version == b.version,
        a.publishable == b.publishable,
        a.self_module_handle_idx == b.self_module_handle_idx,
        forall|k: TableType| #[trigger] field_eq(a, b, k),
    ensures
        a == b,
{
    assert(field_eq(a, b, TableType::ModuleHandles));
    assert(field_eq(a, b, TableType::DatatypeHandles));
    assert(field_eq(a, b, TableType::FunctionHandles));
    assert(field_eq(a, b, TableType::FunctionInst));
    assert(field_eq(a, b, TableType::Signatures));
    assert(field_eq(a, b, TableType::Identifiers));
    assert(field_eq(a, b, TableType::AddressIdentifiers));
    assert(field_eq(a, b, TableType::ConstantPool));
    assert(field_eq(a, b, TableType::Metadata));
    assert(field_eq(a, b, TableType::StructDefs));
    assert(field_eq(a, b, TableType::StructDefInst));
    assert(field_eq(a, b, TableType::FunctionDefs));
    assert(field_eq(a, b, TableType::FieldHandle));
    assert(field_eq(a, b, TableType::FieldInst));
    assert(field_eq(a, b, TableType::FriendDecls));
    assert(field_eq(a, b, TableType::EnumDefs));
    assert(field_eq(a, b, TableType::EnumDefInst));
    assert(field_eq(a, b, TableType::VariantHandles));
    assert(field_eq(a, b, TableType::VariantInstHandles));
}

/// A pool with no entries agrees with the empty model.
pub proof fn lemma_empty_agrees(m: AdamantCompiledModule, k: TableType)
    requires
        !table_nonempty(m, k),
    ensures
        field_eq(empty_module_model(m.version, m.publishable), target_model(m), k),
{
    match k {
        TableType::ModuleHandles => lemma_models_empty(m.module_handles@),
        TableType::DatatypeHandles => lemma_models_empty(m.datatype_handles@),
        TableType::FunctionHandles => lemma_models_empty(m.function_handles@),
        TableType::FunctionInst => lemma_models_empty(m.function_instantiations@),
        TableType::Signatures => lemma_models_empty(m.signatures@),
        TableType::Identifiers => lemma_models_empty(m.identifiers@),
        TableType::AddressIdentifiers => lemma_models_empty(m.address_identifiers@),
        TableType::ConstantPool => lemma_models_empty(m.constant_pool@),
        TableType::Metadata => lemma_models_empty(m.metadata@),
        TableType::StructDefs => lemma_models_empty(m.struct_defs@),
        TableType::StructDefInst => lemma_models_empty(m.struct_def_instantiations@),
        TableType::FunctionDefs => {
            assert(function_defs_model(m.function_defs@) =~= Seq::<FunctionDefModel>::empty());
        },
        TableType::FieldHandle => lemma_models_empty(m.field_handles@),
        TableType::FieldInst => lemma_models_empty(m.field_instantiations@),
        TableType::FriendDecls => lemma_models_empty(m.friend_decls@),
        TableType::EnumDefs => lemma_models_empty(m.enum_defs@),
        TableType::EnumDefInst => lemma_models_empty(m.enum_def_instantiations@),
        TableType::VariantHandles => lemma_models_empty(m.variant_handles@),
        TableType::VariantInstHandles => lemma_models_empty(m.variant_instantiation_handles@),
    }
}

/// Loading a table's bytes gives its pool back.
pub proof fn lemma_load_table_at(mm: ModuleModel, m: AdamantCompiledModule, k: TableType, t: Seq<u8>)
    requires
        super::format::VERSION_MIN <= m.version <= super::format::VERSION_MAX,
        table_rank(k) >= 15 ==> m.version >= super::format::VERSION_7,
        module_reads_back(m),
        table_enc(m, k) is Ok,
        t == table_enc(m, k)->Ok_0,
        field_empty(mm, k),
    ensures
        load_table(mm, t, k, m.version) == Ok::<ModuleModel, super::decode::AdamantDeserializeError>(set_field(mm, k, m)),
{
    reveal(load_table);
    assert(t.subrange(0, t.len() as int) =~= t);
    match k {
        TableType::ModuleHandles => {
            lemma_until_at(m.module_handles@, t, 0);
            assert(mm.module_handles + target_model(m).module_handles =~= target_model(m).module_handles);
        },
        TableType::DatatypeHandles => {
            lemma_until_at(m.datatype_handles@, t, 0);
            assert(mm.datatype_handles + target_model(m).datatype_handles =~= target_model(m).datatype_handles);
        },
        TableType::FunctionHandles => {
            lemma_until_at(m.function_handles@, t, 0);
            assert(mm.function_handles + target_model(m).function_handles =~= target_model(m).function_handles);
        },
        TableType::FunctionInst => {
            lemma_until_at(m.function_instantiations@, t, 0);
            assert(mm.function_instantiations + target_model(m).function_instantiations =~= target_model(m).function_instantiations);
        },
        TableType::Signatures => {
            lemma_until_at(m.signatures@, t, 0);
            assert(mm.signatures + target_model(m).signatures =~= target_model(m).signatures);
        },
        TableType::Identifiers => {
            lemma_until_at(m.identifiers@, t, 0);
            assert(mm.identifiers + target_model(m).identifiers =~= target_model(m).identifiers);
        },
        TableType::AddressIdentifiers => {
            lemma_until_at(m.address_identifiers@, t, 0);
            assert(mm.address_identifiers + target_model(m).address_identifiers =~= target_model(m).address_identifiers);
        },
        TableType::ConstantPool => {
            lemma_until_at(m.constant_pool@, t, 0);
            assert(mm.constant_pool + target_model(m).constant_pool =~= target_model(m).constant_pool);
        },
        TableType::Metadata => {
            lemma_until_at(m.metadata@, t, 0);
            assert(mm.metadata + target_model(m).metadata =~= target_model(m).metadata);
        },
        TableType::StructDefs => {
            lemma_until_at(m.struct_defs@, t, 0);
            assert(mm.struct_defs + target_model(m).struct_defs =~= target_model(m).struct_defs);
        },
        TableType::StructDefInst => {
            lemma_until_at(m.struct_def_instantiations@, t, 0);
            assert(mm.struct_def_instantiations + target_model(m).struct_def_instantiations =~= target_model(m).struct_def_instantiations);
        },
        TableType::FunctionDefs => {
            lemma_function_defs_until_at(m.version, m.function_defs@, t, 0);
            assert(mm.function_defs + target_model(m).function_defs =~= target_model(m).function_defs);
        },
        TableType::FieldHandle => {
            lemma_until_at(m.field_handles@, t, 0);
            assert(mm.field_handles + target_model(m).field_handles =~= target_model(m).field_handles);
        },
        TableType::FieldInst => {
            lemma_until_at(m.field_instantiations@, t, 0);
            assert(mm.field_instantiations + target_model(m).field_instantiations =~= target_model(m).field_instantiations);
        },
        TableType::FriendDecls => {
            lemma_until_at(m.friend_decls@, t, 0);
            assert(mm.friend_decls + target_model(m).friend_decls =~= target_model(m).friend_decls);
        },
        TableType::EnumDefs => {
            lemma_until_at(m.enum_defs@, t, 0);
            assert(mm.enum_defs + target_model(m).enum_defs =~= target_model(m).enum_defs);
        },
        TableType::EnumDefInst => {
            lemma_until_at(m.enum_def_instantiations@, t, 0);
            assert(mm.enum_def_instantiations + target_model(m).enum_def_instantiations =~= target_model(m).enum_def_instantiations);
        },
        TableType::VariantHandles => {
            lemma_until_at(m.variant_handles@, t, 0);
            assert(mm.variant_handles + target_model(m).variant_handles =~= target_model(m).variant_handles);
        },
        TableType::VariantInstHandles => {
            lemma_until_at(m.variant_instantiation_handles@, t, 0);
            assert(mm.variant_instantiation_handles + target_model(m).variant_instantiation_handles =~= target_model(m).variant_instantiation_handles);
        },
    }
}


/// Loading the tables of well-formed slots from position `i`, into a
/// model that agrees with the target on every pool no later slot
/// holds, gives the target.
#[verifier::spinoff_prover]
#[verifier::rlimit(40)]
pub proof fn lemma_load_at(b: Seq<u8>, cs: int, m: AdamantCompiledModule, content: Seq<u8>, slots: Seq<TableSlot>, i: nat, mm: ModuleModel)
    requires
        super::format::VERSION_MIN <= m.version <= super::format::VERSION_MAX,
        module_reads_back(m),
        slots_wf(m, content, slots),
        forall|j: int| 0 <= j < slots.len() ==> (table_rank((#[trigger] slots[j]).0) >= 15 ==> m.version >= super::format::VERSION_7),
        0 <= cs,
        cs + content.len() <= b.len(),
        b.subrange(cs, cs + content.len()) == content,
        i <= slots.len(),
        mm.version == m.version,
        mm.publishable == m.publishable,
        mm.self_module_handle_idx == ModuleHandleIndex(0),
        forall|k: TableType| !slots_have(slots.subrange(i as int, slots.len() as int), k) ==> #[trigger] field_eq(mm, target_model(m), k),
        forall|k: TableType| slots_have(slots.subrange(i as int, slots.len() as int), k) ==> #[trigger] field_empty(mm, k),
    ensures
        load_tables_from(b, cs, slots, i, mm, m.version) == Ok::<ModuleModel, super::decode::AdamantDeserializeError>(target_model(m)),
    decreases slots.len() - i,
{
    if i >= slots.len() {
        lemma_load_tables_done(b, cs, slots, i, mm, m.version);
        assert forall|k: TableType| #[trigger] field_eq(mm, target_model(m), k) by {
            if slots_have(slots.subrange(i as int, slots.len() as int), k) {
                let j = choose|j: int| 0 <= j < slots.subrange(i as int, slots.len() as int).len() && (#[trigger] slots.subrange(i as int, slots.len() as int)[j]).0 == k;
            }
        }
        lemma_field_eq_all(mm, target_model(m));
    } else {
        let sl = slots[i as int];
        let k = sl.0;
        reveal(slot_holds);
        assert(slot_holds(m, content, sl));
        let t = b.subrange(cs + sl.1, cs + sl.1 + sl.2);
        assert(t =~= content.subrange(sl.1 as int, sl.1 + sl.2)) by {
            assert forall|x: int| 0 <= x < t.len() implies t[x] == content.subrange(sl.1 as int, sl.1 + sl.2)[x] by {
                assert(b.subrange(cs, cs + content.len())[sl.1 + x] == content[sl.1 + x]);
            }
        }
        assert(slots_have(slots.subrange(i as int, slots.len() as int), k)) by {
            assert(slots.subrange(i as int, slots.len() as int)[0] == sl);
        }
        lemma_load_tables_step(b, cs, slots, i, mm, m.version);
        lemma_load_table_at(mm, m, k, t);
        let mm2 = set_field(mm, k, m);
        assert forall|k2: TableType| !slots_have(slots.subrange((i + 1) as int, slots.len() as int), k2) implies #[trigger] field_eq(mm2, target_model(m), k2) by {
            lemma_set_field(mm, k, m, k2);
            if k2 != k {
                if slots_have(slots.subrange(i as int, slots.len() as int), k2) {
                    let j = choose|j: int| 0 <= j < slots.subrange(i as int, slots.len() as int).len() && (#[trigger] slots.subrange(i as int, slots.len() as int)[j]).0 == k2;
                    if j == 0 {
                        assert(slots.subrange(i as int, slots.len() as int)[0] == sl);
                    } else {
                        assert(slots.subrange((i + 1) as int, slots.len() as int)[j - 1] == slots.subrange(i as int, slots.len() as int)[j]);
                    }
                }
            }
        }
        assert forall|k2: TableType| slots_have(slots.subrange((i + 1) as int, slots.len() as int), k2) implies #[trigger] field_empty(mm2, k2) by {
            let sub = slots.subrange((i + 1) as int, slots.len() as int);
            let j = choose|j: int| 0 <= j < sub.len() && (#[trigger] sub[j]).0 == k2;
            assert(sub[j] == slots[i + 1 + j]);
            assert(table_rank(slots[i as int].0) < table_rank(slots[i + 1 + j].0));
            lemma_set_field(mm, k, m, k2);
            assert(slots_have(slots.subrange(i as int, slots.len() as int), k2)) by {
                assert(slots.subrange(i as int, slots.len() as int)[j + 1] == slots[i + 1 + j]);
            }
        }
        lemma_set_field(mm, k, m, k);
        lemma_load_at(b, cs, m, content, slots, i + 1, mm2);
    }
}


// ---------- The whole module ----------

/// Slots in strictly increasing order of kind, each of a kind before
/// `r`, are at most `r`.
proof fn lemma_slots_count(slots: Seq<TableSlot>, r: nat)
    requires
        forall|j: int| 0 <= j < slots.len() ==> table_rank((#[trigger] slots[j]).0) < r,
        forall|i: int, j: int|
            #![trigger slots[i], slots[j]]
            0 <= i < j < slots.len() ==> table_rank(slots[i].0) < table_rank(slots[j].0),
    ensures
        slots.len() <= r,
    decreases slots.len(),
{
    if slots.len() > 0 {
        let pre = slots.drop_last();
        let top = table_rank(slots.last().0);
        assert(slots.last() == slots[slots.len() - 1]);
        assert forall|j: int| 0 <= j < pre.len() implies table_rank((#[trigger] pre[j]).0) < top by {
            assert(pre[j] == slots[j]);
        }
        assert forall|i: int, j: int|
            #![trigger pre[i], pre[j]]
            0 <= i < j < pre.len() implies table_rank(pre[i].0) < table_rank(pre[j].0) by {
            assert(pre[i] == slots[i] && pre[j] == slots[j]);
        }
        lemma_slots_count(pre, top);
    }
}

/// The tables of a module whose serialization succeeds: their slots
/// are well formed, cover every kind written for its version, are at
/// most one per kind, and no enum table is left out before version 7.
proof fn lemma_tables_written(m: AdamantCompiledModule)
    requires
        super::format::VERSION_MIN <= m.version <= super::format::VERSION_MAX,
        module_reads_back(m),
        spec_tables(m) is Ok,
    ensures
        slots_wf(m, spec_tables(m)->Ok_0.0, spec_tables(m)->Ok_0.1),
        covered(m, spec_tables(m)->Ok_0.1, plan_len(m.version)),
        spec_tables(m)->Ok_0.1.len() <= 19,
        m.version < super::format::VERSION_7 ==> !has_enum_tables(m),
{
    let e0 = Seq::<u8>::empty();
    let s0 = Seq::<TableSlot>::empty();
    let n = plan_len(m.version);
    let a = fold_tables(Ok((e0, s0)), m, 0, n);
    assert(slots_wf(m, e0, s0));
    assert(covered(m, s0, 0)) by {
        assert forall|k: TableType| table_rank(k) < 0 implies (table_nonempty(m, k) <==> #[trigger] slots_have(s0, k)) by {}
    }
    assert(a is Ok);
    lemma_fold_wf(m, e0, s0, 0, n);
    let slots = a->Ok_0.1;
    assert(spec_tables(m)->Ok_0 == a->Ok_0);
    lemma_slots_count(slots, n);
}

/// A module with no enum table has no entries in a pool written only
/// from version 7 on.
proof fn lemma_enum_kinds_empty(m: AdamantCompiledModule, k: TableType)
    requires
        !has_enum_tables(m),
        table_rank(k) >= 15,
    ensures
        !table_nonempty(m, k),
{
}

/// The round trip of the module format: the bytes that serializing a
/// module gives decode back to that module, for every module whose
/// serialization succeeds and whose function bodies hold no
/// deprecated global-storage instruction.
#[verifier::spinoff_prover]
#[verifier::rlimit(80)]
pub proof fn lemma_module_round_trip(m: AdamantCompiledModule)
    requires
        spec_adamant_serialize(m) is Ok,
        module_reads_back(m),
    ensures
        spec_adamant_deserialize(spec_adamant_serialize(m)->Ok_0) == Ok::<ModuleModel, super::decode::AdamantDeserializeError>(module_model(m)),
{
    let v = m.version;
    lemma_tables_written(m);
    let content = spec_tables(m)->Ok_0.0;
    let slots = spec_tables(m)->Ok_0.1;
    let count = slots.len();
    let magic = spec_magic(m.publishable);
    let word = spec_u32_to_le_bytes(spec_encode_version(v));
    let head = uleb128_encode(count);
    let entries = spec_index_entries(slots);
    let tail = uleb128_encode(m.self_module_handle_idx.0 as nat);
    let b = spec_adamant_serialize(m)->Ok_0;
    assert(b == magic + word + head + entries + content + tail);
    lemma_auto_spec_u32_to_from_le_bytes();
    lemma_version_word_round_trip(v);
    assert(head == seq![count as u8]);
    let cs = 9 + entries.len() as int;
    assert(b.subrange(0, b.len() as int) =~= b);
    lemma_at_split(b, 0, magic + word + head + entries + content, tail);
    lemma_at_split(b, 0, magic + word + head + entries, content);
    lemma_at_split(b, 0, magic + word + head, entries);
    lemma_at_split(b, 0, magic + word, head);
    lemma_at_split(b, 0, magic, word);
    assert(b.len() >= 8);
    assert(b.subrange(0, 4) == magic);
    assert(b.subrange(4, 8) == word);
    assert(spec_magic(true) != spec_magic(false)) by {
        assert(spec_magic(true)[0] != spec_magic(false)[0]);
    }
    assert(known_magic(b));
    assert((b.subrange(0, 4) == spec_magic(true)) == m.publishable);
    assert(spec_u32_from_le_bytes(b.subrange(4, 8)) == spec_encode_version(v));
    assert(b[8] == head[0]) by {
        assert(b.subrange(8, 9)[0] == b[8]);
    }
    assert(de_u8(b, 8) == Ok::<(u8, int), super::decode::AdamantDeserializeError>((count as u8, 9)));
    assert forall|j: int| 0 <= j < slots.len() implies (#[trigger] slots[j]).2 != 0 by {
        assert(slots[j].2 >= 1);
    }
    lemma_entries_at(slots, b, 9);
    assert forall|i: int, j: int| #![trigger slots[i], slots[j]] 0 <= i < j < slots.len() implies slots[i].1 < slots[j].1 by {
        assert(slots[i].2 >= 1);
    }
    lemma_sorted_fixed(slots);
    let avail = (b.len() - cs) as nat;
    lemma_check_at(content.len(), slots, 0, avail);
    assert(slot_kinds(slots, 0) =~= Seq::<TableType>::empty());
    if slots.len() > 0 {
        assert(slots[0].1 == 0);
    }
    assert(check_tables_from(slots, 0, 0, Seq::empty(), avail) == Ok::<nat, super::decode::AdamantDeserializeError>(content.len()));
    let mm0 = empty_module_model(v, m.publishable);
    assert(slots.subrange(0, slots.len() as int) =~= slots);
    assert forall|k: TableType| !slots_have(slots.subrange(0, slots.len() as int), k) implies #[trigger] field_eq(mm0, target_model(m), k) by {
        if table_rank(k) < plan_len(v) {
            assert(slots_have(slots, k) == table_nonempty(m, k));
        } else {
            lemma_enum_kinds_empty(m, k);
        }
        lemma_empty_agrees(m, k);
    }
    assert forall|j: int| 0 <= j < slots.len() implies (table_rank((#[trigger] slots[j]).0) >= 15 ==> v >= super::format::VERSION_7) by {
        assert(table_rank(slots[j].0) < plan_len(v));
    }
    lemma_empty_model_fields(v, m.publishable);
    lemma_load_at(b, cs, m, content, slots, 0, mm0);
    lemma_index_at(m.self_module_handle_idx.0, super::decode::KIND_MODULE_HANDLE_INDEX, b, cs + content.len());
    let r = ModuleModel { self_module_handle_idx: m.self_module_handle_idx, ..target_model(m) };
    assert(r == module_model(m));
}

} // verus!
