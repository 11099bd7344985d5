//! Decoding of constant-pool entries: the BCS bytes of a constant,
//! read at the constant's declared type.  The primitive types and
//! byte vectors are the constant types the runtime loads; any other
//! declared type, and bytes that are not a BCS encoding of the
//! declared type, are a type mismatch.

use crate::module::SignatureToken;
use crate::runtime::error::{InvariantViolationReason, VMError};
use crate::runtime::frame::type_mismatch;
use crate::runtime::ops::res_model;
use crate::transaction::Address;
use crate::uleb128::{uleb128_decode, uleb128_encode};
use crate::value::{seq_model, Value, ValueModel};
use crate::bytecode::U256;
use vstd::bytes::{
    spec_u128_from_le_bytes, spec_u16_from_le_bytes, spec_u32_from_le_bytes,
    spec_u64_from_le_bytes,
};
use vstd::prelude::*;

verus! {

/// The error type of `bcs` decoding.
#[verifier::external_type_specification]
#[verifier::external_body]
pub struct ExBcsError(bcs::Error);

/// The longest sequence BCS decodes (`bcs::MAX_SEQUENCE_LENGTH`).
pub const MAX_SEQUENCE_LENGTH: usize = 0x7fff_ffff;

/// `bcs::from_bytes::<u8>`: BCS writes a `u8` as its one byte, and
/// decoding fails on any other input length.
#[verifier::external_body]
fn bcs_u8(data: &[u8]) -> (r: Result<u8, bcs::Error>)
    ensures
        r is Ok <==> data@.len() == 1,
        r matches Ok(x) ==> x == data@[0],
{
    bcs::from_bytes::<u8>(data)
}

/// `bcs::from_bytes::<u16>`: two little-endian bytes, nothing more.
#[verifier::external_body]
fn bcs_u16(data: &[u8]) -> (r: Result<u16, bcs::Error>)
    ensures
        r is Ok <==> data@.len() == 2,
        r matches Ok(x) ==> x == spec_u16_from_le_bytes(data@),
{
    bcs::from_bytes::<u16>(data)
}

/// `bcs::from_bytes::<u32>`: four little-endian bytes, nothing more.
#[verifier::external_body]
fn bcs_u32(data: &[u8]) -> (r: Result<u32, bcs::Error>)
    ensures
        r is Ok <==> data@.len() == 4,
        r matches Ok(x) ==> x == spec_u32_from_le_bytes(data@),
{
    bcs::from_bytes::<u32>(data)
}

/// `bcs::from_bytes::<u64>`: eight little-endian bytes, nothing more.
#[verifier::external_body]
fn bcs_u64(data: &[u8]) -> (r: Result<u64, bcs::Error>)
    ensures
        r is Ok <==> data@.len() == 8,
        r matches Ok(x) ==> x == spec_u64_from_le_bytes(data@),
{
    bcs::from_bytes::<u64>(data)
}

/// `bcs::from_bytes::<u128>`: sixteen little-endian bytes, nothing
/// more.
#[verifier::external_body]
fn bcs_u128(data: &[u8]) -> (r: Result<u128, bcs::Error>)
    ensures
        r is Ok <==> data@.len() == 16,
        r matches Ok(x) ==> x == spec_u128_from_le_bytes(data@),
{
    bcs::from_bytes::<u128>(data)
}

/// `bcs::from_bytes::<bool>`: one byte, `0` for false and `1` for
/// true; any other byte or length fails.
#[verifier::external_body]
fn bcs_bool(data: &[u8]) -> (r: Result<bool, bcs::Error>)
    ensures
        r is Ok <==> (data@.len() == 1 && data@[0] <= 1),
        r matches Ok(b) ==> b == (data@[0] == 1),
{
    bcs::from_bytes::<bool>(data)
}

/// `bcs::from_bytes::<[u8; 32]>`: a fixed-size array is its 32 bytes
/// with no length prefix.
#[verifier::external_body]
fn bcs_bytes32(data: &[u8]) -> (r: Result<[u8; 32], bcs::Error>)
    ensures
        r is Ok <==> data@.len() == 32,
        r matches Ok(a) ==> a@ == data@,
{
    bcs::from_bytes::<[u8; 32]>(data)
}

/// `bcs::from_bytes::<Vec<u8>>`: a byte sequence is the canonical
/// ULEB128 encoding of its length, at most `MAX_SEQUENCE_LENGTH`,
/// followed by the bytes; decoding accepts exactly such inputs.
#[verifier::external_body]
fn bcs_byte_vec(data: &[u8]) -> (r: Result<Vec<u8>, bcs::Error>)
    ensures
        r matches Ok(v) ==> v@.len() <= MAX_SEQUENCE_LENGTH && data@ == uleb128_encode(
            v@.len() as nat,
        ) + v@,
        forall|n: nat|
            #![trigger uleb128_encode(n)]
            n <= MAX_SEQUENCE_LENGTH && data@.len() == uleb128_encode(n).len() + n
                && data@.subrange(0, uleb128_encode(n).len() as int) == uleb128_encode(n)
                ==> r is Ok,
{
    bcs::from_bytes::<Vec<u8>>(data)
}

/// The bytes of a BCS-encoded byte sequence: a canonical ULEB128
/// length of at most `MAX_SEQUENCE_LENGTH` followed by exactly that
/// many bytes.
pub open spec fn bcs_byte_seq(data: Seq<u8>) -> Option<Seq<u8>> {
    match uleb128_decode(data, 0) {
        Ok((n, p)) => if n <= MAX_SEQUENCE_LENGTH && data.len() - p == n {
            Some(data.subrange(p, data.len() as int))
        } else {
            None
        },
        Err(_) => None,
    }
}

/// The value of a constant of type `token` whose bytes are `data`.
pub open spec fn spec_decode_constant(token: SignatureToken, data: Seq<u8>) -> Result<
    ValueModel,
    VMError,
> {
    match token {
        SignatureToken::Bool => if data.len() == 1 && data[0] <= 1 {
            Ok(ValueModel::Bool(data[0] == 1))
        } else {
            Err(type_mismatch())
        },
        SignatureToken::U8 => if data.len() == 1 {
            Ok(ValueModel::U8(data[0]))
        } else {
            Err(type_mismatch())
        },
        SignatureToken::U16 => if data.len() == 2 {
            Ok(ValueModel::U16(spec_u16_from_le_bytes(data)))
        } else {
            Err(type_mismatch())
        },
        SignatureToken::U32 => if data.len() == 4 {
            Ok(ValueModel::U32(spec_u32_from_le_bytes(data)))
        } else {
            Err(type_mismatch())
        },
        SignatureToken::U64 => if data.len() == 8 {
            Ok(ValueModel::U64(spec_u64_from_le_bytes(data)))
        } else {
            Err(type_mismatch())
        },
        SignatureToken::U128 => if data.len() == 16 {
            Ok(ValueModel::U128(spec_u128_from_le_bytes(data)))
        } else {
            Err(type_mismatch())
        },
        SignatureToken::U256 => if data.len() == 32 {
            Ok(ValueModel::U256(U256::from_le_seq(data).value()))
        } else {
            Err(type_mismatch())
        },
        SignatureToken::Address => if data.len() == 32 {
            Ok(ValueModel::Address(data))
        } else {
            Err(type_mismatch())
        },
        SignatureToken::Vector(inner) => match *inner {
            SignatureToken::U8 => match bcs_byte_seq(data) {
                Some(bytes) => Ok(ValueModel::Vector(bytes.map_values(|b: u8| ValueModel::U8(b)))),
                None => Err(type_mismatch()),
            },
            _ => Err(type_mismatch()),
        },
        _ => Err(type_mismatch()),
    }
}

/// A BCS-encoded byte sequence decodes to the bytes after its length.
proof fn lemma_bcs_byte_seq(data: Seq<u8>, v: Seq<u8>)
    requires
        v.len() <= MAX_SEQUENCE_LENGTH,
        data == uleb128_encode(v.len() as nat) + v,
    ensures
        bcs_byte_seq(data) == Some(v),
{
    let n = v.len() as nat;
    let e = uleb128_encode(n);
    assert(data.subrange(0, e.len() as int) =~= e);
    crate::uleb128::lemma_uleb128_round_trip(n, data, 0);
    assert(data.subrange(e.len() as int, data.len() as int) =~= v);
}

/// A byte sequence `bcs_byte_seq` accepts is in the form BCS decodes.
proof fn lemma_bcs_byte_seq_form(data: Seq<u8>)
    requires
        bcs_byte_seq(data) is Some,
    ensures
        uleb128_decode(data, 0) matches Ok((n, p)) && {
            &&& n <= MAX_SEQUENCE_LENGTH
            &&& data.len() == uleb128_encode(n).len() + n
            &&& data.subrange(0, uleb128_encode(n).len() as int) == uleb128_encode(n)
        },
{
    crate::uleb128::lemma_uleb128_canonical(data, 0);
    crate::uleb128::lemma_uleb128_decode_bound(data, 0);
    if let Ok((n, p)) = uleb128_decode(data, 0) {
        assert(data.subrange(0, p).len() == p);
        assert(uleb128_encode(n).len() == p);
    }
}

/// The bytes as a vector of `u8` values.
fn byte_values(bytes: &Vec<u8>) -> (r: Vec<Value>)
    ensures
        seq_model(r@) == bytes@.map_values(|b: u8| ValueModel::U8(b)),
{
    let mut out: Vec<Value> = Vec::new();
    let mut i: usize = 0;
    while i < bytes.len()
        invariant
            i <= bytes@.len(),
            out@.len() == i,
            forall|j: int| 0 <= j < i ==> (#[trigger] out@[j]) == Value::U8(bytes@[j]),
        decreases bytes@.len() - i,
    {
        out.push(Value::U8(bytes[i]));
        i = i + 1;
    }
    assert(seq_model(out@) =~= bytes@.map_values(|b: u8| ValueModel::U8(b)));
    out
}

/// Decodes a constant's bytes at its declared type.
pub fn decode_constant(token: &SignatureToken, data: &[u8]) -> (r: Result<Value, VMError>)
    ensures
        res_model(r) == spec_decode_constant(*token, data@),
{
    let mismatch = VMError::InvariantViolation { reason: InvariantViolationReason::TypeMismatchOnStack };
    match token {
        SignatureToken::Bool => match bcs_bool(data) {
            Ok(b) => Ok(Value::Bool(b)),
            Err(_) => Err(mismatch),
        },
        SignatureToken::U8 => match bcs_u8(data) {
            Ok(x) => Ok(Value::U8(x)),
            Err(_) => Err(mismatch),
        },
        SignatureToken::U16 => match bcs_u16(data) {
            Ok(x) => Ok(Value::U16(x)),
            Err(_) => Err(mismatch),
        },
        SignatureToken::U32 => match bcs_u32(data) {
            Ok(x) => Ok(Value::U32(x)),
            Err(_) => Err(mismatch),
        },
        SignatureToken::U64 => match bcs_u64(data) {
            Ok(x) => Ok(Value::U64(x)),
            Err(_) => Err(mismatch),
        },
        SignatureToken::U128 => match bcs_u128(data) {
            Ok(x) => Ok(Value::U128(x)),
            Err(_) => Err(mismatch),
        },
        SignatureToken::U256 => match bcs_bytes32(data) {
            Ok(a) => {
                proof {
                    assert(a@ == data@);
                }
                Ok(Value::U256(a))
            },
            Err(_) => Err(mismatch),
        },
        SignatureToken::Address => match bcs_bytes32(data) {
            Ok(a) => Ok(Value::Address(Address(a))),
            Err(_) => Err(mismatch),
        },
        SignatureToken::Vector(inner) => match &**inner {
            SignatureToken::U8 => match bcs_byte_vec(data) {
                Ok(bytes) => {
                    proof {
                        lemma_bcs_byte_seq(data@, bytes@);
                    }
                    let elements = byte_values(&bytes);
                    proof {
                        crate::value::lemma_vec_model(elements);
                    }
                    Ok(Value::Vector(elements))
                },
                Err(_) => {
                    proof {
                        if bcs_byte_seq(data@) is Some {
                            lemma_bcs_byte_seq_form(data@);
                        }
                    }
                    Err(mismatch)
                },
            },
            _ => Err(mismatch),
        },
        _ => Err(mismatch),
    }
}

} // verus!
