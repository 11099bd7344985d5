//! Bytecode wire format of function bodies: a ULEB128 instruction
//! count followed by the instructions.  Each instruction is its
//! opcode byte followed by its operand: indices as ULEB128, local
//! indices as ULEB128, immediates as little-endian fixed-width
//! integers, gas dimensions as a single tag byte `0x00..=0x05`.
//!
//! Decoding accepts exactly the encodings that serializing
//! produces ([`lemma_round_trip`], [`lemma_canonical`]).

use crate::bytecode::{
    AdamantBytecode, AdamantOpcodeKind, Bytecode, BytecodeInstruction, CircuitId,
    ConstantPoolIndex, FieldHandleIndex, FieldInstantiationIndex, FunctionHandleIndex,
    FunctionInstantiationIndex, GasDimension, SignatureIndex, StructDefInstantiationIndex,
    StructDefinitionIndex, VariantHandleIndex, VariantInstantiationHandleIndex,
    VariantJumpTableIndex, U256,
};
use crate::cursor::Cursor;
use crate::opcodes::{POP, RET, BR_TRUE, BR_FALSE, BRANCH, LD_U64, LD_CONST, LD_TRUE, LD_FALSE, COPY_LOC, MOVE_LOC, ST_LOC, MUT_BORROW_LOC, IMM_BORROW_LOC, MUT_BORROW_FIELD, IMM_BORROW_FIELD, CALL, PACK, UNPACK, READ_REF, WRITE_REF, ADD, SUB, MUL, MOD, DIV, BIT_OR, BIT_AND, XOR, OR, AND, NOT, EQ, NEQ, LT, GT, LE, GE, ABORT, NOP, EXISTS_DEPRECATED, MUT_BORROW_GLOBAL_DEPRECATED, IMM_BORROW_GLOBAL_DEPRECATED, MOVE_FROM_DEPRECATED, MOVE_TO_DEPRECATED, FREEZE_REF, SHL, SHR, LD_U8, LD_U128, CAST_U8, CAST_U64, CAST_U128, MUT_BORROW_FIELD_GENERIC, IMM_BORROW_FIELD_GENERIC, CALL_GENERIC, PACK_GENERIC, UNPACK_GENERIC, EXISTS_GENERIC_DEPRECATED, MUT_BORROW_GLOBAL_GENERIC_DEPRECATED, IMM_BORROW_GLOBAL_GENERIC_DEPRECATED, MOVE_FROM_GENERIC_DEPRECATED, MOVE_TO_GENERIC_DEPRECATED, VEC_PACK, VEC_LEN, VEC_IMM_BORROW, VEC_MUT_BORROW, VEC_PUSH_BACK, VEC_POP_BACK, VEC_UNPACK, VEC_SWAP, LD_U16, LD_U32, LD_U256, CAST_U16, CAST_U32, CAST_U256, PACK_VARIANT, PACK_VARIANT_GENERIC, UNPACK_VARIANT, UNPACK_VARIANT_IMM_REF, UNPACK_VARIANT_MUT_REF, UNPACK_VARIANT_GENERIC, UNPACK_VARIANT_GENERIC_IMM_REF, UNPACK_VARIANT_GENERIC_MUT_REF, VARIANT_SWITCH};
use crate::uleb128::{
    lemma_uleb128_canonical, lemma_uleb128_decode_bound, lemma_uleb128_encode_len,
    lemma_uleb128_round_trip, uleb128_decode, uleb128_encode, write_uleb128,
};
use vstd::bytes::*;
use vstd::prelude::*;

verus! {

// ---------- Errors and configuration ----------

/// Errors from [`serialize_function_body`].  Every instruction
/// serializes; the variant is reserved for tighter operand checks.
#[derive(Debug, Clone, PartialEq, Eq, Hash)]
pub enum SerializeError {
    /// An operand value is out of its encoding range.
    OperandOverflow,
}

/// Errors from [`deserialize_function_body`].
#[derive(Debug, Clone, PartialEq, Eq, Hash)]
pub enum DeserializeError {
    /// The stream ended inside an instruction or before it.
    UnexpectedEof,
    /// The opcode byte names no instruction.
    UnknownOpcode(u8),
    /// A ULEB128 sequence overflows `u64` or is not canonical.
    MalformedUleb128,
    /// An operand value is out of range for its type.
    InvalidOperand {
        /// The opcode byte whose operand failed validation.
        opcode: u8,
        /// Why the operand was refused.
        reason: &'static str,
    },
    /// Bytes remain after a complete function body.
    TrailingBytes,
    /// A deprecated global-storage opcode, refused in strict mode.
    DeprecatedGlobalStorageOpcode(u8),
}

/// Reason carried by an index operand above `u16::MAX`.
pub const REASON_INDEX_U16: &'static str = "index exceeds u16::MAX";

/// Reason carried by a local index operand above `u8::MAX`.
pub const REASON_INDEX_U8: &'static str = "index exceeds u8::MAX";

/// Reason carried by a gas-dimension tag outside `0x00..=0x05`.
pub const REASON_GAS_DIMENSION: &'static str = "GasDimension tag must be 0x00..=0x05";

/// Decoding configuration.
#[derive(Debug, Clone, Copy, PartialEq, Eq, Hash)]
pub struct DeserializeConfig {
    /// Refuse the deprecated global-storage opcodes.
    pub reject_deprecated_global_storage: bool,
}

impl DeserializeConfig {
    /// Accepts every well-formed instruction, the deprecated
    /// global-storage ones included.
    pub fn lenient() -> (r: Self)
        ensures
            !r.reject_deprecated_global_storage,
    {
        DeserializeConfig { reject_deprecated_global_storage: false }
    }

    /// Refuses the deprecated global-storage opcodes.
    pub fn strict() -> (r: Self)
        ensures
            r.reject_deprecated_global_storage,
    {
        DeserializeConfig { reject_deprecated_global_storage: true }
    }
}

impl Default for DeserializeConfig {
    /// Lenient.
    fn default() -> (r: Self)
        ensures
            !r.reject_deprecated_global_storage,
    {
        Self::lenient()
    }
}

// ---------- Operands ----------

/// The operand of an instruction as it stands on the wire.
#[derive(Debug, Clone, Copy, PartialEq, Eq)]
pub enum Operand {
    /// No operand.
    Empty,
    /// A table index or code offset: ULEB128, at most `u16::MAX`.
    Index(u16),
    /// A local index: ULEB128, at most `u8::MAX`.
    LocalIdx(u8),
    /// A raw byte.
    Byte(u8),
    /// A little-endian `u16`.
    Word16(u16),
    /// A little-endian `u32`.
    Word32(u32),
    /// A little-endian `u64`.
    Word64(u64),
    /// A little-endian `u128`.
    Word128(u128),
    /// A little-endian `u256`.
    Word256(U256),
    /// A ULEB128 signature index followed by a little-endian `u64`.
    IndexCount(u16, u64),
    /// A gas-dimension tag byte.
    Dimension(GasDimension),
}

/// The kinds of operand.
#[derive(Debug, Clone, Copy, PartialEq, Eq, Structural)]
pub enum OperandShape {
    /// No operand.
    Empty,
    /// ULEB128 index up to `u16::MAX`.
    Index,
    /// ULEB128 local index up to `u8::MAX`.
    LocalIdx,
    /// One raw byte.
    Byte,
    /// Little-endian `u16`.
    Word16,
    /// Little-endian `u32`.
    Word32,
    /// Little-endian `u64`.
    Word64,
    /// Little-endian `u128`.
    Word128,
    /// Little-endian `u256`.
    Word256,
    /// ULEB128 index then little-endian `u64`.
    IndexCount,
    /// Gas-dimension tag byte.
    Dimension,
}

/// The shape of an operand.
pub open spec fn operand_shape(op: Operand) -> OperandShape {
    match op {
        Operand::Empty => OperandShape::Empty,
        Operand::Index(_) => OperandShape::Index,
        Operand::LocalIdx(_) => OperandShape::LocalIdx,
        Operand::Byte(_) => OperandShape::Byte,
        Operand::Word16(_) => OperandShape::Word16,
        Operand::Word32(_) => OperandShape::Word32,
        Operand::Word64(_) => OperandShape::Word64,
        Operand::Word128(_) => OperandShape::Word128,
        Operand::Word256(_) => OperandShape::Word256,
        Operand::IndexCount(_, _) => OperandShape::IndexCount,
        Operand::Dimension(_) => OperandShape::Dimension,
    }
}

/// The tag byte of a gas dimension: its position in declaration
/// order.
pub open spec fn spec_gas_dimension_tag(d: GasDimension) -> u8 {
    match d {
        GasDimension::Computation => 0x00,
        GasDimension::Storage => 0x01,
        GasDimension::Rent => 0x02,
        GasDimension::Bandwidth => 0x03,
        GasDimension::ProofVerification => 0x04,
        GasDimension::ProofGeneration => 0x05,
    }
}

/// The gas dimension with tag byte `b`, if any.
pub open spec fn spec_gas_dimension_of_tag(b: u8) -> Option<GasDimension> {
    if b == 0x00 {
        Some(GasDimension::Computation)
    } else if b == 0x01 {
        Some(GasDimension::Storage)
    } else if b == 0x02 {
        Some(GasDimension::Rent)
    } else if b == 0x03 {
        Some(GasDimension::Bandwidth)
    } else if b == 0x04 {
        Some(GasDimension::ProofVerification)
    } else if b == 0x05 {
        Some(GasDimension::ProofGeneration)
    } else {
        None
    }
}

/// The bytes of an operand.
pub open spec fn operand_bytes(op: Operand) -> Seq<u8> {
    match op {
        Operand::Empty => Seq::empty(),
        Operand::Index(v) => uleb128_encode(v as nat),
        Operand::LocalIdx(v) => uleb128_encode(v as nat),
        Operand::Byte(b) => seq![b],
        Operand::Word16(v) => spec_u16_to_le_bytes(v),
        Operand::Word32(v) => spec_u32_to_le_bytes(v),
        Operand::Word64(v) => spec_u64_to_le_bytes(v),
        Operand::Word128(v) => spec_u128_to_le_bytes(v),
        Operand::Word256(v) => v.le_bytes(),
        Operand::IndexCount(s, n) => uleb128_encode(s as nat) + spec_u64_to_le_bytes(n),
        Operand::Dimension(d) => seq![spec_gas_dimension_tag(d)],
    }
}

/// Encodes a gas dimension as its tag byte `0x00..=0x05`.
pub fn gas_dimension_byte(d: GasDimension) -> (r: u8)
    ensures
        r == spec_gas_dimension_tag(d),
        spec_gas_dimension_of_tag(r) == Some(d),
{
    match d {
        GasDimension::Computation => 0x00,
        GasDimension::Storage => 0x01,
        GasDimension::Rent => 0x02,
        GasDimension::Bandwidth => 0x03,
        GasDimension::ProofVerification => 0x04,
        GasDimension::ProofGeneration => 0x05,
    }
}

/// Decodes a gas-dimension tag byte; any byte above `0x05` is an
/// invalid operand of `opcode`.
pub fn gas_dimension_from_byte(b: u8, opcode: u8) -> (r: Result<GasDimension, DeserializeError>)
    ensures
        match spec_gas_dimension_of_tag(b) {
            Some(d) => r == Ok::<GasDimension, DeserializeError>(d) && spec_gas_dimension_tag(d)
                == b,
            None => r == Err::<GasDimension, DeserializeError>(
                DeserializeError::InvalidOperand { opcode, reason: REASON_GAS_DIMENSION },
            ),
        },
        r is Ok <==> b <= 0x05,
{
    match b {
        0x00 => Ok(GasDimension::Computation),
        0x01 => Ok(GasDimension::Storage),
        0x02 => Ok(GasDimension::Rent),
        0x03 => Ok(GasDimension::Bandwidth),
        0x04 => Ok(GasDimension::ProofVerification),
        0x05 => Ok(GasDimension::ProofGeneration),
        _ => Err(DeserializeError::InvalidOperand { opcode, reason: REASON_GAS_DIMENSION }),
    }
}

// ---------- Instruction tables ----------

/// Opcode byte and operand of an inherited instruction.
pub open spec fn spec_inherited_parts(bc: Bytecode) -> (u8, Operand) {
    match bc {
        Bytecode::Pop => (POP, Operand::Empty),
        Bytecode::Ret => (RET, Operand::Empty),
        Bytecode::BrTrue(x) => (BR_TRUE, Operand::Index(x)),
        Bytecode::BrFalse(x) => (BR_FALSE, Operand::Index(x)),
        Bytecode::Branch(x) => (BRANCH, Operand::Index(x)),
        Bytecode::LdU64(x) => (LD_U64, Operand::Word64(x)),
        Bytecode::LdConst(x) => (LD_CONST, Operand::Index(x.0)),
        Bytecode::LdTrue => (LD_TRUE, Operand::Empty),
        Bytecode::LdFalse => (LD_FALSE, Operand::Empty),
        Bytecode::CopyLoc(x) => (COPY_LOC, Operand::LocalIdx(x)),
        Bytecode::MoveLoc(x) => (MOVE_LOC, Operand::LocalIdx(x)),
        Bytecode::StLoc(x) => (ST_LOC, Operand::LocalIdx(x)),
        Bytecode::MutBorrowLoc(x) => (MUT_BORROW_LOC, Operand::LocalIdx(x)),
        Bytecode::ImmBorrowLoc(x) => (IMM_BORROW_LOC, Operand::LocalIdx(x)),
        Bytecode::MutBorrowField(x) => (MUT_BORROW_FIELD, Operand::Index(x.0)),
        Bytecode::ImmBorrowField(x) => (IMM_BORROW_FIELD, Operand::Index(x.0)),
        Bytecode::Call(x) => (CALL, Operand::Index(x.0)),
        Bytecode::Pack(x) => (PACK, Operand::Index(x.0)),
        Bytecode::Unpack(x) => (UNPACK, Operand::Index(x.0)),
        Bytecode::ReadRef => (READ_REF, Operand::Empty),
        Bytecode::WriteRef => (WRITE_REF, Operand::Empty),
        Bytecode::Add => (ADD, Operand::Empty),
        Bytecode::Sub => (SUB, Operand::Empty),
        Bytecode::Mul => (MUL, Operand::Empty),
        Bytecode::Mod => (MOD, Operand::Empty),
        Bytecode::Div => (DIV, Operand::Empty),
        Bytecode::BitOr => (BIT_OR, Operand::Empty),
        Bytecode::BitAnd => (BIT_AND, Operand::Empty),
        Bytecode::Xor => (XOR, Operand::Empty),
        Bytecode::Or => (OR, Operand::Empty),
        Bytecode::And => (AND, Operand::Empty),
        Bytecode::Not => (NOT, Operand::Empty),
        Bytecode::Eq => (EQ, Operand::Empty),
        Bytecode::Neq => (NEQ, Operand::Empty),
        Bytecode::Lt => (LT, Operand::Empty),
        Bytecode::Gt => (GT, Operand::Empty),
        Bytecode::Le => (LE, Operand::Empty),
        Bytecode::Ge => (GE, Operand::Empty),
        Bytecode::Abort => (ABORT, Operand::Empty),
        Bytecode::Nop => (NOP, Operand::Empty),
        Bytecode::ExistsDeprecated(x) => (EXISTS_DEPRECATED, Operand::Index(x.0)),
        Bytecode::MutBorrowGlobalDeprecated(x) => (MUT_BORROW_GLOBAL_DEPRECATED, Operand::Index(x.0)),
        Bytecode::ImmBorrowGlobalDeprecated(x) => (IMM_BORROW_GLOBAL_DEPRECATED, Operand::Index(x.0)),
        Bytecode::MoveFromDeprecated(x) => (MOVE_FROM_DEPRECATED, Operand::Index(x.0)),
        Bytecode::MoveToDeprecated(x) => (MOVE_TO_DEPRECATED, Operand::Index(x.0)),
        Bytecode::FreezeRef => (FREEZE_REF, Operand::Empty),
        Bytecode::Shl => (SHL, Operand::Empty),
        Bytecode::Shr => (SHR, Operand::Empty),
        Bytecode::LdU8(x) => (LD_U8, Operand::Byte(x)),
        Bytecode::LdU128(x) => (LD_U128, Operand::Word128(*x)),
        Bytecode::CastU8 => (CAST_U8, Operand::Empty),
        Bytecode::CastU64 => (CAST_U64, Operand::Empty),
        Bytecode::CastU128 => (CAST_U128, Operand::Empty),
        Bytecode::MutBorrowFieldGeneric(x) => (MUT_BORROW_FIELD_GENERIC, Operand::Index(x.0)),
        Bytecode::ImmBorrowFieldGeneric(x) => (IMM_BORROW_FIELD_GENERIC, Operand::Index(x.0)),
        Bytecode::CallGeneric(x) => (CALL_GENERIC, Operand::Index(x.0)),
        Bytecode::PackGeneric(x) => (PACK_GENERIC, Operand::Index(x.0)),
        Bytecode::UnpackGeneric(x) => (UNPACK_GENERIC, Operand::Index(x.0)),
        Bytecode::ExistsGenericDeprecated(x) => (EXISTS_GENERIC_DEPRECATED, Operand::Index(x.0)),
        Bytecode::MutBorrowGlobalGenericDeprecated(x) => (MUT_BORROW_GLOBAL_GENERIC_DEPRECATED, Operand::Index(x.0)),
        Bytecode::ImmBorrowGlobalGenericDeprecated(x) => (IMM_BORROW_GLOBAL_GENERIC_DEPRECATED, Operand::Index(x.0)),
        Bytecode::MoveFromGenericDeprecated(x) => (MOVE_FROM_GENERIC_DEPRECATED, Operand::Index(x.0)),
        Bytecode::MoveToGenericDeprecated(x) => (MOVE_TO_GENERIC_DEPRECATED, Operand::Index(x.0)),
        Bytecode::VecPack(s, n) => (VEC_PACK, Operand::IndexCount(s.0, n)),
        Bytecode::VecLen(x) => (VEC_LEN, Operand::Index(x.0)),
        Bytecode::VecImmBorrow(x) => (VEC_IMM_BORROW, Operand::Index(x.0)),
        Bytecode::VecMutBorrow(x) => (VEC_MUT_BORROW, Operand::Index(x.0)),
        Bytecode::VecPushBack(x) => (VEC_PUSH_BACK, Operand::Index(x.0)),
        Bytecode::VecPopBack(x) => (VEC_POP_BACK, Operand::Index(x.0)),
        Bytecode::VecUnpack(s, n) => (VEC_UNPACK, Operand::IndexCount(s.0, n)),
        Bytecode::VecSwap(x) => (VEC_SWAP, Operand::Index(x.0)),
        Bytecode::LdU16(x) => (LD_U16, Operand::Word16(x)),
        Bytecode::LdU32(x) => (LD_U32, Operand::Word32(x)),
        Bytecode::LdU256(x) => (LD_U256, Operand::Word256(*x)),
        Bytecode::CastU16 => (CAST_U16, Operand::Empty),
        Bytecode::CastU32 => (CAST_U32, Operand::Empty),
        Bytecode::CastU256 => (CAST_U256, Operand::Empty),
        Bytecode::PackVariant(x) => (PACK_VARIANT, Operand::Index(x.0)),
        Bytecode::PackVariantGeneric(x) => (PACK_VARIANT_GENERIC, Operand::Index(x.0)),
        Bytecode::UnpackVariant(x) => (UNPACK_VARIANT, Operand::Index(x.0)),
        Bytecode::UnpackVariantImmRef(x) => (UNPACK_VARIANT_IMM_REF, Operand::Index(x.0)),
        Bytecode::UnpackVariantMutRef(x) => (UNPACK_VARIANT_MUT_REF, Operand::Index(x.0)),
        Bytecode::UnpackVariantGeneric(x) => (UNPACK_VARIANT_GENERIC, Operand::Index(x.0)),
        Bytecode::UnpackVariantGenericImmRef(x) => (UNPACK_VARIANT_GENERIC_IMM_REF, Operand::Index(x.0)),
        Bytecode::UnpackVariantGenericMutRef(x) => (UNPACK_VARIANT_GENERIC_MUT_REF, Operand::Index(x.0)),
        Bytecode::VariantSwitch(x) => (VARIANT_SWITCH, Operand::Index(x.0)),
    }
}

/// Opcode byte and operand of an inherited instruction.
fn inherited_parts(bc: &Bytecode) -> (r: (u8, Operand))
    ensures
        r == spec_inherited_parts(*bc),
{
    match bc {
        Bytecode::Pop => (POP, Operand::Empty),
        Bytecode::Ret => (RET, Operand::Empty),
        Bytecode::BrTrue(x) => (BR_TRUE, Operand::Index(*x)),
        Bytecode::BrFalse(x) => (BR_FALSE, Operand::Index(*x)),
        Bytecode::Branch(x) => (BRANCH, Operand::Index(*x)),
        Bytecode::LdU64(x) => (LD_U64, Operand::Word64(*x)),
        Bytecode::LdConst(x) => (LD_CONST, Operand::Index(x.0)),
        Bytecode::LdTrue => (LD_TRUE, Operand::Empty),
        Bytecode::LdFalse => (LD_FALSE, Operand::Empty),
        Bytecode::CopyLoc(x) => (COPY_LOC, Operand::LocalIdx(*x)),
        Bytecode::MoveLoc(x) => (MOVE_LOC, Operand::LocalIdx(*x)),
        Bytecode::StLoc(x) => (ST_LOC, Operand::LocalIdx(*x)),
        Bytecode::MutBorrowLoc(x) => (MUT_BORROW_LOC, Operand::LocalIdx(*x)),
        Bytecode::ImmBorrowLoc(x) => (IMM_BORROW_LOC, Operand::LocalIdx(*x)),
        Bytecode::MutBorrowField(x) => (MUT_BORROW_FIELD, Operand::Index(x.0)),
        Bytecode::ImmBorrowField(x) => (IMM_BORROW_FIELD, Operand::Index(x.0)),
        Bytecode::Call(x) => (CALL, Operand::Index(x.0)),
        Bytecode::Pack(x) => (PACK, Operand::Index(x.0)),
        Bytecode::Unpack(x) => (UNPACK, Operand::Index(x.0)),
        Bytecode::ReadRef => (READ_REF, Operand::Empty),
        Bytecode::WriteRef => (WRITE_REF, Operand::Empty),
        Bytecode::Add => (ADD, Operand::Empty),
        Bytecode::Sub => (SUB, Operand::Empty),
        Bytecode::Mul => (MUL, Operand::Empty),
        Bytecode::Mod => (MOD, Operand::Empty),
        Bytecode::Div => (DIV, Operand::Empty),
        Bytecode::BitOr => (BIT_OR, Operand::Empty),
        Bytecode::BitAnd => (BIT_AND, Operand::Empty),
        Bytecode::Xor => (XOR, Operand::Empty),
        Bytecode::Or => (OR, Operand::Empty),
        Bytecode::And => (AND, Operand::Empty),
        Bytecode::Not => (NOT, Operand::Empty),
        Bytecode::Eq => (EQ, Operand::Empty),
        Bytecode::Neq => (NEQ, Operand::Empty),
        Bytecode::Lt => (LT, Operand::Empty),
        Bytecode::Gt => (GT, Operand::Empty),
        Bytecode::Le => (LE, Operand::Empty),
        Bytecode::Ge => (GE, Operand::Empty),
        Bytecode::Abort => (ABORT, Operand::Empty),
        Bytecode::Nop => (NOP, Operand::Empty),
        Bytecode::ExistsDeprecated(x) => (EXISTS_DEPRECATED, Operand::Index(x.0)),
        Bytecode::MutBorrowGlobalDeprecated(x) => (MUT_BORROW_GLOBAL_DEPRECATED, Operand::Index(x.0)),
        Bytecode::ImmBorrowGlobalDeprecated(x) => (IMM_BORROW_GLOBAL_DEPRECATED, Operand::Index(x.0)),
        Bytecode::MoveFromDeprecated(x) => (MOVE_FROM_DEPRECATED, Operand::Index(x.0)),
        Bytecode::MoveToDeprecated(x) => (MOVE_TO_DEPRECATED, Operand::Index(x.0)),
        Bytecode::FreezeRef => (FREEZE_REF, Operand::Empty),
        Bytecode::Shl => (SHL, Operand::Empty),
        Bytecode::Shr => (SHR, Operand::Empty),
        Bytecode::LdU8(x) => (LD_U8, Operand::Byte(*x)),
        Bytecode::LdU128(x) => (LD_U128, Operand::Word128(**x)),
        Bytecode::CastU8 => (CAST_U8, Operand::Empty),
        Bytecode::CastU64 => (CAST_U64, Operand::Empty),
        Bytecode::CastU128 => (CAST_U128, Operand::Empty),
        Bytecode::MutBorrowFieldGeneric(x) => (MUT_BORROW_FIELD_GENERIC, Operand::Index(x.0)),
        Bytecode::ImmBorrowFieldGeneric(x) => (IMM_BORROW_FIELD_GENERIC, Operand::Index(x.0)),
        Bytecode::CallGeneric(x) => (CALL_GENERIC, Operand::Index(x.0)),
        Bytecode::PackGeneric(x) => (PACK_GENERIC, Operand::Index(x.0)),
        Bytecode::UnpackGeneric(x) => (UNPACK_GENERIC, Operand::Index(x.0)),
        Bytecode::ExistsGenericDeprecated(x) => (EXISTS_GENERIC_DEPRECATED, Operand::Index(x.0)),
        Bytecode::MutBorrowGlobalGenericDeprecated(x) => (MUT_BORROW_GLOBAL_GENERIC_DEPRECATED, Operand::Index(x.0)),
        Bytecode::ImmBorrowGlobalGenericDeprecated(x) => (IMM_BORROW_GLOBAL_GENERIC_DEPRECATED, Operand::Index(x.0)),
        Bytecode::MoveFromGenericDeprecated(x) => (MOVE_FROM_GENERIC_DEPRECATED, Operand::Index(x.0)),
        Bytecode::MoveToGenericDeprecated(x) => (MOVE_TO_GENERIC_DEPRECATED, Operand::Index(x.0)),
        Bytecode::VecPack(s, n) => (VEC_PACK, Operand::IndexCount(s.0, *n)),
        Bytecode::VecLen(x) => (VEC_LEN, Operand::Index(x.0)),
        Bytecode::VecImmBorrow(x) => (VEC_IMM_BORROW, Operand::Index(x.0)),
        Bytecode::VecMutBorrow(x) => (VEC_MUT_BORROW, Operand::Index(x.0)),
        Bytecode::VecPushBack(x) => (VEC_PUSH_BACK, Operand::Index(x.0)),
        Bytecode::VecPopBack(x) => (VEC_POP_BACK, Operand::Index(x.0)),
        Bytecode::VecUnpack(s, n) => (VEC_UNPACK, Operand::IndexCount(s.0, *n)),
        Bytecode::VecSwap(x) => (VEC_SWAP, Operand::Index(x.0)),
        Bytecode::LdU16(x) => (LD_U16, Operand::Word16(*x)),
        Bytecode::LdU32(x) => (LD_U32, Operand::Word32(*x)),
        Bytecode::LdU256(x) => (LD_U256, Operand::Word256(**x)),
        Bytecode::CastU16 => (CAST_U16, Operand::Empty),
        Bytecode::CastU32 => (CAST_U32, Operand::Empty),
        Bytecode::CastU256 => (CAST_U256, Operand::Empty),
        Bytecode::PackVariant(x) => (PACK_VARIANT, Operand::Index(x.0)),
        Bytecode::PackVariantGeneric(x) => (PACK_VARIANT_GENERIC, Operand::Index(x.0)),
        Bytecode::UnpackVariant(x) => (UNPACK_VARIANT, Operand::Index(x.0)),
        Bytecode::UnpackVariantImmRef(x) => (UNPACK_VARIANT_IMM_REF, Operand::Index(x.0)),
        Bytecode::UnpackVariantMutRef(x) => (UNPACK_VARIANT_MUT_REF, Operand::Index(x.0)),
        Bytecode::UnpackVariantGeneric(x) => (UNPACK_VARIANT_GENERIC, Operand::Index(x.0)),
        Bytecode::UnpackVariantGenericImmRef(x) => (UNPACK_VARIANT_GENERIC_IMM_REF, Operand::Index(x.0)),
        Bytecode::UnpackVariantGenericMutRef(x) => (UNPACK_VARIANT_GENERIC_MUT_REF, Operand::Index(x.0)),
        Bytecode::VariantSwitch(x) => (VARIANT_SWITCH, Operand::Index(x.0)),
    }
}

/// Operand shape of an inherited opcode byte; `None` for a byte no
/// inherited instruction has.
pub open spec fn spec_inherited_shape(byte: u8) -> Option<OperandShape> {
    if byte == POP {
        Some(OperandShape::Empty)
    } else if byte == RET {
        Some(OperandShape::Empty)
    } else if byte == BR_TRUE {
        Some(OperandShape::Index)
    } else if byte == BR_FALSE {
        Some(OperandShape::Index)
    } else if byte == BRANCH {
        Some(OperandShape::Index)
    } else if byte == LD_U64 {
        Some(OperandShape::Word64)
    } else if byte == LD_CONST {
        Some(OperandShape::Index)
    } else if byte == LD_TRUE {
        Some(OperandShape::Empty)
    } else if byte == LD_FALSE {
        Some(OperandShape::Empty)
    } else if byte == COPY_LOC {
        Some(OperandShape::LocalIdx)
    } else if byte == MOVE_LOC {
        Some(OperandShape::LocalIdx)
    } else if byte == ST_LOC {
        Some(OperandShape::LocalIdx)
    } else if byte == MUT_BORROW_LOC {
        Some(OperandShape::LocalIdx)
    } else if byte == IMM_BORROW_LOC {
        Some(OperandShape::LocalIdx)
    } else if byte == MUT_BORROW_FIELD {
        Some(OperandShape::Index)
    } else if byte == IMM_BORROW_FIELD {
        Some(OperandShape::Index)
    } else if byte == CALL {
        Some(OperandShape::Index)
    } else if byte == PACK {
        Some(OperandShape::Index)
    } else if byte == UNPACK {
        Some(OperandShape::Index)
    } else if byte == READ_REF {
        Some(OperandShape::Empty)
    } else if byte == WRITE_REF {
        Some(OperandShape::Empty)
    } else if byte == ADD {
        Some(OperandShape::Empty)
    } else if byte == SUB {
        Some(OperandShape::Empty)
    } else if byte == MUL {
        Some(OperandShape::Empty)
    } else if byte == MOD {
        Some(OperandShape::Empty)
    } else if byte == DIV {
        Some(OperandShape::Empty)
    } else if byte == BIT_OR {
        Some(OperandShape::Empty)
    } else if byte == BIT_AND {
        Some(OperandShape::Empty)
    } else if byte == XOR {
        Some(OperandShape::Empty)
    } else if byte == OR {
        Some(OperandShape::Empty)
    } else if byte == AND {
        Some(OperandShape::Empty)
    } else if byte == NOT {
        Some(OperandShape::Empty)
    } else if byte == EQ {
        Some(OperandShape::Empty)
    } else if byte == NEQ {
        Some(OperandShape::Empty)
    } else if byte == LT {
        Some(OperandShape::Empty)
    } else if byte == GT {
        Some(OperandShape::Empty)
    } else if byte == LE {
        Some(OperandShape::Empty)
    } else if byte == GE {
        Some(OperandShape::Empty)
    } else if byte == ABORT {
        Some(OperandShape::Empty)
    } else if byte == NOP {
        Some(OperandShape::Empty)
    } else if byte == EXISTS_DEPRECATED {
        Some(OperandShape::Index)
    } else if byte == MUT_BORROW_GLOBAL_DEPRECATED {
        Some(OperandShape::Index)
    } else if byte == IMM_BORROW_GLOBAL_DEPRECATED {
        Some(OperandShape::Index)
    } else if byte == MOVE_FROM_DEPRECATED {
        Some(OperandShape::Index)
    } else if byte == MOVE_TO_DEPRECATED {
        Some(OperandShape::Index)
    } else if byte == FREEZE_REF {
        Some(OperandShape::Empty)
    } else if byte == SHL {
        Some(OperandShape::Empty)
    } else if byte == SHR {
        Some(OperandShape::Empty)
    } else if byte == LD_U8 {
        Some(OperandShape::Byte)
    } else if byte == LD_U128 {
        Some(OperandShape::Word128)
    } else if byte == CAST_U8 {
        Some(OperandShape::Empty)
    } else if byte == CAST_U64 {
        Some(OperandShape::Empty)
    } else if byte == CAST_U128 {
        Some(OperandShape::Empty)
    } else if byte == MUT_BORROW_FIELD_GENERIC {
        Some(OperandShape::Index)
    } else if byte == IMM_BORROW_FIELD_GENERIC {
        Some(OperandShape::Index)
    } else if byte == CALL_GENERIC {
        Some(OperandShape::Index)
    } else if byte == PACK_GENERIC {
        Some(OperandShape::Index)
    } else if byte == UNPACK_GENERIC {
        Some(OperandShape::Index)
    } else if byte == EXISTS_GENERIC_DEPRECATED {
        Some(OperandShape::Index)
    } else if byte == MUT_BORROW_GLOBAL_GENERIC_DEPRECATED {
        Some(OperandShape::Index)
    } else if byte == IMM_BORROW_GLOBAL_GENERIC_DEPRECATED {
        Some(OperandShape::Index)
    } else if byte == MOVE_FROM_GENERIC_DEPRECATED {
        Some(OperandShape::Index)
    } else if byte == MOVE_TO_GENERIC_DEPRECATED {
        Some(OperandShape::Index)
    } else if byte == VEC_PACK {
        Some(OperandShape::IndexCount)
    } else if byte == VEC_LEN {
        Some(OperandShape::Index)
    } else if byte == VEC_IMM_BORROW {
        Some(OperandShape::Index)
    } else if byte == VEC_MUT_BORROW {
        Some(OperandShape::Index)
    } else if byte == VEC_PUSH_BACK {
        Some(OperandShape::Index)
    } else if byte == VEC_POP_BACK {
        Some(OperandShape::Index)
    } else if byte == VEC_UNPACK {
        Some(OperandShape::IndexCount)
    } else if byte == VEC_SWAP {
        Some(OperandShape::Index)
    } else if byte == LD_U16 {
        Some(OperandShape::Word16)
    } else if byte == LD_U32 {
        Some(OperandShape::Word32)
    } else if byte == LD_U256 {
        Some(OperandShape::Word256)
    } else if byte == CAST_U16 {
        Some(OperandShape::Empty)
    } else if byte == CAST_U32 {
        Some(OperandShape::Empty)
    } else if byte == CAST_U256 {
        Some(OperandShape::Empty)
    } else if byte == PACK_VARIANT {
        Some(OperandShape::Index)
    } else if byte == PACK_VARIANT_GENERIC {
        Some(OperandShape::Index)
    } else if byte == UNPACK_VARIANT {
        Some(OperandShape::Index)
    } else if byte == UNPACK_VARIANT_IMM_REF {
        Some(OperandShape::Index)
    } else if byte == UNPACK_VARIANT_MUT_REF {
        Some(OperandShape::Index)
    } else if byte == UNPACK_VARIANT_GENERIC {
        Some(OperandShape::Index)
    } else if byte == UNPACK_VARIANT_GENERIC_IMM_REF {
        Some(OperandShape::Index)
    } else if byte == UNPACK_VARIANT_GENERIC_MUT_REF {
        Some(OperandShape::Index)
    } else if byte == VARIANT_SWITCH {
        Some(OperandShape::Index)
    } else {
        None
    }
}

/// Operand shape of an inherited opcode byte.
fn inherited_shape(byte: u8) -> (r: Option<OperandShape>)
    ensures
        r == spec_inherited_shape(byte),
{
    if byte == POP {
        Some(OperandShape::Empty)
    } else if byte == RET {
        Some(OperandShape::Empty)
    } else if byte == BR_TRUE {
        Some(OperandShape::Index)
    } else if byte == BR_FALSE {
        Some(OperandShape::Index)
    } else if byte == BRANCH {
        Some(OperandShape::Index)
    } else if byte == LD_U64 {
        Some(OperandShape::Word64)
    } else if byte == LD_CONST {
        Some(OperandShape::Index)
    } else if byte == LD_TRUE {
        Some(OperandShape::Empty)
    } else if byte == LD_FALSE {
        Some(OperandShape::Empty)
    } else if byte == COPY_LOC {
        Some(OperandShape::LocalIdx)
    } else if byte == MOVE_LOC {
        Some(OperandShape::LocalIdx)
    } else if byte == ST_LOC {
        Some(OperandShape::LocalIdx)
    } else if byte == MUT_BORROW_LOC {
        Some(OperandShape::LocalIdx)
    } else if byte == IMM_BORROW_LOC {
        Some(OperandShape::LocalIdx)
    } else if byte == MUT_BORROW_FIELD {
        Some(OperandShape::Index)
    } else if byte == IMM_BORROW_FIELD {
        Some(OperandShape::Index)
    } else if byte == CALL {
        Some(OperandShape::Index)
    } else if byte == PACK {
        Some(OperandShape::Index)
    } else if byte == UNPACK {
        Some(OperandShape::Index)
    } else if byte == READ_REF {
        Some(OperandShape::Empty)
    } else if byte == WRITE_REF {
        Some(OperandShape::Empty)
    } else if byte == ADD {
        Some(OperandShape::Empty)
    } else if byte == SUB {
        Some(OperandShape::Empty)
    } else if byte == MUL {
        Some(OperandShape::Empty)
    } else if byte == MOD {
        Some(OperandShape::Empty)
    } else if byte == DIV {
        Some(OperandShape::Empty)
    } else if byte == BIT_OR {
        Some(OperandShape::Empty)
    } else if byte == BIT_AND {
        Some(OperandShape::Empty)
    } else if byte == XOR {
        Some(OperandShape::Empty)
    } else if byte == OR {
        Some(OperandShape::Empty)
    } else if byte == AND {
        Some(OperandShape::Empty)
    } else if byte == NOT {
        Some(OperandShape::Empty)
    } else if byte == EQ {
        Some(OperandShape::Empty)
    } else if byte == NEQ {
        Some(OperandShape::Empty)
    } else if byte == LT {
        Some(OperandShape::Empty)
    } else if byte == GT {
        Some(OperandShape::Empty)
    } else if byte == LE {
        Some(OperandShape::Empty)
    } else if byte == GE {
        Some(OperandShape::Empty)
    } else if byte == ABORT {
        Some(OperandShape::Empty)
    } else if byte == NOP {
        Some(OperandShape::Empty)
    } else if byte == EXISTS_DEPRECATED {
        Some(OperandShape::Index)
    } else if byte == MUT_BORROW_GLOBAL_DEPRECATED {
        Some(OperandShape::Index)
    } else if byte == IMM_BORROW_GLOBAL_DEPRECATED {
        Some(OperandShape::Index)
    } else if byte == MOVE_FROM_DEPRECATED {
        Some(OperandShape::Index)
    } else if byte == MOVE_TO_DEPRECATED {
        Some(OperandShape::Index)
    } else if byte == FREEZE_REF {
        Some(OperandShape::Empty)
    } else if byte == SHL {
        Some(OperandShape::Empty)
    } else if byte == SHR {
        Some(OperandShape::Empty)
    } else if byte == LD_U8 {
        Some(OperandShape::Byte)
    } else if byte == LD_U128 {
        Some(OperandShape::Word128)
    } else if byte == CAST_U8 {
        Some(OperandShape::Empty)
    } else if byte == CAST_U64 {
        Some(OperandShape::Empty)
    } else if byte == CAST_U128 {
        Some(OperandShape::Empty)
    } else if byte == MUT_BORROW_FIELD_GENERIC {
        Some(OperandShape::Index)
    } else if byte == IMM_BORROW_FIELD_GENERIC {
        Some(OperandShape::Index)
    } else if byte == CALL_GENERIC {
        Some(OperandShape::Index)
    } else if byte == PACK_GENERIC {
        Some(OperandShape::Index)
    } else if byte == UNPACK_GENERIC {
        Some(OperandShape::Index)
    } else if byte == EXISTS_GENERIC_DEPRECATED {
        Some(OperandShape::Index)
    } else if byte == MUT_BORROW_GLOBAL_GENERIC_DEPRECATED {
        Some(OperandShape::Index)
    } else if byte == IMM_BORROW_GLOBAL_GENERIC_DEPRECATED {
        Some(OperandShape::Index)
    } else if byte == MOVE_FROM_GENERIC_DEPRECATED {
        Some(OperandShape::Index)
    } else if byte == MOVE_TO_GENERIC_DEPRECATED {
        Some(OperandShape::Index)
    } else if byte == VEC_PACK {
        Some(OperandShape::IndexCount)
    } else if byte == VEC_LEN {
        Some(OperandShape::Index)
    } else if byte == VEC_IMM_BORROW {
        Some(OperandShape::Index)
    } else if byte == VEC_MUT_BORROW {
        Some(OperandShape::Index)
    } else if byte == VEC_PUSH_BACK {
        Some(OperandShape::Index)
    } else if byte == VEC_POP_BACK {
        Some(OperandShape::Index)
    } else if byte == VEC_UNPACK {
        Some(OperandShape::IndexCount)
    } else if byte == VEC_SWAP {
        Some(OperandShape::Index)
    } else if byte == LD_U16 {
        Some(OperandShape::Word16)
    } else if byte == LD_U32 {
        Some(OperandShape::Word32)
    } else if byte == LD_U256 {
        Some(OperandShape::Word256)
    } else if byte == CAST_U16 {
        Some(OperandShape::Empty)
    } else if byte == CAST_U32 {
        Some(OperandShape::Empty)
    } else if byte == CAST_U256 {
        Some(OperandShape::Empty)
    } else if byte == PACK_VARIANT {
        Some(OperandShape::Index)
    } else if byte == PACK_VARIANT_GENERIC {
        Some(OperandShape::Index)
    } else if byte == UNPACK_VARIANT {
        Some(OperandShape::Index)
    } else if byte == UNPACK_VARIANT_IMM_REF {
        Some(OperandShape::Index)
    } else if byte == UNPACK_VARIANT_MUT_REF {
        Some(OperandShape::Index)
    } else if byte == UNPACK_VARIANT_GENERIC {
        Some(OperandShape::Index)
    } else if byte == UNPACK_VARIANT_GENERIC_IMM_REF {
        Some(OperandShape::Index)
    } else if byte == UNPACK_VARIANT_GENERIC_MUT_REF {
        Some(OperandShape::Index)
    } else if byte == VARIANT_SWITCH {
        Some(OperandShape::Index)
    } else {
        None
    }
}

/// The inherited instruction with opcode byte `byte` and operand
/// `op`; `None` when no inherited instruction has that byte or the
/// operand does not have the byte's shape.
pub open spec fn spec_assemble_inherited(byte: u8, op: Operand) -> Option<BytecodeInstruction> {
    if byte == POP {
        match op {
            Operand::Empty => Some(BytecodeInstruction::Inherited(Bytecode::Pop)),
            _ => None,
        }
    } else if byte == RET {
        match op {
            Operand::Empty => Some(BytecodeInstruction::Inherited(Bytecode::Ret)),
            _ => None,
        }
    } else if byte == BR_TRUE {
        match op {
            Operand::Index(x) => Some(BytecodeInstruction::Inherited(Bytecode::BrTrue(x))),
            _ => None,
        }
    } else if byte == BR_FALSE {
        match op {
            Operand::Index(x) => Some(BytecodeInstruction::Inherited(Bytecode::BrFalse(x))),
            _ => None,
        }
    } else if byte == BRANCH {
        match op {
            Operand::Index(x) => Some(BytecodeInstruction::Inherited(Bytecode::Branch(x))),
            _ => None,
        }
    } else if byte == LD_U64 {
        match op {
            Operand::Word64(x) => Some(BytecodeInstruction::Inherited(Bytecode::LdU64(x))),
            _ => None,
        }
    } else if byte == LD_CONST {
        match op {
            Operand::Index(x) => Some(BytecodeInstruction::Inherited(Bytecode::LdConst(ConstantPoolIndex(x)))),
            _ => None,
        }
    } else if byte == LD_TRUE {
        match op {
            Operand::Empty => Some(BytecodeInstruction::Inherited(Bytecode::LdTrue)),
            _ => None,
        }
    } else if byte == LD_FALSE {
        match op {
            Operand::Empty => Some(BytecodeInstruction::Inherited(Bytecode::LdFalse)),
            _ => None,
        }
    } else if byte == COPY_LOC {
        match op {
            Operand::LocalIdx(x) => Some(BytecodeInstruction::Inherited(Bytecode::CopyLoc(x))),
            _ => None,
        }
    } else if byte == MOVE_LOC {
        match op {
            Operand::LocalIdx(x) => Some(BytecodeInstruction::Inherited(Bytecode::MoveLoc(x))),
            _ => None,
        }
    } else if byte == ST_LOC {
        match op {
            Operand::LocalIdx(x) => Some(BytecodeInstruction::Inherited(Bytecode::StLoc(x))),
            _ => None,
        }
    } else if byte == MUT_BORROW_LOC {
        match op {
            Operand::LocalIdx(x) => Some(BytecodeInstruction::Inherited(Bytecode::MutBorrowLoc(x))),
            _ => None,
        }
    } else if byte == IMM_BORROW_LOC {
        match op {
            Operand::LocalIdx(x) => Some(BytecodeInstruction::Inherited(Bytecode::ImmBorrowLoc(x))),
            _ => None,
        }
    } else if byte == MUT_BORROW_FIELD {
        match op {
            Operand::Index(x) => Some(BytecodeInstruction::Inherited(Bytecode::MutBorrowField(FieldHandleIndex(x)))),
            _ => None,
        }
    } else if byte == IMM_BORROW_FIELD {
        match op {
            Operand::Index(x) => Some(BytecodeInstruction::Inherited(Bytecode::ImmBorrowField(FieldHandleIndex(x)))),
            _ => None,
        }
    } else if byte == CALL {
        match op {
            Operand::Index(x) => Some(BytecodeInstruction::Inherited(Bytecode::Call(FunctionHandleIndex(x)))),
            _ => None,
        }
    } else if byte == PACK {
        match op {
            Operand::Index(x) => Some(BytecodeInstruction::Inherited(Bytecode::Pack(StructDefinitionIndex(x)))),
            _ => None,
        }
    } else if byte == UNPACK {
        match op {
            Operand::Index(x) => Some(BytecodeInstruction::Inherited(Bytecode::Unpack(StructDefinitionIndex(x)))),
            _ => None,
        }
    } else if byte == READ_REF {
        match op {
            Operand::Empty => Some(BytecodeInstruction::Inherited(Bytecode::ReadRef)),
            _ => None,
        }
    } else if byte == WRITE_REF {
        match op {
            Operand::Empty => Some(BytecodeInstruction::Inherited(Bytecode::WriteRef)),
            _ => None,
        }
    } else if byte == ADD {
        match op {
            Operand::Empty => Some(BytecodeInstruction::Inherited(Bytecode::Add)),
            _ => None,
        }
    } else if byte == SUB {
        match op {
            Operand::Empty => Some(BytecodeInstruction::Inherited(Bytecode::Sub)),
            _ => None,
        }
    } else if byte == MUL {
        match op {
            Operand::Empty => Some(BytecodeInstruction::Inherited(Bytecode::Mul)),
            _ => None,
        }
    } else if byte == MOD {
        match op {
            Operand::Empty => Some(BytecodeInstruction::Inherited(Bytecode::Mod)),
            _ => None,
        }
    } else if byte == DIV {
        match op {
            Operand::Empty => Some(BytecodeInstruction::Inherited(Bytecode::Div)),
            _ => None,
        }
    } else if byte == BIT_OR {
        match op {
            Operand::Empty => Some(BytecodeInstruction::Inherited(Bytecode::BitOr)),
            _ => None,
        }
    } else if byte == BIT_AND {
        match op {
            Operand::Empty => Some(BytecodeInstruction::Inherited(Bytecode::BitAnd)),
            _ => None,
        }
    } else if byte == XOR {
        match op {
            Operand::Empty => Some(BytecodeInstruction::Inherited(Bytecode::Xor)),
            _ => None,
        }
    } else if byte == OR {
        match op {
            Operand::Empty => Some(BytecodeInstruction::Inherited(Bytecode::Or)),
            _ => None,
        }
    } else if byte == AND {
        match op {
            Operand::Empty => Some(BytecodeInstruction::Inherited(Bytecode::And)),
            _ => None,
        }
    } else if byte == NOT {
        match op {
            Operand::Empty => Some(BytecodeInstruction::Inherited(Bytecode::Not)),
            _ => None,
        }
    } else if byte == EQ {
        match op {
            Operand::Empty => Some(BytecodeInstruction::Inherited(Bytecode::Eq)),
            _ => None,
        }
    } else if byte == NEQ {
        match op {
            Operand::Empty => Some(BytecodeInstruction::Inherited(Bytecode::Neq)),
            _ => None,
        }
    } else if byte == LT {
        match op {
            Operand::Empty => Some(BytecodeInstruction::Inherited(Bytecode::Lt)),
            _ => None,
        }
    } else if byte == GT {
        match op {
            Operand::Empty => Some(BytecodeInstruction::Inherited(Bytecode::Gt)),
            _ => None,
        }
    } else if byte == LE {
        match op {
            Operand::Empty => Some(BytecodeInstruction::Inherited(Bytecode::Le)),
            _ => None,
        }
    } else if byte == GE {
        match op {
            Operand::Empty => Some(BytecodeInstruction::Inherited(Bytecode::Ge)),
            _ => None,
        }
    } else if byte == ABORT {
        match op {
            Operand::Empty => Some(BytecodeInstruction::Inherited(Bytecode::Abort)),
            _ => None,
        }
    } else if byte == NOP {
        match op {
            Operand::Empty => Some(BytecodeInstruction::Inherited(Bytecode::Nop)),
            _ => None,
        }
    } else if byte == EXISTS_DEPRECATED {
        match op {
            Operand::Index(x) => Some(BytecodeInstruction::Inherited(Bytecode::ExistsDeprecated(StructDefinitionIndex(x)))),
            _ => None,
        }
    } else if byte == MUT_BORROW_GLOBAL_DEPRECATED {
        match op {
            Operand::Index(x) => Some(BytecodeInstruction::Inherited(Bytecode::MutBorrowGlobalDeprecated(StructDefinitionIndex(x)))),
            _ => None,
        }
    } else if byte == IMM_BORROW_GLOBAL_DEPRECATED {
        match op {
            Operand::Index(x) => Some(BytecodeInstruction::Inherited(Bytecode::ImmBorrowGlobalDeprecated(StructDefinitionIndex(x)))),
            _ => None,
        }
    } else if byte == MOVE_FROM_DEPRECATED {
        match op {
            Operand::Index(x) => Some(BytecodeInstruction::Inherited(Bytecode::MoveFromDeprecated(StructDefinitionIndex(x)))),
            _ => None,
        }
    } else if byte == MOVE_TO_DEPRECATED {
        match op {
            Operand::Index(x) => Some(BytecodeInstruction::Inherited(Bytecode::MoveToDeprecated(StructDefinitionIndex(x)))),
            _ => None,
        }
    } else if byte == FREEZE_REF {
        match op {
            Operand::Empty => Some(BytecodeInstruction::Inherited(Bytecode::FreezeRef)),
            _ => None,
        }
    } else if byte == SHL {
        match op {
            Operand::Empty => Some(BytecodeInstruction::Inherited(Bytecode::Shl)),
            _ => None,
        }
    } else if byte == SHR {
        match op {
            Operand::Empty => Some(BytecodeInstruction::Inherited(Bytecode::Shr)),
            _ => None,
        }
    } else if byte == LD_U8 {
        match op {
            Operand::Byte(x) => Some(BytecodeInstruction::Inherited(Bytecode::LdU8(x))),
            _ => None,
        }
    } else if byte == LD_U128 {
        match op {
            Operand::Word128(x) => Some(BytecodeInstruction::Inherited(Bytecode::LdU128(Box::new(x)))),
            _ => None,
        }
    } else if byte == CAST_U8 {
        match op {
            Operand::Empty => Some(BytecodeInstruction::Inherited(Bytecode::CastU8)),
            _ => None,
        }
    } else if byte == CAST_U64 {
        match op {
            Operand::Empty => Some(BytecodeInstruction::Inherited(Bytecode::CastU64)),
            _ => None,
        }
    } else if byte == CAST_U128 {
        match op {
            Operand::Empty => Some(BytecodeInstruction::Inherited(Bytecode::CastU128)),
            _ => None,
        }
    } else if byte == MUT_BORROW_FIELD_GENERIC {
        match op {
            Operand::Index(x) => Some(BytecodeInstruction::Inherited(Bytecode::MutBorrowFieldGeneric(FieldInstantiationIndex(x)))),
            _ => None,
        }
    } else if byte == IMM_BORROW_FIELD_GENERIC {
        match op {
            Operand::Index(x) => Some(BytecodeInstruction::Inherited(Bytecode::ImmBorrowFieldGeneric(FieldInstantiationIndex(x)))),
            _ => None,
        }
    } else if byte == CALL_GENERIC {
        match op {
            Operand::Index(x) => Some(BytecodeInstruction::Inherited(Bytecode::CallGeneric(FunctionInstantiationIndex(x)))),
            _ => None,
        }
    } else if byte == PACK_GENERIC {
        match op {
            Operand::Index(x) => Some(BytecodeInstruction::Inherited(Bytecode::PackGeneric(StructDefInstantiationIndex(x)))),
            _ => None,
        }
    } else if byte == UNPACK_GENERIC {
        match op {
            Operand::Index(x) => Some(BytecodeInstruction::Inherited(Bytecode::UnpackGeneric(StructDefInstantiationIndex(x)))),
            _ => None,
        }
    } else if byte == EXISTS_GENERIC_DEPRECATED {
        match op {
            Operand::Index(x) => Some(BytecodeInstruction::Inherited(Bytecode::ExistsGenericDeprecated(StructDefInstantiationIndex(x)))),
            _ => None,
        }
    } else if byte == MUT_BORROW_GLOBAL_GENERIC_DEPRECATED {
        match op {
            Operand::Index(x) => Some(BytecodeInstruction::Inherited(Bytecode::MutBorrowGlobalGenericDeprecated(StructDefInstantiationIndex(x)))),
            _ => None,
        }
    } else if byte == IMM_BORROW_GLOBAL_GENERIC_DEPRECATED {
        match op {
            Operand::Index(x) => Some(BytecodeInstruction::Inherited(Bytecode::ImmBorrowGlobalGenericDeprecated(StructDefInstantiationIndex(x)))),
            _ => None,
        }
    } else if byte == MOVE_FROM_GENERIC_DEPRECATED {
        match op {
            Operand::Index(x) => Some(BytecodeInstruction::Inherited(Bytecode::MoveFromGenericDeprecated(StructDefInstantiationIndex(x)))),
            _ => None,
        }
    } else if byte == MOVE_TO_GENERIC_DEPRECATED {
        match op {
            Operand::Index(x) => Some(BytecodeInstruction::Inherited(Bytecode::MoveToGenericDeprecated(StructDefInstantiationIndex(x)))),
            _ => None,
        }
    } else if byte == VEC_PACK {
        match op {
            Operand::IndexCount(s, n) => Some(BytecodeInstruction::Inherited(Bytecode::VecPack(SignatureIndex(s), n))),
            _ => None,
        }
    } else if byte == VEC_LEN {
        match op {
            Operand::Index(x) => Some(BytecodeInstruction::Inherited(Bytecode::VecLen(SignatureIndex(x)))),
            _ => None,
        }
    } else if byte == VEC_IMM_BORROW {
        match op {
            Operand::Index(x) => Some(BytecodeInstruction::Inherited(Bytecode::VecImmBorrow(SignatureIndex(x)))),
            _ => None,
        }
    } else if byte == VEC_MUT_BORROW {
        match op {
            Operand::Index(x) => Some(BytecodeInstruction::Inherited(Bytecode::VecMutBorrow(SignatureIndex(x)))),
            _ => None,
        }
    } else if byte == VEC_PUSH_BACK {
        match op {
            Operand::Index(x) => Some(BytecodeInstruction::Inherited(Bytecode::VecPushBack(SignatureIndex(x)))),
            _ => None,
        }
    } else if byte == VEC_POP_BACK {
        match op {
            Operand::Index(x) => Some(BytecodeInstruction::Inherited(Bytecode::VecPopBack(SignatureIndex(x)))),
            _ => None,
        }
    } else if byte == VEC_UNPACK {
        match op {
            Operand::IndexCount(s, n) => Some(BytecodeInstruction::Inherited(Bytecode::VecUnpack(SignatureIndex(s), n))),
            _ => None,
        }
    } else if byte == VEC_SWAP {
        match op {
            Operand::Index(x) => Some(BytecodeInstruction::Inherited(Bytecode::VecSwap(SignatureIndex(x)))),
            _ => None,
        }
    } else if byte == LD_U16 {
        match op {
            Operand::Word16(x) => Some(BytecodeInstruction::Inherited(Bytecode::LdU16(x))),
            _ => None,
        }
    } else if byte == LD_U32 {
        match op {
            Operand::Word32(x) => Some(BytecodeInstruction::Inherited(Bytecode::LdU32(x))),
            _ => None,
        }
    } else if byte == LD_U256 {
        match op {
            Operand::Word256(x) => Some(BytecodeInstruction::Inherited(Bytecode::LdU256(Box::new(x)))),
            _ => None,
        }
    } else if byte == CAST_U16 {
        match op {
            Operand::Empty => Some(BytecodeInstruction::Inherited(Bytecode::CastU16)),
            _ => None,
        }
    } else if byte == CAST_U32 {
        match op {
            Operand::Empty => Some(BytecodeInstruction::Inherited(Bytecode::CastU32)),
            _ => None,
        }
    } else if byte == CAST_U256 {
        match op {
            Operand::Empty => Some(BytecodeInstruction::Inherited(Bytecode::CastU256)),
            _ => None,
        }
    } else if byte == PACK_VARIANT {
        match op {
            Operand::Index(x) => Some(BytecodeInstruction::Inherited(Bytecode::PackVariant(VariantHandleIndex(x)))),
            _ => None,
        }
    } else if byte == PACK_VARIANT_GENERIC {
        match op {
            Operand::Index(x) => Some(BytecodeInstruction::Inherited(Bytecode::PackVariantGeneric(VariantInstantiationHandleIndex(x)))),
            _ => None,
        }
    } else if byte == UNPACK_VARIANT {
        match op {
            Operand::Index(x) => Some(BytecodeInstruction::Inherited(Bytecode::UnpackVariant(VariantHandleIndex(x)))),
            _ => None,
        }
    } else if byte == UNPACK_VARIANT_IMM_REF {
        match op {
            Operand::Index(x) => Some(BytecodeInstruction::Inherited(Bytecode::UnpackVariantImmRef(VariantHandleIndex(x)))),
            _ => None,
        }
    } else if byte == UNPACK_VARIANT_MUT_REF {
        match op {
            Operand::Index(x) => Some(BytecodeInstruction::Inherited(Bytecode::UnpackVariantMutRef(VariantHandleIndex(x)))),
            _ => None,
        }
    } else if byte == UNPACK_VARIANT_GENERIC {
        match op {
            Operand::Index(x) => Some(BytecodeInstruction::Inherited(Bytecode::UnpackVariantGeneric(VariantInstantiationHandleIndex(x)))),
            _ => None,
        }
    } else if byte == UNPACK_VARIANT_GENERIC_IMM_REF {
        match op {
            Operand::Index(x) => Some(BytecodeInstruction::Inherited(Bytecode::UnpackVariantGenericImmRef(VariantInstantiationHandleIndex(x)))),
            _ => None,
        }
    } else if byte == UNPACK_VARIANT_GENERIC_MUT_REF {
        match op {
            Operand::Index(x) => Some(BytecodeInstruction::Inherited(Bytecode::UnpackVariantGenericMutRef(VariantInstantiationHandleIndex(x)))),
            _ => None,
        }
    } else if byte == VARIANT_SWITCH {
        match op {
            Operand::Index(x) => Some(BytecodeInstruction::Inherited(Bytecode::VariantSwitch(VariantJumpTableIndex(x)))),
            _ => None,
        }
    } else {
        None
    }
}

/// The inherited instruction with opcode byte `byte` and operand `op`.
fn assemble_inherited(byte: u8, op: Operand) -> (r: BytecodeInstruction)
    requires
        spec_assemble_inherited(byte, op) is Some,
    ensures
        spec_assemble_inherited(byte, op) == Some(r),
{
    if byte == POP {
        BytecodeInstruction::Inherited(Bytecode::Pop)
    } else if byte == RET {
        BytecodeInstruction::Inherited(Bytecode::Ret)
    } else if byte == BR_TRUE {
        match op {
            Operand::Index(x) => BytecodeInstruction::Inherited(Bytecode::BrTrue(x)),
            _ => unreached(),
        }
    } else if byte == BR_FALSE {
        match op {
            Operand::Index(x) => BytecodeInstruction::Inherited(Bytecode::BrFalse(x)),
            _ => unreached(),
        }
    } else if byte == BRANCH {
        match op {
            Operand::Index(x) => BytecodeInstruction::Inherited(Bytecode::Branch(x)),
            _ => unreached(),
        }
    } else if byte == LD_U64 {
        match op {
            Operand::Word64(x) => BytecodeInstruction::Inherited(Bytecode::LdU64(x)),
            _ => unreached(),
        }
    } else if byte == LD_CONST {
        match op {
            Operand::Index(x) => BytecodeInstruction::Inherited(Bytecode::LdConst(ConstantPoolIndex(x))),
            _ => unreached(),
        }
    } else if byte == LD_TRUE {
        BytecodeInstruction::Inherited(Bytecode::LdTrue)
    } else if byte == LD_FALSE {
        BytecodeInstruction::Inherited(Bytecode::LdFalse)
    } else if byte == COPY_LOC {
        match op {
            Operand::LocalIdx(x) => BytecodeInstruction::Inherited(Bytecode::CopyLoc(x)),
            _ => unreached(),
        }
    } else if byte == MOVE_LOC {
        match op {
            Operand::LocalIdx(x) => BytecodeInstruction::Inherited(Bytecode::MoveLoc(x)),
            _ => unreached(),
        }
    } else if byte == ST_LOC {
        match op {
            Operand::LocalIdx(x) => BytecodeInstruction::Inherited(Bytecode::StLoc(x)),
            _ => unreached(),
        }
    } else if byte == MUT_BORROW_LOC {
        match op {
            Operand::LocalIdx(x) => BytecodeInstruction::Inherited(Bytecode::MutBorrowLoc(x)),
            _ => unreached(),
        }
    } else if byte == IMM_BORROW_LOC {
        match op {
            Operand::LocalIdx(x) => BytecodeInstruction::Inherited(Bytecode::ImmBorrowLoc(x)),
            _ => unreached(),
        }
    } else if byte == MUT_BORROW_FIELD {
        match op {
            Operand::Index(x) => BytecodeInstruction::Inherited(Bytecode::MutBorrowField(FieldHandleIndex(x))),
            _ => unreached(),
        }
    } else if byte == IMM_BORROW_FIELD {
        match op {
            Operand::Index(x) => BytecodeInstruction::Inherited(Bytecode::ImmBorrowField(FieldHandleIndex(x))),
            _ => unreached(),
        }
    } else if byte == CALL {
        match op {
            Operand::Index(x) => BytecodeInstruction::Inherited(Bytecode::Call(FunctionHandleIndex(x))),
            _ => unreached(),
        }
    } else if byte == PACK {
        match op {
            Operand::Index(x) => BytecodeInstruction::Inherited(Bytecode::Pack(StructDefinitionIndex(x))),
            _ => unreached(),
        }
    } else if byte == UNPACK {
        match op {
            Operand::Index(x) => BytecodeInstruction::Inherited(Bytecode::Unpack(StructDefinitionIndex(x))),
            _ => unreached(),
        }
    } else if byte == READ_REF {
        BytecodeInstruction::Inherited(Bytecode::ReadRef)
    } else if byte == WRITE_REF {
        BytecodeInstruction::Inherited(Bytecode::WriteRef)
    } else if byte == ADD {
        BytecodeInstruction::Inherited(Bytecode::Add)
    } else if byte == SUB {
        BytecodeInstruction::Inherited(Bytecode::Sub)
    } else if byte == MUL {
        BytecodeInstruction::Inherited(Bytecode::Mul)
    } else if byte == MOD {
        BytecodeInstruction::Inherited(Bytecode::Mod)
    } else if byte == DIV {
        BytecodeInstruction::Inherited(Bytecode::Div)
    } else if byte == BIT_OR {
        BytecodeInstruction::Inherited(Bytecode::BitOr)
    } else if byte == BIT_AND {
        BytecodeInstruction::Inherited(Bytecode::BitAnd)
    } else if byte == XOR {
        BytecodeInstruction::Inherited(Bytecode::Xor)
    } else if byte == OR {
        BytecodeInstruction::Inherited(Bytecode::Or)
    } else if byte == AND {
        BytecodeInstruction::Inherited(Bytecode::And)
    } else if byte == NOT {
        BytecodeInstruction::Inherited(Bytecode::Not)
    } else if byte == EQ {
        BytecodeInstruction::Inherited(Bytecode::Eq)
    } else if byte == NEQ {
        BytecodeInstruction::Inherited(Bytecode::Neq)
    } else if byte == LT {
        BytecodeInstruction::Inherited(Bytecode::Lt)
    } else if byte == GT {
        BytecodeInstruction::Inherited(Bytecode::Gt)
    } else if byte == LE {
        BytecodeInstruction::Inherited(Bytecode::Le)
    } else if byte == GE {
        BytecodeInstruction::Inherited(Bytecode::Ge)
    } else if byte == ABORT {
        BytecodeInstruction::Inherited(Bytecode::Abort)
    } else if byte == NOP {
        BytecodeInstruction::Inherited(Bytecode::Nop)
    } else if byte == EXISTS_DEPRECATED {
        match op {
            Operand::Index(x) => BytecodeInstruction::Inherited(Bytecode::ExistsDeprecated(StructDefinitionIndex(x))),
            _ => unreached(),
        }
    } else if byte == MUT_BORROW_GLOBAL_DEPRECATED {
        match op {
            Operand::Index(x) => BytecodeInstruction::Inherited(Bytecode::MutBorrowGlobalDeprecated(StructDefinitionIndex(x))),
            _ => unreached(),
        }
    } else if byte == IMM_BORROW_GLOBAL_DEPRECATED {
        match op {
            Operand::Index(x) => BytecodeInstruction::Inherited(Bytecode::ImmBorrowGlobalDeprecated(StructDefinitionIndex(x))),
            _ => unreached(),
        }
    } else if byte == MOVE_FROM_DEPRECATED {
        match op {
            Operand::Index(x) => BytecodeInstruction::Inherited(Bytecode::MoveFromDeprecated(StructDefinitionIndex(x))),
            _ => unreached(),
        }
    } else if byte == MOVE_TO_DEPRECATED {
        match op {
            Operand::Index(x) => BytecodeInstruction::Inherited(Bytecode::MoveToDeprecated(StructDefinitionIndex(x))),
            _ => unreached(),
        }
    } else if byte == FREEZE_REF {
        BytecodeInstruction::Inherited(Bytecode::FreezeRef)
    } else if byte == SHL {
        BytecodeInstruction::Inherited(Bytecode::Shl)
    } else if byte == SHR {
        BytecodeInstruction::Inherited(Bytecode::Shr)
    } else if byte == LD_U8 {
        match op {
            Operand::Byte(x) => BytecodeInstruction::Inherited(Bytecode::LdU8(x)),
            _ => unreached(),
        }
    } else if byte == LD_U128 {
        match op {
            Operand::Word128(x) => BytecodeInstruction::Inherited(Bytecode::LdU128(Box::new(x))),
            _ => unreached(),
        }
    } else if byte == CAST_U8 {
        BytecodeInstruction::Inherited(Bytecode::CastU8)
    } else if byte == CAST_U64 {
        BytecodeInstruction::Inherited(Bytecode::CastU64)
    } else if byte == CAST_U128 {
        BytecodeInstruction::Inherited(Bytecode::CastU128)
    } else if byte == MUT_BORROW_FIELD_GENERIC {
        match op {
            Operand::Index(x) => BytecodeInstruction::Inherited(Bytecode::MutBorrowFieldGeneric(FieldInstantiationIndex(x))),
            _ => unreached(),
        }
    } else if byte == IMM_BORROW_FIELD_GENERIC {
        match op {
            Operand::Index(x) => BytecodeInstruction::Inherited(Bytecode::ImmBorrowFieldGeneric(FieldInstantiationIndex(x))),
            _ => unreached(),
        }
    } else if byte == CALL_GENERIC {
        match op {
            Operand::Index(x) => BytecodeInstruction::Inherited(Bytecode::CallGeneric(FunctionInstantiationIndex(x))),
            _ => unreached(),
        }
    } else if byte == PACK_GENERIC {
        match op {
            Operand::Index(x) => BytecodeInstruction::Inherited(Bytecode::PackGeneric(StructDefInstantiationIndex(x))),
            _ => unreached(),
        }
    } else if byte == UNPACK_GENERIC {
        match op {
            Operand::Index(x) => BytecodeInstruction::Inherited(Bytecode::UnpackGeneric(StructDefInstantiationIndex(x))),
            _ => unreached(),
        }
    } else if byte == EXISTS_GENERIC_DEPRECATED {
        match op {
            Operand::Index(x) => BytecodeInstruction::Inherited(Bytecode::ExistsGenericDeprecated(StructDefInstantiationIndex(x))),
            _ => unreached(),
        }
    } else if byte == MUT_BORROW_GLOBAL_GENERIC_DEPRECATED {
        match op {
            Operand::Index(x) => BytecodeInstruction::Inherited(Bytecode::MutBorrowGlobalGenericDeprecated(StructDefInstantiationIndex(x))),
            _ => unreached(),
        }
    } else if byte == IMM_BORROW_GLOBAL_GENERIC_DEPRECATED {
        match op {
            Operand::Index(x) => BytecodeInstruction::Inherited(Bytecode::ImmBorrowGlobalGenericDeprecated(StructDefInstantiationIndex(x))),
            _ => unreached(),
        }
    } else if byte == MOVE_FROM_GENERIC_DEPRECATED {
        match op {
            Operand::Index(x) => BytecodeInstruction::Inherited(Bytecode::MoveFromGenericDeprecated(StructDefInstantiationIndex(x))),
            _ => unreached(),
        }
    } else if byte == MOVE_TO_GENERIC_DEPRECATED {
        match op {
            Operand::Index(x) => BytecodeInstruction::Inherited(Bytecode::MoveToGenericDeprecated(StructDefInstantiationIndex(x))),
            _ => unreached(),
        }
    } else if byte == VEC_PACK {
        match op {
            Operand::IndexCount(s, n) => BytecodeInstruction::Inherited(Bytecode::VecPack(SignatureIndex(s), n)),
            _ => unreached(),
        }
    } else if byte == VEC_LEN {
        match op {
            Operand::Index(x) => BytecodeInstruction::Inherited(Bytecode::VecLen(SignatureIndex(x))),
            _ => unreached(),
        }
    } else if byte == VEC_IMM_BORROW {
        match op {
            Operand::Index(x) => BytecodeInstruction::Inherited(Bytecode::VecImmBorrow(SignatureIndex(x))),
            _ => unreached(),
        }
    } else if byte == VEC_MUT_BORROW {
        match op {
            Operand::Index(x) => BytecodeInstruction::Inherited(Bytecode::VecMutBorrow(SignatureIndex(x))),
            _ => unreached(),
        }
    } else if byte == VEC_PUSH_BACK {
        match op {
            Operand::Index(x) => BytecodeInstruction::Inherited(Bytecode::VecPushBack(SignatureIndex(x))),
            _ => unreached(),
        }
    } else if byte == VEC_POP_BACK {
        match op {
            Operand::Index(x) => BytecodeInstruction::Inherited(Bytecode::VecPopBack(SignatureIndex(x))),
            _ => unreached(),
        }
    } else if byte == VEC_UNPACK {
        match op {
            Operand::IndexCount(s, n) => BytecodeInstruction::Inherited(Bytecode::VecUnpack(SignatureIndex(s), n)),
            _ => unreached(),
        }
    } else if byte == VEC_SWAP {
        match op {
            Operand::Index(x) => BytecodeInstruction::Inherited(Bytecode::VecSwap(SignatureIndex(x))),
            _ => unreached(),
        }
    } else if byte == LD_U16 {
        match op {
            Operand::Word16(x) => BytecodeInstruction::Inherited(Bytecode::LdU16(x)),
            _ => unreached(),
        }
    } else if byte == LD_U32 {
        match op {
            Operand::Word32(x) => BytecodeInstruction::Inherited(Bytecode::LdU32(x)),
            _ => unreached(),
        }
    } else if byte == LD_U256 {
        match op {
            Operand::Word256(x) => BytecodeInstruction::Inherited(Bytecode::LdU256(Box::new(x))),
            _ => unreached(),
        }
    } else if byte == CAST_U16 {
        BytecodeInstruction::Inherited(Bytecode::CastU16)
    } else if byte == CAST_U32 {
        BytecodeInstruction::Inherited(Bytecode::CastU32)
    } else if byte == CAST_U256 {
        BytecodeInstruction::Inherited(Bytecode::CastU256)
    } else if byte == PACK_VARIANT {
        match op {
            Operand::Index(x) => BytecodeInstruction::Inherited(Bytecode::PackVariant(VariantHandleIndex(x))),
            _ => unreached(),
        }
    } else if byte == PACK_VARIANT_GENERIC {
        match op {
            Operand::Index(x) => BytecodeInstruction::Inherited(Bytecode::PackVariantGeneric(VariantInstantiationHandleIndex(x))),
            _ => unreached(),
        }
    } else if byte == UNPACK_VARIANT {
        match op {
            Operand::Index(x) => BytecodeInstruction::Inherited(Bytecode::UnpackVariant(VariantHandleIndex(x))),
            _ => unreached(),
        }
    } else if byte == UNPACK_VARIANT_IMM_REF {
        match op {
            Operand::Index(x) => BytecodeInstruction::Inherited(Bytecode::UnpackVariantImmRef(VariantHandleIndex(x))),
            _ => unreached(),
        }
    } else if byte == UNPACK_VARIANT_MUT_REF {
        match op {
            Operand::Index(x) => BytecodeInstruction::Inherited(Bytecode::UnpackVariantMutRef(VariantHandleIndex(x))),
            _ => unreached(),
        }
    } else if byte == UNPACK_VARIANT_GENERIC {
        match op {
            Operand::Index(x) => BytecodeInstruction::Inherited(Bytecode::UnpackVariantGeneric(VariantInstantiationHandleIndex(x))),
            _ => unreached(),
        }
    } else if byte == UNPACK_VARIANT_GENERIC_IMM_REF {
        match op {
            Operand::Index(x) => BytecodeInstruction::Inherited(Bytecode::UnpackVariantGenericImmRef(VariantInstantiationHandleIndex(x))),
            _ => unreached(),
        }
    } else if byte == UNPACK_VARIANT_GENERIC_MUT_REF {
        match op {
            Operand::Index(x) => BytecodeInstruction::Inherited(Bytecode::UnpackVariantGenericMutRef(VariantInstantiationHandleIndex(x))),
            _ => unreached(),
        }
    } else if byte == VARIANT_SWITCH {
        match op {
            Operand::Index(x) => BytecodeInstruction::Inherited(Bytecode::VariantSwitch(VariantJumpTableIndex(x))),
            _ => unreached(),
        }
    } else {
        unreached()
    }
}

/// Operand shape of an Adamant kind.
pub open spec fn adamant_kind_shape(kind: AdamantOpcodeKind) -> OperandShape {
    match kind {
        AdamantOpcodeKind::InvokeShielded => OperandShape::Index,
        AdamantOpcodeKind::InvokeTransparent => OperandShape::Index,
        AdamantOpcodeKind::GenerateProof => OperandShape::Index,
        AdamantOpcodeKind::VerifyProof => OperandShape::Index,
        AdamantOpcodeKind::ChargeGas => OperandShape::Dimension,
        AdamantOpcodeKind::RemainingGas => OperandShape::Dimension,
        _ => OperandShape::Empty,
    }
}

/// Operand of an Adamant instruction.
pub open spec fn spec_adamant_operand(ext: AdamantBytecode) -> Operand {
    match ext {
        AdamantBytecode::InvokeShielded(idx) => Operand::Index(idx.0),
        AdamantBytecode::InvokeTransparent(idx) => Operand::Index(idx.0),
        AdamantBytecode::GenerateProof(c) => Operand::Index(c.0),
        AdamantBytecode::VerifyProof(c) => Operand::Index(c.0),
        AdamantBytecode::ChargeGas(d) => Operand::Dimension(d),
        AdamantBytecode::RemainingGas(d) => Operand::Dimension(d),
        _ => Operand::Empty,
    }
}

/// The Adamant instruction of kind `kind` with operand `op`; `None`
/// when the operand does not have the kind's shape.
pub open spec fn spec_assemble_adamant(kind: AdamantOpcodeKind, op: Operand) -> Option<AdamantBytecode> {
    match (kind, op) {
        (AdamantOpcodeKind::InvokeShielded, Operand::Index(v)) => Some(AdamantBytecode::InvokeShielded(FunctionHandleIndex(v))),
        (AdamantOpcodeKind::InvokeTransparent, Operand::Index(v)) => Some(AdamantBytecode::InvokeTransparent(FunctionHandleIndex(v))),
        (AdamantOpcodeKind::GenerateProof, Operand::Index(v)) => Some(AdamantBytecode::GenerateProof(CircuitId(v))),
        (AdamantOpcodeKind::VerifyProof, Operand::Index(v)) => Some(AdamantBytecode::VerifyProof(CircuitId(v))),
        (AdamantOpcodeKind::ReleaseSubViewKey, Operand::Empty) => Some(AdamantBytecode::ReleaseSubViewKey),
        (AdamantOpcodeKind::KzgCommit, Operand::Empty) => Some(AdamantBytecode::KzgCommit),
        (AdamantOpcodeKind::KzgVerify, Operand::Empty) => Some(AdamantBytecode::KzgVerify),
        (AdamantOpcodeKind::RecursiveVerify, Operand::Empty) => Some(AdamantBytecode::RecursiveVerify),
        (AdamantOpcodeKind::Sha3_256, Operand::Empty) => Some(AdamantBytecode::Sha3_256),
        (AdamantOpcodeKind::Blake3, Operand::Empty) => Some(AdamantBytecode::Blake3),
        (AdamantOpcodeKind::Ed25519Verify, Operand::Empty) => Some(AdamantBytecode::Ed25519Verify),
        (AdamantOpcodeKind::MlDsaVerify65, Operand::Empty) => Some(AdamantBytecode::MlDsaVerify65),
        (AdamantOpcodeKind::BlsVerify, Operand::Empty) => Some(AdamantBytecode::BlsVerify),
        (AdamantOpcodeKind::MlKemEncapsulate, Operand::Empty) => Some(AdamantBytecode::MlKemEncapsulate),
        (AdamantOpcodeKind::MlKemDecapsulate, Operand::Empty) => Some(AdamantBytecode::MlKemDecapsulate),
        (AdamantOpcodeKind::ChargeGas, Operand::Dimension(d)) => Some(AdamantBytecode::ChargeGas(d)),
        (AdamantOpcodeKind::RemainingGas, Operand::Dimension(d)) => Some(AdamantBytecode::RemainingGas(d)),
        (AdamantOpcodeKind::OutOfGas, Operand::Empty) => Some(AdamantBytecode::OutOfGas),
        _ => None,
    }
}

fn adamant_operand(ext: &AdamantBytecode) -> (r: Operand)
    ensures
        r == spec_adamant_operand(*ext),
{
    match ext {
        AdamantBytecode::InvokeShielded(idx) | AdamantBytecode::InvokeTransparent(idx) => Operand::Index(idx.0),
        AdamantBytecode::GenerateProof(c) | AdamantBytecode::VerifyProof(c) => Operand::Index(c.0),
        AdamantBytecode::ChargeGas(d) | AdamantBytecode::RemainingGas(d) => Operand::Dimension(*d),
        _ => Operand::Empty,
    }
}

fn adamant_kind_shape_of(kind: AdamantOpcodeKind) -> (r: OperandShape)
    ensures
        r == adamant_kind_shape(kind),
{
    match kind {
        AdamantOpcodeKind::InvokeShielded
        | AdamantOpcodeKind::InvokeTransparent
        | AdamantOpcodeKind::GenerateProof
        | AdamantOpcodeKind::VerifyProof => OperandShape::Index,
        AdamantOpcodeKind::ChargeGas | AdamantOpcodeKind::RemainingGas => OperandShape::Dimension,
        _ => OperandShape::Empty,
    }
}

fn assemble_adamant(kind: AdamantOpcodeKind, op: Operand) -> (r: AdamantBytecode)
    requires
        spec_assemble_adamant(kind, op) is Some,
    ensures
        spec_assemble_adamant(kind, op) == Some(r),
{
    match (kind, op) {
        (AdamantOpcodeKind::InvokeShielded, Operand::Index(v)) => AdamantBytecode::InvokeShielded(FunctionHandleIndex(v)),
        (AdamantOpcodeKind::InvokeTransparent, Operand::Index(v)) => AdamantBytecode::InvokeTransparent(FunctionHandleIndex(v)),
        (AdamantOpcodeKind::GenerateProof, Operand::Index(v)) => AdamantBytecode::GenerateProof(CircuitId(v)),
        (AdamantOpcodeKind::VerifyProof, Operand::Index(v)) => AdamantBytecode::VerifyProof(CircuitId(v)),
        (AdamantOpcodeKind::ReleaseSubViewKey, _) => AdamantBytecode::ReleaseSubViewKey,
        (AdamantOpcodeKind::KzgCommit, _) => AdamantBytecode::KzgCommit,
        (AdamantOpcodeKind::KzgVerify, _) => AdamantBytecode::KzgVerify,
        (AdamantOpcodeKind::RecursiveVerify, _) => AdamantBytecode::RecursiveVerify,
        (AdamantOpcodeKind::Sha3_256, _) => AdamantBytecode::Sha3_256,
        (AdamantOpcodeKind::Blake3, _) => AdamantBytecode::Blake3,
        (AdamantOpcodeKind::Ed25519Verify, _) => AdamantBytecode::Ed25519Verify,
        (AdamantOpcodeKind::MlDsaVerify65, _) => AdamantBytecode::MlDsaVerify65,
        (AdamantOpcodeKind::BlsVerify, _) => AdamantBytecode::BlsVerify,
        (AdamantOpcodeKind::MlKemEncapsulate, _) => AdamantBytecode::MlKemEncapsulate,
        (AdamantOpcodeKind::MlKemDecapsulate, _) => AdamantBytecode::MlKemDecapsulate,
        (AdamantOpcodeKind::ChargeGas, Operand::Dimension(d)) => AdamantBytecode::ChargeGas(d),
        (AdamantOpcodeKind::RemainingGas, Operand::Dimension(d)) => AdamantBytecode::RemainingGas(d),
        (AdamantOpcodeKind::OutOfGas, _) => AdamantBytecode::OutOfGas,
        _ => unreached(),
    }
}

// ---------- Whole instructions ----------

/// Opcode byte and operand of an instruction.
pub open spec fn spec_instruction_parts(instr: BytecodeInstruction) -> (u8, Operand) {
    match instr {
        BytecodeInstruction::Inherited(bc) => spec_inherited_parts(bc),
        BytecodeInstruction::Adamant(ext) => (ext.spec_kind().spec_opcode_byte(), spec_adamant_operand(ext)),
    }
}

/// Operand shape of an opcode byte; `None` when the byte names no
/// instruction.
pub open spec fn spec_opcode_shape(byte: u8) -> Option<OperandShape> {
    match AdamantOpcodeKind::spec_from_opcode_byte(byte) {
        Some(kind) => Some(adamant_kind_shape(kind)),
        None => spec_inherited_shape(byte),
    }
}

/// The instruction with opcode byte `byte` and operand `op`; `None`
/// when the byte names no instruction or the operand does not have
/// its shape.
pub open spec fn spec_assemble(byte: u8, op: Operand) -> Option<BytecodeInstruction> {
    match AdamantOpcodeKind::spec_from_opcode_byte(byte) {
        Some(kind) => match spec_assemble_adamant(kind, op) {
            Some(ext) => Some(BytecodeInstruction::Adamant(ext)),
            None => None,
        },
        None => spec_assemble_inherited(byte, op),
    }
}

fn instruction_parts(instr: &BytecodeInstruction) -> (r: (u8, Operand))
    ensures
        r == spec_instruction_parts(*instr),
{
    match instr {
        BytecodeInstruction::Inherited(bc) => inherited_parts(bc),
        BytecodeInstruction::Adamant(ext) => (ext.opcode_byte(), adamant_operand(ext)),
    }
}

fn opcode_shape(byte: u8) -> (r: Option<OperandShape>)
    ensures
        r == spec_opcode_shape(byte),
{
    match AdamantOpcodeKind::try_from_opcode_byte(byte) {
        Some(kind) => Some(adamant_kind_shape_of(kind)),
        None => inherited_shape(byte),
    }
}

fn assemble(byte: u8, op: Operand) -> (r: BytecodeInstruction)
    requires
        spec_assemble(byte, op) is Some,
    ensures
        spec_assemble(byte, op) == Some(r),
{
    match AdamantOpcodeKind::try_from_opcode_byte(byte) {
        Some(kind) => BytecodeInstruction::Adamant(assemble_adamant(kind, op)),
        None => assemble_inherited(byte, op),
    }
}

/// The deprecated global-storage opcode bytes.
pub open spec fn spec_is_deprecated_global_storage_opcode(byte: u8) -> bool {
    byte == EXISTS_DEPRECATED || byte == EXISTS_GENERIC_DEPRECATED
        || byte == MUT_BORROW_GLOBAL_DEPRECATED || byte == MUT_BORROW_GLOBAL_GENERIC_DEPRECATED
        || byte == IMM_BORROW_GLOBAL_DEPRECATED || byte == IMM_BORROW_GLOBAL_GENERIC_DEPRECATED
        || byte == MOVE_FROM_DEPRECATED || byte == MOVE_FROM_GENERIC_DEPRECATED
        || byte == MOVE_TO_DEPRECATED || byte == MOVE_TO_GENERIC_DEPRECATED
}

/// Whether `byte` is a deprecated global-storage opcode.
pub fn is_deprecated_global_storage_opcode(byte: u8) -> (r: bool)
    ensures
        r == spec_is_deprecated_global_storage_opcode(byte),
{
    byte == EXISTS_DEPRECATED || byte == EXISTS_GENERIC_DEPRECATED
        || byte == MUT_BORROW_GLOBAL_DEPRECATED || byte == MUT_BORROW_GLOBAL_GENERIC_DEPRECATED
        || byte == IMM_BORROW_GLOBAL_DEPRECATED || byte == IMM_BORROW_GLOBAL_GENERIC_DEPRECATED
        || byte == MOVE_FROM_DEPRECATED || byte == MOVE_FROM_GENERIC_DEPRECATED
        || byte == MOVE_TO_DEPRECATED || byte == MOVE_TO_GENERIC_DEPRECATED
}

// ---------- Table consistency ----------

/// An instruction's opcode byte has the shape of its operand, and
/// assembling the two gives the instruction back.
pub proof fn lemma_parts_assemble(instr: BytecodeInstruction)
    ensures
        spec_opcode_shape(spec_instruction_parts(instr).0) == Some(
            operand_shape(spec_instruction_parts(instr).1),
        ),
        spec_assemble(spec_instruction_parts(instr).0, spec_instruction_parts(instr).1) == Some(
            instr,
        ),
{
    match instr {
        BytecodeInstruction::Inherited(bc) => {
            lemma_inherited_parts_assemble(bc);
        },
        BytecodeInstruction::Adamant(ext) => {},
    }
}

proof fn lemma_inherited_parts_assemble(bc: Bytecode)
    ensures
        spec_inherited_parts(bc).0 < 0x80,
        spec_inherited_shape(spec_inherited_parts(bc).0) == Some(
            operand_shape(spec_inherited_parts(bc).1),
        ),
        spec_assemble_inherited(spec_inherited_parts(bc).0, spec_inherited_parts(bc).1) == Some(
            BytecodeInstruction::Inherited(bc),
        ),
{
}

/// Assembling succeeds exactly when the operand has the byte's
/// shape, and the assembled instruction splits back into the byte
/// and the operand.
pub proof fn lemma_assemble_parts(byte: u8, op: Operand)
    ensures
        spec_assemble(byte, op) is Some <==> spec_opcode_shape(byte) == Some(operand_shape(op)),
        spec_assemble(byte, op) matches Some(i) ==> spec_instruction_parts(i) == (byte, op),
{
    if AdamantOpcodeKind::spec_from_opcode_byte(byte) is None {
        lemma_assemble_inherited_parts(byte, op);
    }
}

proof fn lemma_assemble_inherited_parts(byte: u8, op: Operand)
    ensures
        spec_assemble_inherited(byte, op) is Some <==> spec_inherited_shape(byte) == Some(
            operand_shape(op),
        ),
        spec_assemble_inherited(byte, op) matches Some(i) ==> spec_instruction_parts(i) == (
            byte,
            op,
        ),
{
}

// ---------- Encoding ----------

/// The bytes of an instruction: its opcode byte, then its operand.
pub open spec fn spec_encode_instruction(instr: BytecodeInstruction) -> Seq<u8> {
    seq![spec_instruction_parts(instr).0] + operand_bytes(spec_instruction_parts(instr).1)
}

/// The bytes of a sequence of instructions, one after the other.
pub open spec fn spec_encode_instructions(body: Seq<BytecodeInstruction>) -> Seq<u8>
    decreases body.len(),
{
    if body.len() == 0 {
        Seq::empty()
    } else {
        spec_encode_instructions(body.drop_last()) + spec_encode_instruction(body.last())
    }
}

/// The bytes of a function body: the ULEB128 instruction count, then
/// the instructions.
pub open spec fn spec_encode_function_body(body: Seq<BytecodeInstruction>) -> Seq<u8> {
    uleb128_encode(body.len()) + spec_encode_instructions(body)
}

/// Appends the bytes of an operand.
fn write_operand(op: Operand, out: &mut Vec<u8>)
    ensures
        final(out)@ == old(out)@ + operand_bytes(op),
{
    match op {
        Operand::Empty => {
            assert(old(out)@ + Seq::<u8>::empty() =~= old(out)@);
        },
        Operand::Index(v) => write_uleb128(v as u64, out),
        Operand::LocalIdx(v) => write_uleb128(v as u64, out),
        Operand::Byte(b) => {
            out.push(b);
            assert(out@ =~= old(out)@ + seq![b]);
        },
        Operand::Word16(v) => {
            let mut bytes = u16_to_le_bytes(v);
            out.append(&mut bytes);
        },
        Operand::Word32(v) => {
            let mut bytes = u32_to_le_bytes(v);
            out.append(&mut bytes);
        },
        Operand::Word64(v) => {
            let mut bytes = u64_to_le_bytes(v);
            out.append(&mut bytes);
        },
        Operand::Word128(v) => {
            let mut bytes = u128_to_le_bytes(v);
            out.append(&mut bytes);
        },
        Operand::Word256(v) => {
            let mut lo = u128_to_le_bytes(v.lo);
            out.append(&mut lo);
            let mut hi = u128_to_le_bytes(v.hi);
            out.append(&mut hi);
            assert(out@ =~= old(out)@ + v.le_bytes());
        },
        Operand::IndexCount(sig, n) => {
            write_uleb128(sig as u64, out);
            let mut bytes = u64_to_le_bytes(n);
            out.append(&mut bytes);
            assert(out@ =~= old(out)@ + (uleb128_encode(sig as nat) + spec_u64_to_le_bytes(n)));
        },
        Operand::Dimension(d) => {
            out.push(gas_dimension_byte(d));
            assert(out@ =~= old(out)@ + seq![spec_gas_dimension_tag(d)]);
        },
    }
}

/// Appends the bytes of one instruction.
fn serialize_instruction(instr: &BytecodeInstruction, out: &mut Vec<u8>) -> (r: Result<(), SerializeError>)
    ensures
        r is Ok,
        final(out)@ == old(out)@ + spec_encode_instruction(*instr),
{
    let (byte, op) = instruction_parts(instr);
    out.push(byte);
    write_operand(op, out);
    assert(out@ =~= old(out)@ + spec_encode_instruction(*instr));
    Ok(())
}

/// Serializes a function body: `ULEB128(body.len())` followed by the
/// instructions.  Every body serializes.
pub fn serialize_function_body(body: &[BytecodeInstruction]) -> (r: Result<Vec<u8>, SerializeError>)
    ensures
        r matches Ok(bytes) && bytes@ == spec_encode_function_body(body@),
{
    let mut out: Vec<u8> = Vec::new();
    write_uleb128(body.len() as u64, &mut out);
    let mut i: usize = 0;
    while i < body.len()
        invariant
            i <= body.len(),
            out@ == uleb128_encode(body@.len()) + spec_encode_instructions(body@.subrange(0, i as int)),
        decreases body.len() - i,
    {
        let ghost before = out@;
        let _ = serialize_instruction(&body[i], &mut out);
        proof {
            let pre = body@.subrange(0, i as int);
            let post = body@.subrange(0, i as int + 1);
            assert(post.drop_last() =~= pre);
            assert(post.last() == body@[i as int]);
            assert(out@ =~= uleb128_encode(body@.len()) + spec_encode_instructions(post));
        }
        i = i + 1;
    }
    assert(body@.subrange(0, body@.len() as int) =~= body@);
    Ok(out)
}

// ---------- Decoding ----------

/// The error of a ULEB128 read that failed at position `f`: the end
/// of the stream, or a malformed sequence before it.
pub open spec fn uleb128_failure(s: Seq<u8>, f: int) -> DeserializeError {
    if f >= s.len() {
        DeserializeError::UnexpectedEof
    } else {
        DeserializeError::MalformedUleb128
    }
}

/// Reading a ULEB128 value at `p`.
pub open spec fn spec_read_uleb128(s: Seq<u8>, p: int) -> Result<(nat, int), DeserializeError> {
    match uleb128_decode(s, p) {
        Ok((v, q)) => Ok((v, q)),
        Err(f) => Err(uleb128_failure(s, f)),
    }
}

/// Reading `n` raw bytes at `p`.
pub open spec fn spec_read_fixed(s: Seq<u8>, p: int, n: int) -> Result<(Seq<u8>, int), DeserializeError> {
    if p + n > s.len() {
        Err(DeserializeError::UnexpectedEof)
    } else {
        Ok((s.subrange(p, p + n), p + n))
    }
}

/// Reading a ULEB128 index that must fit a `u16`.
pub open spec fn spec_read_index(s: Seq<u8>, p: int, opcode: u8) -> Result<(u16, int), DeserializeError> {
    match spec_read_uleb128(s, p) {
        Err(e) => Err(e),
        Ok((v, q)) => if v > u16::MAX {
            Err(DeserializeError::InvalidOperand { opcode, reason: REASON_INDEX_U16 })
        } else {
            Ok((v as u16, q))
        },
    }
}

/// Reading an operand of shape `shape` at `p`, for the instruction
/// with opcode byte `opcode`.
pub open spec fn spec_read_operand(shape: OperandShape, s: Seq<u8>, p: int, opcode: u8) -> Result<(Operand, int), DeserializeError> {
    match shape {
        OperandShape::Empty => Ok((Operand::Empty, p)),
        OperandShape::Index => match spec_read_index(s, p, opcode) {
            Err(e) => Err(e),
            Ok((v, q)) => Ok((Operand::Index(v), q)),
        },
        OperandShape::LocalIdx => match spec_read_uleb128(s, p) {
            Err(e) => Err(e),
            Ok((v, q)) => if v > u8::MAX {
                Err(DeserializeError::InvalidOperand { opcode, reason: REASON_INDEX_U8 })
            } else {
                Ok((Operand::LocalIdx(v as u8), q))
            },
        },
        OperandShape::Byte => match spec_read_fixed(s, p, 1) {
            Err(e) => Err(e),
            Ok((b, q)) => Ok((Operand::Byte(b[0]), q)),
        },
        OperandShape::Word16 => match spec_read_fixed(s, p, 2) {
            Err(e) => Err(e),
            Ok((b, q)) => Ok((Operand::Word16(spec_u16_from_le_bytes(b)), q)),
        },
        OperandShape::Word32 => match spec_read_fixed(s, p, 4) {
            Err(e) => Err(e),
            Ok((b, q)) => Ok((Operand::Word32(spec_u32_from_le_bytes(b)), q)),
        },
        OperandShape::Word64 => match spec_read_fixed(s, p, 8) {
            Err(e) => Err(e),
            Ok((b, q)) => Ok((Operand::Word64(spec_u64_from_le_bytes(b)), q)),
        },
        OperandShape::Word128 => match spec_read_fixed(s, p, 16) {
            Err(e) => Err(e),
            Ok((b, q)) => Ok((Operand::Word128(spec_u128_from_le_bytes(b)), q)),
        },
        OperandShape::Word256 => match spec_read_fixed(s, p, 32) {
            Err(e) => Err(e),
            Ok((b, q)) => Ok((Operand::Word256(U256::from_le_seq(b)), q)),
        },
        OperandShape::IndexCount => match spec_read_index(s, p, opcode) {
            Err(e) => Err(e),
            Ok((v, q)) => match spec_read_fixed(s, q, 8) {
                Err(e) => Err(e),
                Ok((b, r)) => Ok((Operand::IndexCount(v, spec_u64_from_le_bytes(b)), r)),
            },
        },
        OperandShape::Dimension => match spec_read_fixed(s, p, 1) {
            Err(e) => Err(e),
            Ok((b, q)) => match spec_gas_dimension_of_tag(b[0]) {
                Some(d) => Ok((Operand::Dimension(d), q)),
                None => Err(DeserializeError::InvalidOperand { opcode, reason: REASON_GAS_DIMENSION }),
            },
        },
    }
}

/// Decoding one instruction at `p`: the opcode byte (refused when
/// `strict` and deprecated, or when it names no instruction), then
/// the operand of the byte's shape.
pub open spec fn spec_decode_instruction(s: Seq<u8>, p: int, strict: bool) -> Result<(BytecodeInstruction, int), DeserializeError> {
    if p + 1 > s.len() {
        Err(DeserializeError::UnexpectedEof)
    } else {
        let byte = s[p];
        if strict && spec_is_deprecated_global_storage_opcode(byte) {
            Err(DeserializeError::DeprecatedGlobalStorageOpcode(byte))
        } else {
            match spec_opcode_shape(byte) {
                None => Err(DeserializeError::UnknownOpcode(byte)),
                Some(shape) => match spec_read_operand(shape, s, p + 1, byte) {
                    Err(e) => Err(e),
                    Ok((op, q)) => match spec_assemble(byte, op) {
                        Some(instr) => Ok((instr, q)),
                        // Unreachable: the operand read has the byte's shape.
                        None => Err(DeserializeError::UnknownOpcode(byte)),
                    },
                },
            }
        }
    }
}

/// Decoding `n` instructions one after the other from `p`.
pub open spec fn spec_decode_instructions(s: Seq<u8>, p: int, n: nat, strict: bool) -> Result<(Seq<BytecodeInstruction>, int), DeserializeError>
    decreases n,
{
    if n == 0 {
        Ok((Seq::empty(), p))
    } else {
        match spec_decode_instructions(s, p, (n - 1) as nat, strict) {
            Err(e) => Err(e),
            Ok((body, q)) => match spec_decode_instruction(s, q, strict) {
                Err(e) => Err(e),
                Ok((instr, r)) => Ok((body.push(instr), r)),
            },
        }
    }
}

/// Decoding a function body at `p`: the ULEB128 count, then that
/// many instructions.
pub open spec fn spec_decode_function_body_at(s: Seq<u8>, p: int, strict: bool) -> Result<(Seq<BytecodeInstruction>, int), DeserializeError> {
    match spec_read_uleb128(s, p) {
        Err(e) => Err(e),
        Ok((count, q)) => spec_decode_instructions(s, q, count, strict),
    }
}

/// Decoding a whole byte string as one function body.
pub open spec fn spec_deserialize_function_body(s: Seq<u8>, strict: bool) -> Result<Seq<BytecodeInstruction>, DeserializeError> {
    match spec_decode_function_body_at(s, 0, strict) {
        Err(e) => Err(e),
        Ok((body, q)) => if q != s.len() {
            Err(DeserializeError::TrailingBytes)
        } else {
            Ok(body)
        },
    }
}

/// Where reading a ULEB128 value at `p` leaves the cursor: after the
/// value, or after the byte at which reading failed.
pub open spec fn spec_uleb128_stop(s: Seq<u8>, p: int) -> int {
    match uleb128_decode(s, p) {
        Ok((_, q)) => q,
        Err(f) => f,
    }
}

/// Where reading `n` raw bytes at `p` leaves the cursor: after them,
/// or where it was when they are not all there.
pub open spec fn spec_fixed_stop(s: Seq<u8>, p: int, n: int) -> int {
    if p + n > s.len() {
        p
    } else {
        p + n
    }
}

/// Where reading an operand of shape `shape` at `p` leaves the cursor,
/// whether it succeeds or fails: an out-of-range index fails right
/// after its encoding.
pub open spec fn spec_operand_stop(shape: OperandShape, s: Seq<u8>, p: int) -> int {
    match shape {
        OperandShape::Empty => p,
        OperandShape::Index | OperandShape::LocalIdx => spec_uleb128_stop(s, p),
        OperandShape::Byte | OperandShape::Dimension => spec_fixed_stop(s, p, 1),
        OperandShape::Word16 => spec_fixed_stop(s, p, 2),
        OperandShape::Word32 => spec_fixed_stop(s, p, 4),
        OperandShape::Word64 => spec_fixed_stop(s, p, 8),
        OperandShape::Word128 => spec_fixed_stop(s, p, 16),
        OperandShape::Word256 => spec_fixed_stop(s, p, 32),
        OperandShape::IndexCount => match uleb128_decode(s, p) {
            Err(f) => f,
            Ok((v, q)) => if v > u16::MAX {
                q
            } else {
                spec_fixed_stop(s, q, 8)
            },
        },
    }
}

/// Where decoding one instruction at `p` leaves the cursor: where it
/// was when no opcode byte is left; right after the opcode byte when
/// that byte is refused (deprecated in strict mode, or unknown);
/// otherwise where reading its operand stops.
pub open spec fn spec_instruction_stop(s: Seq<u8>, p: int, strict: bool) -> int {
    if p + 1 > s.len() {
        p
    } else {
        let byte = s[p];
        if strict && spec_is_deprecated_global_storage_opcode(byte) {
            p + 1
        } else {
            match spec_opcode_shape(byte) {
                None => p + 1,
                Some(shape) => spec_operand_stop(shape, s, p + 1),
            }
        }
    }
}

/// Where decoding `n` instructions from `p` leaves the cursor: after
/// the last one, or where the first failing one stops.
pub open spec fn spec_instructions_stop(s: Seq<u8>, p: int, n: nat, strict: bool) -> int
    decreases n,
{
    if n == 0 {
        p
    } else {
        match spec_decode_instructions(s, p, (n - 1) as nat, strict) {
            Err(_) => spec_instructions_stop(s, p, (n - 1) as nat, strict),
            Ok((_, q)) => spec_instruction_stop(s, q, strict),
        }
    }
}

/// Where decoding a function body at `p` leaves the cursor: where
/// reading the count fails, or where decoding its instructions stops.
pub open spec fn spec_function_body_stop(s: Seq<u8>, p: int, strict: bool) -> int {
    match uleb128_decode(s, p) {
        Err(f) => f,
        Ok((count, q)) => spec_instructions_stop(s, q, count, strict),
    }
}

/// A successful operand read has the shape it was asked for.
pub proof fn lemma_read_operand_shape(shape: OperandShape, s: Seq<u8>, p: int, opcode: u8)
    ensures
        spec_read_operand(shape, s, p, opcode) matches Ok((op, q)) ==> operand_shape(op) == shape,
{
}

/// Reads a ULEB128 value.
fn read_uleb128(cursor: &mut Cursor) -> (r: Result<u64, DeserializeError>)
    ensures
        final(cursor).data() == old(cursor).data(),
        match spec_read_uleb128(old(cursor).data(), old(cursor).pos() as int) {
            Ok((v, q)) => r == Ok::<u64, DeserializeError>(v as u64) && final(cursor).pos() == q
                && v <= u64::MAX,
            Err(e) => r == Err::<u64, DeserializeError>(e),
        },
        final(cursor).pos() == spec_uleb128_stop(old(cursor).data(), old(cursor).pos() as int),
{
    proof {
        lemma_uleb128_decode_bound(cursor.data(), cursor.pos() as int);
    }
    match cursor.read_uleb128() {
        Ok(v) => Ok(v),
        Err(_) => {
            if cursor.at_end() {
                Err(DeserializeError::UnexpectedEof)
            } else {
                Err(DeserializeError::MalformedUleb128)
            }
        },
    }
}

/// Reads a ULEB128 index that must fit a `u16`.
fn read_uleb128_u16(cursor: &mut Cursor, opcode: u8) -> (r: Result<u16, DeserializeError>)
    ensures
        final(cursor).data() == old(cursor).data(),
        match spec_read_index(old(cursor).data(), old(cursor).pos() as int, opcode) {
            Ok((v, q)) => r == Ok::<u16, DeserializeError>(v) && final(cursor).pos() == q,
            Err(e) => r == Err::<u16, DeserializeError>(e),
        },
        final(cursor).pos() == spec_uleb128_stop(old(cursor).data(), old(cursor).pos() as int),
{
    match read_uleb128(cursor) {
        Err(e) => Err(e),
        Ok(v) => {
            if v > 0xFFFF {
                Err(DeserializeError::InvalidOperand { opcode, reason: REASON_INDEX_U16 })
            } else {
                Ok(v as u16)
            }
        },
    }
}

/// Reads a ULEB128 local index that must fit a `u8`.
fn read_uleb128_u8(cursor: &mut Cursor, opcode: u8) -> (r: Result<u8, DeserializeError>)
    ensures
        final(cursor).data() == old(cursor).data(),
        match spec_read_uleb128(old(cursor).data(), old(cursor).pos() as int) {
            Ok((v, q)) => if v > u8::MAX {
                r == Err::<u8, DeserializeError>(DeserializeError::InvalidOperand { opcode, reason: REASON_INDEX_U8 })
            } else {
                r == Ok::<u8, DeserializeError>(v as u8) && final(cursor).pos() == q
            },
            Err(e) => r == Err::<u8, DeserializeError>(e),
        },
        final(cursor).pos() == spec_uleb128_stop(old(cursor).data(), old(cursor).pos() as int),
{
    match read_uleb128(cursor) {
        Err(e) => Err(e),
        Ok(v) => {
            if v > 0xFF {
                Err(DeserializeError::InvalidOperand { opcode, reason: REASON_INDEX_U8 })
            } else {
                Ok(v as u8)
            }
        },
    }
}

/// Reads `n` raw bytes.
fn read_n<'a>(cursor: &mut Cursor<'a>, n: usize) -> (r: Result<&'a [u8], DeserializeError>)
    ensures
        final(cursor).data() == old(cursor).data(),
        match spec_read_fixed(old(cursor).data(), old(cursor).pos() as int, n as int) {
            Ok((b, q)) => r matches Ok(x) && x@ == b && final(cursor).pos() == q,
            Err(e) => r == Err::<&'a [u8], DeserializeError>(e),
        },
        final(cursor).pos() == spec_fixed_stop(old(cursor).data(), old(cursor).pos() as int, n as int),
{
    match cursor.take(n) {
        Some(b) => Ok(b),
        None => Err(DeserializeError::UnexpectedEof),
    }
}

/// Reads one byte.
fn read_u8(cursor: &mut Cursor) -> (r: Result<u8, DeserializeError>)
    ensures
        final(cursor).data() == old(cursor).data(),
        match spec_read_fixed(old(cursor).data(), old(cursor).pos() as int, 1) {
            Ok((b, q)) => r == Ok::<u8, DeserializeError>(b[0]) && final(cursor).pos() == q,
            Err(e) => r == Err::<u8, DeserializeError>(e),
        },
        final(cursor).pos() == spec_fixed_stop(old(cursor).data(), old(cursor).pos() as int, 1),
{
    match read_n(cursor, 1) {
        Ok(b) => Ok(b[0]),
        Err(e) => Err(e),
    }
}

/// Reads a little-endian `u16`.
fn read_u16_le(cursor: &mut Cursor) -> (r: Result<u16, DeserializeError>)
    ensures
        final(cursor).data() == old(cursor).data(),
        match spec_read_fixed(old(cursor).data(), old(cursor).pos() as int, 2) {
            Ok((b, q)) => r == Ok::<u16, DeserializeError>(spec_u16_from_le_bytes(b)) && final(cursor).pos() == q,
            Err(e) => r == Err::<u16, DeserializeError>(e),
        },
        final(cursor).pos() == spec_fixed_stop(old(cursor).data(), old(cursor).pos() as int, 2),
{
    match read_n(cursor, 2) {
        Ok(b) => Ok(u16_from_le_bytes(b)),
        Err(e) => Err(e),
    }
}

/// Reads a little-endian `u32`.
fn read_u32_le(cursor: &mut Cursor) -> (r: Result<u32, DeserializeError>)
    ensures
        final(cursor).data() == old(cursor).data(),
        match spec_read_fixed(old(cursor).data(), old(cursor).pos() as int, 4) {
            Ok((b, q)) => r == Ok::<u32, DeserializeError>(spec_u32_from_le_bytes(b)) && final(cursor).pos() == q,
            Err(e) => r == Err::<u32, DeserializeError>(e),
        },
        final(cursor).pos() == spec_fixed_stop(old(cursor).data(), old(cursor).pos() as int, 4),
{
    match read_n(cursor, 4) {
        Ok(b) => Ok(u32_from_le_bytes(b)),
        Err(e) => Err(e),
    }
}

/// Reads a little-endian `u64`.
fn read_u64_le(cursor: &mut Cursor) -> (r: Result<u64, DeserializeError>)
    ensures
        final(cursor).data() == old(cursor).data(),
        match spec_read_fixed(old(cursor).data(), old(cursor).pos() as int, 8) {
            Ok((b, q)) => r == Ok::<u64, DeserializeError>(spec_u64_from_le_bytes(b)) && final(cursor).pos() == q,
            Err(e) => r == Err::<u64, DeserializeError>(e),
        },
        final(cursor).pos() == spec_fixed_stop(old(cursor).data(), old(cursor).pos() as int, 8),
{
    match read_n(cursor, 8) {
        Ok(b) => Ok(u64_from_le_bytes(b)),
        Err(e) => Err(e),
    }
}

/// Reads a little-endian `u128`.
fn read_u128_le(cursor: &mut Cursor) -> (r: Result<u128, DeserializeError>)
    ensures
        final(cursor).data() == old(cursor).data(),
        match spec_read_fixed(old(cursor).data(), old(cursor).pos() as int, 16) {
            Ok((b, q)) => r == Ok::<u128, DeserializeError>(spec_u128_from_le_bytes(b)) && final(cursor).pos() == q,
            Err(e) => r == Err::<u128, DeserializeError>(e),
        },
        final(cursor).pos() == spec_fixed_stop(old(cursor).data(), old(cursor).pos() as int, 16),
{
    match read_n(cursor, 16) {
        Ok(b) => Ok(u128_from_le_bytes(b)),
        Err(e) => Err(e),
    }
}

/// Reads a little-endian `u256`.
fn read_u256_le(cursor: &mut Cursor) -> (r: Result<U256, DeserializeError>)
    ensures
        final(cursor).data() == old(cursor).data(),
        match spec_read_fixed(old(cursor).data(), old(cursor).pos() as int, 32) {
            Ok((b, q)) => r == Ok::<U256, DeserializeError>(U256::from_le_seq(b)) && final(cursor).pos() == q,
            Err(e) => r == Err::<U256, DeserializeError>(e),
        },
        final(cursor).pos() == spec_fixed_stop(old(cursor).data(), old(cursor).pos() as int, 32),
{
    match read_n(cursor, 32) {
        Ok(b) => {
            let lo = u128_from_le_bytes(vstd::slice::slice_subrange(b, 0, 16));
            let hi = u128_from_le_bytes(vstd::slice::slice_subrange(b, 16, 32));
            Ok(U256 { lo, hi })
        },
        Err(e) => Err(e),
    }
}

/// Reads an operand of shape `shape` for the instruction `opcode`.
fn read_operand(cursor: &mut Cursor, shape: OperandShape, opcode: u8) -> (r: Result<Operand, DeserializeError>)
    ensures
        final(cursor).data() == old(cursor).data(),
        match spec_read_operand(shape, old(cursor).data(), old(cursor).pos() as int, opcode) {
            Ok((op, q)) => r == Ok::<Operand, DeserializeError>(op) && final(cursor).pos() == q,
            Err(e) => r == Err::<Operand, DeserializeError>(e),
        },
        final(cursor).pos() == spec_operand_stop(shape, old(cursor).data(), old(cursor).pos() as int),
{
    match shape {
        OperandShape::Empty => Ok(Operand::Empty),
        OperandShape::Index => match read_uleb128_u16(cursor, opcode) {
            Ok(v) => Ok(Operand::Index(v)),
            Err(e) => Err(e),
        },
        OperandShape::LocalIdx => match read_uleb128_u8(cursor, opcode) {
            Ok(v) => Ok(Operand::LocalIdx(v)),
            Err(e) => Err(e),
        },
        OperandShape::Byte => match read_u8(cursor) {
            Ok(v) => Ok(Operand::Byte(v)),
            Err(e) => Err(e),
        },
        OperandShape::Word16 => match read_u16_le(cursor) {
            Ok(v) => Ok(Operand::Word16(v)),
            Err(e) => Err(e),
        },
        OperandShape::Word32 => match read_u32_le(cursor) {
            Ok(v) => Ok(Operand::Word32(v)),
            Err(e) => Err(e),
        },
        OperandShape::Word64 => match read_u64_le(cursor) {
            Ok(v) => Ok(Operand::Word64(v)),
            Err(e) => Err(e),
        },
        OperandShape::Word128 => match read_u128_le(cursor) {
            Ok(v) => Ok(Operand::Word128(v)),
            Err(e) => Err(e),
        },
        OperandShape::Word256 => match read_u256_le(cursor) {
            Ok(v) => Ok(Operand::Word256(v)),
            Err(e) => Err(e),
        },
        OperandShape::IndexCount => match read_uleb128_u16(cursor, opcode) {
            Err(e) => Err(e),
            Ok(sig) => match read_u64_le(cursor) {
                Ok(n) => Ok(Operand::IndexCount(sig, n)),
                Err(e) => Err(e),
            },
        },
        OperandShape::Dimension => match read_u8(cursor) {
            Err(e) => Err(e),
            Ok(b) => match gas_dimension_from_byte(b, opcode) {
                Ok(d) => Ok(Operand::Dimension(d)),
                Err(e) => Err(e),
            },
        },
    }
}

/// Decodes one instruction.
fn deserialize_instruction(cursor: &mut Cursor, config: &DeserializeConfig) -> (r: Result<BytecodeInstruction, DeserializeError>)
    ensures
        final(cursor).data() == old(cursor).data(),
        match spec_decode_instruction(old(cursor).data(), old(cursor).pos() as int, config.reject_deprecated_global_storage) {
            Ok((instr, q)) => r == Ok::<BytecodeInstruction, DeserializeError>(instr) && final(cursor).pos() == q,
            Err(e) => r == Err::<BytecodeInstruction, DeserializeError>(e),
        },
        final(cursor).pos() == spec_instruction_stop(old(cursor).data(), old(cursor).pos() as int, config.reject_deprecated_global_storage),
{
    let byte = match read_u8(cursor) {
        Ok(b) => b,
        Err(e) => return Err(e),
    };
    if config.reject_deprecated_global_storage && is_deprecated_global_storage_opcode(byte) {
        return Err(DeserializeError::DeprecatedGlobalStorageOpcode(byte));
    }
    let shape = match opcode_shape(byte) {
        Some(shape) => shape,
        None => return Err(DeserializeError::UnknownOpcode(byte)),
    };
    let ghost mid = cursor.pos();
    match read_operand(cursor, shape, byte) {
        Err(e) => Err(e),
        Ok(op) => {
            proof {
                lemma_read_operand_shape(shape, cursor.data(), mid as int, byte);
                lemma_assemble_parts(byte, op);
            }
            Ok(assemble(byte, op))
        },
    }
}

/// Decodes a function body at the cursor: the ULEB128 instruction
/// count, then the instructions.  The cursor ends past the body;
/// bytes after it are left for the caller.
pub fn deserialize_function_body_from_cursor(cursor: &mut Cursor, config: &DeserializeConfig) -> (r: Result<Vec<BytecodeInstruction>, DeserializeError>)
    ensures
        final(cursor).data() == old(cursor).data(),
        match spec_decode_function_body_at(old(cursor).data(), old(cursor).pos() as int, config.reject_deprecated_global_storage) {
            Ok((body, q)) => r matches Ok(v) && v@ == body && final(cursor).pos() == q,
            Err(e) => r == Err::<Vec<BytecodeInstruction>, DeserializeError>(e),
        },
        final(cursor).pos() == spec_function_body_stop(old(cursor).data(), old(cursor).pos() as int, config.reject_deprecated_global_storage),
{
    let ghost s = cursor.data();
    let ghost strict = config.reject_deprecated_global_storage;
    let count = match read_uleb128(cursor) {
        Ok(c) => c,
        Err(e) => return Err(e),
    };
    let ghost start = cursor.pos() as int;
    let mut body: Vec<BytecodeInstruction> = Vec::new();
    let mut i: u64 = 0;
    while i < count
        invariant
            i <= count,
            cursor.data() == s,
            s == old(cursor).data(),
            strict == config.reject_deprecated_global_storage,
            spec_read_uleb128(s, old(cursor).pos() as int) == Ok::<(nat, int), DeserializeError>((count as nat, start)),
            spec_decode_instructions(s, start, i as nat, strict) == Ok::<(Seq<BytecodeInstruction>, int), DeserializeError>((body@, cursor.pos() as int)),
            spec_function_body_stop(s, old(cursor).pos() as int, strict) == spec_instructions_stop(s, start, count as nat, strict),
        decreases count - i,
    {
        match deserialize_instruction(cursor, config) {
            Ok(instr) => {
                body.push(instr);
            },
            Err(e) => {
                proof {
                    lemma_decode_instructions_error(s, start, (i + 1) as nat, count as nat, strict);
                    lemma_instructions_stop_error(s, start, (i + 1) as nat, count as nat, strict);
                }
                return Err(e);
            },
        }
        i = i + 1;
    }
    proof {
        lemma_instructions_stop_ok(s, start, count as nat, strict);
    }
    Ok(body)
}

/// A decoded instruction stops right after itself.
proof fn lemma_instruction_stop_ok(s: Seq<u8>, p: int, strict: bool)
    requires
        spec_decode_instruction(s, p, strict) is Ok,
    ensures
        spec_instruction_stop(s, p, strict) == spec_decode_instruction(s, p, strict)->Ok_0.1,
{
}

/// Decoded instructions stop right after the last one.
proof fn lemma_instructions_stop_ok(s: Seq<u8>, p: int, n: nat, strict: bool)
    requires
        spec_decode_instructions(s, p, n, strict) is Ok,
    ensures
        spec_instructions_stop(s, p, n, strict) == spec_decode_instructions(s, p, n, strict)->Ok_0.1,
    decreases n,
{
    if n > 0 {
        let q = spec_decode_instructions(s, p, (n - 1) as nat, strict)->Ok_0.1;
        lemma_instruction_stop_ok(s, q, strict);
    }
}

/// Once decoding fails at some count, it stops at the same place at
/// every larger count.
proof fn lemma_instructions_stop_error(s: Seq<u8>, p: int, n: nat, m: nat, strict: bool)
    requires
        n <= m,
        spec_decode_instructions(s, p, n, strict) is Err,
    ensures
        spec_instructions_stop(s, p, m, strict) == spec_instructions_stop(s, p, n, strict),
    decreases m - n,
{
    if n < m {
        lemma_instructions_stop_error(s, p, n, (m - 1) as nat, strict);
        lemma_decode_instructions_error(s, p, n, (m - 1) as nat, strict);
    }
}

/// Once decoding fails at some count, it fails with the same error at
/// every larger count.
proof fn lemma_decode_instructions_error(s: Seq<u8>, p: int, n: nat, m: nat, strict: bool)
    requires
        n <= m,
        spec_decode_instructions(s, p, n, strict) is Err,
    ensures
        spec_decode_instructions(s, p, m, strict) == spec_decode_instructions(s, p, n, strict),
    decreases m - n,
{
    if n < m {
        lemma_decode_instructions_error(s, p, n, (m - 1) as nat, strict);
    }
}

/// Decodes a byte string holding exactly one function body.
pub fn deserialize_function_body(bytes: &[u8], config: &DeserializeConfig) -> (r: Result<Vec<BytecodeInstruction>, DeserializeError>)
    ensures
        match spec_deserialize_function_body(bytes@, config.reject_deprecated_global_storage) {
            Ok(body) => r matches Ok(v) && v@ == body,
            Err(e) => r == Err::<Vec<BytecodeInstruction>, DeserializeError>(e),
        },
{
    let mut cursor = Cursor::new(bytes);
    let body = match deserialize_function_body_from_cursor(&mut cursor, config) {
        Ok(b) => b,
        Err(e) => return Err(e),
    };
    if cursor.position() != bytes.len() as u64 {
        return Err(DeserializeError::TrailingBytes);
    }
    Ok(body)
}

// ---------- Laws ----------

proof fn lemma_subrange_split(s: Seq<u8>, p: int, a: Seq<u8>, b: Seq<u8>)
    requires
        0 <= p,
        p + a.len() + b.len() <= s.len(),
        s.subrange(p, p + a.len() + b.len()) == a + b,
    ensures
        s.subrange(p, p + a.len()) == a,
        s.subrange(p + a.len(), p + a.len() + b.len()) == b,
{
    assert(s.subrange(p, p + a.len()) =~= (a + b).subrange(0, a.len() as int));
    assert(s.subrange(p + a.len(), p + a.len() + b.len()) =~= (a + b).subrange(
        a.len() as int,
        (a.len() + b.len()) as int,
    ));
}

proof fn lemma_subrange_join(s: Seq<u8>, p: int, q: int, r: int)
    requires
        0 <= p <= q <= r <= s.len(),
    ensures
        s.subrange(p, r) == s.subrange(p, q) + s.subrange(q, r),
{
    assert(s.subrange(p, r) =~= s.subrange(p, q) + s.subrange(q, r));
}

/// Reading an operand back from its bytes gives the operand and ends
/// right after its bytes.
proof fn lemma_operand_round_trip(op: Operand, s: Seq<u8>, p: int, opcode: u8)
    requires
        0 <= p,
        p + operand_bytes(op).len() <= s.len(),
        s.subrange(p, p + operand_bytes(op).len()) == operand_bytes(op),
    ensures
        spec_read_operand(operand_shape(op), s, p, opcode) == Ok::<(Operand, int), DeserializeError>(
            (op, p + operand_bytes(op).len()),
        ),
{
    lemma_auto_spec_u16_to_from_le_bytes();
    lemma_auto_spec_u32_to_from_le_bytes();
    lemma_auto_spec_u64_to_from_le_bytes();
    lemma_auto_spec_u128_to_from_le_bytes();
    match op {
        Operand::Index(v) => {
            lemma_uleb128_round_trip(v as nat, s, p);
        },
        Operand::LocalIdx(v) => {
            lemma_uleb128_round_trip(v as nat, s, p);
        },
        Operand::Byte(b) => {
            assert(s.subrange(p, p + 1)[0] == b);
        },
        Operand::Word256(v) => {
            let lo = spec_u128_to_le_bytes(v.lo);
            let hi = spec_u128_to_le_bytes(v.hi);
            let b = s.subrange(p, p + 32);
            assert(b.subrange(0, 16) =~= lo);
            assert(b.subrange(16, 32) =~= hi);
        },
        Operand::IndexCount(sig, n) => {
            let a = uleb128_encode(sig as nat);
            let c = spec_u64_to_le_bytes(n);
            lemma_subrange_split(s, p, a, c);
            lemma_uleb128_round_trip(sig as nat, s, p);
        },
        Operand::Dimension(d) => {
            assert(s.subrange(p, p + 1)[0] == spec_gas_dimension_tag(d));
        },
        _ => {},
    }
}

/// A successful operand read consumed exactly the bytes of the
/// operand it returned.
proof fn lemma_operand_canonical(shape: OperandShape, s: Seq<u8>, p: int, opcode: u8)
    requires
        0 <= p <= s.len(),
    ensures
        spec_read_operand(shape, s, p, opcode) matches Ok((op, q)) ==> {
            &&& q == p + operand_bytes(op).len()
            &&& q <= s.len()
            &&& s.subrange(p, q) == operand_bytes(op)
        },
{
    lemma_auto_spec_u16_to_from_le_bytes();
    lemma_auto_spec_u32_to_from_le_bytes();
    lemma_auto_spec_u64_to_from_le_bytes();
    lemma_auto_spec_u128_to_from_le_bytes();
    lemma_uleb128_canonical(s, p);
    lemma_uleb128_decode_bound(s, p);
    match spec_read_operand(shape, s, p, opcode) {
        Ok((op, q)) => {
            match shape {
                OperandShape::Empty => {
                    assert(s.subrange(p, q) =~= Seq::<u8>::empty());
                },
                OperandShape::Index => {
                    let v = spec_read_uleb128(s, p)->Ok_0.0;
                    assert(op == Operand::Index(v as u16));
                    assert((v as u16) as nat == v);
                },
                OperandShape::LocalIdx => {
                    let v = spec_read_uleb128(s, p)->Ok_0.0;
                    assert(op == Operand::LocalIdx(v as u8));
                    assert((v as u8) as nat == v);
                },
                OperandShape::Byte => {
                    assert(s.subrange(p, q) =~= seq![s[p]]);
                },
                OperandShape::Word16 => {
                    let b = s.subrange(p, p + 2);
                    assert(spec_u16_to_le_bytes(spec_u16_from_le_bytes(b)) == b);
                },
                OperandShape::Word32 => {
                    let b = s.subrange(p, p + 4);
                    assert(spec_u32_to_le_bytes(spec_u32_from_le_bytes(b)) == b);
                },
                OperandShape::Word64 => {
                    let b = s.subrange(p, p + 8);
                    assert(spec_u64_to_le_bytes(spec_u64_from_le_bytes(b)) == b);
                },
                OperandShape::Word128 => {
                    let b = s.subrange(p, p + 16);
                    assert(spec_u128_to_le_bytes(spec_u128_from_le_bytes(b)) == b);
                },
                OperandShape::Word256 => {
                    let b = s.subrange(p, p + 32);
                    let lo = b.subrange(0, 16);
                    let hi = b.subrange(16, 32);
                    assert(spec_u128_to_le_bytes(spec_u128_from_le_bytes(lo)) == lo);
                    assert(spec_u128_to_le_bytes(spec_u128_from_le_bytes(hi)) == hi);
                    assert(b =~= lo + hi);
                },
                OperandShape::IndexCount => {
                    let (v, q1) = spec_read_uleb128(s, p)->Ok_0;
                    let b = s.subrange(q1, q1 + 8);
                    assert(spec_u64_to_le_bytes(spec_u64_from_le_bytes(b)) == b);
                    assert((v as u16) as nat == v);
                    lemma_subrange_join(s, p, q1, q);
                },
                OperandShape::Dimension => {
                    assert(s.subrange(p, q) =~= seq![s[p]]);
                },
            }
        },
        Err(_) => {},
    }
}

/// Decoding the bytes of an instruction gives the instruction back
/// (in strict mode, when its opcode is not deprecated).
proof fn lemma_instruction_round_trip(instr: BytecodeInstruction, s: Seq<u8>, p: int, strict: bool)
    requires
        0 <= p,
        p + spec_encode_instruction(instr).len() <= s.len(),
        s.subrange(p, p + spec_encode_instruction(instr).len()) == spec_encode_instruction(instr),
        strict ==> !spec_is_deprecated_global_storage_opcode(spec_instruction_parts(instr).0),
    ensures
        spec_decode_instruction(s, p, strict) == Ok::<(BytecodeInstruction, int), DeserializeError>(
            (instr, p + spec_encode_instruction(instr).len()),
        ),
{
    let (byte, op) = spec_instruction_parts(instr);
    let ob = operand_bytes(op);
    lemma_subrange_split(s, p, seq![byte], ob);
    assert(s[p] == s.subrange(p, p + 1)[0]);
    lemma_parts_assemble(instr);
    lemma_operand_round_trip(op, s, p + 1, byte);
}

/// A successful instruction decode consumed exactly the bytes of the
/// instruction it returned.
proof fn lemma_instruction_canonical(s: Seq<u8>, p: int, strict: bool)
    requires
        0 <= p,
    ensures
        spec_decode_instruction(s, p, strict) matches Ok((instr, q)) ==> {
            &&& q == p + spec_encode_instruction(instr).len()
            &&& q <= s.len()
            &&& s.subrange(p, q) == spec_encode_instruction(instr)
        },
{
    if p + 1 <= s.len() {
        let byte = s[p];
        match spec_opcode_shape(byte) {
            Some(shape) => {
                lemma_operand_canonical(shape, s, p + 1, byte);
                lemma_read_operand_shape(shape, s, p + 1, byte);
                match spec_read_operand(shape, s, p + 1, byte) {
                    Ok((op, q)) => {
                        lemma_assemble_parts(byte, op);
                        lemma_subrange_join(s, p, p + 1, q);
                        assert(s.subrange(p, p + 1) =~= seq![byte]);
                    },
                    Err(_) => {},
                }
            },
            None => {},
        }
    }
}

/// Decoding the bytes of a sequence of instructions gives the
/// sequence back.
proof fn lemma_instructions_round_trip(body: Seq<BytecodeInstruction>, s: Seq<u8>, p: int, strict: bool)
    requires
        0 <= p,
        p + spec_encode_instructions(body).len() <= s.len(),
        s.subrange(p, p + spec_encode_instructions(body).len()) == spec_encode_instructions(body),
        strict ==> forall|k: int|
            0 <= k < body.len() ==> !spec_is_deprecated_global_storage_opcode(
                #[trigger] spec_instruction_parts(body[k]).0,
            ),
    ensures
        spec_decode_instructions(s, p, body.len(), strict) == Ok::<(Seq<BytecodeInstruction>, int), DeserializeError>(
            (body, p + spec_encode_instructions(body).len()),
        ),
    decreases body.len(),
{
    if body.len() > 0 {
        let pre = body.drop_last();
        let last = body.last();
        let a = spec_encode_instructions(pre);
        let b = spec_encode_instruction(last);
        lemma_subrange_split(s, p, a, b);
        assert forall|k: int| 0 <= k < pre.len() implies pre[k] == body[k] by {}
        lemma_instructions_round_trip(pre, s, p, strict);
        assert(spec_instruction_parts(body[body.len() - 1]).0 == spec_instruction_parts(last).0);
        lemma_instruction_round_trip(last, s, p + a.len(), strict);
        assert(pre.push(last) =~= body);
    } else {
        assert(body =~= Seq::<BytecodeInstruction>::empty());
    }
}

/// A successful decode of `n` instructions consumed exactly the bytes
/// of the `n` instructions it returned.
proof fn lemma_instructions_canonical(s: Seq<u8>, p: int, n: nat, strict: bool)
    requires
        0 <= p <= s.len(),
    ensures
        spec_decode_instructions(s, p, n, strict) matches Ok((body, q)) ==> {
            &&& body.len() == n
            &&& q == p + spec_encode_instructions(body).len()
            &&& q <= s.len()
            &&& s.subrange(p, q) == spec_encode_instructions(body)
        },
    decreases n,
{
    if n == 0 {
        assert(s.subrange(p, p) =~= Seq::<u8>::empty());
    } else {
        lemma_instructions_canonical(s, p, (n - 1) as nat, strict);
        match spec_decode_instructions(s, p, (n - 1) as nat, strict) {
            Ok((pre, q)) => {
                lemma_instruction_canonical(s, q, strict);
                match spec_decode_instruction(s, q, strict) {
                    Ok((instr, r)) => {
                        let body = pre.push(instr);
                        assert(body.drop_last() =~= pre);
                        lemma_subrange_join(s, p, q, r);
                    },
                    Err(_) => {},
                }
            },
            Err(_) => {},
        }
    }
}

/// Round trip: decoding the serialization of a function body gives
/// the body back; in strict mode this holds for bodies without a
/// deprecated global-storage instruction.
pub proof fn lemma_round_trip(body: Seq<BytecodeInstruction>, strict: bool)
    requires
        body.len() <= u64::MAX,
        strict ==> forall|k: int|
            0 <= k < body.len() ==> !spec_is_deprecated_global_storage_opcode(
                #[trigger] spec_instruction_parts(body[k]).0,
            ),
    ensures
        spec_deserialize_function_body(spec_encode_function_body(body), strict) == Ok::<Seq<BytecodeInstruction>, DeserializeError>(body),
{
    let s = spec_encode_function_body(body);
    let head = uleb128_encode(body.len());
    let tail = spec_encode_instructions(body);
    assert(s.subrange(0, s.len() as int) =~= s);
    lemma_subrange_split(s, 0, head, tail);
    lemma_uleb128_round_trip(body.len(), s, 0);
    lemma_instructions_round_trip(body, s, head.len() as int, strict);
}

/// Round trip within a byte stream: decoding at `p` the serialization
/// of a body placed there gives the body back and ends right after
/// it.
pub proof fn lemma_round_trip_at(body: Seq<BytecodeInstruction>, s: Seq<u8>, p: int, strict: bool)
    requires
        body.len() <= u64::MAX,
        strict ==> forall|k: int|
            0 <= k < body.len() ==> !spec_is_deprecated_global_storage_opcode(
                #[trigger] spec_instruction_parts(body[k]).0,
            ),
        0 <= p,
        p + spec_encode_function_body(body).len() <= s.len(),
        s.subrange(p, p + spec_encode_function_body(body).len()) == spec_encode_function_body(body),
    ensures
        spec_decode_function_body_at(s, p, strict) == Ok::<(Seq<BytecodeInstruction>, int), DeserializeError>(
            (body, p + spec_encode_function_body(body).len()),
        ),
{
    let head = uleb128_encode(body.len());
    let tail = spec_encode_instructions(body);
    lemma_subrange_split(s, p, head, tail);
    lemma_uleb128_round_trip(body.len(), s, p);
    lemma_instructions_round_trip(body, s, p + head.len(), strict);
}

/// The bytes of two sequences of instructions one after the other
/// are the bytes of the first followed by those of the second.
proof fn lemma_encode_instructions_append(a: Seq<BytecodeInstruction>, b: Seq<BytecodeInstruction>)
    ensures
        spec_encode_instructions(a + b) == spec_encode_instructions(a) + spec_encode_instructions(b),
    decreases b.len(),
{
    if b.len() == 0 {
        assert(a + b =~= a);
        assert(spec_encode_instructions(a) + Seq::<u8>::empty() =~= spec_encode_instructions(a));
    } else {
        lemma_encode_instructions_append(a, b.drop_last());
        assert((a + b).drop_last() =~= a + b.drop_last());
        assert((a + b).last() == b.last());
        assert(spec_encode_instructions(a) + spec_encode_instructions(b.drop_last()) + spec_encode_instruction(b.last())
            =~= spec_encode_instructions(a) + (spec_encode_instructions(b.drop_last()) + spec_encode_instruction(b.last())));
    }
}

/// The bytes of a body are those of the instructions before position
/// `k`, then those of the instruction at `k`, then those after it.
proof fn lemma_encode_split_at(body: Seq<BytecodeInstruction>, k: int)
    requires
        0 <= k < body.len(),
    ensures
        spec_encode_instructions(body) == spec_encode_instructions(body.take(k)) + spec_encode_instruction(body[k])
            + spec_encode_instructions(body.skip(k + 1)),
{
    let pre = body.take(k);
    let x = body[k];
    let post = body.skip(k + 1);
    assert(body =~= pre + (seq![x] + post));
    lemma_encode_instructions_append(pre, seq![x] + post);
    lemma_encode_instructions_append(seq![x], post);
    assert(seq![x].drop_last() =~= Seq::<BytecodeInstruction>::empty());
    assert(seq![x].last() == x);
    assert(spec_encode_instructions(Seq::<BytecodeInstruction>::empty()) == Seq::<u8>::empty());
    assert(Seq::<u8>::empty() + spec_encode_instruction(x) =~= spec_encode_instruction(x));
    assert(spec_encode_instructions(seq![x]) == spec_encode_instruction(x));
    assert(spec_encode_instructions(pre) + (spec_encode_instruction(x) + spec_encode_instructions(post))
        =~= spec_encode_instructions(pre) + spec_encode_instruction(x) + spec_encode_instructions(post));
}

/// Strict decoding refuses the serialization of a body that holds a
/// deprecated global-storage instruction, naming the opcode byte of
/// the first such instruction.  (Lenient decoding gives the body back:
/// [`lemma_round_trip`].)
#[verifier::spinoff_prover]
#[verifier::rlimit(60)]
pub proof fn lemma_strict_refuses_first_deprecated(body: Seq<BytecodeInstruction>, k: int)
    requires
        body.len() <= u64::MAX,
        0 <= k < body.len(),
        spec_is_deprecated_global_storage_opcode(spec_instruction_parts(body[k]).0),
        forall|j: int|
            0 <= j < k ==> !spec_is_deprecated_global_storage_opcode(#[trigger] spec_instruction_parts(body[j]).0),
    ensures
        spec_deserialize_function_body(spec_encode_function_body(body), true) == Err::<Seq<BytecodeInstruction>, DeserializeError>(
            DeserializeError::DeprecatedGlobalStorageOpcode(spec_instruction_parts(body[k]).0),
        ),
{
    let pre = body.take(k);
    let x = body[k];
    let post = body.skip(k + 1);
    let s = spec_encode_function_body(body);
    let head = uleb128_encode(body.len());
    let a = spec_encode_instructions(pre);
    let e = spec_encode_instruction(x);
    let c = spec_encode_instructions(post);
    lemma_encode_split_at(body, k);
    assert(s =~= head + a + e + c);
    assert(s.subrange(0, s.len() as int) =~= s);
    lemma_subrange_split(s, 0, head + a + e, c);
    lemma_subrange_split(s, 0, head + a, e);
    lemma_subrange_split(s, 0, head, a);
    lemma_uleb128_round_trip(body.len(), s, 0);
    assert forall|j: int| 0 <= j < pre.len() implies !spec_is_deprecated_global_storage_opcode(
        #[trigger] spec_instruction_parts(pre[j]).0,
    ) by {
        assert(pre[j] == body[j]);
    }
    lemma_instructions_round_trip(pre, s, head.len() as int, true);
    let q = head.len() + a.len() as int;
    assert(s[q] == s.subrange(q, q + e.len())[0]);
    assert(spec_decode_instruction(s, q, true) == Err::<(BytecodeInstruction, int), DeserializeError>(
        DeserializeError::DeprecatedGlobalStorageOpcode(spec_instruction_parts(x).0),
    ));
    assert(pre.len() == k);
    lemma_decode_instructions_error(s, head.len() as int, (k + 1) as nat, body.len(), true);
}

/// The byte of a gas dimension: computation 0, storage 1, rent 2,
/// bandwidth 3, proof verification 4, proof generation 5.
pub open spec fn dimension_byte(d: GasDimension) -> u8 {
    match d {
        GasDimension::Computation => 0u8,
        GasDimension::Storage => 1u8,
        GasDimension::Rent => 2u8,
        GasDimension::Bandwidth => 3u8,
        GasDimension::ProofVerification => 4u8,
        GasDimension::ProofGeneration => 5u8,
    }
}

/// The wire form of each instruction: its opcode byte (the Move
/// binary format's for an inherited instruction, `0x80..=0x91` for an
/// extension), then its operand: an index or a local as ULEB128, an
/// immediate in little-endian order, a vector instruction's signature
/// index and its element count, a gas dimension as its byte.
pub open spec fn wire_form(instr: BytecodeInstruction) -> Seq<u8> {
    match instr {
        BytecodeInstruction::Inherited(op) => match op {
            Bytecode::Pop => seq![0x01u8],
            Bytecode::Ret => seq![0x02u8],
            Bytecode::BrTrue(x) => seq![0x03u8] + uleb128_encode(x as nat),
            Bytecode::BrFalse(x) => seq![0x04u8] + uleb128_encode(x as nat),
            Bytecode::Branch(x) => seq![0x05u8] + uleb128_encode(x as nat),
            Bytecode::LdU64(x) => seq![0x06u8] + spec_u64_to_le_bytes(x),
            Bytecode::LdConst(x) => seq![0x07u8] + uleb128_encode(x.0 as nat),
            Bytecode::LdTrue => seq![0x08u8],
            Bytecode::LdFalse => seq![0x09u8],
            Bytecode::CopyLoc(x) => seq![0x0au8] + uleb128_encode(x as nat),
            Bytecode::MoveLoc(x) => seq![0x0bu8] + uleb128_encode(x as nat),
            Bytecode::StLoc(x) => seq![0x0cu8] + uleb128_encode(x as nat),
            Bytecode::MutBorrowLoc(x) => seq![0x0du8] + uleb128_encode(x as nat),
            Bytecode::ImmBorrowLoc(x) => seq![0x0eu8] + uleb128_encode(x as nat),
            Bytecode::MutBorrowField(x) => seq![0x0fu8] + uleb128_encode(x.0 as nat),
            Bytecode::ImmBorrowField(x) => seq![0x10u8] + uleb128_encode(x.0 as nat),
            Bytecode::Call(x) => seq![0x11u8] + uleb128_encode(x.0 as nat),
            Bytecode::Pack(x) => seq![0x12u8] + uleb128_encode(x.0 as nat),
            Bytecode::Unpack(x) => seq![0x13u8] + uleb128_encode(x.0 as nat),
            Bytecode::ReadRef => seq![0x14u8],
            Bytecode::WriteRef => seq![0x15u8],
            Bytecode::Add => seq![0x16u8],
            Bytecode::Sub => seq![0x17u8],
            Bytecode::Mul => seq![0x18u8],
            Bytecode::Mod => seq![0x19u8],
            Bytecode::Div => seq![0x1au8],
            Bytecode::BitOr => seq![0x1bu8],
            Bytecode::BitAnd => seq![0x1cu8],
            Bytecode::Xor => seq![0x1du8],
            Bytecode::Or => seq![0x1eu8],
            Bytecode::And => seq![0x1fu8],
            Bytecode::Not => seq![0x20u8],
            Bytecode::Eq => seq![0x21u8],
            Bytecode::Neq => seq![0x22u8],
            Bytecode::Lt => seq![0x23u8],
            Bytecode::Gt => seq![0x24u8],
            Bytecode::Le => seq![0x25u8],
            Bytecode::Ge => seq![0x26u8],
            Bytecode::Abort => seq![0x27u8],
            Bytecode::Nop => seq![0x28u8],
            Bytecode::ExistsDeprecated(x) => seq![0x29u8] + uleb128_encode(x.0 as nat),
            Bytecode::MutBorrowGlobalDeprecated(x) => seq![0x2au8] + uleb128_encode(x.0 as nat),
            Bytecode::ImmBorrowGlobalDeprecated(x) => seq![0x2bu8] + uleb128_encode(x.0 as nat),
            Bytecode::MoveFromDeprecated(x) => seq![0x2cu8] + uleb128_encode(x.0 as nat),
            Bytecode::MoveToDeprecated(x) => seq![0x2du8] + uleb128_encode(x.0 as nat),
            Bytecode::FreezeRef => seq![0x2eu8],
            Bytecode::Shl => seq![0x2fu8],
            Bytecode::Shr => seq![0x30u8],
            Bytecode::LdU8(x) => seq![0x31u8] + seq![x],
            Bytecode::LdU128(x) => seq![0x32u8] + spec_u128_to_le_bytes(*x),
            Bytecode::CastU8 => seq![0x33u8],
            Bytecode::CastU64 => seq![0x34u8],
            Bytecode::CastU128 => seq![0x35u8],
            Bytecode::MutBorrowFieldGeneric(x) => seq![0x36u8] + uleb128_encode(x.0 as nat),
            Bytecode::ImmBorrowFieldGeneric(x) => seq![0x37u8] + uleb128_encode(x.0 as nat),
            Bytecode::CallGeneric(x) => seq![0x38u8] + uleb128_encode(x.0 as nat),
            Bytecode::PackGeneric(x) => seq![0x39u8] + uleb128_encode(x.0 as nat),
            Bytecode::UnpackGeneric(x) => seq![0x3au8] + uleb128_encode(x.0 as nat),
            Bytecode::ExistsGenericDeprecated(x) => seq![0x3bu8] + uleb128_encode(x.0 as nat),
            Bytecode::MutBorrowGlobalGenericDeprecated(x) => seq![0x3cu8] + uleb128_encode(x.0 as nat),
            Bytecode::ImmBorrowGlobalGenericDeprecated(x) => seq![0x3du8] + uleb128_encode(x.0 as nat),
            Bytecode::MoveFromGenericDeprecated(x) => seq![0x3eu8] + uleb128_encode(x.0 as nat),
            Bytecode::MoveToGenericDeprecated(x) => seq![0x3fu8] + uleb128_encode(x.0 as nat),
            Bytecode::VecPack(s, n) => seq![0x40u8] + uleb128_encode(s.0 as nat) + spec_u64_to_le_bytes(n),
            Bytecode::VecLen(x) => seq![0x41u8] + uleb128_encode(x.0 as nat),
            Bytecode::VecImmBorrow(x) => seq![0x42u8] + uleb128_encode(x.0 as nat),
            Bytecode::VecMutBorrow(x) => seq![0x43u8] + uleb128_encode(x.0 as nat),
            Bytecode::VecPushBack(x) => seq![0x44u8] + uleb128_encode(x.0 as nat),
            Bytecode::VecPopBack(x) => seq![0x45u8] + uleb128_encode(x.0 as nat),
            Bytecode::VecUnpack(s, n) => seq![0x46u8] + uleb128_encode(s.0 as nat) + spec_u64_to_le_bytes(n),
            Bytecode::VecSwap(x) => seq![0x47u8] + uleb128_encode(x.0 as nat),
            Bytecode::LdU16(x) => seq![0x48u8] + spec_u16_to_le_bytes(x),
            Bytecode::LdU32(x) => seq![0x49u8] + spec_u32_to_le_bytes(x),
            Bytecode::LdU256(x) => seq![0x4au8] + spec_u128_to_le_bytes((*x).lo) + spec_u128_to_le_bytes((*x).hi),
            Bytecode::CastU16 => seq![0x4bu8],
            Bytecode::CastU32 => seq![0x4cu8],
            Bytecode::CastU256 => seq![0x4du8],
            Bytecode::PackVariant(x) => seq![0x4eu8] + uleb128_encode(x.0 as nat),
            Bytecode::PackVariantGeneric(x) => seq![0x4fu8] + uleb128_encode(x.0 as nat),
            Bytecode::UnpackVariant(x) => seq![0x50u8] + uleb128_encode(x.0 as nat),
            Bytecode::UnpackVariantImmRef(x) => seq![0x51u8] + uleb128_encode(x.0 as nat),
            Bytecode::UnpackVariantMutRef(x) => seq![0x52u8] + uleb128_encode(x.0 as nat),
            Bytecode::UnpackVariantGeneric(x) => seq![0x53u8] + uleb128_encode(x.0 as nat),
            Bytecode::UnpackVariantGenericImmRef(x) => seq![0x54u8] + uleb128_encode(x.0 as nat),
            Bytecode::UnpackVariantGenericMutRef(x) => seq![0x55u8] + uleb128_encode(x.0 as nat),
            Bytecode::VariantSwitch(x) => seq![0x56u8] + uleb128_encode(x.0 as nat),
        },
        BytecodeInstruction::Adamant(op) => match op {
            AdamantBytecode::InvokeShielded(h) => seq![0x80u8] + uleb128_encode(h.0 as nat),
            AdamantBytecode::InvokeTransparent(h) => seq![0x81u8] + uleb128_encode(h.0 as nat),
            AdamantBytecode::GenerateProof(c) => seq![0x82u8] + uleb128_encode(c.0 as nat),
            AdamantBytecode::VerifyProof(c) => seq![0x83u8] + uleb128_encode(c.0 as nat),
            AdamantBytecode::ReleaseSubViewKey => seq![0x84u8],
            AdamantBytecode::KzgCommit => seq![0x85u8],
            AdamantBytecode::KzgVerify => seq![0x86u8],
            AdamantBytecode::RecursiveVerify => seq![0x87u8],
            AdamantBytecode::Sha3_256 => seq![0x88u8],
            AdamantBytecode::Blake3 => seq![0x89u8],
            AdamantBytecode::Ed25519Verify => seq![0x8au8],
            AdamantBytecode::MlDsaVerify65 => seq![0x8bu8],
            AdamantBytecode::BlsVerify => seq![0x8cu8],
            AdamantBytecode::MlKemEncapsulate => seq![0x8du8],
            AdamantBytecode::MlKemDecapsulate => seq![0x8eu8],
            AdamantBytecode::ChargeGas(d) => seq![0x8fu8] + seq![dimension_byte(d)],
            AdamantBytecode::RemainingGas(d) => seq![0x90u8] + seq![dimension_byte(d)],
            AdamantBytecode::OutOfGas => seq![0x91u8],
        },
    }
}

/// Each instruction is written in its wire form.
proof fn lemma_encode_is_wire_form(instr: BytecodeInstruction)
    ensures
        spec_encode_instruction(instr) == wire_form(instr),
{
    match instr {
        BytecodeInstruction::Inherited(op) => match op {
            Bytecode::Pop => assert(spec_encode_instruction(instr) =~= wire_form(instr)),
            Bytecode::Ret => assert(spec_encode_instruction(instr) =~= wire_form(instr)),
            Bytecode::BrTrue(_) => assert(spec_encode_instruction(instr) =~= wire_form(instr)),
            Bytecode::BrFalse(_) => assert(spec_encode_instruction(instr) =~= wire_form(instr)),
            Bytecode::Branch(_) => assert(spec_encode_instruction(instr) =~= wire_form(instr)),
            Bytecode::LdU64(_) => assert(spec_encode_instruction(instr) =~= wire_form(instr)),
            Bytecode::LdConst(_) => assert(spec_encode_instruction(instr) =~= wire_form(instr)),
            Bytecode::LdTrue => assert(spec_encode_instruction(instr) =~= wire_form(instr)),
            Bytecode::LdFalse => assert(spec_encode_instruction(instr) =~= wire_form(instr)),
            Bytecode::CopyLoc(_) => assert(spec_encode_instruction(instr) =~= wire_form(instr)),
            Bytecode::MoveLoc(_) => assert(spec_encode_instruction(instr) =~= wire_form(instr)),
            Bytecode::StLoc(_) => assert(spec_encode_instruction(instr) =~= wire_form(instr)),
            Bytecode::MutBorrowLoc(_) => assert(spec_encode_instruction(instr) =~= wire_form(instr)),
            Bytecode::ImmBorrowLoc(_) => assert(spec_encode_instruction(instr) =~= wire_form(instr)),
            Bytecode::MutBorrowField(_) => assert(spec_encode_instruction(instr) =~= wire_form(instr)),
            Bytecode::ImmBorrowField(_) => assert(spec_encode_instruction(instr) =~= wire_form(instr)),
            Bytecode::Call(_) => assert(spec_encode_instruction(instr) =~= wire_form(instr)),
            Bytecode::Pack(_) => assert(spec_encode_instruction(instr) =~= wire_form(instr)),
            Bytecode::Unpack(_) => assert(spec_encode_instruction(instr) =~= wire_form(instr)),
            Bytecode::ReadRef => assert(spec_encode_instruction(instr) =~= wire_form(instr)),
            Bytecode::WriteRef => assert(spec_encode_instruction(instr) =~= wire_form(instr)),
            Bytecode::Add => assert(spec_encode_instruction(instr) =~= wire_form(instr)),
            Bytecode::Sub => assert(spec_encode_instruction(instr) =~= wire_form(instr)),
            Bytecode::Mul => assert(spec_encode_instruction(instr) =~= wire_form(instr)),
            Bytecode::Mod => assert(spec_encode_instruction(instr) =~= wire_form(instr)),
            Bytecode::Div => assert(spec_encode_instruction(instr) =~= wire_form(instr)),
            Bytecode::BitOr => assert(spec_encode_instruction(instr) =~= wire_form(instr)),
            Bytecode::BitAnd => assert(spec_encode_instruction(instr) =~= wire_form(instr)),
            Bytecode::Xor => assert(spec_encode_instruction(instr) =~= wire_form(instr)),
            Bytecode::Or => assert(spec_encode_instruction(instr) =~= wire_form(instr)),
            Bytecode::And => assert(spec_encode_instruction(instr) =~= wire_form(instr)),
            Bytecode::Not => assert(spec_encode_instruction(instr) =~= wire_form(instr)),
            Bytecode::Eq => assert(spec_encode_instruction(instr) =~= wire_form(instr)),
            Bytecode::Neq => assert(spec_encode_instruction(instr) =~= wire_form(instr)),
            Bytecode::Lt => assert(spec_encode_instruction(instr) =~= wire_form(instr)),
            Bytecode::Gt => assert(spec_encode_instruction(instr) =~= wire_form(instr)),
            Bytecode::Le => assert(spec_encode_instruction(instr) =~= wire_form(instr)),
            Bytecode::Ge => assert(spec_encode_instruction(instr) =~= wire_form(instr)),
            Bytecode::Abort => assert(spec_encode_instruction(instr) =~= wire_form(instr)),
            Bytecode::Nop => assert(spec_encode_instruction(instr) =~= wire_form(instr)),
            Bytecode::ExistsDeprecated(_) => assert(spec_encode_instruction(instr) =~= wire_form(instr)),
            Bytecode::MutBorrowGlobalDeprecated(_) => assert(spec_encode_instruction(instr) =~= wire_form(instr)),
            Bytecode::ImmBorrowGlobalDeprecated(_) => assert(spec_encode_instruction(instr) =~= wire_form(instr)),
            Bytecode::MoveFromDeprecated(_) => assert(spec_encode_instruction(instr) =~= wire_form(instr)),
            Bytecode::MoveToDeprecated(_) => assert(spec_encode_instruction(instr) =~= wire_form(instr)),
            Bytecode::FreezeRef => assert(spec_encode_instruction(instr) =~= wire_form(instr)),
            Bytecode::Shl => assert(spec_encode_instruction(instr) =~= wire_form(instr)),
            Bytecode::Shr => assert(spec_encode_instruction(instr) =~= wire_form(instr)),
            Bytecode::LdU8(_) => assert(spec_encode_instruction(instr) =~= wire_form(instr)),
            Bytecode::LdU128(_) => assert(spec_encode_instruction(instr) =~= wire_form(instr)),
            Bytecode::CastU8 => assert(spec_encode_instruction(instr) =~= wire_form(instr)),
            Bytecode::CastU64 => assert(spec_encode_instruction(instr) =~= wire_form(instr)),
            Bytecode::CastU128 => assert(spec_encode_instruction(instr) =~= wire_form(instr)),
            Bytecode::MutBorrowFieldGeneric(_) => assert(spec_encode_instruction(instr) =~= wire_form(instr)),
            Bytecode::ImmBorrowFieldGeneric(_) => assert(spec_encode_instruction(instr) =~= wire_form(instr)),
            Bytecode::CallGeneric(_) => assert(spec_encode_instruction(instr) =~= wire_form(instr)),
            Bytecode::PackGeneric(_) => assert(spec_encode_instruction(instr) =~= wire_form(instr)),
            Bytecode::UnpackGeneric(_) => assert(spec_encode_instruction(instr) =~= wire_form(instr)),
            Bytecode::ExistsGenericDeprecated(_) => assert(spec_encode_instruction(instr) =~= wire_form(instr)),
            Bytecode::MutBorrowGlobalGenericDeprecated(_) => assert(spec_encode_instruction(instr) =~= wire_form(instr)),
            Bytecode::ImmBorrowGlobalGenericDeprecated(_) => assert(spec_encode_instruction(instr) =~= wire_form(instr)),
            Bytecode::MoveFromGenericDeprecated(_) => assert(spec_encode_instruction(instr) =~= wire_form(instr)),
            Bytecode::MoveToGenericDeprecated(_) => assert(spec_encode_instruction(instr) =~= wire_form(instr)),
            Bytecode::VecPack(_, _) => assert(spec_encode_instruction(instr) =~= wire_form(instr)),
            Bytecode::VecLen(_) => assert(spec_encode_instruction(instr) =~= wire_form(instr)),
            Bytecode::VecImmBorrow(_) => assert(spec_encode_instruction(instr) =~= wire_form(instr)),
            Bytecode::VecMutBorrow(_) => assert(spec_encode_instruction(instr) =~= wire_form(instr)),
            Bytecode::VecPushBack(_) => assert(spec_encode_instruction(instr) =~= wire_form(instr)),
            Bytecode::VecPopBack(_) => assert(spec_encode_instruction(instr) =~= wire_form(instr)),
            Bytecode::VecUnpack(_, _) => assert(spec_encode_instruction(instr) =~= wire_form(instr)),
            Bytecode::VecSwap(_) => assert(spec_encode_instruction(instr) =~= wire_form(instr)),
            Bytecode::LdU16(_) => assert(spec_encode_instruction(instr) =~= wire_form(instr)),
            Bytecode::LdU32(_) => assert(spec_encode_instruction(instr) =~= wire_form(instr)),
            Bytecode::LdU256(_) => assert(spec_encode_instruction(instr) =~= wire_form(instr)),
            Bytecode::CastU16 => assert(spec_encode_instruction(instr) =~= wire_form(instr)),
            Bytecode::CastU32 => assert(spec_encode_instruction(instr) =~= wire_form(instr)),
            Bytecode::CastU256 => assert(spec_encode_instruction(instr) =~= wire_form(instr)),
            Bytecode::PackVariant(_) => assert(spec_encode_instruction(instr) =~= wire_form(instr)),
            Bytecode::PackVariantGeneric(_) => assert(spec_encode_instruction(instr) =~= wire_form(instr)),
            Bytecode::UnpackVariant(_) => assert(spec_encode_instruction(instr) =~= wire_form(instr)),
            Bytecode::UnpackVariantImmRef(_) => assert(spec_encode_instruction(instr) =~= wire_form(instr)),
            Bytecode::UnpackVariantMutRef(_) => assert(spec_encode_instruction(instr) =~= wire_form(instr)),
            Bytecode::UnpackVariantGeneric(_) => assert(spec_encode_instruction(instr) =~= wire_form(instr)),
            Bytecode::UnpackVariantGenericImmRef(_) => assert(spec_encode_instruction(instr) =~= wire_form(instr)),
            Bytecode::UnpackVariantGenericMutRef(_) => assert(spec_encode_instruction(instr) =~= wire_form(instr)),
            Bytecode::VariantSwitch(_) => assert(spec_encode_instruction(instr) =~= wire_form(instr)),
        },
        BytecodeInstruction::Adamant(op) => match op {
            AdamantBytecode::InvokeShielded(_) => assert(spec_encode_instruction(instr) =~= wire_form(instr)),
            AdamantBytecode::InvokeTransparent(_) => assert(spec_encode_instruction(instr) =~= wire_form(instr)),
            AdamantBytecode::GenerateProof(_) => assert(spec_encode_instruction(instr) =~= wire_form(instr)),
            AdamantBytecode::VerifyProof(_) => assert(spec_encode_instruction(instr) =~= wire_form(instr)),
            AdamantBytecode::ReleaseSubViewKey => assert(spec_encode_instruction(instr) =~= wire_form(instr)),
            AdamantBytecode::KzgCommit => assert(spec_encode_instruction(instr) =~= wire_form(instr)),
            AdamantBytecode::KzgVerify => assert(spec_encode_instruction(instr) =~= wire_form(instr)),
            AdamantBytecode::RecursiveVerify => assert(spec_encode_instruction(instr) =~= wire_form(instr)),
            AdamantBytecode::Sha3_256 => assert(spec_encode_instruction(instr) =~= wire_form(instr)),
            AdamantBytecode::Blake3 => assert(spec_encode_instruction(instr) =~= wire_form(instr)),
            AdamantBytecode::Ed25519Verify => assert(spec_encode_instruction(instr) =~= wire_form(instr)),
            AdamantBytecode::MlDsaVerify65 => assert(spec_encode_instruction(instr) =~= wire_form(instr)),
            AdamantBytecode::BlsVerify => assert(spec_encode_instruction(instr) =~= wire_form(instr)),
            AdamantBytecode::MlKemEncapsulate => assert(spec_encode_instruction(instr) =~= wire_form(instr)),
            AdamantBytecode::MlKemDecapsulate => assert(spec_encode_instruction(instr) =~= wire_form(instr)),
            AdamantBytecode::ChargeGas(_) => assert(spec_encode_instruction(instr) =~= wire_form(instr)),
            AdamantBytecode::RemainingGas(_) => assert(spec_encode_instruction(instr) =~= wire_form(instr)),
            AdamantBytecode::OutOfGas => assert(spec_encode_instruction(instr) =~= wire_form(instr)),
        },
    }
}

/// Each instruction is written in its wire form; bytes in an
/// instruction's wire form read back as that instruction, and a
/// successful read took exactly the wire form of what it read.
pub proof fn lemma_instruction_wire_form(instr: BytecodeInstruction, s: Seq<u8>, p: int, strict: bool)
    ensures
        spec_encode_instruction(instr) == wire_form(instr),
        (0 <= p && p + wire_form(instr).len() <= s.len() && s.subrange(p, p + wire_form(instr).len()) == wire_form(instr)
            && !(strict && spec_is_deprecated_global_storage_opcode(wire_form(instr)[0])))
            ==> spec_decode_instruction(s, p, strict) == Ok::<(BytecodeInstruction, int), DeserializeError>(
            (instr, p + wire_form(instr).len()),
        ),
        0 <= p ==> (spec_decode_instruction(s, p, strict) matches Ok((i, q)) ==> q <= s.len() && s.subrange(p, q) == wire_form(i)),
{
    lemma_encode_is_wire_form(instr);
    if 0 <= p {
        lemma_instruction_canonical(s, p, strict);
        match spec_decode_instruction(s, p, strict) {
            Ok((i, q)) => {
                lemma_encode_is_wire_form(i);
            },
            Err(_) => {},
        }
    }
    if 0 <= p && p + wire_form(instr).len() <= s.len() && s.subrange(p, p + wire_form(instr).len()) == wire_form(instr)
        && !(strict && spec_is_deprecated_global_storage_opcode(wire_form(instr)[0])) {
        assert(spec_encode_instruction(instr)[0] == spec_instruction_parts(instr).0);
        lemma_instruction_round_trip(instr, s, p, strict);
    }
}

/// Canonicity: a byte string decodes to a body only if it is exactly
/// the serialization of that body.
pub proof fn lemma_canonical(s: Seq<u8>, strict: bool)
    ensures
        spec_deserialize_function_body(s, strict) matches Ok(body) ==> s == spec_encode_function_body(
            body,
        ),
{
    lemma_uleb128_canonical(s, 0);
    lemma_uleb128_decode_bound(s, 0);
    match spec_read_uleb128(s, 0) {
        Ok((count, q1)) => {
            lemma_instructions_canonical(s, q1, count, strict);
            match spec_decode_instructions(s, q1, count, strict) {
                Ok((body, q)) => {
                    if q == s.len() {
                        lemma_subrange_join(s, 0, q1, q);
                        assert(s.subrange(0, s.len() as int) =~= s);
                    }
                },
                Err(_) => {},
            }
        },
        Err(_) => {},
    }
}

/// Strict decoding refuses more than lenient decoding, never
/// something else: when it succeeds, lenient decoding gives the same
/// body.
pub proof fn lemma_strict_implies_lenient(s: Seq<u8>)
    ensures
        spec_deserialize_function_body(s, true) is Ok ==> spec_deserialize_function_body(s, false)
            == spec_deserialize_function_body(s, true),
{
    match spec_read_uleb128(s, 0) {
        Ok((count, q1)) => {
            lemma_strict_instructions(s, q1, count);
        },
        Err(_) => {},
    }
}

proof fn lemma_strict_instructions(s: Seq<u8>, p: int, n: nat)
    ensures
        spec_decode_instructions(s, p, n, true) is Ok ==> spec_decode_instructions(s, p, n, false)
            == spec_decode_instructions(s, p, n, true),
    decreases n,
{
    if n > 0 {
        lemma_strict_instructions(s, p, (n - 1) as nat);
    }
}

} // verus!
