//! Opcode bytes of the inherited instruction set.  The inherited
//! instructions occupy `0x01..=0x56`; `0x29..=0x2D` and
//! `0x3B..=0x3F` are the deprecated global-storage operations.

use vstd::prelude::*;

verus! {

/// Opcode byte of `Bytecode::Pop`.
pub const POP: u8 = 0x01;
/// Opcode byte of `Bytecode::Ret`.
pub const RET: u8 = 0x02;
/// Opcode byte of `Bytecode::BrTrue`.
pub const BR_TRUE: u8 = 0x03;
/// Opcode byte of `Bytecode::BrFalse`.
pub const BR_FALSE: u8 = 0x04;
/// Opcode byte of `Bytecode::Branch`.
pub const BRANCH: u8 = 0x05;
/// Opcode byte of `Bytecode::LdU64`.
pub const LD_U64: u8 = 0x06;
/// Opcode byte of `Bytecode::LdConst`.
pub const LD_CONST: u8 = 0x07;
/// Opcode byte of `Bytecode::LdTrue`.
pub const LD_TRUE: u8 = 0x08;
/// Opcode byte of `Bytecode::LdFalse`.
pub const LD_FALSE: u8 = 0x09;
/// Opcode byte of `Bytecode::CopyLoc`.
pub const COPY_LOC: u8 = 0x0a;
/// Opcode byte of `Bytecode::MoveLoc`.
pub const MOVE_LOC: u8 = 0x0b;
/// Opcode byte of `Bytecode::StLoc`.
pub const ST_LOC: u8 = 0x0c;
/// Opcode byte of `Bytecode::MutBorrowLoc`.
pub const MUT_BORROW_LOC: u8 = 0x0d;
/// Opcode byte of `Bytecode::ImmBorrowLoc`.
pub const IMM_BORROW_LOC: u8 = 0x0e;
/// Opcode byte of `Bytecode::MutBorrowField`.
pub const MUT_BORROW_FIELD: u8 = 0x0f;
/// Opcode byte of `Bytecode::ImmBorrowField`.
pub const IMM_BORROW_FIELD: u8 = 0x10;
/// Opcode byte of `Bytecode::Call`.
pub const CALL: u8 = 0x11;
/// Opcode byte of `Bytecode::Pack`.
pub const PACK: u8 = 0x12;
/// Opcode byte of `Bytecode::Unpack`.
pub const UNPACK: u8 = 0x13;
/// Opcode byte of `Bytecode::ReadRef`.
pub const READ_REF: u8 = 0x14;
/// Opcode byte of `Bytecode::WriteRef`.
pub const WRITE_REF: u8 = 0x15;
/// Opcode byte of `Bytecode::Add`.
pub const ADD: u8 = 0x16;
/// Opcode byte of `Bytecode::Sub`.
pub const SUB: u8 = 0x17;
/// Opcode byte of `Bytecode::Mul`.
pub const MUL: u8 = 0x18;
/// Opcode byte of `Bytecode::Mod`.
pub const MOD: u8 = 0x19;
/// Opcode byte of `Bytecode::Div`.
pub const DIV: u8 = 0x1a;
/// Opcode byte of `Bytecode::BitOr`.
pub const BIT_OR: u8 = 0x1b;
/// Opcode byte of `Bytecode::BitAnd`.
pub const BIT_AND: u8 = 0x1c;
/// Opcode byte of `Bytecode::Xor`.
pub const XOR: u8 = 0x1d;
/// Opcode byte of `Bytecode::Or`.
pub const OR: u8 = 0x1e;
/// Opcode byte of `Bytecode::And`.
pub const AND: u8 = 0x1f;
/// Opcode byte of `Bytecode::Not`.
pub const NOT: u8 = 0x20;
/// Opcode byte of `Bytecode::Eq`.
pub const EQ: u8 = 0x21;
/// Opcode byte of `Bytecode::Neq`.
pub const NEQ: u8 = 0x22;
/// Opcode byte of `Bytecode::Lt`.
pub const LT: u8 = 0x23;
/// Opcode byte of `Bytecode::Gt`.
pub const GT: u8 = 0x24;
/// Opcode byte of `Bytecode::Le`.
pub const LE: u8 = 0x25;
/// Opcode byte of `Bytecode::Ge`.
pub const GE: u8 = 0x26;
/// Opcode byte of `Bytecode::Abort`.
pub const ABORT: u8 = 0x27;
/// Opcode byte of `Bytecode::Nop`.
pub const NOP: u8 = 0x28;
/// Opcode byte of `Bytecode::ExistsDeprecated`.
pub const EXISTS_DEPRECATED: u8 = 0x29;
/// Opcode byte of `Bytecode::MutBorrowGlobalDeprecated`.
pub const MUT_BORROW_GLOBAL_DEPRECATED: u8 = 0x2a;
/// Opcode byte of `Bytecode::ImmBorrowGlobalDeprecated`.
pub const IMM_BORROW_GLOBAL_DEPRECATED: u8 = 0x2b;
/// Opcode byte of `Bytecode::MoveFromDeprecated`.
pub const MOVE_FROM_DEPRECATED: u8 = 0x2c;
/// Opcode byte of `Bytecode::MoveToDeprecated`.
pub const MOVE_TO_DEPRECATED: u8 = 0x2d;
/// Opcode byte of `Bytecode::FreezeRef`.
pub const FREEZE_REF: u8 = 0x2e;
/// Opcode byte of `Bytecode::Shl`.
pub const SHL: u8 = 0x2f;
/// Opcode byte of `Bytecode::Shr`.
pub const SHR: u8 = 0x30;
/// Opcode byte of `Bytecode::LdU8`.
pub const LD_U8: u8 = 0x31;
/// Opcode byte of `Bytecode::LdU128`.
pub const LD_U128: u8 = 0x32;
/// Opcode byte of `Bytecode::CastU8`.
pub const CAST_U8: u8 = 0x33;
/// Opcode byte of `Bytecode::CastU64`.
pub const CAST_U64: u8 = 0x34;
/// Opcode byte of `Bytecode::CastU128`.
pub const CAST_U128: u8 = 0x35;
/// Opcode byte of `Bytecode::MutBorrowFieldGeneric`.
pub const MUT_BORROW_FIELD_GENERIC: u8 = 0x36;
/// Opcode byte of `Bytecode::ImmBorrowFieldGeneric`.
pub const IMM_BORROW_FIELD_GENERIC: u8 = 0x37;
/// Opcode byte of `Bytecode::CallGeneric`.
pub const CALL_GENERIC: u8 = 0x38;
/// Opcode byte of `Bytecode::PackGeneric`.
pub const PACK_GENERIC: u8 = 0x39;
/// Opcode byte of `Bytecode::UnpackGeneric`.
pub const UNPACK_GENERIC: u8 = 0x3a;
/// Opcode byte of `Bytecode::ExistsGenericDeprecated`.
pub const EXISTS_GENERIC_DEPRECATED: u8 = 0x3b;
/// Opcode byte of `Bytecode::MutBorrowGlobalGenericDeprecated`.
pub const MUT_BORROW_GLOBAL_GENERIC_DEPRECATED: u8 = 0x3c;
/// Opcode byte of `Bytecode::ImmBorrowGlobalGenericDeprecated`.
pub const IMM_BORROW_GLOBAL_GENERIC_DEPRECATED: u8 = 0x3d;
/// Opcode byte of `Bytecode::MoveFromGenericDeprecated`.
pub const MOVE_FROM_GENERIC_DEPRECATED: u8 = 0x3e;
/// Opcode byte of `Bytecode::MoveToGenericDeprecated`.
pub const MOVE_TO_GENERIC_DEPRECATED: u8 = 0x3f;
/// Opcode byte of `Bytecode::VecPack`.
pub const VEC_PACK: u8 = 0x40;
/// Opcode byte of `Bytecode::VecLen`.
pub const VEC_LEN: u8 = 0x41;
/// Opcode byte of `Bytecode::VecImmBorrow`.
pub const VEC_IMM_BORROW: u8 = 0x42;
/// Opcode byte of `Bytecode::VecMutBorrow`.
pub const VEC_MUT_BORROW: u8 = 0x43;
/// Opcode byte of `Bytecode::VecPushBack`.
pub const VEC_PUSH_BACK: u8 = 0x44;
/// Opcode byte of `Bytecode::VecPopBack`.
pub const VEC_POP_BACK: u8 = 0x45;
/// Opcode byte of `Bytecode::VecUnpack`.
pub const VEC_UNPACK: u8 = 0x46;
/// Opcode byte of `Bytecode::VecSwap`.
pub const VEC_SWAP: u8 = 0x47;
/// Opcode byte of `Bytecode::LdU16`.
pub const LD_U16: u8 = 0x48;
/// Opcode byte of `Bytecode::LdU32`.
pub const LD_U32: u8 = 0x49;
/// Opcode byte of `Bytecode::LdU256`.
pub const LD_U256: u8 = 0x4a;
/// Opcode byte of `Bytecode::CastU16`.
pub const CAST_U16: u8 = 0x4b;
/// Opcode byte of `Bytecode::CastU32`.
pub const CAST_U32: u8 = 0x4c;
/// Opcode byte of `Bytecode::CastU256`.
pub const CAST_U256: u8 = 0x4d;
/// Opcode byte of `Bytecode::PackVariant`.
pub const PACK_VARIANT: u8 = 0x4e;
/// Opcode byte of `Bytecode::PackVariantGeneric`.
pub const PACK_VARIANT_GENERIC: u8 = 0x4f;
/// Opcode byte of `Bytecode::UnpackVariant`.
pub const UNPACK_VARIANT: u8 = 0x50;
/// Opcode byte of `Bytecode::UnpackVariantImmRef`.
pub const UNPACK_VARIANT_IMM_REF: u8 = 0x51;
/// Opcode byte of `Bytecode::UnpackVariantMutRef`.
pub const UNPACK_VARIANT_MUT_REF: u8 = 0x52;
/// Opcode byte of `Bytecode::UnpackVariantGeneric`.
pub const UNPACK_VARIANT_GENERIC: u8 = 0x53;
/// Opcode byte of `Bytecode::UnpackVariantGenericImmRef`.
pub const UNPACK_VARIANT_GENERIC_IMM_REF: u8 = 0x54;
/// Opcode byte of `Bytecode::UnpackVariantGenericMutRef`.
pub const UNPACK_VARIANT_GENERIC_MUT_REF: u8 = 0x55;
/// Opcode byte of `Bytecode::VariantSwitch`.
pub const VARIANT_SWITCH: u8 = 0x56;

} // verus!
