//! Semantics of the integer instructions: checked arithmetic, bitwise
//! operations, unsigned comparison, shifts and casts, over the six
//! unsigned widths.  Both operands of a binary operation have the
//! same width; any other pairing is a type mismatch.

use crate::bytecode::U256;
use crate::runtime::error::{ArithmeticErrorReason, VMError};
use crate::runtime::frame::type_mismatch;
use crate::u256::{
    lemma_u256_le_round_trip, lemma_u256_of_value, lemma_value_bound, pow2, spec_bitand,
    spec_bitor, spec_bitxor, two_pow_256, u256_of,
};
use crate::value::{u256_value, Value, ValueModel};
use vstd::prelude::*;

verus! {

/// A checked arithmetic instruction.
#[derive(Clone, Copy, Debug, PartialEq, Eq)]
pub enum ArithOp {
    /// `Add`.
    Add,
    /// `Sub`.
    Sub,
    /// `Mul`.
    Mul,
    /// `Div`.
    Div,
    /// `Mod`.
    Mod,
}

/// A bitwise instruction.
#[derive(Clone, Copy, Debug, PartialEq, Eq)]
pub enum BitOp {
    /// `BitAnd`.
    And,
    /// `BitOr`.
    Or,
    /// `Xor`.
    Xor,
}

/// An ordering instruction.
#[derive(Clone, Copy, Debug, PartialEq, Eq)]
pub enum CmpOp {
    /// `Lt`.
    Lt,
    /// `Gt`.
    Gt,
    /// `Le`.
    Le,
    /// `Ge`.
    Ge,
}

/// A shift instruction's direction.
#[derive(Clone, Copy, Debug, PartialEq, Eq)]
pub enum ShiftDir {
    /// `Shl`.
    Left,
    /// `Shr`.
    Right,
}

/// A target width of a cast instruction.
#[derive(Clone, Copy, Debug, PartialEq, Eq)]
pub enum CastTarget {
    /// `CastU8`.
    U8,
    /// `CastU16`.
    U16,
    /// `CastU32`.
    U32,
    /// `CastU64`.
    U64,
    /// `CastU128`.
    U128,
    /// `CastU256`.
    U256,
}

/// An arithmetic abort.
pub open spec fn arith_error(reason: ArithmeticErrorReason) -> VMError {
    VMError::ArithmeticError { reason }
}

/// Checked arithmetic on operands below `bound`: the exact result
/// when it is below `bound` and not negative, or the abort.
pub open spec fn checked_int(op: ArithOp, a: int, b: int, bound: int) -> Result<int, VMError> {
    match op {
        ArithOp::Add => if a + b < bound {
            Ok(a + b)
        } else {
            Err(arith_error(ArithmeticErrorReason::Overflow))
        },
        ArithOp::Sub => if b <= a {
            Ok(a - b)
        } else {
            Err(arith_error(ArithmeticErrorReason::Underflow))
        },
        ArithOp::Mul => if a * b < bound {
            Ok(a * b)
        } else {
            Err(arith_error(ArithmeticErrorReason::Overflow))
        },
        ArithOp::Div => if b == 0 {
            Err(arith_error(ArithmeticErrorReason::DivisionByZero))
        } else {
            Ok(a / b)
        },
        ArithOp::Mod => if b == 0 {
            Err(arith_error(ArithmeticErrorReason::DivisionByZero))
        } else {
            Ok(a % b)
        },
    }
}

/// The integer a model holds, if it holds one.
pub open spec fn int_of(v: ValueModel) -> Option<int> {
    match v {
        ValueModel::U8(x) => Some(x as int),
        ValueModel::U16(x) => Some(x as int),
        ValueModel::U32(x) => Some(x as int),
        ValueModel::U64(x) => Some(x as int),
        ValueModel::U128(x) => Some(x as int),
        ValueModel::U256(x) => Some(x as int),
        _ => None,
    }
}

/// Lifts an integer result to a model of the same width as `like`.
pub open spec fn same_width(like: ValueModel, x: int) -> ValueModel {
    match like {
        ValueModel::U8(_) => ValueModel::U8(x as u8),
        ValueModel::U16(_) => ValueModel::U16(x as u16),
        ValueModel::U32(_) => ValueModel::U32(x as u32),
        ValueModel::U64(_) => ValueModel::U64(x as u64),
        ValueModel::U128(_) => ValueModel::U128(x as u128),
        _ => ValueModel::U256(x as nat),
    }
}

/// The exclusive upper bound of a width.
pub open spec fn width_bound(like: ValueModel) -> int {
    match like {
        ValueModel::U8(_) => 0x100,
        ValueModel::U16(_) => 0x1_0000,
        ValueModel::U32(_) => 0x1_0000_0000,
        ValueModel::U64(_) => 0x1_0000_0000_0000_0000int,
        ValueModel::U128(_) => 0x1_0000_0000_0000_0000_0000_0000_0000_0000int,
        _ => two_pow_256() as int,
    }
}

/// Whether two models are integers of the same width.
pub open spec fn same_int_width(l: ValueModel, r: ValueModel) -> bool {
    ||| (l is U8 && r is U8)
    ||| (l is U16 && r is U16)
    ||| (l is U32 && r is U32)
    ||| (l is U64 && r is U64)
    ||| (l is U128 && r is U128)
    ||| (l is U256 && r is U256)
}

/// `l op r` for a checked arithmetic instruction.
pub open spec fn spec_arith(op: ArithOp, l: ValueModel, r: ValueModel) -> Result<ValueModel, VMError> {
    if !same_int_width(l, r) {
        Err(type_mismatch())
    } else {
        match checked_int(op, int_of(l).unwrap(), int_of(r).unwrap(), width_bound(l)) {
            Ok(x) => Ok(same_width(l, x)),
            Err(e) => Err(e),
        }
    }
}

/// `l op r` for a bitwise instruction.
pub open spec fn spec_bitop(op: BitOp, l: ValueModel, r: ValueModel) -> Result<ValueModel, VMError> {
    match (l, r) {
        (ValueModel::U8(a), ValueModel::U8(b)) => Ok(
            ValueModel::U8(
                match op {
                    BitOp::And => a & b,
                    BitOp::Or => a | b,
                    BitOp::Xor => a ^ b,
                },
            ),
        ),
        (ValueModel::U16(a), ValueModel::U16(b)) => Ok(
            ValueModel::U16(
                match op {
                    BitOp::And => a & b,
                    BitOp::Or => a | b,
                    BitOp::Xor => a ^ b,
                },
            ),
        ),
        (ValueModel::U32(a), ValueModel::U32(b)) => Ok(
            ValueModel::U32(
                match op {
                    BitOp::And => a & b,
                    BitOp::Or => a | b,
                    BitOp::Xor => a ^ b,
                },
            ),
        ),
        (ValueModel::U64(a), ValueModel::U64(b)) => Ok(
            ValueModel::U64(
                match op {
                    BitOp::And => a & b,
                    BitOp::Or => a | b,
                    BitOp::Xor => a ^ b,
                },
            ),
        ),
        (ValueModel::U128(a), ValueModel::U128(b)) => Ok(
            ValueModel::U128(
                match op {
                    BitOp::And => a & b,
                    BitOp::Or => a | b,
                    BitOp::Xor => a ^ b,
                },
            ),
        ),
        (ValueModel::U256(a), ValueModel::U256(b)) => Ok(
            ValueModel::U256(
                match op {
                    BitOp::And => spec_bitand(u256_of(a), u256_of(b)).value(),
                    BitOp::Or => spec_bitor(u256_of(a), u256_of(b)).value(),
                    BitOp::Xor => spec_bitxor(u256_of(a), u256_of(b)).value(),
                },
            ),
        ),
        _ => Err(type_mismatch()),
    }
}

/// The unsigned comparison `a op b`.
pub open spec fn compare(op: CmpOp, a: int, b: int) -> bool {
    match op {
        CmpOp::Lt => a < b,
        CmpOp::Gt => a > b,
        CmpOp::Le => a <= b,
        CmpOp::Ge => a >= b,
    }
}

/// `l op r` for an ordering instruction.
pub open spec fn spec_cmp(op: CmpOp, l: ValueModel, r: ValueModel) -> Result<bool, VMError> {
    if !same_int_width(l, r) {
        Err(type_mismatch())
    } else {
        Ok(compare(op, int_of(l).unwrap(), int_of(r).unwrap()))
    }
}

/// Shifting `l` by `n` bits: an abort when `n` reaches the width of
/// `l` (never for `u256`); bits shifted past the width are dropped.
pub open spec fn spec_shift(dir: ShiftDir, l: ValueModel, n: u8) -> Result<ValueModel, VMError> {
    let too_large = arith_error(ArithmeticErrorReason::ShiftAmountTooLarge);
    match l {
        ValueModel::U8(a) => if n >= 8 {
            Err(too_large)
        } else {
            Ok(
                ValueModel::U8(
                    match dir {
                        ShiftDir::Left => a << n,
                        ShiftDir::Right => a >> n,
                    },
                ),
            )
        },
        ValueModel::U16(a) => if n >= 16 {
            Err(too_large)
        } else {
            Ok(
                ValueModel::U16(
                    match dir {
                        ShiftDir::Left => a << n,
                        ShiftDir::Right => a >> n,
                    },
                ),
            )
        },
        ValueModel::U32(a) => if n >= 32 {
            Err(too_large)
        } else {
            Ok(
                ValueModel::U32(
                    match dir {
                        ShiftDir::Left => a << n,
                        ShiftDir::Right => a >> n,
                    },
                ),
            )
        },
        ValueModel::U64(a) => if n >= 64 {
            Err(too_large)
        } else {
            Ok(
                ValueModel::U64(
                    match dir {
                        ShiftDir::Left => a << n,
                        ShiftDir::Right => a >> n,
                    },
                ),
            )
        },
        ValueModel::U128(a) => if n >= 128 {
            Err(too_large)
        } else {
            Ok(
                ValueModel::U128(
                    match dir {
                        ShiftDir::Left => a << n,
                        ShiftDir::Right => a >> n,
                    },
                ),
            )
        },
        ValueModel::U256(a) => Ok(
            ValueModel::U256(
                match dir {
                    ShiftDir::Left => (a * pow2(n as nat)) % two_pow_256(),
                    ShiftDir::Right => a / pow2(n as nat),
                },
            ),
        ),
        _ => Err(type_mismatch()),
    }
}

/// The exclusive upper bound of a cast target.
pub open spec fn target_bound(t: CastTarget) -> int {
    match t {
        CastTarget::U8 => 0x100,
        CastTarget::U16 => 0x1_0000,
        CastTarget::U32 => 0x1_0000_0000,
        CastTarget::U64 => 0x1_0000_0000_0000_0000int,
        CastTarget::U128 => 0x1_0000_0000_0000_0000_0000_0000_0000_0000int,
        CastTarget::U256 => two_pow_256() as int,
    }
}

/// The model of integer `x` at a cast target.
pub open spec fn at_target(t: CastTarget, x: int) -> ValueModel {
    match t {
        CastTarget::U8 => ValueModel::U8(x as u8),
        CastTarget::U16 => ValueModel::U16(x as u16),
        CastTarget::U32 => ValueModel::U32(x as u32),
        CastTarget::U64 => ValueModel::U64(x as u64),
        CastTarget::U128 => ValueModel::U128(x as u128),
        CastTarget::U256 => ValueModel::U256(x as nat),
    }
}

/// Casting `v` to a target: the same number when it fits, an abort
/// when it does not.
pub open spec fn spec_cast(t: CastTarget, v: ValueModel) -> Result<ValueModel, VMError> {
    match int_of(v) {
        None => Err(type_mismatch()),
        Some(x) => if x < target_bound(t) {
            Ok(at_target(t, x))
        } else {
            Err(arith_error(ArithmeticErrorReason::CastNotRepresentable))
        },
    }
}

/// The model of a computed value, or the error.
pub open spec fn res_model(r: Result<Value, VMError>) -> Result<ValueModel, VMError> {
    match r {
        Ok(v) => Ok(v.model()),
        Err(e) => Err(e),
    }
}

/// The value holding `x` as a `u256`.
fn u256_value_of(x: &U256) -> (r: Value)
    ensures
        r.model() == ValueModel::U256(x.value()),
{
    let bytes = x.to_le_bytes();
    proof {
        lemma_u256_le_round_trip(*x);
    }
    Value::U256(bytes)
}

/// The `u256` held by little-endian bytes.
fn u256_from(bytes: &[u8; 32]) -> (r: U256)
    ensures
        r.value() == u256_value(*bytes),
        r.value() < two_pow_256(),
{
    let r = U256::from_le_bytes(bytes);
    proof {
        lemma_value_bound(r);
    }
    r
}

/// Checked arithmetic on operands of at most 128 bits, below `max + 1`.
fn checked_small(op: ArithOp, a: u128, b: u128, max: u128) -> (r: Result<u128, VMError>)
    requires
        a <= max,
        b <= max,
    ensures
        match checked_int(op, a as int, b as int, max + 1) {
            Ok(x) => r == Ok::<u128, VMError>(x as u128) && x <= max,
            Err(e) => r == Err::<u128, VMError>(e),
        },
{
    match op {
        ArithOp::Add => match a.checked_add(b) {
            Some(s) if s <= max => Ok(s),
            _ => Err(VMError::ArithmeticError { reason: ArithmeticErrorReason::Overflow }),
        },
        ArithOp::Sub => if b <= a {
            Ok(a - b)
        } else {
            Err(VMError::ArithmeticError { reason: ArithmeticErrorReason::Underflow })
        },
        ArithOp::Mul => match a.checked_mul(b) {
            Some(p) if p <= max => Ok(p),
            _ => Err(VMError::ArithmeticError { reason: ArithmeticErrorReason::Overflow }),
        },
        ArithOp::Div => if b == 0 {
            Err(VMError::ArithmeticError { reason: ArithmeticErrorReason::DivisionByZero })
        } else {
            Ok(a / b)
        },
        ArithOp::Mod => if b == 0 {
            Err(VMError::ArithmeticError { reason: ArithmeticErrorReason::DivisionByZero })
        } else {
            Ok(a % b)
        },
    }
}

/// Checked arithmetic on `u256` operands.
fn checked_u256(op: ArithOp, a: &U256, b: &U256) -> (r: Result<U256, VMError>)
    ensures
        match checked_int(op, a.value() as int, b.value() as int, two_pow_256() as int) {
            Ok(x) => r matches Ok(v) && v.value() == x,
            Err(e) => r == Err::<U256, VMError>(e),
        },
{
    match op {
        ArithOp::Add => match a.checked_add(b) {
            Some(s) => Ok(s),
            None => Err(VMError::ArithmeticError { reason: ArithmeticErrorReason::Overflow }),
        },
        ArithOp::Sub => match a.checked_sub(b) {
            Some(s) => Ok(s),
            None => Err(VMError::ArithmeticError { reason: ArithmeticErrorReason::Underflow }),
        },
        ArithOp::Mul => match a.checked_mul(b) {
            Some(s) => Ok(s),
            None => Err(VMError::ArithmeticError { reason: ArithmeticErrorReason::Overflow }),
        },
        ArithOp::Div => match a.checked_div(b) {
            Some(s) => Ok(s),
            None => Err(VMError::ArithmeticError { reason: ArithmeticErrorReason::DivisionByZero }),
        },
        ArithOp::Mod => match a.checked_rem(b) {
            Some(s) => Ok(s),
            None => Err(VMError::ArithmeticError { reason: ArithmeticErrorReason::DivisionByZero }),
        },
    }
}

/// `lhs op rhs` for a checked arithmetic instruction.
pub fn arith_values(op: ArithOp, lhs: Value, rhs: Value) -> (r: Result<Value, VMError>)
    ensures
        res_model(r) == spec_arith(op, lhs.model(), rhs.model()),
{
    match (lhs, rhs) {
        (Value::U8(a), Value::U8(b)) => match checked_small(op, a as u128, b as u128, 0xff) {
            Ok(x) => Ok(Value::U8(x as u8)),
            Err(e) => Err(e),
        },
        (Value::U16(a), Value::U16(b)) => match checked_small(op, a as u128, b as u128, 0xffff) {
            Ok(x) => Ok(Value::U16(x as u16)),
            Err(e) => Err(e),
        },
        (Value::U32(a), Value::U32(b)) => match checked_small(
            op,
            a as u128,
            b as u128,
            0xffff_ffff,
        ) {
            Ok(x) => Ok(Value::U32(x as u32)),
            Err(e) => Err(e),
        },
        (Value::U64(a), Value::U64(b)) => match checked_small(
            op,
            a as u128,
            b as u128,
            0xffff_ffff_ffff_ffff,
        ) {
            Ok(x) => Ok(Value::U64(x as u64)),
            Err(e) => Err(e),
        },
        (Value::U128(a), Value::U128(b)) => match checked_small(op, a, b, u128::MAX) {
            Ok(x) => Ok(Value::U128(x)),
            Err(e) => Err(e),
        },
        (Value::U256(a), Value::U256(b)) => {
            let x = u256_from(&a);
            let y = u256_from(&b);
            match checked_u256(op, &x, &y) {
                Ok(z) => Ok(u256_value_of(&z)),
                Err(e) => Err(e),
            }
        },
        _ => Err(
            VMError::InvariantViolation {
                reason: crate::runtime::error::InvariantViolationReason::TypeMismatchOnStack,
            },
        ),
    }
}

/// `lhs op rhs` for a bitwise instruction.
pub fn bitop_values(op: BitOp, lhs: Value, rhs: Value) -> (r: Result<Value, VMError>)
    ensures
        res_model(r) == spec_bitop(op, lhs.model(), rhs.model()),
{
    match (lhs, rhs) {
        (Value::U8(a), Value::U8(b)) => Ok(
            Value::U8(
                match op {
                    BitOp::And => a & b,
                    BitOp::Or => a | b,
                    BitOp::Xor => a ^ b,
                },
            ),
        ),
        (Value::U16(a), Value::U16(b)) => Ok(
            Value::U16(
                match op {
                    BitOp::And => a & b,
                    BitOp::Or => a | b,
                    BitOp::Xor => a ^ b,
                },
            ),
        ),
        (Value::U32(a), Value::U32(b)) => Ok(
            Value::U32(
                match op {
                    BitOp::And => a & b,
                    BitOp::Or => a | b,
                    BitOp::Xor => a ^ b,
                },
            ),
        ),
        (Value::U64(a), Value::U64(b)) => Ok(
            Value::U64(
                match op {
                    BitOp::And => a & b,
                    BitOp::Or => a | b,
                    BitOp::Xor => a ^ b,
                },
            ),
        ),
        (Value::U128(a), Value::U128(b)) => Ok(
            Value::U128(
                match op {
                    BitOp::And => a & b,
                    BitOp::Or => a | b,
                    BitOp::Xor => a ^ b,
                },
            ),
        ),
        (Value::U256(a), Value::U256(b)) => {
            let x = u256_from(&a);
            let y = u256_from(&b);
            proof {
                lemma_u256_of_value(x);
                lemma_u256_of_value(y);
            }
            let z = match op {
                BitOp::And => x.bitand(&y),
                BitOp::Or => x.bitor(&y),
                BitOp::Xor => x.bitxor(&y),
            };
            Ok(u256_value_of(&z))
        },
        _ => Err(
            VMError::InvariantViolation {
                reason: crate::runtime::error::InvariantViolationReason::TypeMismatchOnStack,
            },
        ),
    }
}

/// Applies an ordering to the outcome of `<` and `==`.
fn apply_cmp(op: CmpOp, lt: bool, eq: bool) -> (r: bool)
    requires
        !(lt && eq),
    ensures
        r == match op {
            CmpOp::Lt => lt,
            CmpOp::Gt => !lt && !eq,
            CmpOp::Le => lt || eq,
            CmpOp::Ge => !lt,
        },
{
    match op {
        CmpOp::Lt => lt,
        CmpOp::Gt => !lt && !eq,
        CmpOp::Le => lt || eq,
        CmpOp::Ge => !lt,
    }
}

/// `lhs op rhs` for an ordering instruction.
pub fn cmp_values(op: CmpOp, lhs: Value, rhs: Value) -> (r: Result<bool, VMError>)
    ensures
        r == spec_cmp(op, lhs.model(), rhs.model()),
{
    match (lhs, rhs) {
        (Value::U8(a), Value::U8(b)) => Ok(apply_cmp(op, a < b, a == b)),
        (Value::U16(a), Value::U16(b)) => Ok(apply_cmp(op, a < b, a == b)),
        (Value::U32(a), Value::U32(b)) => Ok(apply_cmp(op, a < b, a == b)),
        (Value::U64(a), Value::U64(b)) => Ok(apply_cmp(op, a < b, a == b)),
        (Value::U128(a), Value::U128(b)) => Ok(apply_cmp(op, a < b, a == b)),
        (Value::U256(a), Value::U256(b)) => {
            let x = u256_from(&a);
            let y = u256_from(&b);
            Ok(apply_cmp(op, x.lt(&y), x.eq_value(&y)))
        },
        _ => Err(
            VMError::InvariantViolation {
                reason: crate::runtime::error::InvariantViolationReason::TypeMismatchOnStack,
            },
        ),
    }
}

/// Shifts `lhs` by `n` bits.
pub fn shift_value(dir: ShiftDir, lhs: Value, n: u8) -> (r: Result<Value, VMError>)
    ensures
        res_model(r) == spec_shift(dir, lhs.model(), n),
{
    let too_large = VMError::ArithmeticError { reason: ArithmeticErrorReason::ShiftAmountTooLarge };
    match lhs {
        Value::U8(a) => if n >= 8 {
            Err(too_large)
        } else {
            Ok(
                Value::U8(
                    match dir {
                        ShiftDir::Left => a << n,
                        ShiftDir::Right => a >> n,
                    },
                ),
            )
        },
        Value::U16(a) => if n >= 16 {
            Err(too_large)
        } else {
            Ok(
                Value::U16(
                    match dir {
                        ShiftDir::Left => a << n,
                        ShiftDir::Right => a >> n,
                    },
                ),
            )
        },
        Value::U32(a) => if n >= 32 {
            Err(too_large)
        } else {
            Ok(
                Value::U32(
                    match dir {
                        ShiftDir::Left => a << n,
                        ShiftDir::Right => a >> n,
                    },
                ),
            )
        },
        Value::U64(a) => if n >= 64 {
            Err(too_large)
        } else {
            Ok(
                Value::U64(
                    match dir {
                        ShiftDir::Left => a << n,
                        ShiftDir::Right => a >> n,
                    },
                ),
            )
        },
        Value::U128(a) => if n >= 128 {
            Err(too_large)
        } else {
            Ok(
                Value::U128(
                    match dir {
                        ShiftDir::Left => a << n,
                        ShiftDir::Right => a >> n,
                    },
                ),
            )
        },
        Value::U256(a) => {
            let x = u256_from(&a);
            let z = match dir {
                ShiftDir::Left => x.shl(n),
                ShiftDir::Right => x.shr(n),
            };
            Ok(u256_value_of(&z))
        },
        _ => Err(
            VMError::InvariantViolation {
                reason: crate::runtime::error::InvariantViolationReason::TypeMismatchOnStack,
            },
        ),
    }
}

/// The integer of at most 128 bits a value holds, if any.
fn small_int(v: &Value) -> (r: Option<u128>)
    ensures
        match v.model() {
            ValueModel::U256(_) => r is None,
            _ => match int_of(v.model()) {
                Some(x) => r == Some(x as u128) && x < 0x1_0000_0000_0000_0000_0000_0000_0000_0000int,
                None => r is None,
            },
        },
{
    match v {
        Value::U8(a) => Some(*a as u128),
        Value::U16(a) => Some(*a as u128),
        Value::U32(a) => Some(*a as u128),
        Value::U64(a) => Some(*a as u128),
        Value::U128(a) => Some(*a),
        _ => None,
    }
}

/// Casts `v` to a target width.
pub fn cast_value(t: CastTarget, v: Value) -> (r: Result<Value, VMError>)
    ensures
        res_model(r) == spec_cast(t, v.model()),
{
    let not_representable = VMError::ArithmeticError {
        reason: ArithmeticErrorReason::CastNotRepresentable,
    };
    if let Value::U256(bytes) = v {
        let x = u256_from(&bytes);
        return match t {
            CastTarget::U8 => match x.try_into_u8() {
                Some(y) => Ok(Value::U8(y)),
                None => Err(not_representable),
            },
            CastTarget::U16 => match x.try_into_u16() {
                Some(y) => Ok(Value::U16(y)),
                None => Err(not_representable),
            },
            CastTarget::U32 => match x.try_into_u32() {
                Some(y) => Ok(Value::U32(y)),
                None => Err(not_representable),
            },
            CastTarget::U64 => match x.try_into_u64() {
                Some(y) => Ok(Value::U64(y)),
                None => Err(not_representable),
            },
            CastTarget::U128 => match x.try_into_u128() {
                Some(y) => Ok(Value::U128(y)),
                None => Err(not_representable),
            },
            CastTarget::U256 => Ok(u256_value_of(&x)),
        };
    }
    match small_int(&v) {
        None => Err(
            VMError::InvariantViolation {
                reason: crate::runtime::error::InvariantViolationReason::TypeMismatchOnStack,
            },
        ),
        Some(x) => match t {
            CastTarget::U8 => if x <= 0xff {
                Ok(Value::U8(x as u8))
            } else {
                Err(not_representable)
            },
            CastTarget::U16 => if x <= 0xffff {
                Ok(Value::U16(x as u16))
            } else {
                Err(not_representable)
            },
            CastTarget::U32 => if x <= 0xffff_ffff {
                Ok(Value::U32(x as u32))
            } else {
                Err(not_representable)
            },
            CastTarget::U64 => if x <= 0xffff_ffff_ffff_ffff {
                Ok(Value::U64(x as u64))
            } else {
                Err(not_representable)
            },
            CastTarget::U128 => Ok(Value::U128(x)),
            CastTarget::U256 => {
                proof {
                    crate::u256::lemma_u256_of_value(U256 { lo: x, hi: 0 });
                }
                Ok(u256_value_of(&U256 { lo: x, hi: 0 }))
            },
        },
    }
}

} // verus!
