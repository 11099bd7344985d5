//! Properties of the interpreter that span instructions or calls.

use crate::bytecode::{
    AdamantBytecode, Bytecode, BytecodeInstruction, FunctionHandleIndex, GasDimension,
    StructDefinitionIndex,
};
use crate::module::{AdamantCompiledModule, SignatureToken};
use crate::runtime::constants::{spec_decode_constant, MAX_SEQUENCE_LENGTH};
use crate::runtime::frame::{pop_as, as_u64, FrameModel};
use crate::runtime::interpreter::{
    deprecated, deref, is_reference_op, modify, pop_ref, pop_top_as, spec_dispatch, spec_enter,
    spec_step_adamant, spec_step_inherited, spec_step_reference, with_top, DispatchOutcome,
    StateModel,
};
use crate::runtime::ops::{spec_arith, ArithOp, width_bound, same_int_width, int_of};
use crate::runtime::error::{ArithmeticErrorReason, InvariantViolationReason, VMError};
use crate::runtime::crypto::{
    as_bytes, spec_complete_crypto, spec_take_crypto_request, CryptoRequestModel, CryptoResponse,
    SignatureScheme,
};
use crate::uleb128::uleb128_encode;
use crate::value::{update_at, value_at, RefEdit, ValueModel};
use vstd::prelude::*;

verus! {

/// Instructions that continue at the next instruction when they
/// succeed: every inherited instruction but `Ret`, the branches and
/// `Abort`.
pub open spec fn falls_through(op: Bytecode) -> bool {
    !(op is Ret || op is Branch || op is BrTrue || op is BrFalse || op is VariantSwitch
        || op is Abort)
}

/// A successful step of an instruction that falls through advances
/// the executing frame's counter by one and keeps the call stack's
/// height.
pub proof fn lemma_fall_through_advances_pc(op: Bytecode, s: StateModel, m: AdamantCompiledModule)
    requires
        s.frames.len() > 0,
        falls_through(op),
        spec_dispatch(BytecodeInstruction::Inherited(op), s, m).0 is Ok,
    ensures
        spec_dispatch(BytecodeInstruction::Inherited(op), s, m).1.frames.len() == s.frames.len(),
        spec_dispatch(BytecodeInstruction::Inherited(op), s, m).1.frames.last().pc == s.frames.last().advance().pc,
{
    let f = s.frames.last();
    if is_reference_op(op) {
        lemma_reference_step_keeps_height_and_advances(op, s, m);
    } else {
        lemma_frame_step_advances(op, f, m);
    }
}

/// The frame-level part of the law.
proof fn lemma_frame_step_advances(op: Bytecode, f: FrameModel, m: AdamantCompiledModule)
    requires
        falls_through(op),
        !is_reference_op(op),
        spec_step_inherited(op, f, m).0 is Ok,
    ensures
        spec_step_inherited(op, f, m).1.pc == f.advance().pc,
{
    match op {
        Bytecode::Pop => {},
        Bytecode::LdU8(_) | Bytecode::LdU16(_) | Bytecode::LdU32(_) | Bytecode::LdU64(_)
        | Bytecode::LdU128(_) | Bytecode::LdU256(_) | Bytecode::LdTrue | Bytecode::LdFalse => {},
        Bytecode::CastU8 | Bytecode::CastU16 | Bytecode::CastU32 | Bytecode::CastU64
        | Bytecode::CastU128 | Bytecode::CastU256 => {},
        Bytecode::CopyLoc(_) | Bytecode::MoveLoc(_) | Bytecode::StLoc(_) => {},
        Bytecode::Add | Bytecode::Sub | Bytecode::Mul | Bytecode::Div | Bytecode::Mod => {},
        Bytecode::BitAnd | Bytecode::BitOr | Bytecode::Xor => {},
        Bytecode::And | Bytecode::Or | Bytecode::Not => {},
        Bytecode::Eq | Bytecode::Neq | Bytecode::Lt | Bytecode::Gt | Bytecode::Le | Bytecode::Ge => {},
        Bytecode::Shl | Bytecode::Shr => {},
        Bytecode::LdConst(_) => {},
        Bytecode::Call(_) | Bytecode::CallGeneric(_) => {},
        Bytecode::Pack(_) | Bytecode::PackGeneric(_) | Bytecode::Unpack(_) | Bytecode::UnpackGeneric(_) => {},
        Bytecode::VecPack(_, _) | Bytecode::VecUnpack(_, _) => {},
        Bytecode::PackVariant(_) | Bytecode::PackVariantGeneric(_) | Bytecode::UnpackVariant(_)
        | Bytecode::UnpackVariantGeneric(_) => {},
        _ => {},
    }
}

/// The reference-instruction part of the law.
proof fn lemma_reference_step_keeps_height_and_advances(op: Bytecode, s: StateModel, m: AdamantCompiledModule)
    requires
        s.frames.len() > 0,
        falls_through(op),
        is_reference_op(op),
        spec_step_reference(op, s, m).0 is Ok,
    ensures
        spec_step_reference(op, s, m).1.frames.len() == s.frames.len(),
        spec_step_reference(op, s, m).1.frames.last().pc == s.frames.last().advance().pc,
{
    match op {
        Bytecode::WriteRef => {
            let (r1, s1) = pop_ref(s);
            if let Ok((fr, l, p)) = r1 {
                let (x, g) = s1.frames.last().pop();
                if let Ok(v) = x {
                    lemma_modify_keeps_counters(with_top(s1, g), fr, l, p, RefEdit::Write(v));
                }
            }
        },
        Bytecode::VecPushBack(_) => {
            let (x, g) = s.frames.last().pop();
            if let Ok(v) = x {
                let (r2, s2) = pop_ref(with_top(s, g));
                if let Ok((fr, l, p)) = r2 {
                    lemma_modify_keeps_counters(s2, fr, l, p, RefEdit::PushBack(v));
                }
            }
        },
        Bytecode::VecPopBack(_) => {
            let (r1, s1) = pop_ref(s);
            if let Ok((fr, l, p)) = r1 {
                lemma_modify_keeps_counters(s1, fr, l, p, RefEdit::PopBack);
            }
        },
        Bytecode::VecSwap(_) => {
            let (rj, s1) = pop_top_as(s, |v: ValueModel| crate::runtime::frame::as_u64(v));
            if let Ok(j) = rj {
                let (ri, s2) = pop_top_as(s1, |v: ValueModel| crate::runtime::frame::as_u64(v));
                if let Ok(i) = ri {
                    let (r3, s3) = pop_ref(s2);
                    if let Ok((fr, l, p)) = r3 {
                        if i <= usize::MAX && j <= usize::MAX {
                            lemma_modify_keeps_counters(s3, fr, l, p, RefEdit::Swap(i as usize, j as usize));
                        }
                    }
                }
            }
        },
        _ => {},
    }
}

/// A change through a reference keeps the call stack's height, every
/// frame's counter and the gas tracker.
pub proof fn lemma_modify_keeps_counters(s: StateModel, fr: usize, l: u8, p: Seq<usize>, op: RefEdit)
    ensures
        modify(s, fr, l, p, op).1.frames.len() == s.frames.len(),
        modify(s, fr, l, p, op).1.gas == s.gas,
        forall|i: int|
            0 <= i < s.frames.len() ==> (#[trigger] modify(s, fr, l, p, op).1.frames[i]).pc
                == s.frames[i].pc,
{
}


/// Reading back along a path just written gives the written value.
pub proof fn lemma_value_at_update_at(v: ValueModel, p: Seq<usize>, new: ValueModel)
    requires
        value_at(v, p) is Some,
    ensures
        value_at(update_at(v, p, new), p) == Some(new),
    decreases p.len(),
{
    if p.len() > 0 {
        let es = crate::value::elements(v).unwrap();
        lemma_value_at_update_at(es[p[0] as int], p.drop_first(), new);
    }
}

/// Through a reference, a read gives back what a write wrote.
pub proof fn lemma_read_after_write(s: StateModel, fr: usize, l: u8, p: Seq<usize>, v: ValueModel)
    requires
        modify(s, fr, l, p, RefEdit::Write(v)).0 is Ok,
    ensures
        deref(modify(s, fr, l, p, RefEdit::Write(v)).1, fr, l, p) == Ok::<ValueModel, crate::runtime::error::VMError>(v),
{
    let f = s.frames[fr as int];
    let w = f.locals[l as int]->Some_0;
    lemma_value_at_update_at(w, p, v);
}

/// `Neq` pushes the negation of what `Eq` pushes, on the same frame
/// otherwise.
pub proof fn lemma_eq_neq_complement(f: FrameModel, m: AdamantCompiledModule)
    ensures
        spec_step_inherited(Bytecode::Eq, f, m).0 == spec_step_inherited(Bytecode::Neq, f, m).0,
        spec_step_inherited(Bytecode::Eq, f, m).0 is Ok ==> {
            let e = spec_step_inherited(Bytecode::Eq, f, m).1;
            let n = spec_step_inherited(Bytecode::Neq, f, m).1;
            &&& e.stack.drop_last() == n.stack.drop_last()
            &&& e.stack.last() == ValueModel::Bool(f.stack[f.stack.len() - 2] == f.stack.last())
            &&& n.stack.last() == ValueModel::Bool(f.stack[f.stack.len() - 2] != f.stack.last())
            &&& e.pc == n.pc
        },
{
}

/// A retired global-storage instruction fails and changes nothing.
pub proof fn lemma_deprecated_changes_nothing(s: StructDefinitionIndex, f: FrameModel, m: AdamantCompiledModule)
    ensures
        spec_step_inherited(Bytecode::ExistsDeprecated(s), f, m) == (Err::<DispatchOutcome, crate::runtime::error::VMError>(deprecated()), f),
        spec_step_inherited(Bytecode::MoveToDeprecated(s), f, m) == (Err::<DispatchOutcome, crate::runtime::error::VMError>(deprecated()), f),
        spec_step_inherited(Bytecode::MoveFromDeprecated(s), f, m) == (Err::<DispatchOutcome, crate::runtime::error::VMError>(deprecated()), f),
        spec_step_inherited(Bytecode::MutBorrowGlobalDeprecated(s), f, m) == (Err::<DispatchOutcome, crate::runtime::error::VMError>(deprecated()), f),
        spec_step_inherited(Bytecode::ImmBorrowGlobalDeprecated(s), f, m) == (Err::<DispatchOutcome, crate::runtime::error::VMError>(deprecated()), f),
{
}

/// A call returns to the instruction after it: after `Call`, entering
/// the callee and the callee's `Ret`, the caller executes again with
/// its counter one past the call.
pub proof fn lemma_call_returns_after_call(s: StateModel, m: AdamantCompiledModule, h: FunctionHandleIndex)
    requires
        s.frames.len() > 0,
        spec_enter(spec_dispatch(BytecodeInstruction::Inherited(Bytecode::Call(h)), s, m).1, m, h, None).0 is Ok,
    ensures
        spec_dispatch(BytecodeInstruction::Inherited(Bytecode::Call(h)), s, m).0
            == Ok::<DispatchOutcome, crate::runtime::error::VMError>(DispatchOutcome::Call(h)),
        ({
            let s1 = spec_dispatch(BytecodeInstruction::Inherited(Bytecode::Call(h)), s, m).1;
            let s2 = spec_enter(s1, m, h, None).1;
            let s3 = spec_dispatch(BytecodeInstruction::Inherited(Bytecode::Ret), s2, m);
            &&& s2.frames.len() == s.frames.len() + 1
            &&& s2.frames.last().pc == 0
            &&& s2.frames.last().function_handle == h
            &&& s3.0 == Ok::<DispatchOutcome, crate::runtime::error::VMError>(DispatchOutcome::Continue)
            &&& s3.1.frames.len() == s.frames.len()
            &&& s3.1.frames.last().pc == s.frames.last().advance().pc
            &&& s3.1.frames.last().function_handle == s.frames.last().function_handle
        }),
{
    let s1 = spec_dispatch(BytecodeInstruction::Inherited(Bytecode::Call(h)), s, m).1;
    let s2 = spec_enter(s1, m, h, None).1;
    assert(s2.frames.drop_last().last() == s2.frames[s.frames.len() - 1]);
}

/// `ChargeGas(d)` draws its popped amount from dimension `d` alone:
/// on success `d` loses exactly the amount and every other dimension
/// keeps its budget; on failure no dimension changes.
pub proof fn lemma_charge_gas_instruction(d: GasDimension, other: GasDimension, f: FrameModel, gas: crate::runtime::gas::GasTracker)
    requires
        other != d,
    ensures
        ({
            let (r, g, t) = spec_step_adamant(AdamantBytecode::ChargeGas(d), f, gas);
            &&& t.spec_remaining(other) == gas.spec_remaining(other)
            &&& r is Ok ==> (f.stack.last() matches ValueModel::U64(amount) && t.spec_remaining(d)
                == gas.spec_remaining(d) - amount)
            &&& r is Err ==> t == gas
        }),
{
    let (x, g) = pop_as(f, |v: ValueModel| as_u64(v));
    if let Ok(amount) = x {
        crate::runtime::gas::lemma_charge_isolates_dimension(gas, d, amount, other);
    }
}

/// Decoding a constant of type `u64` whose bytes are the little-endian
/// encoding of `x` gives `x`.
pub proof fn lemma_u64_constant_round_trip(x: u64)
    ensures
        spec_decode_constant(SignatureToken::U64, vstd::bytes::spec_u64_to_le_bytes(x))
            == Ok::<ValueModel, crate::runtime::error::VMError>(ValueModel::U64(x)),
{
    vstd::bytes::lemma_auto_spec_u64_to_from_le_bytes();
}

/// Decoding a constant of type `vector<u8>` whose bytes are a length
/// prefix and the bytes gives those bytes.
pub proof fn lemma_byte_vector_constant_round_trip(bytes: Seq<u8>)
    requires
        bytes.len() <= MAX_SEQUENCE_LENGTH,
    ensures
        spec_decode_constant(
            SignatureToken::Vector(Box::new(SignatureToken::U8)),
            uleb128_encode(bytes.len()) + bytes,
        ) == Ok::<ValueModel, crate::runtime::error::VMError>(
            ValueModel::Vector(bytes.map_values(|b: u8| ValueModel::U8(b))),
        ),
{
    let data = uleb128_encode(bytes.len()) + bytes;
    let e = uleb128_encode(bytes.len());
    assert(data.subrange(0, e.len() as int) =~= e);
    crate::uleb128::lemma_uleb128_round_trip(bytes.len(), data, 0);
    assert(data.subrange(e.len() as int, data.len() as int) =~= bytes);
}

/// Subtracting what was added gives the operand back.
pub proof fn lemma_add_then_sub(a: ValueModel, b: ValueModel)
    requires
        spec_arith(ArithOp::Add, a, b) is Ok,
        int_of(a).unwrap() < width_bound(a),
        int_of(a).unwrap() >= 0,
        int_of(b).unwrap() >= 0,
    ensures
        spec_arith(ArithOp::Sub, spec_arith(ArithOp::Add, a, b).unwrap(), b) == Ok::<ValueModel, crate::runtime::error::VMError>(a),
{
}



// ---------- What the operand instructions compute ----------

/// `x` and `y` are unsigned integers of one width, holding `a` and
/// `b`.
pub open spec fn one_width(x: ValueModel, y: ValueModel, a: int, b: int) -> bool {
    ||| (x == ValueModel::U8(a as u8) && y == ValueModel::U8(b as u8) && 0 <= a < 0x100int && 0 <= b < 0x100int)
    ||| (x == ValueModel::U16(a as u16) && y == ValueModel::U16(b as u16) && 0 <= a < 0x1_0000int && 0 <= b < 0x1_0000int)
    ||| (x == ValueModel::U32(a as u32) && y == ValueModel::U32(b as u32) && 0 <= a < 0x1_0000_0000int
        && 0 <= b < 0x1_0000_0000int)
    ||| (x == ValueModel::U64(a as u64) && y == ValueModel::U64(b as u64) && 0 <= a < 0x1_0000_0000_0000_0000int
        && 0 <= b < 0x1_0000_0000_0000_0000int)
    ||| (x == ValueModel::U128(a as u128) && y == ValueModel::U128(b as u128)
        && 0 <= a < 0x1_0000_0000_0000_0000_0000_0000_0000_0000int && 0 <= b
        < 0x1_0000_0000_0000_0000_0000_0000_0000_0000int)
    ||| (x == ValueModel::U256(a as nat) && y == ValueModel::U256(b as nat) && 0 <= a && 0 <= b)
}

/// The integer `n` in the width of `x`.
pub open spec fn in_width_of(x: ValueModel, n: int) -> ValueModel {
    match x {
        ValueModel::U8(_) => ValueModel::U8(n as u8),
        ValueModel::U16(_) => ValueModel::U16(n as u16),
        ValueModel::U32(_) => ValueModel::U32(n as u32),
        ValueModel::U64(_) => ValueModel::U64(n as u64),
        ValueModel::U128(_) => ValueModel::U128(n as u128),
        _ => ValueModel::U256(n as nat),
    }
}

/// The first integer above the width of `x`.
pub open spec fn limit_of(x: ValueModel) -> int {
    match x {
        ValueModel::U8(_) => 0x100int,
        ValueModel::U16(_) => 0x1_0000int,
        ValueModel::U32(_) => 0x1_0000_0000int,
        ValueModel::U64(_) => 0x1_0000_0000_0000_0000int,
        ValueModel::U128(_) => 0x1_0000_0000_0000_0000_0000_0000_0000_0000int,
        _ => 0x1_0000_0000_0000_0000_0000_0000_0000_0000_0000_0000_0000_0000_0000_0000_0000_0000int,
    }
}

/// The instruction offset after `pc`, wrapping.
pub open spec fn next_pc(pc: u16) -> u16 {
    if pc == 0xffff {
        0
    } else {
        (pc + 1) as u16
    }
}

/// The state after an instruction replaced the executing frame's
/// operands by `pushed` on top of `rest` and went on to the next
/// instruction; the rest of the state is untouched.
pub open spec fn replaced(s: StateModel, rest: Seq<ValueModel>, pushed: Seq<ValueModel>) -> StateModel {
    let f = s.frames.last();
    StateModel {
        frames: s.frames.update(s.frames.len() - 1, FrameModel { stack: rest + pushed, pc: next_pc(f.pc), ..f }),
        gas: s.gas,
    }
}

/// The state after an instruction popped the executing frame's
/// operands, leaving `rest`, and failed.
pub open spec fn popped(s: StateModel, rest: Seq<ValueModel>) -> StateModel {
    let f = s.frames.last();
    StateModel { frames: s.frames.update(s.frames.len() - 1, FrameModel { stack: rest, ..f }), gas: s.gas }
}

/// `2^256` as a literal.
proof fn lemma_two_pow_256_literal()
    ensures
        crate::u256::two_pow_256() == 0x1_0000_0000_0000_0000_0000_0000_0000_0000_0000_0000_0000_0000_0000_0000_0000_0000int,
{
    assert(crate::u256::two_pow_256() == 0x1_0000_0000_0000_0000_0000_0000_0000_0000_0000_0000_0000_0000_0000_0000_0000_0000int);
}

/// An arithmetic abort.
pub open spec fn arith_abort(reason: ArithmeticErrorReason) -> VMError {
    VMError::ArithmeticError { reason }
}

/// The comparisons: with `a` below `b` on the stack, both of one
/// width, `Lt`, `Gt`, `Le`, `Ge`, `Eq` and `Neq` replace them by
/// `a < b`, `a > b`, `a <= b`, `a >= b`, `a == b` and `a != b`.
pub proof fn lemma_comparisons(s: StateModel, m: AdamantCompiledModule, rest: Seq<ValueModel>, x: ValueModel, y: ValueModel, a: int, b: int)
    requires
        s.frames.len() > 0,
        s.frames.last().stack == rest.push(x).push(y),
        one_width(x, y, a, b),
    ensures
        spec_dispatch(BytecodeInstruction::Inherited(Bytecode::Lt), s, m)
            == (Ok::<DispatchOutcome, VMError>(DispatchOutcome::Continue), replaced(s, rest, seq![ValueModel::Bool(a < b)])),
        spec_dispatch(BytecodeInstruction::Inherited(Bytecode::Gt), s, m)
            == (Ok::<DispatchOutcome, VMError>(DispatchOutcome::Continue), replaced(s, rest, seq![ValueModel::Bool(a > b)])),
        spec_dispatch(BytecodeInstruction::Inherited(Bytecode::Le), s, m)
            == (Ok::<DispatchOutcome, VMError>(DispatchOutcome::Continue), replaced(s, rest, seq![ValueModel::Bool(a <= b)])),
        spec_dispatch(BytecodeInstruction::Inherited(Bytecode::Ge), s, m)
            == (Ok::<DispatchOutcome, VMError>(DispatchOutcome::Continue), replaced(s, rest, seq![ValueModel::Bool(a >= b)])),
        spec_dispatch(BytecodeInstruction::Inherited(Bytecode::Eq), s, m)
            == (Ok::<DispatchOutcome, VMError>(DispatchOutcome::Continue), replaced(s, rest, seq![ValueModel::Bool(a == b)])),
        spec_dispatch(BytecodeInstruction::Inherited(Bytecode::Neq), s, m)
            == (Ok::<DispatchOutcome, VMError>(DispatchOutcome::Continue), replaced(s, rest, seq![ValueModel::Bool(a != b)])),
{
    let f = s.frames.last();
    let st = rest.push(x).push(y);
    assert(st.last() == y);
    assert(st.drop_last() == rest.push(x));
    assert(rest.push(x).last() == x);
    assert(rest.push(x).drop_last() == rest);
    assert(rest + seq![ValueModel::Bool(a < b)] == rest.push(ValueModel::Bool(a < b)));
    assert(rest + seq![ValueModel::Bool(a > b)] == rest.push(ValueModel::Bool(a > b)));
    assert(rest + seq![ValueModel::Bool(a <= b)] == rest.push(ValueModel::Bool(a <= b)));
    assert(rest + seq![ValueModel::Bool(a >= b)] == rest.push(ValueModel::Bool(a >= b)));
    assert(rest + seq![ValueModel::Bool(a == b)] == rest.push(ValueModel::Bool(a == b)));
    assert(rest + seq![ValueModel::Bool(a != b)] == rest.push(ValueModel::Bool(a != b)));
    assert(same_int_width(x, y));
    assert(int_of(x) == Some(a) && int_of(y) == Some(b));
    assert((x == y) == (a == b));
}

/// The checked arithmetic: with `a` below `b` on the stack, both of
/// one width, `Add`, `Sub`, `Mul`, `Div` and `Mod` replace them by
/// `a + b`, `a - b`, `a * b`, `a / b` and `a % b` in that width when
/// it holds the result, and otherwise abort with an overflow, an
/// underflow or a division by zero, the operands popped.
pub proof fn lemma_arithmetic(s: StateModel, m: AdamantCompiledModule, rest: Seq<ValueModel>, x: ValueModel, y: ValueModel, a: int, b: int)
    requires
        s.frames.len() > 0,
        s.frames.last().stack == rest.push(x).push(y),
        one_width(x, y, a, b),
    ensures
        spec_dispatch(BytecodeInstruction::Inherited(Bytecode::Add), s, m) == if a + b < limit_of(x) {
            (Ok::<DispatchOutcome, VMError>(DispatchOutcome::Continue), replaced(s, rest, seq![in_width_of(x, a + b)]))
        } else {
            (Err::<DispatchOutcome, VMError>(arith_abort(ArithmeticErrorReason::Overflow)), popped(s, rest))
        },
        spec_dispatch(BytecodeInstruction::Inherited(Bytecode::Sub), s, m) == if b <= a {
            (Ok::<DispatchOutcome, VMError>(DispatchOutcome::Continue), replaced(s, rest, seq![in_width_of(x, a - b)]))
        } else {
            (Err::<DispatchOutcome, VMError>(arith_abort(ArithmeticErrorReason::Underflow)), popped(s, rest))
        },
        spec_dispatch(BytecodeInstruction::Inherited(Bytecode::Mul), s, m) == if a * b < limit_of(x) {
            (Ok::<DispatchOutcome, VMError>(DispatchOutcome::Continue), replaced(s, rest, seq![in_width_of(x, a * b)]))
        } else {
            (Err::<DispatchOutcome, VMError>(arith_abort(ArithmeticErrorReason::Overflow)), popped(s, rest))
        },
        spec_dispatch(BytecodeInstruction::Inherited(Bytecode::Div), s, m) == if b != 0 {
            (Ok::<DispatchOutcome, VMError>(DispatchOutcome::Continue), replaced(s, rest, seq![in_width_of(x, a / b)]))
        } else {
            (Err::<DispatchOutcome, VMError>(arith_abort(ArithmeticErrorReason::DivisionByZero)), popped(s, rest))
        },
        spec_dispatch(BytecodeInstruction::Inherited(Bytecode::Mod), s, m) == if b != 0 {
            (Ok::<DispatchOutcome, VMError>(DispatchOutcome::Continue), replaced(s, rest, seq![in_width_of(x, a % b)]))
        } else {
            (Err::<DispatchOutcome, VMError>(arith_abort(ArithmeticErrorReason::DivisionByZero)), popped(s, rest))
        },
{
    let st = rest.push(x).push(y);
    assert(st.last() == y);
    assert(st.drop_last() == rest.push(x));
    assert(rest.push(x).last() == x);
    assert(rest.push(x).drop_last() == rest);
    assert(same_int_width(x, y));
    assert(int_of(x) == Some(a) && int_of(y) == Some(b));
    assert(width_bound(x) == limit_of(x)) by {
        lemma_two_pow_256_literal();
    }
    assert(forall|v: ValueModel| rest + seq![v] == rest.push(v));
}

/// The boolean instructions: with `p` below `q` on the stack, `And`
/// and `Or` replace them by `p && q` and `p || q`; `Not` replaces `q`
/// by `!q`.
pub proof fn lemma_logic(s: StateModel, m: AdamantCompiledModule, rest: Seq<ValueModel>, p: bool, q: bool)
    requires
        s.frames.len() > 0,
        s.frames.last().stack == rest.push(ValueModel::Bool(p)).push(ValueModel::Bool(q)),
    ensures
        spec_dispatch(BytecodeInstruction::Inherited(Bytecode::And), s, m)
            == (Ok::<DispatchOutcome, VMError>(DispatchOutcome::Continue), replaced(s, rest, seq![ValueModel::Bool(p && q)])),
        spec_dispatch(BytecodeInstruction::Inherited(Bytecode::Or), s, m)
            == (Ok::<DispatchOutcome, VMError>(DispatchOutcome::Continue), replaced(s, rest, seq![ValueModel::Bool(p || q)])),
        spec_dispatch(BytecodeInstruction::Inherited(Bytecode::Not), s, m)
            == (Ok::<DispatchOutcome, VMError>(DispatchOutcome::Continue), replaced(s, rest.push(ValueModel::Bool(p)), seq![ValueModel::Bool(!q)])),
{
    let st = rest.push(ValueModel::Bool(p)).push(ValueModel::Bool(q));
    assert(st.last() == ValueModel::Bool(q));
    assert(st.drop_last() == rest.push(ValueModel::Bool(p)));
    assert(rest.push(ValueModel::Bool(p)).last() == ValueModel::Bool(p));
    assert(rest.push(ValueModel::Bool(p)).drop_last() == rest);
    assert(forall|v: ValueModel| rest + seq![v] == rest.push(v));
    assert(forall|v: ValueModel| rest.push(ValueModel::Bool(p)) + seq![v] == rest.push(ValueModel::Bool(p)).push(v));
}

/// The conditional branches: with `c` on top of `rest`, `BrTrue(t)`
/// pops it and goes to `t` when `c` holds and to the next instruction
/// otherwise; `BrFalse(t)` the other way round.
pub proof fn lemma_conditional_branches(s: StateModel, m: AdamantCompiledModule, rest: Seq<ValueModel>, c: bool, t: u16)
    requires
        s.frames.len() > 0,
        s.frames.last().stack == rest.push(ValueModel::Bool(c)),
    ensures
        spec_dispatch(BytecodeInstruction::Inherited(Bytecode::BrTrue(t)), s, m) == (
            Ok::<DispatchOutcome, VMError>(DispatchOutcome::Continue),
            StateModel {
                frames: s.frames.update(
                    s.frames.len() - 1,
                    FrameModel { stack: rest, pc: if c { t } else { next_pc(s.frames.last().pc) }, ..s.frames.last() },
                ),
                gas: s.gas,
            },
        ),
        spec_dispatch(BytecodeInstruction::Inherited(Bytecode::BrFalse(t)), s, m) == (
            Ok::<DispatchOutcome, VMError>(DispatchOutcome::Continue),
            StateModel {
                frames: s.frames.update(
                    s.frames.len() - 1,
                    FrameModel { stack: rest, pc: if c { next_pc(s.frames.last().pc) } else { t }, ..s.frames.last() },
                ),
                gas: s.gas,
            },
        ),
{
    let st = rest.push(ValueModel::Bool(c));
    assert(st.last() == ValueModel::Bool(c));
    assert(st.drop_last() == rest);
}



// ---------- What the cryptographic instructions take and give ----------

/// A byte string as a `vector<u8>` value.
pub open spec fn byte_vector(b: Seq<u8>) -> ValueModel {
    ValueModel::Vector(b.map_values(|x: u8| ValueModel::U8(x)))
}

/// A `vector<u8>` value reads back as its bytes.
proof fn lemma_byte_vector_bytes(b: Seq<u8>)
    ensures
        as_bytes(byte_vector(b)) == Ok::<Seq<u8>, VMError>(b),
{
    let elems = b.map_values(|x: u8| ValueModel::U8(x));
    assert(forall|i: int| 0 <= i < elems.len() ==> (#[trigger] elems[i]) is U8);
    assert(Seq::new(elems.len(), |i: int| elems[i]->U8_0) =~= b);
}

/// The signature checks take the signature from the top of the stack,
/// the message from below it and the public key from below that (the
/// stack reads `..., public key, message, signature`), pop all three
/// and ask for a verification under their scheme.
pub proof fn lemma_verify_operands(s: StateModel, rest: Seq<ValueModel>, pk: Seq<u8>, msg: Seq<u8>, sig: Seq<u8>)
    requires
        s.frames.len() > 0,
        s.frames.last().stack == rest.push(byte_vector(pk)).push(byte_vector(msg)).push(byte_vector(sig)),
    ensures
        spec_take_crypto_request(AdamantBytecode::Ed25519Verify, s) == (
            Ok::<CryptoRequestModel, VMError>(CryptoRequestModel::Verify(SignatureScheme::Ed25519, pk, msg, sig)),
            popped(s, rest),
        ),
        spec_take_crypto_request(AdamantBytecode::MlDsaVerify65, s) == (
            Ok::<CryptoRequestModel, VMError>(CryptoRequestModel::Verify(SignatureScheme::MlDsa65, pk, msg, sig)),
            popped(s, rest),
        ),
        spec_take_crypto_request(AdamantBytecode::BlsVerify, s) == (
            Ok::<CryptoRequestModel, VMError>(CryptoRequestModel::Verify(SignatureScheme::Bls, pk, msg, sig)),
            popped(s, rest),
        ),
{
    lemma_byte_vector_bytes(pk);
    lemma_byte_vector_bytes(msg);
    lemma_byte_vector_bytes(sig);
    let a = rest.push(byte_vector(pk));
    let b = a.push(byte_vector(msg));
    let c = b.push(byte_vector(sig));
    assert(c.last() == byte_vector(sig) && c.drop_last() == b);
    assert(b.last() == byte_vector(msg) && b.drop_last() == a);
    assert(a.last() == byte_vector(pk) && a.drop_last() == rest);
}

/// The opening check takes the claimed value from the top of the
/// stack, the opening from below it and the commitment from below
/// that, pops all three and asks for their verification.
pub proof fn lemma_kzg_verify_operands(s: StateModel, rest: Seq<ValueModel>, commitment: Seq<u8>, opening: Seq<u8>, claimed: Seq<u8>)
    requires
        s.frames.len() > 0,
        s.frames.last().stack == rest.push(byte_vector(commitment)).push(byte_vector(opening)).push(byte_vector(claimed)),
    ensures
        spec_take_crypto_request(AdamantBytecode::KzgVerify, s) == (
            Ok::<CryptoRequestModel, VMError>(CryptoRequestModel::KzgVerify(commitment, opening, claimed)),
            popped(s, rest),
        ),
{
    lemma_byte_vector_bytes(commitment);
    lemma_byte_vector_bytes(opening);
    lemma_byte_vector_bytes(claimed);
    let a = rest.push(byte_vector(commitment));
    let b = a.push(byte_vector(opening));
    let c = b.push(byte_vector(claimed));
    assert(c.last() == byte_vector(claimed) && c.drop_last() == b);
    assert(b.last() == byte_vector(opening) && b.drop_last() == a);
    assert(a.last() == byte_vector(commitment) && a.drop_last() == rest);
}

/// The hashes and the commitment take their input from the top of the
/// stack and pop it; a commitment's input must be whole 32-byte
/// scalars, and anything else is a type mismatch.
pub proof fn lemma_single_input_operands(s: StateModel, rest: Seq<ValueModel>, input: Seq<u8>)
    requires
        s.frames.len() > 0,
        s.frames.last().stack == rest.push(byte_vector(input)),
    ensures
        spec_take_crypto_request(AdamantBytecode::Sha3_256, s)
            == (Ok::<CryptoRequestModel, VMError>(CryptoRequestModel::Sha3_256(input)), popped(s, rest)),
        spec_take_crypto_request(AdamantBytecode::Blake3, s)
            == (Ok::<CryptoRequestModel, VMError>(CryptoRequestModel::Blake3(input)), popped(s, rest)),
        spec_take_crypto_request(AdamantBytecode::KzgCommit, s) == if input.len() % 32 == 0 {
            (Ok::<CryptoRequestModel, VMError>(CryptoRequestModel::KzgCommit(input)), popped(s, rest))
        } else {
            (
                Err::<CryptoRequestModel, VMError>(VMError::InvariantViolation { reason: InvariantViolationReason::TypeMismatchOnStack }),
                popped(s, rest),
            )
        },
{
    lemma_byte_vector_bytes(input);
    let a = rest.push(byte_vector(input));
    assert(a.last() == byte_vector(input) && a.drop_last() == rest);
}

/// Releasing a sub-view key takes the scope from the top of the stack
/// and the parent seed from below it, pops both, and asks for the
/// derivation when the seed is 64 bytes long; otherwise it is a type
/// mismatch.
pub proof fn lemma_sub_view_key_operands(s: StateModel, rest: Seq<ValueModel>, seed: Seq<u8>, scope: Seq<u8>)
    requires
        s.frames.len() > 0,
        s.frames.last().stack == rest.push(byte_vector(seed)).push(byte_vector(scope)),
    ensures
        spec_take_crypto_request(AdamantBytecode::ReleaseSubViewKey, s) == if seed.len() == 64 {
            (Ok::<CryptoRequestModel, VMError>(CryptoRequestModel::ReleaseSubViewKey(seed, scope)), popped(s, rest))
        } else {
            (
                Err::<CryptoRequestModel, VMError>(VMError::InvariantViolation { reason: InvariantViolationReason::TypeMismatchOnStack }),
                popped(s, rest),
            )
        },
{
    lemma_byte_vector_bytes(seed);
    lemma_byte_vector_bytes(scope);
    let a = rest.push(byte_vector(seed));
    let b = a.push(byte_vector(scope));
    assert(b.last() == byte_vector(scope) && b.drop_last() == a);
    assert(a.last() == byte_vector(seed) && a.drop_last() == rest);
}

/// Completing a cryptographic instruction pushes its result on the
/// executing frame, as a `vector<u8>` for bytes and a `bool` for a
/// verification, and goes on to the next instruction.
pub proof fn lemma_complete_crypto_pushes(s: StateModel, bytes: Seq<u8>, flag: bool, v: Vec<u8>)
    requires
        s.frames.len() > 0,
        v@ == bytes,
    ensures
        spec_complete_crypto(s, CryptoResponse::Bytes(v))
            == (Ok::<DispatchOutcome, VMError>(DispatchOutcome::Continue), replaced(s, s.frames.last().stack, seq![byte_vector(bytes)])),
        spec_complete_crypto(s, CryptoResponse::Flag(flag))
            == (Ok::<DispatchOutcome, VMError>(DispatchOutcome::Continue), replaced(s, s.frames.last().stack, seq![ValueModel::Bool(flag)])),
{
    let st = s.frames.last().stack;
    assert(st + seq![byte_vector(bytes)] == st.push(byte_vector(bytes)));
    assert(st + seq![ValueModel::Bool(flag)] == st.push(ValueModel::Bool(flag)));
}



// ---------- Loads, locals and casts ----------

/// The literal loads push their immediate as a value of their type,
/// and `Pop` drops the top value.
pub proof fn lemma_loads(s: StateModel, m: AdamantCompiledModule, a8: u8, a16: u16, a32: u32, a64: u64, a128: u128, a256: crate::bytecode::U256)
    requires
        s.frames.len() > 0,
    ensures
        spec_dispatch(BytecodeInstruction::Inherited(Bytecode::LdU8(a8)), s, m)
            == (Ok::<DispatchOutcome, VMError>(DispatchOutcome::Continue), replaced(s, s.frames.last().stack, seq![ValueModel::U8(a8)])),
        spec_dispatch(BytecodeInstruction::Inherited(Bytecode::LdU16(a16)), s, m)
            == (Ok::<DispatchOutcome, VMError>(DispatchOutcome::Continue), replaced(s, s.frames.last().stack, seq![ValueModel::U16(a16)])),
        spec_dispatch(BytecodeInstruction::Inherited(Bytecode::LdU32(a32)), s, m)
            == (Ok::<DispatchOutcome, VMError>(DispatchOutcome::Continue), replaced(s, s.frames.last().stack, seq![ValueModel::U32(a32)])),
        spec_dispatch(BytecodeInstruction::Inherited(Bytecode::LdU64(a64)), s, m)
            == (Ok::<DispatchOutcome, VMError>(DispatchOutcome::Continue), replaced(s, s.frames.last().stack, seq![ValueModel::U64(a64)])),
        spec_dispatch(BytecodeInstruction::Inherited(Bytecode::LdU128(Box::new(a128))), s, m)
            == (Ok::<DispatchOutcome, VMError>(DispatchOutcome::Continue), replaced(s, s.frames.last().stack, seq![ValueModel::U128(a128)])),
        spec_dispatch(BytecodeInstruction::Inherited(Bytecode::LdU256(Box::new(a256))), s, m) == (
            Ok::<DispatchOutcome, VMError>(DispatchOutcome::Continue),
            replaced(s, s.frames.last().stack, seq![ValueModel::U256(a256.hi as nat * 0x1_0000_0000_0000_0000_0000_0000_0000_0000nat + a256.lo as nat)]),
        ),
        spec_dispatch(BytecodeInstruction::Inherited(Bytecode::LdTrue), s, m)
            == (Ok::<DispatchOutcome, VMError>(DispatchOutcome::Continue), replaced(s, s.frames.last().stack, seq![ValueModel::Bool(true)])),
        spec_dispatch(BytecodeInstruction::Inherited(Bytecode::LdFalse), s, m)
            == (Ok::<DispatchOutcome, VMError>(DispatchOutcome::Continue), replaced(s, s.frames.last().stack, seq![ValueModel::Bool(false)])),
        s.frames.last().stack.len() > 0 ==> spec_dispatch(BytecodeInstruction::Inherited(Bytecode::Pop), s, m)
            == (Ok::<DispatchOutcome, VMError>(DispatchOutcome::Continue), replaced(s, s.frames.last().stack.drop_last(), Seq::empty())),
{
    let st = s.frames.last().stack;
    assert(forall|v: ValueModel| st + seq![v] == st.push(v));
    assert(st.drop_last() + Seq::<ValueModel>::empty() == st.drop_last());
}

/// The locals: `CopyLoc(i)` pushes the value in slot `i` and keeps
/// it there, `MoveLoc(i)` pushes it and empties the slot, and
/// `StLoc(i)` pops the top value into slot `i`.
pub proof fn lemma_locals(s: StateModel, m: AdamantCompiledModule, i: u8, v: ValueModel, w: ValueModel, rest: Seq<ValueModel>)
    requires
        s.frames.len() > 0,
        (i as int) < s.frames.last().locals.len(),
    ensures
        s.frames.last().locals[i as int] == Some(v) ==> {
            &&& spec_dispatch(BytecodeInstruction::Inherited(Bytecode::CopyLoc(i)), s, m)
                == (Ok::<DispatchOutcome, VMError>(DispatchOutcome::Continue), replaced(s, s.frames.last().stack, seq![v]))
            &&& spec_dispatch(BytecodeInstruction::Inherited(Bytecode::MoveLoc(i)), s, m) == (
                Ok::<DispatchOutcome, VMError>(DispatchOutcome::Continue),
                StateModel {
                    frames: s.frames.update(
                        s.frames.len() - 1,
                        FrameModel {
                            stack: s.frames.last().stack.push(v),
                            locals: s.frames.last().locals.update(i as int, None),
                            pc: next_pc(s.frames.last().pc),
                            ..s.frames.last()
                        },
                    ),
                    gas: s.gas,
                },
            )
        },
        s.frames.last().stack == rest.push(w) ==> spec_dispatch(BytecodeInstruction::Inherited(Bytecode::StLoc(i)), s, m) == (
            Ok::<DispatchOutcome, VMError>(DispatchOutcome::Continue),
            StateModel {
                frames: s.frames.update(
                    s.frames.len() - 1,
                    FrameModel {
                        stack: rest,
                        locals: s.frames.last().locals.update(i as int, Some(w)),
                        pc: next_pc(s.frames.last().pc),
                        ..s.frames.last()
                    },
                ),
                gas: s.gas,
            },
        ),
{
    let st = s.frames.last().stack;
    assert(st + seq![v] == st.push(v));
    if s.frames.last().stack == rest.push(w) {
        assert(rest.push(w).last() == w && rest.push(w).drop_last() == rest);
    }
}

/// The casts: a cast of an integer holding `a` gives `a` in the
/// target width when it fits there, and otherwise aborts with the
/// operand popped.
pub proof fn lemma_casts(s: StateModel, m: AdamantCompiledModule, rest: Seq<ValueModel>, x: ValueModel, a: int)
    requires
        s.frames.len() > 0,
        s.frames.last().stack == rest.push(x),
        one_width(x, x, a, a),
    ensures
        spec_dispatch(BytecodeInstruction::Inherited(Bytecode::CastU8), s, m) == if a < 0x100 {
            (Ok::<DispatchOutcome, VMError>(DispatchOutcome::Continue), replaced(s, rest, seq![ValueModel::U8(a as u8)]))
        } else {
            (Err::<DispatchOutcome, VMError>(arith_abort(ArithmeticErrorReason::CastNotRepresentable)), popped(s, rest))
        },
        spec_dispatch(BytecodeInstruction::Inherited(Bytecode::CastU16), s, m) == if a < 0x1_0000 {
            (Ok::<DispatchOutcome, VMError>(DispatchOutcome::Continue), replaced(s, rest, seq![ValueModel::U16(a as u16)]))
        } else {
            (Err::<DispatchOutcome, VMError>(arith_abort(ArithmeticErrorReason::CastNotRepresentable)), popped(s, rest))
        },
        spec_dispatch(BytecodeInstruction::Inherited(Bytecode::CastU32), s, m) == if a < 0x1_0000_0000 {
            (Ok::<DispatchOutcome, VMError>(DispatchOutcome::Continue), replaced(s, rest, seq![ValueModel::U32(a as u32)]))
        } else {
            (Err::<DispatchOutcome, VMError>(arith_abort(ArithmeticErrorReason::CastNotRepresentable)), popped(s, rest))
        },
        spec_dispatch(BytecodeInstruction::Inherited(Bytecode::CastU64), s, m) == if a < 0x1_0000_0000_0000_0000int {
            (Ok::<DispatchOutcome, VMError>(DispatchOutcome::Continue), replaced(s, rest, seq![ValueModel::U64(a as u64)]))
        } else {
            (Err::<DispatchOutcome, VMError>(arith_abort(ArithmeticErrorReason::CastNotRepresentable)), popped(s, rest))
        },
        spec_dispatch(BytecodeInstruction::Inherited(Bytecode::CastU128), s, m) == if a < 0x1_0000_0000_0000_0000_0000_0000_0000_0000int {
            (Ok::<DispatchOutcome, VMError>(DispatchOutcome::Continue), replaced(s, rest, seq![ValueModel::U128(a as u128)]))
        } else {
            (Err::<DispatchOutcome, VMError>(arith_abort(ArithmeticErrorReason::CastNotRepresentable)), popped(s, rest))
        },
        spec_dispatch(BytecodeInstruction::Inherited(Bytecode::CastU256), s, m) == if a < limit_of(ValueModel::U256(0)) {
            (Ok::<DispatchOutcome, VMError>(DispatchOutcome::Continue), replaced(s, rest, seq![ValueModel::U256(a as nat)]))
        } else {
            (Err::<DispatchOutcome, VMError>(arith_abort(ArithmeticErrorReason::CastNotRepresentable)), popped(s, rest))
        },
{
    let st = rest.push(x);
    assert(st.last() == x && st.drop_last() == rest);
    assert(int_of(x) == Some(a));
    lemma_two_pow_256_literal();
    assert(forall|v: ValueModel| rest + seq![v] == rest.push(v));
}

/// `BitAnd`, `BitOr` and `Xor` on the state `s` replace the executing
/// frame's two operands, leaving `rest`, by `and`, `or` and `xor`.
pub open spec fn bitwise_gives(s: StateModel, m: AdamantCompiledModule, rest: Seq<ValueModel>, and: ValueModel, or: ValueModel, xor: ValueModel) -> bool {
    &&& spec_dispatch(BytecodeInstruction::Inherited(Bytecode::BitAnd), s, m)
        == (Ok::<DispatchOutcome, VMError>(DispatchOutcome::Continue), replaced(s, rest, seq![and]))
    &&& spec_dispatch(BytecodeInstruction::Inherited(Bytecode::BitOr), s, m)
        == (Ok::<DispatchOutcome, VMError>(DispatchOutcome::Continue), replaced(s, rest, seq![or]))
    &&& spec_dispatch(BytecodeInstruction::Inherited(Bytecode::Xor), s, m)
        == (Ok::<DispatchOutcome, VMError>(DispatchOutcome::Continue), replaced(s, rest, seq![xor]))
}

/// The bitwise instructions: with `a` below `b` on the stack, both of
/// one of the widths `u8` to `u128`, `BitAnd`, `BitOr` and `Xor`
/// replace them by `a & b`, `a | b` and `a ^ b` in that width.
pub proof fn lemma_bitwise(s: StateModel, m: AdamantCompiledModule, rest: Seq<ValueModel>, x: ValueModel, y: ValueModel)
    requires
        s.frames.len() > 0,
        s.frames.last().stack == rest.push(x).push(y),
    ensures
        (x, y) matches (ValueModel::U8(a), ValueModel::U8(b)) ==> bitwise_gives(
            s, m, rest, ValueModel::U8(a & b), ValueModel::U8(a | b), ValueModel::U8(a ^ b),
        ),
        (x, y) matches (ValueModel::U16(a), ValueModel::U16(b)) ==> bitwise_gives(
            s, m, rest, ValueModel::U16(a & b), ValueModel::U16(a | b), ValueModel::U16(a ^ b),
        ),
        (x, y) matches (ValueModel::U32(a), ValueModel::U32(b)) ==> bitwise_gives(
            s, m, rest, ValueModel::U32(a & b), ValueModel::U32(a | b), ValueModel::U32(a ^ b),
        ),
        (x, y) matches (ValueModel::U64(a), ValueModel::U64(b)) ==> bitwise_gives(
            s, m, rest, ValueModel::U64(a & b), ValueModel::U64(a | b), ValueModel::U64(a ^ b),
        ),
        (x, y) matches (ValueModel::U128(a), ValueModel::U128(b)) ==> bitwise_gives(
            s, m, rest, ValueModel::U128(a & b), ValueModel::U128(a | b), ValueModel::U128(a ^ b),
        ),
{
    let st = rest.push(x).push(y);
    assert(st.last() == y);
    assert(st.drop_last() == rest.push(x));
    assert(rest.push(x).last() == x);
    assert(rest.push(x).drop_last() == rest);
    assert(forall|v: ValueModel| rest + seq![v] == rest.push(v));
}

/// `Shl` and `Shr` on the state `s`, with a shift amount `n` and a
/// left operand of `width` bits: below the width they replace the
/// executing frame's two operands, leaving `rest`, by `left` and
/// `right`; from the width on they abort, the operands popped.
pub open spec fn shifts_give(s: StateModel, m: AdamantCompiledModule, rest: Seq<ValueModel>, width: nat, n: u8, left: ValueModel, right: ValueModel) -> bool {
    if n < width {
        &&& spec_dispatch(BytecodeInstruction::Inherited(Bytecode::Shl), s, m)
            == (Ok::<DispatchOutcome, VMError>(DispatchOutcome::Continue), replaced(s, rest, seq![left]))
        &&& spec_dispatch(BytecodeInstruction::Inherited(Bytecode::Shr), s, m)
            == (Ok::<DispatchOutcome, VMError>(DispatchOutcome::Continue), replaced(s, rest, seq![right]))
    } else {
        &&& spec_dispatch(BytecodeInstruction::Inherited(Bytecode::Shl), s, m)
            == (Err::<DispatchOutcome, VMError>(arith_abort(ArithmeticErrorReason::ShiftAmountTooLarge)), popped(s, rest))
        &&& spec_dispatch(BytecodeInstruction::Inherited(Bytecode::Shr), s, m)
            == (Err::<DispatchOutcome, VMError>(arith_abort(ArithmeticErrorReason::ShiftAmountTooLarge)), popped(s, rest))
    }
}

/// The shifts: with the value `x` below the `u8` shift amount `n` on
/// the stack, `Shl` and `Shr` replace them by `x << n` and `x >> n` in
/// the width of `x`, and abort when `n` reaches that width; a `u256`
/// is never too narrow, and shifts to `x * 2^n mod 2^256` and to
/// `x / 2^n`.
pub proof fn lemma_shifts(s: StateModel, m: AdamantCompiledModule, rest: Seq<ValueModel>, x: ValueModel, n: u8)
    requires
        s.frames.len() > 0,
        s.frames.last().stack == rest.push(x).push(ValueModel::U8(n)),
    ensures
        x matches ValueModel::U8(a) ==> shifts_give(s, m, rest, 8, n, ValueModel::U8(a << n), ValueModel::U8(a >> n)),
        x matches ValueModel::U16(a) ==> shifts_give(s, m, rest, 16, n, ValueModel::U16(a << n), ValueModel::U16(a >> n)),
        x matches ValueModel::U32(a) ==> shifts_give(s, m, rest, 32, n, ValueModel::U32(a << n), ValueModel::U32(a >> n)),
        x matches ValueModel::U64(a) ==> shifts_give(s, m, rest, 64, n, ValueModel::U64(a << n), ValueModel::U64(a >> n)),
        x matches ValueModel::U128(a) ==> shifts_give(s, m, rest, 128, n, ValueModel::U128(a << n), ValueModel::U128(a >> n)),
        x matches ValueModel::U256(a) ==> shifts_give(
            s, m, rest, 256, n,
            ValueModel::U256((a * crate::u256::pow2(n as nat)) % 0x1_0000_0000_0000_0000_0000_0000_0000_0000_0000_0000_0000_0000_0000_0000_0000_0000nat),
            ValueModel::U256(a / crate::u256::pow2(n as nat)),
        ),
{
    let st = rest.push(x).push(ValueModel::U8(n));
    assert(st.last() == ValueModel::U8(n));
    assert(st.drop_last() == rest.push(x));
    assert(rest.push(x).last() == x);
    assert(rest.push(x).drop_last() == rest);
    assert(forall|v: ValueModel| rest + seq![v] == rest.push(v));
    lemma_two_pow_256_literal();
}

} // verus!
