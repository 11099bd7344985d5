//! The interpreter: the call stack, the gas tracker, and the meaning
//! of each instruction as one step of the executing frame.
//!
//! [`spec_dispatch`] states what dispatching one instruction does to
//! the model of the interpreter state: the outcome or error, and the
//! state after it (after an error, the state the instruction left,
//! which the caller discards with the transaction).
//! [`dispatch_instruction`] is proved to do exactly that.

use crate::bytecode::{
    AdamantBytecode, Bytecode, BytecodeInstruction, FunctionHandleIndex,
    FunctionInstantiationIndex, GasDimension, StructDefinitionIndex, EnumDefinitionIndex,
};
use crate::module::AdamantCompiledModule;
use crate::runtime::constants::{decode_constant, spec_decode_constant};
use crate::runtime::error::{AbortReason, InvariantViolationReason, VMError};
use crate::runtime::frame::{
    as_bool, as_u64, as_u8, out_of_bounds, pop_as, type_mismatch, underflow, Frame, FrameModel,
};
use crate::runtime::gas::GasTracker;
use crate::runtime::module_helpers::{
    resolve_constant, resolve_struct_def_instantiation, resolve_struct_field_count,
    resolve_variant_field_count, resolve_variant_instantiation_handle, spec_struct_def_instantiation,
    spec_struct_field_count, spec_variant_field_count, spec_variant_handle,
    spec_variant_instantiation_handle,
};
use crate::runtime::ops::{
    arith_values, bitop_values, cast_value, cmp_values, res_model, shift_value, spec_arith,
    spec_bitop, spec_cast, spec_cmp, spec_shift, ArithOp, BitOp, CastTarget, CmpOp, ShiftDir,
};
use crate::transaction::GasBudget;
use crate::value::{
    elements, seq_model, spec_apply, update_at, value_at, Reference, RefEdit, RefOp, StructValue,
    Value, ValueModel, VariantValue, opt_model,
};
use crate::runtime::frame::not_initialized;
use crate::runtime::module_helpers::spec_function_def_position;
use crate::bytecode::JumpTableInner;
use vstd::prelude::*;

verus! {

/// The model of the interpreter state.
pub struct StateModel {
    /// Models of the frames, bottom first; the last one executes.
    pub frames: Seq<FrameModel>,
    /// The gas tracker.
    pub gas: GasTracker,
}

/// The call stack and gas tracker of one transaction's execution.
#[derive(Debug, Default)]
pub struct InterpreterState {
    frames: Vec<Frame>,
    gas_tracker: GasTracker,
}

/// What the driver of the dispatch loop does after an instruction.
#[derive(Debug, Clone, Copy, PartialEq, Eq, Hash)]
pub enum DispatchOutcome {
    /// Dispatch the next instruction.
    Continue,
    /// The call stack is empty: execution is complete.
    Halt,
    /// Push a frame for the function handle.
    Call(FunctionHandleIndex),
    /// Push a frame for the generic instantiation.
    CallGeneric(FunctionInstantiationIndex),
    /// Push a shielded frame for the function handle.
    InvokeShielded(FunctionHandleIndex),
    /// Push a transparent frame for the function handle.
    InvokeTransparent(FunctionHandleIndex),
    /// A cryptographic instruction: take its request from the
    /// executing frame, compute it, and complete the instruction with
    /// the result.
    Crypto,
}

/// The models of a sequence of frames.
pub open spec fn frames_model(s: Seq<Frame>) -> Seq<FrameModel> {
    s.map_values(|f: Frame| f.model())
}

/// Replacing a frame replaces its model.
pub broadcast proof fn lemma_frames_model_update(s: Seq<Frame>, i: int, fr: Frame)
    requires
        0 <= i < s.len(),
    ensures
        #[trigger] frames_model(s.update(i, fr)) == frames_model(s).update(i, fr.model()),
{
    assert(frames_model(s.update(i, fr)) =~= frames_model(s).update(i, fr.model()));
}

impl InterpreterState {
    /// The model of the state.
    pub closed spec fn model(self) -> StateModel {
        StateModel {
            frames: frames_model(self.frames@),
            gas: self.gas_tracker,
        }
    }

    /// An empty call stack and an empty gas tracker.
    pub fn new() -> (r: Self)
        ensures
            r.model().frames.len() == 0,
            forall|d: GasDimension| #[trigger] r.model().gas.spec_remaining(d) == 0,
    {
        let r = InterpreterState { frames: Vec::new(), gas_tracker: GasTracker::empty() };
        assert(r.model().frames =~= Seq::empty());
        r
    }

    /// Whether the call stack is empty.
    pub fn is_empty(&self) -> (r: bool)
        ensures
            r == (self.model().frames.len() == 0),
    {
        self.frames.len() == 0
    }

    /// The number of frames on the call stack.
    pub fn frame_depth(&self) -> (r: usize)
        ensures
            r == self.model().frames.len(),
    {
        self.frames.len()
    }

    /// Pushes a frame on the call stack.
    pub fn push_frame(&mut self, frame: Frame)
        ensures
            final(self).model() == (StateModel {
                frames: old(self).model().frames.push(frame.model()),
                ..old(self).model()
            }),
    {
        let ghost fm = frame.model();
        self.frames.push(frame);
        assert(self.model().frames =~= old(self).model().frames.push(fm));
    }

    /// Pops the top frame, if any.
    pub fn pop_frame(&mut self) -> (r: Option<Frame>)
        ensures
            old(self).model().frames.len() == 0 ==> r is None && final(self).model() == old(
                self,
            ).model(),
            old(self).model().frames.len() > 0 ==> (r matches Some(f) && f.model() == old(
                self,
            ).model().frames.last() && final(self).model() == (StateModel {
                frames: old(self).model().frames.drop_last(),
                ..old(self).model()
            })),
    {
        let r = self.frames.pop();
        proof {
            if old(self).frames@.len() > 0 {
                assert(self.model().frames =~= old(self).model().frames.drop_last());
            }
        }
        r
    }

    /// The top frame, if any.
    pub fn top_frame(&self) -> (r: Option<&Frame>)
        ensures
            self.model().frames.len() == 0 ==> r is None,
            self.model().frames.len() > 0 ==> (r matches Some(f) && f.model()
                == self.model().frames.last()),
    {
        let n = self.frames.len();
        if n == 0 {
            None
        } else {
            Some(&self.frames[n - 1])
        }
    }

    /// The top frame, to update in place, if any.
    pub fn top_frame_mut(&mut self) -> (r: Option<&mut Frame>)
        ensures
            old(self).model().frames.len() == 0 ==> r is None && final(self).model() == old(self).model(),
            old(self).model().frames.len() > 0 ==> (r matches Some(f) && f.model()
                == old(self).model().frames.last() && final(self).model() == with_top(
                old(self).model(),
                final(f).model(),
            )),
    {
        broadcast use lemma_frames_model_update;

        let n = self.frames.len();
        if n == 0 {
            None
        } else {
            Some(&mut self.frames[n - 1])
        }
    }

    /// Installs the gas budget of a transaction.
    pub fn set_gas_budget(&mut self, budget: &GasBudget)
        ensures
            final(self).model() == (StateModel {
                gas: GasTracker::of_budget(*budget),
                ..old(self).model()
            }),
    {
        self.gas_tracker = GasTracker::from_budget(budget);
    }

    /// The gas tracker.
    pub fn gas_tracker(&self) -> (r: &GasTracker)
        ensures
            *r == self.model().gas,
    {
        &self.gas_tracker
    }

    /// Charges `amount` against `dimension`.
    pub fn charge_gas(&mut self, dimension: GasDimension, amount: u64) -> (r: Result<(), VMError>)
        ensures
            match old(self).model().gas.spec_charge(dimension, amount) {
                Ok(t) => r is Ok && final(self).model() == (StateModel {
                    gas: t,
                    ..old(self).model()
                }),
                Err(e) => r == Err::<(), VMError>(e) && final(self).model() == old(self).model(),
            },
    {
        self.gas_tracker.charge(dimension, amount)
    }

    /// The remaining budget of `dimension`.
    pub fn remaining_gas(&self, dimension: GasDimension) -> (r: u64)
        ensures
            r == self.model().gas.spec_remaining(dimension),
    {
        self.gas_tracker.remaining(dimension)
    }
}

impl InterpreterState {
    /// Pops the top `n` values of the executing frame, in stack order,
    /// and pairs them with `tag`.
    pub fn take_top_values(&mut self, n: usize, tag: usize) -> (r: Result<(Vec<Value>, usize), VMError>)
        ensures
            (match r {
                Ok((args, t)) => Ok((seq_model(args@), t as nat)),
                Err(e) => Err(e),
            }, final(self).model()) == (if old(self).model().frames.len() == 0 {
                (Err(underflow()), old(self).model())
            } else {
                match pop_n(old(self).model().frames.last(), n as nat) {
                    (Err(e), g) => (Err(e), with_top(old(self).model(), g)),
                    (Ok(args), g) => (Ok((args, tag as nat)), with_top(old(self).model(), g)),
                }
            }),
    {
        let ghost s0 = self.model();
        if self.frames.len() == 0 {
            return Err(VMError::InvariantViolation { reason: InvariantViolationReason::StackUnderflow });
        }
        let mut top = self.frames.pop().unwrap();
        let popped = pop_n_values(&mut top, n);
        let ghost tm = top.model();
        self.frames.push(top);
        assert(self.model().frames =~= with_top(s0, tm).frames);
        match popped {
            Ok(args) => Ok((args, tag)),
            Err(e) => Err(e),
        }
    }

    /// Pushes `values` in order on the executing frame.
    pub fn push_top_values(&mut self, values: Vec<Value>) -> (r: Result<(), VMError>)
        ensures
            old(self).model().frames.len() == 0 ==> r == Err::<(), VMError>(underflow())
                && final(self).model() == old(self).model(),
            old(self).model().frames.len() > 0 ==> r == Ok::<(), VMError>(()) && final(self).model() == with_top(
                old(self).model(),
                push_all(old(self).model().frames.last(), seq_model(values@)),
            ),
    {
        let ghost s0 = self.model();
        if self.frames.len() == 0 {
            return Err(VMError::InvariantViolation { reason: InvariantViolationReason::StackUnderflow });
        }
        let mut top = self.frames.pop().unwrap();
        push_values(&mut top, values);
        let ghost tm = top.model();
        self.frames.push(top);
        assert(self.model().frames =~= with_top(s0, tm).frames);
        Ok(())
    }
}

// ---------- The semantics of one step ----------

/// The error of an instruction this runtime does not dispatch.
pub open spec fn invalid_at(f: FrameModel) -> VMError {
    VMError::InvalidInstruction { function_handle: f.function_handle, pc: f.pc }
}

/// Continuing after pushing the computed value, or the error.
pub open spec fn then_push(r: (Result<ValueModel, VMError>, FrameModel)) -> (Result<DispatchOutcome, VMError>, FrameModel) {
    match r {
        (Ok(v), f) => (Ok(DispatchOutcome::Continue), f.push(v).advance()),
        (Err(e), f) => (Err(e), f),
    }
}

/// Popping the right operand, then the left one.
pub open spec fn pop2(f: FrameModel) -> (Result<(ValueModel, ValueModel), VMError>, FrameModel) {
    match f.pop() {
        (Err(e), g) => (Err(e), g),
        (Ok(rhs), g) => match g.pop() {
            (Err(e), h) => (Err(e), h),
            (Ok(lhs), h) => (Ok((lhs, rhs)), h),
        },
    }
}

/// A binary instruction: pop both operands and push `op(lhs, rhs)`.
pub open spec fn binary(f: FrameModel, op: spec_fn(ValueModel, ValueModel) -> Result<ValueModel, VMError>) -> (Result<DispatchOutcome, VMError>, FrameModel) {
    match pop2(f) {
        (Err(e), g) => (Err(e), g),
        (Ok((lhs, rhs)), g) => then_push((op(lhs, rhs), g)),
    }
}

/// A unary instruction: pop the operand and push `op(v)`.
pub open spec fn unary(f: FrameModel, op: spec_fn(ValueModel) -> Result<ValueModel, VMError>) -> (Result<DispatchOutcome, VMError>, FrameModel) {
    match f.pop() {
        (Err(e), g) => (Err(e), g),
        (Ok(v), g) => then_push((op(v), g)),
    }
}

/// The boolean and/or: pop two booleans and push the result.
pub open spec fn logic(f: FrameModel, is_and: bool) -> (Result<DispatchOutcome, VMError>, FrameModel) {
    match pop_as(f, |v: ValueModel| as_bool(v)) {
        (Err(e), g) => (Err(e), g),
        (Ok(rhs), g) => match pop_as(g, |v: ValueModel| as_bool(v)) {
            (Err(e), h) => (Err(e), h),
            (Ok(lhs), h) => (
                Ok(DispatchOutcome::Continue),
                h.push(ValueModel::Bool(if is_and { lhs && rhs } else { lhs || rhs })).advance(),
            ),
        },
    }
}

/// A shift: pop the bit count, then the value.
pub open spec fn shift(f: FrameModel, dir: ShiftDir) -> (Result<DispatchOutcome, VMError>, FrameModel) {
    match pop_as(f, |v: ValueModel| as_u8(v)) {
        (Err(e), g) => (Err(e), g),
        (Ok(n), g) => match g.pop() {
            (Err(e), h) => (Err(e), h),
            (Ok(lhs), h) => then_push((spec_shift(dir, lhs, n), h)),
        },
    }
}

/// Popping the top `n` values, in stack order (the top one last).
/// With fewer values, every value is popped and the pop underflows.
pub open spec fn pop_n(f: FrameModel, n: nat) -> (Result<Seq<ValueModel>, VMError>, FrameModel) {
    if n <= f.stack.len() {
        (
            Ok(f.stack.subrange(f.stack.len() - n, f.stack.len() as int)),
            FrameModel { stack: f.stack.subrange(0, f.stack.len() - n), ..f },
        )
    } else {
        (Err(underflow()), FrameModel { stack: Seq::empty(), ..f })
    }
}

/// Pushing values in order (the last one ends on top).
pub open spec fn push_all(f: FrameModel, vs: Seq<ValueModel>) -> FrameModel {
    FrameModel { stack: f.stack + vs, ..f }
}

/// Packing a struct of `count` fields.
pub open spec fn pack(f: FrameModel, count: Result<nat, VMError>) -> (Result<DispatchOutcome, VMError>, FrameModel) {
    match count {
        Err(e) => (Err(e), f),
        Ok(n) => match pop_n(f, n) {
            (Err(e), g) => (Err(e), g),
            (Ok(fields), g) => (
                Ok(DispatchOutcome::Continue),
                g.push(ValueModel::Struct(fields)).advance(),
            ),
        },
    }
}

/// Unpacking a struct whose definition lookup gave `count`.
pub open spec fn unpack(f: FrameModel, count: Result<nat, VMError>) -> (Result<DispatchOutcome, VMError>, FrameModel) {
    match count {
        Err(e) => (Err(e), f),
        Ok(_) => match f.pop() {
            (Err(e), g) => (Err(e), g),
            (Ok(ValueModel::Struct(fields)), g) => (
                Ok(DispatchOutcome::Continue),
                push_all(g, fields).advance(),
            ),
            (Ok(_), g) => (Err(type_mismatch()), g),
        },
    }
}

/// Packing variant `tag` of enum `e`.
pub open spec fn pack_variant(f: FrameModel, m: AdamantCompiledModule, handle: Result<(EnumDefinitionIndex, u16), VMError>) -> (Result<DispatchOutcome, VMError>, FrameModel) {
    match handle {
        Err(err) => (Err(err), f),
        Ok((e, tag)) => match spec_variant_field_count(m, e, tag) {
            Err(err) => (Err(err), f),
            Ok(n) => match pop_n(f, n) {
                (Err(err), g) => (Err(err), g),
                (Ok(fields), g) => (
                    Ok(DispatchOutcome::Continue),
                    g.push(ValueModel::Variant(tag, fields)).advance(),
                ),
            },
        },
    }
}

/// The error of a variant whose tag is not the instruction's.
pub open spec fn tag_mismatch() -> VMError {
    VMError::InvariantViolation { reason: InvariantViolationReason::VariantTagMismatch }
}

/// Unpacking an owned variant that must have tag `tag`.
pub open spec fn unpack_variant(f: FrameModel, handle: Result<(EnumDefinitionIndex, u16), VMError>) -> (Result<DispatchOutcome, VMError>, FrameModel) {
    match handle {
        Err(err) => (Err(err), f),
        Ok((_, tag)) => match f.pop() {
            (Err(err), g) => (Err(err), g),
            (Ok(ValueModel::Variant(t, fields)), g) => if t == tag {
                (Ok(DispatchOutcome::Continue), push_all(g, fields).advance())
            } else {
                (Err(tag_mismatch()), g)
            },
            (Ok(_), g) => (Err(type_mismatch()), g),
        },
    }
}

/// Packing a vector of `n` elements.
pub open spec fn vec_pack(f: FrameModel, n: u64) -> (Result<DispatchOutcome, VMError>, FrameModel) {
    if n > usize::MAX {
        (Err(out_of_bounds()), f)
    } else {
        match pop_n(f, n as nat) {
            (Err(e), g) => (Err(e), g),
            (Ok(elems), g) => (
                Ok(DispatchOutcome::Continue),
                g.push(ValueModel::Vector(elems)).advance(),
            ),
        }
    }
}

/// Unpacking a vector that must have `n` elements.
pub open spec fn vec_unpack(f: FrameModel, n: u64) -> (Result<DispatchOutcome, VMError>, FrameModel) {
    if n > usize::MAX {
        (Err(out_of_bounds()), f)
    } else {
        match f.pop() {
            (Err(e), g) => (Err(e), g),
            (Ok(ValueModel::Vector(elems)), g) => if elems.len() == n {
                (Ok(DispatchOutcome::Continue), push_all(g, elems).advance())
            } else {
                (Err(out_of_bounds()), g)
            },
            (Ok(_), g) => (Err(type_mismatch()), g),
        }
    }
}

/// Loading constant `idx`.
pub open spec fn ld_const(f: FrameModel, m: AdamantCompiledModule, idx: crate::bytecode::ConstantPoolIndex) -> (Result<DispatchOutcome, VMError>, FrameModel) {
    if idx.0 >= m.constant_pool@.len() {
        (Err(out_of_bounds()), f)
    } else {
        let c = m.constant_pool@[idx.0 as int];
        match spec_decode_constant(c.type_, c.data@) {
            Ok(v) => (Ok(DispatchOutcome::Continue), f.push(v).advance()),
            Err(e) => (Err(e), f),
        }
    }
}

/// The error of an opcode of the retired global-storage family.
pub open spec fn deprecated() -> VMError {
    VMError::InvariantViolation { reason: InvariantViolationReason::DeprecatedOpcodePostVerification }
}

/// One step of the executing frame for an inherited instruction
/// other than `Ret`.
pub open spec fn spec_step_inherited(op: Bytecode, f: FrameModel, m: AdamantCompiledModule) -> (Result<DispatchOutcome, VMError>, FrameModel) {
    match op {
        Bytecode::Pop => match f.pop() {
            (Ok(_), g) => (Ok(DispatchOutcome::Continue), g.advance()),
            (Err(e), g) => (Err(e), g),
        },
        Bytecode::Branch(t) => (Ok(DispatchOutcome::Continue), f.jump(t)),
        Bytecode::BrTrue(t) => match pop_as(f, |v: ValueModel| as_bool(v)) {
            (Ok(c), g) => (Ok(DispatchOutcome::Continue), if c { g.jump(t) } else { g.advance() }),
            (Err(e), g) => (Err(e), g),
        },
        Bytecode::BrFalse(t) => match pop_as(f, |v: ValueModel| as_bool(v)) {
            (Ok(c), g) => (Ok(DispatchOutcome::Continue), if c { g.advance() } else { g.jump(t) }),
            (Err(e), g) => (Err(e), g),
        },
        Bytecode::LdU8(x) => (Ok(DispatchOutcome::Continue), f.push(ValueModel::U8(x)).advance()),
        Bytecode::LdU16(x) => (Ok(DispatchOutcome::Continue), f.push(ValueModel::U16(x)).advance()),
        Bytecode::LdU32(x) => (Ok(DispatchOutcome::Continue), f.push(ValueModel::U32(x)).advance()),
        Bytecode::LdU64(x) => (Ok(DispatchOutcome::Continue), f.push(ValueModel::U64(x)).advance()),
        Bytecode::LdU128(x) => (Ok(DispatchOutcome::Continue), f.push(ValueModel::U128(*x)).advance()),
        Bytecode::LdU256(x) => (Ok(DispatchOutcome::Continue), f.push(ValueModel::U256(x.value())).advance()),
        Bytecode::LdTrue => (Ok(DispatchOutcome::Continue), f.push(ValueModel::Bool(true)).advance()),
        Bytecode::LdFalse => (Ok(DispatchOutcome::Continue), f.push(ValueModel::Bool(false)).advance()),
        Bytecode::CastU8 => unary(f, |v: ValueModel| spec_cast(CastTarget::U8, v)),
        Bytecode::CastU16 => unary(f, |v: ValueModel| spec_cast(CastTarget::U16, v)),
        Bytecode::CastU32 => unary(f, |v: ValueModel| spec_cast(CastTarget::U32, v)),
        Bytecode::CastU64 => unary(f, |v: ValueModel| spec_cast(CastTarget::U64, v)),
        Bytecode::CastU128 => unary(f, |v: ValueModel| spec_cast(CastTarget::U128, v)),
        Bytecode::CastU256 => unary(f, |v: ValueModel| spec_cast(CastTarget::U256, v)),
        Bytecode::CopyLoc(i) => match f.copy_loc(i) {
            Ok(v) => (Ok(DispatchOutcome::Continue), f.push(v).advance()),
            Err(e) => (Err(e), f),
        },
        Bytecode::MoveLoc(i) => match f.move_loc(i) {
            (Ok(v), g) => (Ok(DispatchOutcome::Continue), g.push(v).advance()),
            (Err(e), g) => (Err(e), g),
        },
        Bytecode::StLoc(i) => match f.pop() {
            (Err(e), g) => (Err(e), g),
            (Ok(v), g) => match g.st_loc(i, v) {
                Ok(h) => (Ok(DispatchOutcome::Continue), h.advance()),
                Err(e) => (Err(e), g),
            },
        },
        Bytecode::Add => binary(f, |l: ValueModel, r: ValueModel| spec_arith(ArithOp::Add, l, r)),
        Bytecode::Sub => binary(f, |l: ValueModel, r: ValueModel| spec_arith(ArithOp::Sub, l, r)),
        Bytecode::Mul => binary(f, |l: ValueModel, r: ValueModel| spec_arith(ArithOp::Mul, l, r)),
        Bytecode::Div => binary(f, |l: ValueModel, r: ValueModel| spec_arith(ArithOp::Div, l, r)),
        Bytecode::Mod => binary(f, |l: ValueModel, r: ValueModel| spec_arith(ArithOp::Mod, l, r)),
        Bytecode::BitAnd => binary(f, |l: ValueModel, r: ValueModel| spec_bitop(BitOp::And, l, r)),
        Bytecode::BitOr => binary(f, |l: ValueModel, r: ValueModel| spec_bitop(BitOp::Or, l, r)),
        Bytecode::Xor => binary(f, |l: ValueModel, r: ValueModel| spec_bitop(BitOp::Xor, l, r)),
        Bytecode::And => logic(f, true),
        Bytecode::Or => logic(f, false),
        Bytecode::Not => match pop_as(f, |v: ValueModel| as_bool(v)) {
            (Ok(b), g) => (Ok(DispatchOutcome::Continue), g.push(ValueModel::Bool(!b)).advance()),
            (Err(e), g) => (Err(e), g),
        },
        Bytecode::Eq => binary(f, |l: ValueModel, r: ValueModel| Ok(ValueModel::Bool(l == r))),
        Bytecode::Neq => binary(f, |l: ValueModel, r: ValueModel| Ok(ValueModel::Bool(l != r))),
        Bytecode::Lt => binary(f, |l: ValueModel, r: ValueModel| cmp_result(spec_cmp(CmpOp::Lt, l, r))),
        Bytecode::Gt => binary(f, |l: ValueModel, r: ValueModel| cmp_result(spec_cmp(CmpOp::Gt, l, r))),
        Bytecode::Le => binary(f, |l: ValueModel, r: ValueModel| cmp_result(spec_cmp(CmpOp::Le, l, r))),
        Bytecode::Ge => binary(f, |l: ValueModel, r: ValueModel| cmp_result(spec_cmp(CmpOp::Ge, l, r))),
        Bytecode::Shl => shift(f, ShiftDir::Left),
        Bytecode::Shr => shift(f, ShiftDir::Right),
        Bytecode::Abort => match pop_as(f, |v: ValueModel| as_u64(v)) {
            (Ok(code), g) => (Err(VMError::AbortError { reason: AbortReason::UserAbort { code } }), g),
            (Err(e), g) => (Err(e), g),
        },
        Bytecode::Nop | Bytecode::FreezeRef => (Ok(DispatchOutcome::Continue), f.advance()),
        Bytecode::ExistsDeprecated(_)
        | Bytecode::ExistsGenericDeprecated(_)
        | Bytecode::MoveFromDeprecated(_)
        | Bytecode::MoveFromGenericDeprecated(_)
        | Bytecode::MoveToDeprecated(_)
        | Bytecode::MoveToGenericDeprecated(_)
        | Bytecode::MutBorrowGlobalDeprecated(_)
        | Bytecode::MutBorrowGlobalGenericDeprecated(_)
        | Bytecode::ImmBorrowGlobalDeprecated(_)
        | Bytecode::ImmBorrowGlobalGenericDeprecated(_) => (Err(deprecated()), f),
        Bytecode::LdConst(idx) => ld_const(f, m, idx),
        Bytecode::Call(h) => (Ok(DispatchOutcome::Call(h)), f.advance()),
        Bytecode::CallGeneric(i) => (Ok(DispatchOutcome::CallGeneric(i)), f.advance()),
        Bytecode::Pack(s) => pack(f, spec_struct_field_count(m, s)),
        Bytecode::PackGeneric(i) => match spec_struct_def_instantiation(m, i) {
            Ok(s) => pack(f, spec_struct_field_count(m, s)),
            Err(e) => (Err(e), f),
        },
        Bytecode::Unpack(s) => unpack(f, spec_struct_field_count(m, s)),
        Bytecode::UnpackGeneric(i) => match spec_struct_def_instantiation(m, i) {
            Ok(s) => unpack(f, spec_struct_field_count(m, s)),
            Err(e) => (Err(e), f),
        },
        Bytecode::VecPack(_, n) => vec_pack(f, n),
        Bytecode::VecUnpack(_, n) => vec_unpack(f, n),
        Bytecode::PackVariant(h) => pack_variant(f, m, spec_variant_handle(m, h)),
        Bytecode::PackVariantGeneric(i) => pack_variant(f, m, spec_variant_instantiation_handle(m, i)),
        Bytecode::UnpackVariant(h) => unpack_variant(f, spec_variant_handle(m, h)),
        Bytecode::UnpackVariantGeneric(i) => unpack_variant(f, spec_variant_instantiation_handle(m, i)),
        _ => (Err(invalid_at(f)), f),
    }
}

/// A comparison's boolean as a model.
pub open spec fn cmp_result(r: Result<bool, VMError>) -> Result<ValueModel, VMError> {
    match r {
        Ok(b) => Ok(ValueModel::Bool(b)),
        Err(e) => Err(e),
    }
}

/// The abort of `OutOfGas`.
pub open spec fn out_of_gas_abort() -> VMError {
    VMError::AbortError { reason: AbortReason::OutOfGas { dimension: GasDimension::ProofGeneration } }
}

/// One step of the executing frame for an Adamant extension, with
/// the gas tracker.
pub open spec fn spec_step_adamant(op: AdamantBytecode, f: FrameModel, gas: GasTracker) -> (Result<DispatchOutcome, VMError>, FrameModel, GasTracker) {
    match op {
        AdamantBytecode::InvokeShielded(h) => (Ok(DispatchOutcome::InvokeShielded(h)), f.advance(), gas),
        AdamantBytecode::InvokeTransparent(h) => (Ok(DispatchOutcome::InvokeTransparent(h)), f.advance(), gas),
        AdamantBytecode::ChargeGas(d) => match pop_as(f, |v: ValueModel| as_u64(v)) {
            (Err(e), g) => (Err(e), g, gas),
            (Ok(amount), g) => match gas.spec_charge(d, amount) {
                Ok(t) => (Ok(DispatchOutcome::Continue), g.advance(), t),
                Err(e) => (Err(e), g, gas),
            },
        },
        AdamantBytecode::RemainingGas(d) => (
            Ok(DispatchOutcome::Continue),
            f.push(ValueModel::U64(gas.spec_remaining(d))).advance(),
            gas,
        ),
        AdamantBytecode::OutOfGas => (Err(out_of_gas_abort()), f, gas),
        AdamantBytecode::Sha3_256
        | AdamantBytecode::Blake3
        | AdamantBytecode::Ed25519Verify
        | AdamantBytecode::MlDsaVerify65
        | AdamantBytecode::BlsVerify
        | AdamantBytecode::ReleaseSubViewKey
        | AdamantBytecode::KzgCommit
        | AdamantBytecode::KzgVerify => (Ok(DispatchOutcome::Crypto), f, gas),
        _ => (Err(invalid_at(f)), f, gas),
    }
}

/// The state with the top frame replaced.
pub open spec fn with_top(s: StateModel, f: FrameModel) -> StateModel {
    StateModel { frames: s.frames.update(s.frames.len() - 1, f), ..s }
}


// ---------- References ----------

/// The reference a model holds, or a type mismatch.
pub open spec fn as_ref(v: ValueModel) -> Result<(usize, u8, Seq<usize>), VMError> {
    match v {
        ValueModel::Reference(fr, l, p) => Ok((fr, l, p)),
        _ => Err(type_mismatch()),
    }
}

/// The value reference `(fr, l, p)` designates in `s`.
pub open spec fn deref(s: StateModel, fr: usize, l: u8, p: Seq<usize>) -> Result<ValueModel, VMError> {
    if fr >= s.frames.len() {
        Err(out_of_bounds())
    } else if l >= s.frames[fr as int].locals.len() {
        Err(out_of_bounds())
    } else {
        match s.frames[fr as int].locals[l as int] {
            None => Err(not_initialized()),
            Some(v) => match value_at(v, p) {
                Some(t) => Ok(t),
                None => Err(out_of_bounds()),
            },
        }
    }
}

/// Making change `op` through reference `(fr, l, p)`: what the change
/// gives back and the state after it, or the error with `s` unchanged.
pub open spec fn modify(s: StateModel, fr: usize, l: u8, p: Seq<usize>, op: RefEdit) -> (Result<Option<ValueModel>, VMError>, StateModel) {
    if fr >= s.frames.len() {
        (Err(out_of_bounds()), s)
    } else if l >= s.frames[fr as int].locals.len() {
        (Err(out_of_bounds()), s)
    } else {
        let f = s.frames[fr as int];
        match f.locals[l as int] {
            None => (Err(not_initialized()), s),
            Some(v) => match value_at(v, p) {
                None => (Err(out_of_bounds()), s),
                Some(t) => match spec_apply(op, t) {
                    Err(e) => (Err(e), s),
                    Ok((nt, out)) => (
                        Ok(out),
                        StateModel {
                            frames: s.frames.update(
                                fr as int,
                                FrameModel { locals: f.locals.update(l as int, Some(update_at(v, p, nt))), ..f },
                            ),
                            ..s
                        },
                    ),
                },
            },
        }
    }
}

/// Popping a reference from the executing frame: the reference and
/// the state without it.
pub open spec fn pop_ref(s: StateModel) -> (Result<(usize, u8, Seq<usize>), VMError>, StateModel) {
    let (r, g) = pop_as(s.frames.last(), |v: ValueModel| as_ref(v));
    (r, with_top(s, g))
}

/// Popping a typed value from the executing frame.
pub open spec fn pop_top_as<T>(s: StateModel, read: spec_fn(ValueModel) -> Result<T, VMError>) -> (Result<T, VMError>, StateModel) {
    let (r, g) = pop_as(s.frames.last(), read);
    (r, with_top(s, g))
}

/// Continuing after pushing `v` on the executing frame.
pub open spec fn push_continue(s: StateModel, v: ValueModel) -> (Result<DispatchOutcome, VMError>, StateModel) {
    (Ok(DispatchOutcome::Continue), with_top(s, s.frames.last().push(v).advance()))
}

/// Continuing after advancing the executing frame.
pub open spec fn advance_continue(s: StateModel) -> (Result<DispatchOutcome, VMError>, StateModel) {
    (Ok(DispatchOutcome::Continue), with_top(s, s.frames.last().advance()))
}

/// Borrowing local `idx` of the executing frame.
pub open spec fn borrow_loc(s: StateModel, idx: u8) -> (Result<DispatchOutcome, VMError>, StateModel) {
    if idx >= s.frames.last().locals.len() {
        (Err(out_of_bounds()), s)
    } else {
        push_continue(s, ValueModel::Reference((s.frames.len() - 1) as usize, idx, Seq::empty()))
    }
}

/// Borrowing field `offset` of the struct a popped reference
/// designates.
pub open spec fn borrow_field(s: StateModel, offset: Result<usize, VMError>) -> (Result<DispatchOutcome, VMError>, StateModel) {
    match offset {
        Err(e) => (Err(e), s),
        Ok(k) => match pop_ref(s) {
            (Err(e), s1) => (Err(e), s1),
            (Ok((fr, l, p)), s1) => match deref(s1, fr, l, p) {
                Err(e) => (Err(e), s1),
                Ok(ValueModel::Struct(fs)) => if k < fs.len() {
                    push_continue(s1, ValueModel::Reference(fr, l, p.push(k)))
                } else {
                    (Err(out_of_bounds()), s1)
                },
                Ok(_) => (Err(type_mismatch()), s1),
            },
        },
    }
}

/// Reading through a popped reference.
pub open spec fn read_ref(s: StateModel) -> (Result<DispatchOutcome, VMError>, StateModel) {
    match pop_ref(s) {
        (Err(e), s1) => (Err(e), s1),
        (Ok((fr, l, p)), s1) => match deref(s1, fr, l, p) {
            Err(e) => (Err(e), s1),
            Ok(v) => push_continue(s1, v),
        },
    }
}

/// Writing the value below a popped reference through it.
pub open spec fn write_ref(s: StateModel) -> (Result<DispatchOutcome, VMError>, StateModel) {
    match pop_ref(s) {
        (Err(e), s1) => (Err(e), s1),
        (Ok((fr, l, p)), s1) => match s1.frames.last().pop() {
            (Err(e), g) => (Err(e), with_top(s1, g)),
            (Ok(v), g) => match modify(with_top(s1, g), fr, l, p, RefEdit::Write(v)) {
                (Err(e), s3) => (Err(e), s3),
                (Ok(_), s3) => advance_continue(s3),
            },
        },
    }
}

/// The length of the vector a popped reference designates.
pub open spec fn vec_len(s: StateModel) -> (Result<DispatchOutcome, VMError>, StateModel) {
    match pop_ref(s) {
        (Err(e), s1) => (Err(e), s1),
        (Ok((fr, l, p)), s1) => match deref(s1, fr, l, p) {
            Err(e) => (Err(e), s1),
            Ok(ValueModel::Vector(es)) => if es.len() > u64::MAX {
                (Err(out_of_bounds()), s1)
            } else {
                push_continue(s1, ValueModel::U64(es.len() as u64))
            },
            Ok(_) => (Err(type_mismatch()), s1),
        },
    }
}

/// Borrowing an element of the vector a reference designates: the
/// index is popped first, then the reference.
pub open spec fn vec_borrow(s: StateModel) -> (Result<DispatchOutcome, VMError>, StateModel) {
    match pop_top_as(s, |v: ValueModel| as_u64(v)) {
        (Err(e), s1) => (Err(e), s1),
        (Ok(i), s1) => match pop_ref(s1) {
            (Err(e), s2) => (Err(e), s2),
            (Ok((fr, l, p)), s2) => if i > usize::MAX {
                (Err(out_of_bounds()), s2)
            } else {
                match deref(s2, fr, l, p) {
                    Err(e) => (Err(e), s2),
                    Ok(ValueModel::Vector(es)) => if i < es.len() {
                        push_continue(s2, ValueModel::Reference(fr, l, p.push(i as usize)))
                    } else {
                        (Err(out_of_bounds()), s2)
                    },
                    Ok(_) => (Err(type_mismatch()), s2),
                }
            },
        },
    }
}

/// Appending a popped value to the vector a reference below it
/// designates.
pub open spec fn vec_push_back(s: StateModel) -> (Result<DispatchOutcome, VMError>, StateModel) {
    match s.frames.last().pop() {
        (Err(e), g) => (Err(e), with_top(s, g)),
        (Ok(v), g) => match pop_ref(with_top(s, g)) {
            (Err(e), s2) => (Err(e), s2),
            (Ok((fr, l, p)), s2) => match modify(s2, fr, l, p, RefEdit::PushBack(v)) {
                (Err(e), s3) => (Err(e), s3),
                (Ok(_), s3) => advance_continue(s3),
            },
        },
    }
}

/// Removing the last element of the vector a popped reference
/// designates, and pushing it.
pub open spec fn vec_pop_back(s: StateModel) -> (Result<DispatchOutcome, VMError>, StateModel) {
    match pop_ref(s) {
        (Err(e), s1) => (Err(e), s1),
        (Ok((fr, l, p)), s1) => match modify(s1, fr, l, p, RefEdit::PopBack) {
            (Ok(Some(x)), s2) => push_continue(s2, x),
            (Ok(None), s2) => (Err(out_of_bounds()), s2),
            (Err(e), s2) => (Err(e), s2),
        },
    }
}

/// Exchanging two elements of the vector a reference designates: the
/// second index is popped first, then the first, then the reference.
pub open spec fn vec_swap(s: StateModel) -> (Result<DispatchOutcome, VMError>, StateModel) {
    match pop_top_as(s, |v: ValueModel| as_u64(v)) {
        (Err(e), s1) => (Err(e), s1),
        (Ok(j), s1) => match pop_top_as(s1, |v: ValueModel| as_u64(v)) {
            (Err(e), s2) => (Err(e), s2),
            (Ok(i), s2) => match pop_ref(s2) {
                (Err(e), s3) => (Err(e), s3),
                (Ok((fr, l, p)), s3) => if i > usize::MAX || j > usize::MAX {
                    (Err(out_of_bounds()), s3)
                } else {
                    match modify(s3, fr, l, p, RefEdit::Swap(i as usize, j as usize)) {
                        (Err(e), s4) => (Err(e), s4),
                        (Ok(_), s4) => advance_continue(s4),
                    }
                },
            },
        },
    }
}

/// References to fields `0..n` below `(fr, l, p)`.
pub open spec fn field_refs(fr: usize, l: u8, p: Seq<usize>, n: nat) -> Seq<ValueModel> {
    Seq::new(n, |k: int| ValueModel::Reference(fr, l, p.push(k as usize)))
}

/// Unpacking, by reference, a variant that must have tag `tag`:
/// pushes a reference to each of its fields.
pub open spec fn unpack_variant_ref(s: StateModel, handle: Result<(EnumDefinitionIndex, u16), VMError>) -> (Result<DispatchOutcome, VMError>, StateModel) {
    match handle {
        Err(e) => (Err(e), s),
        Ok((_, tag)) => match pop_ref(s) {
            (Err(e), s1) => (Err(e), s1),
            (Ok((fr, l, p)), s1) => match deref(s1, fr, l, p) {
                Err(e) => (Err(e), s1),
                Ok(ValueModel::Variant(t, fs)) => if t != tag {
                    (Err(tag_mismatch()), s1)
                } else {
                    (
                        Ok(DispatchOutcome::Continue),
                        with_top(s1, push_all(s1.frames.last(), field_refs(fr, l, p, fs.len())).advance()),
                    )
                },
                Ok(_) => (Err(type_mismatch()), s1),
            },
        },
    }
}

/// The error of a variant tag outside its jump table.
pub open spec fn tag_out_of_range() -> VMError {
    VMError::InvariantViolation { reason: InvariantViolationReason::JumpTableTagOutOfRange }
}

/// The code offsets of jump table `jt` of the executing function.
pub open spec fn jump_table(s: StateModel, m: AdamantCompiledModule, jt: crate::bytecode::VariantJumpTableIndex) -> Result<Seq<u16>, VMError> {
    match spec_function_def_position(m, s.frames.last().function_handle) {
        None => Err(out_of_bounds()),
        Some(i) => match m.function_defs@[i].code {
            None => Err(out_of_bounds()),
            Some(code) => if jt.0 >= code.jump_tables@.len() {
                Err(out_of_bounds())
            } else {
                match code.jump_tables@[jt.0 as int].jump_table {
                    JumpTableInner::Full(offsets) => Ok(offsets@),
                }
            },
        },
    }
}

/// Branching on the tag of the variant a popped reference designates.
pub open spec fn variant_switch(s: StateModel, m: AdamantCompiledModule, jt: crate::bytecode::VariantJumpTableIndex) -> (Result<DispatchOutcome, VMError>, StateModel) {
    match jump_table(s, m, jt) {
        Err(e) => (Err(e), s),
        Ok(offsets) => match pop_ref(s) {
            (Err(e), s1) => (Err(e), s1),
            (Ok((fr, l, p)), s1) => match deref(s1, fr, l, p) {
                Err(e) => (Err(e), s1),
                Ok(ValueModel::Variant(t, _)) => if t < offsets.len() {
                    (Ok(DispatchOutcome::Continue), with_top(s1, s1.frames.last().jump(offsets[t as int])))
                } else {
                    (Err(tag_out_of_range()), s1)
                },
                Ok(_) => (Err(type_mismatch()), s1),
            },
        },
    }
}

/// The field position of generic field instantiation `i`.
pub open spec fn generic_field_offset(m: AdamantCompiledModule, i: crate::bytecode::FieldInstantiationIndex) -> Result<usize, VMError> {
    if i.0 >= m.field_instantiations@.len() {
        Err(out_of_bounds())
    } else {
        field_offset(m, m.field_instantiations@[i.0 as int].handle)
    }
}

/// The field position of field handle `h`.
pub open spec fn field_offset(m: AdamantCompiledModule, h: crate::bytecode::FieldHandleIndex) -> Result<usize, VMError> {
    if h.0 >= m.field_handles@.len() {
        Err(out_of_bounds())
    } else {
        Ok(m.field_handles@[h.0 as int].field as usize)
    }
}

/// Whether an instruction goes through references: these act on the
/// whole call stack rather than the executing frame alone.
pub open spec fn is_reference_op(op: Bytecode) -> bool {
    match op {
        Bytecode::ImmBorrowLoc(_) | Bytecode::MutBorrowLoc(_) | Bytecode::ImmBorrowField(_)
        | Bytecode::MutBorrowField(_) | Bytecode::ImmBorrowFieldGeneric(_)
        | Bytecode::MutBorrowFieldGeneric(_) | Bytecode::ReadRef | Bytecode::WriteRef
        | Bytecode::VecLen(_) | Bytecode::VecImmBorrow(_) | Bytecode::VecMutBorrow(_)
        | Bytecode::VecPushBack(_) | Bytecode::VecPopBack(_) | Bytecode::VecSwap(_)
        | Bytecode::UnpackVariantImmRef(_) | Bytecode::UnpackVariantMutRef(_)
        | Bytecode::UnpackVariantGenericImmRef(_) | Bytecode::UnpackVariantGenericMutRef(_)
        | Bytecode::VariantSwitch(_) => true,
        _ => false,
    }
}

/// One step of a reference instruction.
pub open spec fn spec_step_reference(op: Bytecode, s: StateModel, m: AdamantCompiledModule) -> (Result<DispatchOutcome, VMError>, StateModel) {
    match op {
        Bytecode::ImmBorrowLoc(i) | Bytecode::MutBorrowLoc(i) => borrow_loc(s, i),
        Bytecode::ImmBorrowField(h) | Bytecode::MutBorrowField(h) => borrow_field(s, field_offset(m, h)),
        Bytecode::ImmBorrowFieldGeneric(i) | Bytecode::MutBorrowFieldGeneric(i) => borrow_field(s, generic_field_offset(m, i)),
        Bytecode::ReadRef => read_ref(s),
        Bytecode::WriteRef => write_ref(s),
        Bytecode::VecLen(_) => vec_len(s),
        Bytecode::VecImmBorrow(_) | Bytecode::VecMutBorrow(_) => vec_borrow(s),
        Bytecode::VecPushBack(_) => vec_push_back(s),
        Bytecode::VecPopBack(_) => vec_pop_back(s),
        Bytecode::VecSwap(_) => vec_swap(s),
        Bytecode::UnpackVariantImmRef(h) | Bytecode::UnpackVariantMutRef(h) => unpack_variant_ref(s, spec_variant_handle(m, h)),
        Bytecode::UnpackVariantGenericImmRef(i) | Bytecode::UnpackVariantGenericMutRef(i) => unpack_variant_ref(s, spec_variant_instantiation_handle(m, i)),
        Bytecode::VariantSwitch(jt) => variant_switch(s, m, jt),
        _ => (Err(invalid_at(s.frames.last())), s),
    }
}

/// The error of a module lookup, or the underflow that follows it
/// when the lookup succeeds and the instruction then needs a frame.
pub open spec fn err_or_underflow<T>(r: Result<T, VMError>) -> VMError {
    match r {
        Err(e) => e,
        Ok(_) => underflow(),
    }
}

/// Whether an instruction has no meaning without an executing frame:
/// `Ret`, and the Adamant extensions that are not implemented, which
/// name the executing frame in their error.
pub open spec fn needs_a_frame(instr: BytecodeInstruction) -> bool {
    match instr {
        BytecodeInstruction::Inherited(Bytecode::Ret) => true,
        BytecodeInstruction::Adamant(op) => match op {
            AdamantBytecode::GenerateProof(_) | AdamantBytecode::VerifyProof(_)
            | AdamantBytecode::RecursiveVerify | AdamantBytecode::MlKemEncapsulate
            | AdamantBytecode::MlKemDecapsulate => true,
            _ => false,
        },
        _ => false,
    }
}

/// The error of dispatching with an empty call stack: what the
/// instruction looks up in the module fails first, as it would with a
/// frame; a retired global-storage instruction and `OutOfGas` fail as
/// they always do; anything else fails with an underflow.
pub open spec fn spec_dispatch_empty(instr: BytecodeInstruction, m: AdamantCompiledModule) -> VMError {
    match instr {
        BytecodeInstruction::Inherited(op) => match op {
            Bytecode::ExistsDeprecated(_)
            | Bytecode::ExistsGenericDeprecated(_)
            | Bytecode::MoveFromDeprecated(_)
            | Bytecode::MoveFromGenericDeprecated(_)
            | Bytecode::MoveToDeprecated(_)
            | Bytecode::MoveToGenericDeprecated(_)
            | Bytecode::MutBorrowGlobalDeprecated(_)
            | Bytecode::MutBorrowGlobalGenericDeprecated(_)
            | Bytecode::ImmBorrowGlobalDeprecated(_)
            | Bytecode::ImmBorrowGlobalGenericDeprecated(_) => deprecated(),
            Bytecode::LdConst(idx) => if idx.0 >= m.constant_pool@.len() {
                out_of_bounds()
            } else {
                let c = m.constant_pool@[idx.0 as int];
                err_or_underflow(spec_decode_constant(c.type_, c.data@))
            },
            Bytecode::Pack(sd) | Bytecode::Unpack(sd) => err_or_underflow(spec_struct_field_count(m, sd)),
            Bytecode::PackGeneric(i) | Bytecode::UnpackGeneric(i) => match spec_struct_def_instantiation(m, i) {
                Err(e) => e,
                Ok(sd) => err_or_underflow(spec_struct_field_count(m, sd)),
            },
            Bytecode::VecPack(_, n) | Bytecode::VecUnpack(_, n) => if n > usize::MAX {
                out_of_bounds()
            } else {
                underflow()
            },
            Bytecode::PackVariant(h) => match spec_variant_handle(m, h) {
                Err(e) => e,
                Ok((ed, tag)) => err_or_underflow(spec_variant_field_count(m, ed, tag)),
            },
            Bytecode::PackVariantGeneric(i) => match spec_variant_instantiation_handle(m, i) {
                Err(e) => e,
                Ok((ed, tag)) => err_or_underflow(spec_variant_field_count(m, ed, tag)),
            },
            Bytecode::UnpackVariant(h) | Bytecode::UnpackVariantImmRef(h) | Bytecode::UnpackVariantMutRef(h) =>
                err_or_underflow(spec_variant_handle(m, h)),
            Bytecode::UnpackVariantGeneric(i) | Bytecode::UnpackVariantGenericImmRef(i)
            | Bytecode::UnpackVariantGenericMutRef(i) => err_or_underflow(spec_variant_instantiation_handle(m, i)),
            Bytecode::ImmBorrowField(h) | Bytecode::MutBorrowField(h) => err_or_underflow(field_offset(m, h)),
            Bytecode::ImmBorrowFieldGeneric(i) | Bytecode::MutBorrowFieldGeneric(i) => err_or_underflow(
                generic_field_offset(m, i),
            ),
            _ => underflow(),
        },
        BytecodeInstruction::Adamant(AdamantBytecode::OutOfGas) => out_of_gas_abort(),
        BytecodeInstruction::Adamant(_) => underflow(),
    }
}

/// Dispatching one instruction: the outcome or error, and the state
/// after it.  `Ret` pops the executing frame and halts when it was the
/// last one.
pub open spec fn spec_dispatch(instr: BytecodeInstruction, s: StateModel, m: AdamantCompiledModule) -> (Result<DispatchOutcome, VMError>, StateModel) {
    if s.frames.len() == 0 {
        (Err(spec_dispatch_empty(instr, m)), s)
    } else {
    match instr {
        BytecodeInstruction::Inherited(Bytecode::Ret) => (
            Ok(if s.frames.len() == 1 { DispatchOutcome::Halt } else { DispatchOutcome::Continue }),
            StateModel { frames: s.frames.drop_last(), ..s },
        ),
        BytecodeInstruction::Inherited(op) => if is_reference_op(op) {
            spec_step_reference(op, s, m)
        } else {
            let (r, f) = spec_step_inherited(op, s.frames.last(), m);
            (r, with_top(s, f))
        },
        BytecodeInstruction::Adamant(op) => {
            let (r, f, gas) = spec_step_adamant(op, s.frames.last(), s.gas);
            (r, StateModel { frames: s.frames.update(s.frames.len() - 1, f), gas })
        },
    }
    }
}


// ---------- Executing one step ----------

/// Advances the program counter by one, wrapping.
fn advance_pc(frame: &mut Frame)
    ensures
        final(frame).model() == old(frame).model().advance(),
{
    frame.pc = if frame.pc == u16::MAX {
        0
    } else {
        frame.pc + 1
    };
}

/// Pushes `v`, advances and continues.
fn push_and_continue(frame: &mut Frame, v: Value) -> (r: Result<DispatchOutcome, VMError>)
    ensures
        r == Ok::<DispatchOutcome, VMError>(DispatchOutcome::Continue),
        final(frame).model() == old(frame).model().push(v.model()).advance(),
{
    frame.push_value(v);
    advance_pc(frame);
    Ok(DispatchOutcome::Continue)
}

/// The model of a sequence's slice is the slice of its model.
proof fn lemma_seq_model_subrange(s: Seq<Value>, a: int, b: int)
    requires
        0 <= a <= b <= s.len(),
    ensures
        seq_model(s.subrange(a, b)) == seq_model(s).subrange(a, b),
{
    assert(seq_model(s.subrange(a, b)) =~= seq_model(s).subrange(a, b));
}

/// Pops the top `n` values, in stack order.
pub fn pop_n_values(frame: &mut Frame, n: usize) -> (r: Result<Vec<Value>, VMError>)
    ensures
        (match r {
            Ok(v) => Ok(seq_model(v@)),
            Err(e) => Err(e),
        }, final(frame).model()) == pop_n(old(frame).model(), n as nat),
{
    let len = frame.stack.len();
    if n > len {
        frame.stack = Vec::new();
        assert(frame.model().stack =~= Seq::empty());
        return Err(VMError::InvariantViolation { reason: InvariantViolationReason::StackUnderflow });
    }
    let top = frame.stack.split_off(len - n);
    proof {
        lemma_seq_model_subrange(old(frame).stack@, 0, len - n);
        lemma_seq_model_subrange(old(frame).stack@, len - n, len as int);
    }
    Ok(top)
}

/// Pushes `values` in order.
pub fn push_values(frame: &mut Frame, values: Vec<Value>)
    ensures
        final(frame).model() == push_all(old(frame).model(), seq_model(values@)),
{
    let ghost added = values@;
    let mut values = values;
    frame.stack.append(&mut values);
    assert(frame.model().stack =~= old(frame).model().stack + seq_model(added));
}

/// `Pop`.
fn exec_pop(frame: &mut Frame) -> (r: Result<DispatchOutcome, VMError>)
    ensures
        (r, final(frame).model()) == spec_step_inherited(Bytecode::Pop, old(frame).model(), arbitrary()),
{
    frame.pop_value()?;
    advance_pc(frame);
    Ok(DispatchOutcome::Continue)
}

/// `BrTrue(target)` when `on` holds, `BrFalse(target)` otherwise.
fn exec_branch_if(frame: &mut Frame, target: u16, on: bool) -> (r: Result<DispatchOutcome, VMError>)
    ensures
        (r, final(frame).model()) == spec_step_inherited(
            if on { Bytecode::BrTrue(target) } else { Bytecode::BrFalse(target) },
            old(frame).model(),
            arbitrary(),
        ),
{
    let c = frame.pop_bool()?;
    if c == on {
        frame.pc = target;
    } else {
        advance_pc(frame);
    }
    Ok(DispatchOutcome::Continue)
}

/// A cast to `t`.
fn exec_cast(frame: &mut Frame, t: CastTarget) -> (r: Result<DispatchOutcome, VMError>)
    ensures
        (r, final(frame).model()) == unary(old(frame).model(), |v: ValueModel| spec_cast(t, v)),
{
    let v = frame.pop_value()?;
    let c = cast_value(t, v)?;
    push_and_continue(frame, c)
}

/// A checked arithmetic instruction.
fn exec_arith(frame: &mut Frame, op: ArithOp) -> (r: Result<DispatchOutcome, VMError>)
    ensures
        (r, final(frame).model()) == binary(
            old(frame).model(),
            |l: ValueModel, r: ValueModel| spec_arith(op, l, r),
        ),
{
    let rhs = frame.pop_value()?;
    let lhs = frame.pop_value()?;
    let v = arith_values(op, lhs, rhs)?;
    push_and_continue(frame, v)
}

/// A bitwise instruction.
fn exec_bitop(frame: &mut Frame, op: BitOp) -> (r: Result<DispatchOutcome, VMError>)
    ensures
        (r, final(frame).model()) == binary(
            old(frame).model(),
            |l: ValueModel, r: ValueModel| spec_bitop(op, l, r),
        ),
{
    let rhs = frame.pop_value()?;
    let lhs = frame.pop_value()?;
    let v = bitop_values(op, lhs, rhs)?;
    push_and_continue(frame, v)
}

/// An ordering instruction.
fn exec_cmp(frame: &mut Frame, op: CmpOp) -> (r: Result<DispatchOutcome, VMError>)
    ensures
        (r, final(frame).model()) == binary(
            old(frame).model(),
            |l: ValueModel, r: ValueModel| cmp_result(spec_cmp(op, l, r)),
        ),
{
    let rhs = frame.pop_value()?;
    let lhs = frame.pop_value()?;
    let b = cmp_values(op, lhs, rhs)?;
    push_and_continue(frame, Value::Bool(b))
}

/// `Eq`, or `Neq` when `negate` holds.
fn exec_eq(frame: &mut Frame, negate: bool) -> (r: Result<DispatchOutcome, VMError>)
    ensures
        (r, final(frame).model()) == spec_step_inherited(
            if negate { Bytecode::Neq } else { Bytecode::Eq },
            old(frame).model(),
            arbitrary(),
        ),
{
    let rhs = frame.pop_value()?;
    let lhs = frame.pop_value()?;
    let equal = lhs.equals(&rhs);
    push_and_continue(frame, Value::Bool(if negate { !equal } else { equal }))
}

/// `And`, or `Or` when `is_and` does not hold.
fn exec_logic(frame: &mut Frame, is_and: bool) -> (r: Result<DispatchOutcome, VMError>)
    ensures
        (r, final(frame).model()) == logic(old(frame).model(), is_and),
{
    let rhs = frame.pop_bool()?;
    let lhs = frame.pop_bool()?;
    push_and_continue(frame, Value::Bool(if is_and { lhs && rhs } else { lhs || rhs }))
}

/// `Not`.
fn exec_not(frame: &mut Frame) -> (r: Result<DispatchOutcome, VMError>)
    ensures
        (r, final(frame).model()) == spec_step_inherited(Bytecode::Not, old(frame).model(), arbitrary()),
{
    let b = frame.pop_bool()?;
    push_and_continue(frame, Value::Bool(!b))
}

/// A shift.
fn exec_shift(frame: &mut Frame, dir: ShiftDir) -> (r: Result<DispatchOutcome, VMError>)
    ensures
        (r, final(frame).model()) == shift(old(frame).model(), dir),
{
    let n = frame.pop_u8()?;
    let lhs = frame.pop_value()?;
    let v = shift_value(dir, lhs, n)?;
    push_and_continue(frame, v)
}

/// `Abort`: pops the abort code and aborts with it.
fn exec_abort(frame: &mut Frame) -> (r: Result<DispatchOutcome, VMError>)
    ensures
        (r, final(frame).model()) == spec_step_inherited(Bytecode::Abort, old(frame).model(), arbitrary()),
{
    let code = frame.pop_u64()?;
    Err(VMError::AbortError { reason: AbortReason::UserAbort { code } })
}

/// `CopyLoc(idx)`.
fn exec_copy_loc(frame: &mut Frame, idx: u8) -> (r: Result<DispatchOutcome, VMError>)
    ensures
        (r, final(frame).model()) == spec_step_inherited(Bytecode::CopyLoc(idx), old(frame).model(), arbitrary()),
{
    let v = frame.copy_loc(idx)?;
    push_and_continue(frame, v)
}

/// `MoveLoc(idx)`.
fn exec_move_loc(frame: &mut Frame, idx: u8) -> (r: Result<DispatchOutcome, VMError>)
    ensures
        (r, final(frame).model()) == spec_step_inherited(Bytecode::MoveLoc(idx), old(frame).model(), arbitrary()),
{
    let v = frame.move_loc(idx)?;
    push_and_continue(frame, v)
}

/// `StLoc(idx)`.
fn exec_st_loc(frame: &mut Frame, idx: u8) -> (r: Result<DispatchOutcome, VMError>)
    ensures
        (r, final(frame).model()) == spec_step_inherited(Bytecode::StLoc(idx), old(frame).model(), arbitrary()),
{
    let v = frame.pop_value()?;
    frame.st_loc(idx, v)?;
    advance_pc(frame);
    Ok(DispatchOutcome::Continue)
}

/// `LdConst(idx)`.
fn exec_ld_const(frame: &mut Frame, module: &AdamantCompiledModule, idx: crate::bytecode::ConstantPoolIndex) -> (r: Result<DispatchOutcome, VMError>)
    ensures
        (r, final(frame).model()) == ld_const(old(frame).model(), *module, idx),
{
    let constant = resolve_constant(module, idx)?;
    let v = decode_constant(&constant.type_, constant.data.as_slice())?;
    push_and_continue(frame, v)
}

/// Packs a struct of `n` fields.
fn exec_pack(frame: &mut Frame, n: usize) -> (r: Result<DispatchOutcome, VMError>)
    ensures
        (r, final(frame).model()) == pack(old(frame).model(), Ok(n as nat)),
{
    let fields = pop_n_values(frame, n)?;
    proof {
        crate::value::lemma_vec_model(fields);
    }
    push_and_continue(frame, Value::Struct(StructValue { fields }))
}

/// Unpacks a struct.
fn exec_unpack(frame: &mut Frame) -> (r: Result<DispatchOutcome, VMError>)
    ensures
        (r, final(frame).model()) == unpack(old(frame).model(), Ok(0)),
{
    let s = frame.pop_struct()?;
    push_values(frame, s.fields);
    advance_pc(frame);
    Ok(DispatchOutcome::Continue)
}

/// `VecPack(_, n)`.
fn exec_vec_pack(frame: &mut Frame, n: u64) -> (r: Result<DispatchOutcome, VMError>)
    ensures
        (r, final(frame).model()) == vec_pack(old(frame).model(), n),
{
    if n > usize::MAX as u64 {
        return Err(VMError::InvariantViolation { reason: InvariantViolationReason::IndexOutOfBoundsPostVerification });
    }
    let elements = pop_n_values(frame, n as usize)?;
    proof {
        crate::value::lemma_vec_model(elements);
    }
    push_and_continue(frame, Value::Vector(elements))
}

/// `VecUnpack(_, n)`.
fn exec_vec_unpack(frame: &mut Frame, n: u64) -> (r: Result<DispatchOutcome, VMError>)
    ensures
        (r, final(frame).model()) == vec_unpack(old(frame).model(), n),
{
    if n > usize::MAX as u64 {
        return Err(VMError::InvariantViolation { reason: InvariantViolationReason::IndexOutOfBoundsPostVerification });
    }
    let elements = frame.pop_vector()?;
    if elements.len() != n as usize {
        return Err(VMError::InvariantViolation { reason: InvariantViolationReason::IndexOutOfBoundsPostVerification });
    }
    push_values(frame, elements);
    advance_pc(frame);
    Ok(DispatchOutcome::Continue)
}

/// Packs variant `tag` of enum `e`.
fn exec_pack_variant(frame: &mut Frame, module: &AdamantCompiledModule, e: EnumDefinitionIndex, tag: u16) -> (r: Result<DispatchOutcome, VMError>)
    ensures
        (r, final(frame).model()) == pack_variant(old(frame).model(), *module, Ok((e, tag))),
{
    let n = resolve_variant_field_count(module, e, tag)?;
    let fields = pop_n_values(frame, n)?;
    proof {
        crate::value::lemma_vec_model(fields);
    }
    push_and_continue(frame, Value::Variant(VariantValue { tag, fields }))
}

/// Unpacks an owned variant that must have tag `tag`.
fn exec_unpack_variant(frame: &mut Frame, e: EnumDefinitionIndex, tag: u16) -> (r: Result<DispatchOutcome, VMError>)
    ensures
        (r, final(frame).model()) == unpack_variant(old(frame).model(), Ok((e, tag))),
{
    let v = frame.pop_value()?;
    match v {
        Value::Variant(variant) => {
            proof {
                crate::value::lemma_vec_model(variant.fields);
            }
            if variant.tag != tag {
                return Err(VMError::InvariantViolation { reason: InvariantViolationReason::VariantTagMismatch });
            }
            push_values(frame, variant.fields);
            advance_pc(frame);
            Ok(DispatchOutcome::Continue)
        },
        _ => Err(VMError::InvariantViolation { reason: InvariantViolationReason::TypeMismatchOnStack }),
    }
}

/// Pushes `v` on the executing frame, advances it and continues.
pub fn push_and_continue_top(state: &mut InterpreterState, v: Value) -> (r: Result<DispatchOutcome, VMError>)
    ensures
        old(state).model().frames.len() == 0 ==> r == Err::<DispatchOutcome, VMError>(underflow())
            && final(state).model() == old(state).model(),
        old(state).model().frames.len() > 0 ==> r == Ok::<DispatchOutcome, VMError>(DispatchOutcome::Continue)
            && final(state).model() == with_top(
            old(state).model(),
            old(state).model().frames.last().push(v.model()).advance(),
        ),
{
    let ghost s0 = state.model();
    if state.frames.len() == 0 {
        return Err(VMError::InvariantViolation { reason: InvariantViolationReason::StackUnderflow });
    }
    let mut frame = state.frames.pop().unwrap();
    let r = push_and_continue(&mut frame, v);
    let ghost fm = frame.model();
    state.frames.push(frame);
    assert(state.model().frames =~= with_top(s0, fm).frames);
    r
}

/// One step of the executing frame for an inherited instruction
/// other than `Ret`.
#[verifier::rlimit(50)]
fn step_inherited(op: &Bytecode, frame: &mut Frame, module: &AdamantCompiledModule) -> (r: Result<DispatchOutcome, VMError>)
    requires
        !(*op is Ret),
    ensures
        (r, final(frame).model()) == spec_step_inherited(*op, old(frame).model(), *module),
{
    match op {
        Bytecode::Pop => exec_pop(frame),
        Bytecode::Ret => Ok(DispatchOutcome::Continue),
        Bytecode::Branch(t) => {
            frame.pc = *t;
            Ok(DispatchOutcome::Continue)
        },
        Bytecode::BrTrue(t) => exec_branch_if(frame, *t, true),
        Bytecode::BrFalse(t) => exec_branch_if(frame, *t, false),
        Bytecode::LdU8(x) => push_and_continue(frame, Value::U8(*x)),
        Bytecode::LdU16(x) => push_and_continue(frame, Value::U16(*x)),
        Bytecode::LdU32(x) => push_and_continue(frame, Value::U32(*x)),
        Bytecode::LdU64(x) => push_and_continue(frame, Value::U64(*x)),
        Bytecode::LdU128(x) => push_and_continue(frame, Value::U128(**x)),
        Bytecode::LdU256(x) => {
            let bytes = x.to_le_bytes();
            proof {
                crate::u256::lemma_u256_le_round_trip(**x);
            }
            push_and_continue(frame, Value::U256(bytes))
        },
        Bytecode::LdTrue => push_and_continue(frame, Value::Bool(true)),
        Bytecode::LdFalse => push_and_continue(frame, Value::Bool(false)),
        Bytecode::CastU8 => exec_cast(frame, CastTarget::U8),
        Bytecode::CastU16 => exec_cast(frame, CastTarget::U16),
        Bytecode::CastU32 => exec_cast(frame, CastTarget::U32),
        Bytecode::CastU64 => exec_cast(frame, CastTarget::U64),
        Bytecode::CastU128 => exec_cast(frame, CastTarget::U128),
        Bytecode::CastU256 => exec_cast(frame, CastTarget::U256),
        Bytecode::CopyLoc(i) => exec_copy_loc(frame, *i),
        Bytecode::MoveLoc(i) => exec_move_loc(frame, *i),
        Bytecode::StLoc(i) => exec_st_loc(frame, *i),
        Bytecode::Add => exec_arith(frame, ArithOp::Add),
        Bytecode::Sub => exec_arith(frame, ArithOp::Sub),
        Bytecode::Mul => exec_arith(frame, ArithOp::Mul),
        Bytecode::Div => exec_arith(frame, ArithOp::Div),
        Bytecode::Mod => exec_arith(frame, ArithOp::Mod),
        Bytecode::BitAnd => exec_bitop(frame, BitOp::And),
        Bytecode::BitOr => exec_bitop(frame, BitOp::Or),
        Bytecode::Xor => exec_bitop(frame, BitOp::Xor),
        Bytecode::And => exec_logic(frame, true),
        Bytecode::Or => exec_logic(frame, false),
        Bytecode::Not => exec_not(frame),
        Bytecode::Eq => exec_eq(frame, false),
        Bytecode::Neq => exec_eq(frame, true),
        Bytecode::Lt => exec_cmp(frame, CmpOp::Lt),
        Bytecode::Gt => exec_cmp(frame, CmpOp::Gt),
        Bytecode::Le => exec_cmp(frame, CmpOp::Le),
        Bytecode::Ge => exec_cmp(frame, CmpOp::Ge),
        Bytecode::Shl => exec_shift(frame, ShiftDir::Left),
        Bytecode::Shr => exec_shift(frame, ShiftDir::Right),
        Bytecode::Abort => exec_abort(frame),
        Bytecode::Nop | Bytecode::FreezeRef => {
            advance_pc(frame);
            Ok(DispatchOutcome::Continue)
        },
        Bytecode::ExistsDeprecated(_)
        | Bytecode::ExistsGenericDeprecated(_)
        | Bytecode::MoveFromDeprecated(_)
        | Bytecode::MoveFromGenericDeprecated(_)
        | Bytecode::MoveToDeprecated(_)
        | Bytecode::MoveToGenericDeprecated(_)
        | Bytecode::MutBorrowGlobalDeprecated(_)
        | Bytecode::MutBorrowGlobalGenericDeprecated(_)
        | Bytecode::ImmBorrowGlobalDeprecated(_)
        | Bytecode::ImmBorrowGlobalGenericDeprecated(_) => Err(
            VMError::InvariantViolation {
                reason: InvariantViolationReason::DeprecatedOpcodePostVerification,
            },
        ),
        Bytecode::LdConst(idx) => exec_ld_const(frame, module, *idx),
        Bytecode::Call(h) => {
            advance_pc(frame);
            Ok(DispatchOutcome::Call(*h))
        },
        Bytecode::CallGeneric(i) => {
            advance_pc(frame);
            Ok(DispatchOutcome::CallGeneric(*i))
        },
        Bytecode::Pack(sd) => {
            let n = resolve_struct_field_count(module, *sd)?;
            exec_pack(frame, n)
        },
        Bytecode::PackGeneric(i) => {
            let sd = resolve_struct_def_instantiation(module, *i)?;
            let n = resolve_struct_field_count(module, sd)?;
            exec_pack(frame, n)
        },
        Bytecode::Unpack(sd) => {
            resolve_struct_field_count(module, *sd)?;
            exec_unpack(frame)
        },
        Bytecode::UnpackGeneric(i) => {
            let sd = resolve_struct_def_instantiation(module, *i)?;
            resolve_struct_field_count(module, sd)?;
            exec_unpack(frame)
        },
        Bytecode::VecPack(_, n) => exec_vec_pack(frame, *n),
        Bytecode::VecUnpack(_, n) => exec_vec_unpack(frame, *n),
        Bytecode::PackVariant(h) => {
            let (e, tag) = resolve_variant(module, *h)?;
            exec_pack_variant(frame, module, e, tag)
        },
        Bytecode::PackVariantGeneric(i) => {
            let (e, tag) = resolve_variant_instantiation_handle(module, *i)?;
            exec_pack_variant(frame, module, e, tag)
        },
        Bytecode::UnpackVariant(h) => {
            let (e, tag) = resolve_variant(module, *h)?;
            exec_unpack_variant(frame, e, tag)
        },
        Bytecode::UnpackVariantGeneric(i) => {
            let (e, tag) = resolve_variant_instantiation_handle(module, *i)?;
            exec_unpack_variant(frame, e, tag)
        },
        _ => Err(VMError::InvalidInstruction { function_handle: frame.function_handle, pc: frame.pc }),
    }
}

/// The enum and tag of a variant handle.
fn resolve_variant(module: &AdamantCompiledModule, h: crate::bytecode::VariantHandleIndex) -> (r: Result<(EnumDefinitionIndex, u16), VMError>)
    ensures
        r == spec_variant_handle(*module, h),
{
    if h.0 as usize >= module.variant_handles.len() {
        return Err(VMError::InvariantViolation { reason: InvariantViolationReason::IndexOutOfBoundsPostVerification });
    }
    let vh = &module.variant_handles[h.0 as usize];
    Ok((vh.enum_def, vh.variant))
}

/// One step of the executing frame for an Adamant extension.
fn step_adamant(op: &AdamantBytecode, frame: &mut Frame, gas: &mut GasTracker) -> (r: Result<DispatchOutcome, VMError>)
    ensures
        (r, final(frame).model(), *final(gas)) == spec_step_adamant(*op, old(frame).model(), *old(gas)),
{
    match op {
        AdamantBytecode::InvokeShielded(h) => {
            advance_pc(frame);
            Ok(DispatchOutcome::InvokeShielded(*h))
        },
        AdamantBytecode::InvokeTransparent(h) => {
            advance_pc(frame);
            Ok(DispatchOutcome::InvokeTransparent(*h))
        },
        AdamantBytecode::ChargeGas(d) => {
            let amount = frame.pop_u64()?;
            gas.charge(*d, amount)?;
            advance_pc(frame);
            Ok(DispatchOutcome::Continue)
        },
        AdamantBytecode::RemainingGas(d) => {
            let remaining = gas.remaining(*d);
            push_and_continue(frame, Value::U64(remaining))
        },
        AdamantBytecode::OutOfGas => Err(
            VMError::AbortError {
                reason: AbortReason::OutOfGas { dimension: GasDimension::ProofGeneration },
            },
        ),
        AdamantBytecode::Sha3_256
        | AdamantBytecode::Blake3
        | AdamantBytecode::Ed25519Verify
        | AdamantBytecode::MlDsaVerify65
        | AdamantBytecode::BlsVerify
        | AdamantBytecode::ReleaseSubViewKey
        | AdamantBytecode::KzgCommit
        | AdamantBytecode::KzgVerify => Ok(DispatchOutcome::Crypto),
        _ => Err(VMError::InvalidInstruction { function_handle: frame.function_handle, pc: frame.pc }),
    }
}


// ---------- Executing reference instructions ----------

/// Pops the top value, which must be a reference.
fn pop_reference(frame: &mut Frame) -> (r: Result<Reference, VMError>)
    ensures
        (match r {
            Ok(x) => Ok((x.frame, x.local, x.path@)),
            Err(e) => Err(e),
        }, final(frame).model()) == pop_as(old(frame).model(), |v: ValueModel| as_ref(v)),
{
    match frame.pop_value()? {
        Value::Reference(x) => Ok(x),
        _ => Err(VMError::InvariantViolation { reason: InvariantViolationReason::TypeMismatchOnStack }),
    }
}

impl InterpreterState {
    /// Pops the executing frame's top value.
    fn pop_top_value(&mut self) -> (r: Result<Value, VMError>)
        requires
            old(self).model().frames.len() > 0,
        ensures
            (res_model(r), final(self).model()) == ({
                let (x, g) = old(self).model().frames.last().pop();
                (x, with_top(old(self).model(), g))
            }),
    {
        broadcast use lemma_frames_model_update;

        let n = self.frames.len();
        self.frames[n - 1].pop_value()
    }

    /// Pops the executing frame's top value, which must be a reference.
    fn pop_top_reference(&mut self) -> (r: Result<Reference, VMError>)
        requires
            old(self).model().frames.len() > 0,
        ensures
            (match r {
                Ok(x) => Ok((x.frame, x.local, x.path@)),
                Err(e) => Err(e),
            }, final(self).model()) == pop_ref(old(self).model()),
    {
        broadcast use lemma_frames_model_update;

        let n = self.frames.len();
        pop_reference(&mut self.frames[n - 1])
    }

    /// Pops the executing frame's top value, which must be a `u64`.
    fn pop_top_u64(&mut self) -> (r: Result<u64, VMError>)
        requires
            old(self).model().frames.len() > 0,
        ensures
            (r, final(self).model()) == pop_top_as(old(self).model(), |v: ValueModel| as_u64(v)),
    {
        broadcast use lemma_frames_model_update;

        let n = self.frames.len();
        self.frames[n - 1].pop_u64()
    }

    /// Pushes `v` on the executing frame, advances and continues.
    fn push_top_continue(&mut self, v: Value) -> (r: Result<DispatchOutcome, VMError>)
        requires
            old(self).model().frames.len() > 0,
        ensures
            (r, final(self).model()) == push_continue(old(self).model(), v.model()),
    {
        broadcast use lemma_frames_model_update;

        let n = self.frames.len();
        push_and_continue(&mut self.frames[n - 1], v)
    }

    /// Advances the executing frame and continues.
    fn advance_top_continue(&mut self) -> (r: Result<DispatchOutcome, VMError>)
        requires
            old(self).model().frames.len() > 0,
        ensures
            (r, final(self).model()) == advance_continue(old(self).model()),
    {
        broadcast use lemma_frames_model_update;

        let n = self.frames.len();
        advance_pc(&mut self.frames[n - 1]);
        Ok(DispatchOutcome::Continue)
    }

    /// The value reference `r` designates.
    fn deref_value(&self, r: &Reference) -> (res: Result<&Value, VMError>)
        ensures
            match deref(self.model(), r.frame, r.local, r.path@) {
                Ok(t) => res matches Ok(v) && v.model() == t,
                Err(e) => res == Err::<&Value, VMError>(e),
            },
    {
        let oob = VMError::InvariantViolation { reason: InvariantViolationReason::IndexOutOfBoundsPostVerification };
        if r.frame >= self.frames.len() {
            return Err(oob);
        }
        let f = &self.frames[r.frame];
        if r.local as usize >= f.locals.len() {
            return Err(oob);
        }
        match &f.locals[r.local as usize] {
            None => Err(VMError::InvariantViolation { reason: InvariantViolationReason::LocalNotInitialized }),
            Some(v) => {
                assert(r.path@.subrange(0, r.path@.len() as int) =~= r.path@);
                v.peek_at(&r.path, 0)
            },
        }
    }

    /// Makes change `op` through reference `r`.
    fn modify_through(&mut self, r: &Reference, op: RefOp) -> (res: Result<Option<Value>, VMError>)
        ensures
            (match res {
                Ok(o) => Ok(opt_model(o)),
                Err(e) => Err(e),
            }, final(self).model()) == modify(old(self).model(), r.frame, r.local, r.path@, op.edit()),
    {
        broadcast use lemma_frames_model_update;

        let oob = VMError::InvariantViolation { reason: InvariantViolationReason::IndexOutOfBoundsPostVerification };
        if r.frame >= self.frames.len() {
            return Err(oob);
        }
        if r.local as usize >= self.frames[r.frame].locals.len() {
            return Err(oob);
        }
        if self.frames[r.frame].locals[r.local as usize].is_none() {
            return Err(VMError::InvariantViolation { reason: InvariantViolationReason::LocalNotInitialized });
        }
        assert(r.path@.subrange(0, r.path@.len() as int) =~= r.path@);
        let ghost s0 = self.model();
        let ghost f0 = self.frames@[r.frame as int];
        assert(s0.frames[r.frame as int] == f0.model());
        assert(f0.model().locals[r.local as int] == crate::runtime::frame::slot_model(f0.locals@[r.local as int]));
        let res = modify_local(&mut self.frames[r.frame], r.local as usize, &r.path, op);
        proof {
            if self.frames@[r.frame as int].model() == f0.model() {
                assert(s0.frames.update(r.frame as int, f0.model()) =~= s0.frames);
            }
        }
        res
    }
}

/// Makes change `op` along `path` below local `l` of `frame`, which
/// must hold a value.
fn modify_local(frame: &mut Frame, l: usize, path: &Vec<usize>, op: RefOp) -> (res: Result<Option<Value>, VMError>)
    requires
        l < old(frame).locals@.len(),
        old(frame).locals@[l as int] is Some,
    ensures
        ({
            let v = old(frame).locals@[l as int]->Some_0.model();
            match value_at(v, path@) {
                None => res == Err::<Option<Value>, VMError>(out_of_bounds()) && final(frame).model()
                    == old(frame).model(),
                Some(t) => match spec_apply(op.edit(), t) {
                    Err(e) => res == Err::<Option<Value>, VMError>(e) && final(frame).model() == old(
                        frame,
                    ).model(),
                    Ok((nt, out)) => res matches Ok(o) && opt_model(o) == out && final(frame).model()
                        == (FrameModel {
                        locals: old(frame).model().locals.update(l as int, Some(update_at(v, path@, nt))),
                        ..old(frame).model()
                    }),
                },
            }
        }),
{
    assert(path@.subrange(0, path@.len() as int) =~= path@);
    let ghost before = frame.locals@;
    let res = match &mut frame.locals[l] {
        Some(v) => v.modify_at(path, 0, op),
        None => Err(VMError::InvariantViolation { reason: InvariantViolationReason::LocalNotInitialized }),
    };
    proof {
        let after = frame.locals@;
        assert(after =~= before.update(l as int, after[l as int]));
        assert(frame.model().locals =~= old(frame).model().locals.update(
            l as int,
            crate::runtime::frame::slot_model(after[l as int]),
        ));
        if crate::runtime::frame::slot_model(after[l as int]) == crate::runtime::frame::slot_model(before[l as int]) {
            assert(old(frame).model().locals.update(l as int, crate::runtime::frame::slot_model(before[l as int])) =~= old(frame).model().locals);
        }
    }
    res
}

/// Borrowing a local.
fn exec_borrow_loc(state: &mut InterpreterState, idx: u8) -> (r: Result<DispatchOutcome, VMError>)
    requires
        old(state).model().frames.len() > 0,
    ensures
        (r, final(state).model()) == borrow_loc(old(state).model(), idx),
{
    let n = state.frames.len();
    if idx as usize >= state.frames[n - 1].locals.len() {
        return Err(VMError::InvariantViolation { reason: InvariantViolationReason::IndexOutOfBoundsPostVerification });
    }
    let r = Reference { frame: n - 1, local: idx, path: Vec::new() };
    assert(r.path@ =~= Seq::<usize>::empty());
    state.push_top_continue(Value::Reference(r))
}

/// Borrowing field `offset` through a popped reference.
fn exec_borrow_field(state: &mut InterpreterState, offset: usize) -> (r: Result<DispatchOutcome, VMError>)
    requires
        old(state).model().frames.len() > 0,
    ensures
        (r, final(state).model()) == borrow_field(old(state).model(), Ok(offset)),
{
    let rf = state.pop_top_reference()?;
    let ok = match state.deref_value(&rf)? {
        Value::Struct(s) => {
            proof {
                crate::value::lemma_vec_model(s.fields);
            }
            if offset < s.fields.len() {
                true
            } else {
                return Err(VMError::InvariantViolation { reason: InvariantViolationReason::IndexOutOfBoundsPostVerification });
            }
        },
        _ => {
            return Err(VMError::InvariantViolation { reason: InvariantViolationReason::TypeMismatchOnStack });
        },
    };
    state.push_top_continue(Value::Reference(rf.extended(offset)))
}

/// Reading through a popped reference.
fn exec_read_ref(state: &mut InterpreterState) -> (r: Result<DispatchOutcome, VMError>)
    requires
        old(state).model().frames.len() > 0,
    ensures
        (r, final(state).model()) == read_ref(old(state).model()),
{
    let rf = state.pop_top_reference()?;
    let v = state.deref_value(&rf)?.deep_copy();
    state.push_top_continue(v)
}

/// Writing through a popped reference.
fn exec_write_ref(state: &mut InterpreterState) -> (r: Result<DispatchOutcome, VMError>)
    requires
        old(state).model().frames.len() > 0,
    ensures
        (r, final(state).model()) == write_ref(old(state).model()),
{
    let rf = state.pop_top_reference()?;
    let v = state.pop_top_value()?;
    state.modify_through(&rf, RefOp::Write(v))?;
    state.advance_top_continue()
}

/// The length of the vector a popped reference designates.
fn exec_vec_len(state: &mut InterpreterState) -> (r: Result<DispatchOutcome, VMError>)
    requires
        old(state).model().frames.len() > 0,
    ensures
        (r, final(state).model()) == vec_len(old(state).model()),
{
    let rf = state.pop_top_reference()?;
    let len = match state.deref_value(&rf)? {
        Value::Vector(es) => {
            proof {
                crate::value::lemma_vec_model(*es);
            }
            es.len()
        },
        _ => {
            return Err(VMError::InvariantViolation { reason: InvariantViolationReason::TypeMismatchOnStack });
        },
    };
    if len as u128 > u64::MAX as u128 {
        return Err(VMError::InvariantViolation { reason: InvariantViolationReason::IndexOutOfBoundsPostVerification });
    }
    state.push_top_continue(Value::U64(len as u64))
}

/// Borrowing an element of the vector a reference designates.
fn exec_vec_borrow(state: &mut InterpreterState) -> (r: Result<DispatchOutcome, VMError>)
    requires
        old(state).model().frames.len() > 0,
    ensures
        (r, final(state).model()) == vec_borrow(old(state).model()),
{
    let i = state.pop_top_u64()?;
    let rf = state.pop_top_reference()?;
    if i as u128 > usize::MAX as u128 {
        return Err(VMError::InvariantViolation { reason: InvariantViolationReason::IndexOutOfBoundsPostVerification });
    }
    let i = i as usize;
    match state.deref_value(&rf)? {
        Value::Vector(es) => {
            proof {
                crate::value::lemma_vec_model(*es);
            }
            if i >= es.len() {
                return Err(VMError::InvariantViolation { reason: InvariantViolationReason::IndexOutOfBoundsPostVerification });
            }
        },
        _ => {
            return Err(VMError::InvariantViolation { reason: InvariantViolationReason::TypeMismatchOnStack });
        },
    }
    state.push_top_continue(Value::Reference(rf.extended(i)))
}

/// Appending a popped value through a reference below it.
fn exec_vec_push_back(state: &mut InterpreterState) -> (r: Result<DispatchOutcome, VMError>)
    requires
        old(state).model().frames.len() > 0,
    ensures
        (r, final(state).model()) == vec_push_back(old(state).model()),
{
    let v = state.pop_top_value()?;
    let rf = state.pop_top_reference()?;
    state.modify_through(&rf, RefOp::PushBack(v))?;
    state.advance_top_continue()
}

/// Removing the last element through a popped reference.
fn exec_vec_pop_back(state: &mut InterpreterState) -> (r: Result<DispatchOutcome, VMError>)
    requires
        old(state).model().frames.len() > 0,
    ensures
        (r, final(state).model()) == vec_pop_back(old(state).model()),
{
    let rf = state.pop_top_reference()?;
    match state.modify_through(&rf, RefOp::PopBack)? {
        Some(x) => state.push_top_continue(x),
        None => Err(VMError::InvariantViolation { reason: InvariantViolationReason::IndexOutOfBoundsPostVerification }),
    }
}

/// Exchanging two elements through a reference.
fn exec_vec_swap(state: &mut InterpreterState) -> (r: Result<DispatchOutcome, VMError>)
    requires
        old(state).model().frames.len() > 0,
    ensures
        (r, final(state).model()) == vec_swap(old(state).model()),
{
    let j = state.pop_top_u64()?;
    let i = state.pop_top_u64()?;
    let rf = state.pop_top_reference()?;
    if i as u128 > usize::MAX as u128 || j as u128 > usize::MAX as u128 {
        return Err(VMError::InvariantViolation { reason: InvariantViolationReason::IndexOutOfBoundsPostVerification });
    }
    state.modify_through(&rf, RefOp::Swap(i as usize, j as usize))?;
    state.advance_top_continue()
}

/// Unpacking by reference a variant that must have tag `tag`.
fn exec_unpack_variant_ref(state: &mut InterpreterState, tag: u16) -> (r: Result<DispatchOutcome, VMError>)
    requires
        old(state).model().frames.len() > 0,
    ensures
        (r, final(state).model()) == unpack_variant_ref(old(state).model(), Ok((arbitrary(), tag))),
{
    let rf = state.pop_top_reference()?;
    let n = match state.deref_value(&rf)? {
        Value::Variant(v) => {
            proof {
                crate::value::lemma_vec_model(v.fields);
            }
            if v.tag != tag {
                return Err(VMError::InvariantViolation { reason: InvariantViolationReason::VariantTagMismatch });
            }
            v.fields.len()
        },
        _ => {
            return Err(VMError::InvariantViolation { reason: InvariantViolationReason::TypeMismatchOnStack });
        },
    };
    let mut refs: Vec<Value> = Vec::new();
    let mut k: usize = 0;
    while k < n
        invariant
            k <= n,
            refs@.len() == k,
            forall|j: int| 0 <= j < k ==> (#[trigger] refs@[j]).model() == ValueModel::Reference(rf.frame, rf.local, rf.path@.push(j as usize)),
        decreases n - k,
    {
        refs.push(Value::Reference(rf.extended(k)));
        k = k + 1;
    }
    assert(seq_model(refs@) =~= field_refs(rf.frame, rf.local, rf.path@, n as nat));
    let ghost s1 = state.model();
    let pushed = state.push_top_values(refs);
    let ghost s2 = state.model();
    let r = state.advance_top_continue();
    proof {
        let x = push_all(s1.frames.last(), field_refs(rf.frame, rf.local, rf.path@, n as nat));
        assert(s2.frames.last() == x);
        assert(state.model().frames =~= with_top(s1, x.advance()).frames);
    }
    r
}

/// Branching on the tag of the variant a popped reference designates.
fn exec_variant_switch(state: &mut InterpreterState, module: &AdamantCompiledModule, jt: crate::bytecode::VariantJumpTableIndex) -> (r: Result<DispatchOutcome, VMError>)
    requires
        old(state).model().frames.len() > 0,
    ensures
        (r, final(state).model()) == variant_switch(old(state).model(), *module, jt),
{
    let oob = VMError::InvariantViolation { reason: InvariantViolationReason::IndexOutOfBoundsPostVerification };
    let n = state.frames.len();
    let handle = state.frames[n - 1].function_handle;
    let def = match crate::runtime::module_helpers::resolve_function_def(module, handle) {
        Ok(d) => d,
        Err(e) => {
            return Err(oob);
        },
    };
    let code = match &def.code {
        Some(c) => c,
        None => {
            return Err(oob);
        },
    };
    if jt.0 as usize >= code.jump_tables.len() {
        return Err(oob);
    }
    let offsets = match &code.jump_tables[jt.0 as usize].jump_table {
        JumpTableInner::Full(o) => o,
    };
    let rf = state.pop_top_reference()?;
    let tag = match state.deref_value(&rf)? {
        Value::Variant(v) => v.tag,
        _ => {
            return Err(VMError::InvariantViolation { reason: InvariantViolationReason::TypeMismatchOnStack });
        },
    };
    if tag as usize >= offsets.len() {
        return Err(VMError::InvariantViolation { reason: InvariantViolationReason::JumpTableTagOutOfRange });
    }
    let target = offsets[tag as usize];
    state.jump_top(target)
}

impl InterpreterState {
    /// Sets the executing frame's counter and continues.
    fn jump_top(&mut self, target: u16) -> (r: Result<DispatchOutcome, VMError>)
        requires
            old(self).model().frames.len() > 0,
        ensures
            r == Ok::<DispatchOutcome, VMError>(DispatchOutcome::Continue),
            final(self).model() == with_top(old(self).model(), old(self).model().frames.last().jump(target)),
    {
        broadcast use lemma_frames_model_update;

        let n = self.frames.len();
        self.frames[n - 1].pc = target;
        Ok(DispatchOutcome::Continue)
    }
}

/// One step of a reference instruction.
fn step_reference(op: &Bytecode, state: &mut InterpreterState, module: &AdamantCompiledModule) -> (r: Result<DispatchOutcome, VMError>)
    requires
        old(state).model().frames.len() > 0,
        is_reference_op(*op),
    ensures
        (r, final(state).model()) == spec_step_reference(*op, old(state).model(), *module),
{
    match op {
        Bytecode::ImmBorrowLoc(i) | Bytecode::MutBorrowLoc(i) => exec_borrow_loc(state, *i),
        Bytecode::ImmBorrowField(h) | Bytecode::MutBorrowField(h) => {
            let offset = crate::runtime::module_helpers::resolve_field_offset(module, *h)?;
            exec_borrow_field(state, offset)
        },
        Bytecode::ImmBorrowFieldGeneric(i) | Bytecode::MutBorrowFieldGeneric(i) => {
            if i.0 as usize >= module.field_instantiations.len() {
                return Err(VMError::InvariantViolation { reason: InvariantViolationReason::IndexOutOfBoundsPostVerification });
            }
            let h = module.field_instantiations[i.0 as usize].handle;
            let offset = crate::runtime::module_helpers::resolve_field_offset(module, h)?;
            exec_borrow_field(state, offset)
        },
        Bytecode::ReadRef => exec_read_ref(state),
        Bytecode::WriteRef => exec_write_ref(state),
        Bytecode::VecLen(_) => exec_vec_len(state),
        Bytecode::VecImmBorrow(_) | Bytecode::VecMutBorrow(_) => exec_vec_borrow(state),
        Bytecode::VecPushBack(_) => exec_vec_push_back(state),
        Bytecode::VecPopBack(_) => exec_vec_pop_back(state),
        Bytecode::VecSwap(_) => exec_vec_swap(state),
        Bytecode::UnpackVariantImmRef(h) | Bytecode::UnpackVariantMutRef(h) => {
            let (_, tag) = resolve_variant(module, *h)?;
            exec_unpack_variant_ref(state, tag)
        },
        Bytecode::UnpackVariantGenericImmRef(i) | Bytecode::UnpackVariantGenericMutRef(i) => {
            let (_, tag) = resolve_variant_instantiation_handle(module, *i)?;
            exec_unpack_variant_ref(state, tag)
        },
        Bytecode::VariantSwitch(jt) => exec_variant_switch(state, module, *jt),
        _ => Ok(DispatchOutcome::Continue),
    }
}

/// Whether an instruction goes through references.
fn is_reference_op_exec(op: &Bytecode) -> (r: bool)
    ensures
        r == is_reference_op(*op),
{
    match op {
        Bytecode::ImmBorrowLoc(_) | Bytecode::MutBorrowLoc(_) | Bytecode::ImmBorrowField(_)
        | Bytecode::MutBorrowField(_) | Bytecode::ImmBorrowFieldGeneric(_)
        | Bytecode::MutBorrowFieldGeneric(_) | Bytecode::ReadRef | Bytecode::WriteRef
        | Bytecode::VecLen(_) | Bytecode::VecImmBorrow(_) | Bytecode::VecMutBorrow(_)
        | Bytecode::VecPushBack(_) | Bytecode::VecPopBack(_) | Bytecode::VecSwap(_)
        | Bytecode::UnpackVariantImmRef(_) | Bytecode::UnpackVariantMutRef(_)
        | Bytecode::UnpackVariantGenericImmRef(_) | Bytecode::UnpackVariantGenericMutRef(_)
        | Bytecode::VariantSwitch(_) => true,
        _ => false,
    }
}

/// The error of dispatching `instruction` with an empty call stack.
fn empty_stack_error(instruction: &BytecodeInstruction, module: &AdamantCompiledModule) -> (e: VMError)
    ensures
        e == spec_dispatch_empty(*instruction, *module),
{
    let oob = VMError::InvariantViolation { reason: InvariantViolationReason::IndexOutOfBoundsPostVerification };
    let under = VMError::InvariantViolation { reason: InvariantViolationReason::StackUnderflow };
    match instruction {
        BytecodeInstruction::Inherited(op) => match op {
            Bytecode::ExistsDeprecated(_)
            | Bytecode::ExistsGenericDeprecated(_)
            | Bytecode::MoveFromDeprecated(_)
            | Bytecode::MoveFromGenericDeprecated(_)
            | Bytecode::MoveToDeprecated(_)
            | Bytecode::MoveToGenericDeprecated(_)
            | Bytecode::MutBorrowGlobalDeprecated(_)
            | Bytecode::MutBorrowGlobalGenericDeprecated(_)
            | Bytecode::ImmBorrowGlobalDeprecated(_)
            | Bytecode::ImmBorrowGlobalGenericDeprecated(_) => {
                VMError::InvariantViolation { reason: InvariantViolationReason::DeprecatedOpcodePostVerification }
            },
            Bytecode::LdConst(idx) => match resolve_constant(module, *idx) {
                Err(e) => e,
                Ok(c) => match decode_constant(&c.type_, c.data.as_slice()) {
                    Err(e) => e,
                    Ok(_) => under,
                },
            },
            Bytecode::Pack(sd) | Bytecode::Unpack(sd) => match resolve_struct_field_count(module, *sd) {
                Err(e) => e,
                Ok(_) => under,
            },
            Bytecode::PackGeneric(i) | Bytecode::UnpackGeneric(i) => match resolve_struct_def_instantiation(module, *i) {
                Err(e) => e,
                Ok(sd) => match resolve_struct_field_count(module, sd) {
                    Err(e) => e,
                    Ok(_) => under,
                },
            },
            Bytecode::VecPack(_, n) | Bytecode::VecUnpack(_, n) => if *n > usize::MAX as u64 {
                oob
            } else {
                under
            },
            Bytecode::PackVariant(h) => match resolve_variant(module, *h) {
                Err(e) => e,
                Ok((ed, tag)) => match resolve_variant_field_count(module, ed, tag) {
                    Err(e) => e,
                    Ok(_) => under,
                },
            },
            Bytecode::PackVariantGeneric(i) => match resolve_variant_instantiation_handle(module, *i) {
                Err(e) => e,
                Ok((ed, tag)) => match resolve_variant_field_count(module, ed, tag) {
                    Err(e) => e,
                    Ok(_) => under,
                },
            },
            Bytecode::UnpackVariant(h) | Bytecode::UnpackVariantImmRef(h) | Bytecode::UnpackVariantMutRef(h) => {
                match resolve_variant(module, *h) {
                    Err(e) => e,
                    Ok(_) => under,
                }
            },
            Bytecode::UnpackVariantGeneric(i) | Bytecode::UnpackVariantGenericImmRef(i)
            | Bytecode::UnpackVariantGenericMutRef(i) => match resolve_variant_instantiation_handle(module, *i) {
                Err(e) => e,
                Ok(_) => under,
            },
            Bytecode::ImmBorrowField(h) | Bytecode::MutBorrowField(h) => {
                match crate::runtime::module_helpers::resolve_field_offset(module, *h) {
                    Err(e) => e,
                    Ok(_) => under,
                }
            },
            Bytecode::ImmBorrowFieldGeneric(i) | Bytecode::MutBorrowFieldGeneric(i) => {
                if i.0 as usize >= module.field_instantiations.len() {
                    return oob;
                }
                let h = module.field_instantiations[i.0 as usize].handle;
                match crate::runtime::module_helpers::resolve_field_offset(module, h) {
                    Err(e) => e,
                    Ok(_) => under,
                }
            },
            _ => under,
        },
        BytecodeInstruction::Adamant(AdamantBytecode::OutOfGas) => VMError::AbortError {
            reason: AbortReason::OutOfGas { dimension: GasDimension::ProofGeneration },
        },
        BytecodeInstruction::Adamant(_) => under,
    }
}

/// Dispatches one instruction against the executing frame.  With an
/// empty call stack it fails (see [`spec_dispatch_empty`]) and changes
/// nothing; `Ret` and the unimplemented extensions need a frame.
pub fn dispatch_instruction(
    instruction: &BytecodeInstruction,
    state: &mut InterpreterState,
    module: &AdamantCompiledModule,
) -> (r: Result<DispatchOutcome, VMError>)
    requires
        old(state).model().frames.len() == 0 ==> !needs_a_frame(*instruction),
    ensures
        (r, final(state).model()) == spec_dispatch(*instruction, old(state).model(), *module),
{
    let ghost s0 = state.model();
    if state.frames.len() == 0 {
        return Err(empty_stack_error(instruction, module));
    }
    match instruction {
        BytecodeInstruction::Inherited(Bytecode::Ret) => {
            state.frames.pop();
            assert(state.model().frames =~= s0.frames.drop_last());
            if state.frames.len() == 0 {
                Ok(DispatchOutcome::Halt)
            } else {
                Ok(DispatchOutcome::Continue)
            }
        },
        BytecodeInstruction::Inherited(op) => {
            if is_reference_op_exec(op) {
                return step_reference(op, state, module);
            }
            let mut frame = state.frames.pop().unwrap();
            let r = step_inherited(op, &mut frame, module);
            let ghost fm = frame.model();
            state.frames.push(frame);
            assert(state.model().frames =~= s0.frames.update(s0.frames.len() - 1, fm));
            r
        },
        BytecodeInstruction::Adamant(op) => {
            let mut frame = state.frames.pop().unwrap();
            let r = step_adamant(op, &mut frame, &mut state.gas_tracker);
            let ghost fm = frame.model();
            state.frames.push(frame);
            assert(state.model().frames =~= s0.frames.update(s0.frames.len() - 1, fm));
            r
        },
    }
}

// ---------- Entering a called function ----------

/// The error of a call whose privacy mode is not the caller's.
pub open spec fn privacy_mismatch() -> VMError {
    VMError::InvariantViolation { reason: InvariantViolationReason::PrivacyModeMismatchPostVerification }
}

/// The number of parameters of function handle `h`, if its handle and
/// parameter signature are in the module's tables.
pub open spec fn spec_param_count(m: AdamantCompiledModule, h: FunctionHandleIndex) -> Result<nat, VMError> {
    if h.0 >= m.function_handles@.len() {
        Err(out_of_bounds())
    } else {
        let p = m.function_handles@[h.0 as int].parameters;
        if p.0 >= m.signatures@.len() {
            Err(out_of_bounds())
        } else {
            Ok(m.signatures@[p.0 as int].0@.len())
        }
    }
}

/// The number of local slots of a frame of function handle `h`: its
/// parameters followed by its body's locals.
pub open spec fn spec_local_count(m: AdamantCompiledModule, h: FunctionHandleIndex) -> Result<nat, VMError> {
    match spec_param_count(m, h) {
        Err(e) => Err(e),
        Ok(argc) => match crate::runtime::module_helpers::spec_function_def_position(m, h) {
            None => Err(out_of_bounds()),
            Some(i) => match m.function_defs@[i].code {
                None => Err(deprecated()),
                Some(code) => if code.locals.0 >= m.signatures@.len() {
                    Err(out_of_bounds())
                } else if argc + m.signatures@[code.locals.0 as int].0@.len() > usize::MAX {
                    Err(out_of_bounds())
                } else {
                    Ok(argc + m.signatures@[code.locals.0 as int].0@.len())
                },
            },
        },
    }
}

/// The frame a call creates: the arguments in the first local slots,
/// the other slots empty, an empty stack and the counter at zero.
pub open spec fn callee_frame(h: FunctionHandleIndex, args: Seq<ValueModel>, total: nat, mode: crate::runtime::frame::PrivacyMode) -> FrameModel {
    FrameModel {
        function_handle: h,
        stack: Seq::empty(),
        locals: Seq::new(total, |i: int| if i < args.len() { Some(args[i]) } else { None }),
        pc: 0,
        privacy_mode: mode,
    }
}

/// Entering function handle `h`: with `expected` set, the caller must
/// run in that privacy mode and the callee runs in it; otherwise the
/// callee inherits the caller's mode.  The arguments are popped from
/// the caller's stack into the callee's first local slots.
pub open spec fn spec_enter(s: StateModel, m: AdamantCompiledModule, h: FunctionHandleIndex, expected: Option<crate::runtime::frame::PrivacyMode>) -> (Result<(), VMError>, StateModel) {
    if expected is Some && s.frames.len() == 0 {
        (Err(underflow()), s)
    } else if expected is Some && s.frames.last().privacy_mode != expected.unwrap() {
        (Err(privacy_mismatch()), s)
    } else {
        match spec_local_count(m, h) {
            Err(e) => (Err(e), s),
            Ok(total) => if s.frames.len() == 0 {
                (Err(underflow()), s)
            } else {
                let argc = spec_param_count(m, h).unwrap();
                let caller = s.frames.last();
                let mode = match expected {
                    Some(md) => md,
                    None => caller.privacy_mode,
                };
                match pop_n(caller, argc) {
                    (Err(e), g) => (Err(e), with_top(s, g)),
                    (Ok(args), g) => (
                        Ok(()),
                        StateModel {
                            frames: with_top(s, g).frames.push(callee_frame(h, args, total, mode)),
                            ..s
                        },
                    ),
                }
            },
        }
    }
}

/// The number of parameters and of local slots of `handle`.
fn frame_shape(module: &AdamantCompiledModule, handle: FunctionHandleIndex) -> (r: Result<(usize, usize), VMError>)
    ensures
        match spec_local_count(*module, handle) {
            Ok(total) => r == Ok::<(usize, usize), VMError>(
                (spec_param_count(*module, handle).unwrap() as usize, total as usize),
            ) && spec_param_count(*module, handle).unwrap() <= total,
            Err(e) => r == Err::<(usize, usize), VMError>(e),
        },
{
    let oob = VMError::InvariantViolation { reason: InvariantViolationReason::IndexOutOfBoundsPostVerification };
    if handle.0 as usize >= module.function_handles.len() {
        return Err(oob);
    }
    let params = module.function_handles[handle.0 as usize].parameters;
    if params.0 as usize >= module.signatures.len() {
        return Err(oob);
    }
    let argc = module.signatures[params.0 as usize].0.len();
    let def = crate::runtime::module_helpers::resolve_function_def(module, handle)?;
    let code = match &def.code {
        Some(code) => code,
        None => {
            return Err(
                VMError::InvariantViolation {
                    reason: InvariantViolationReason::DeprecatedOpcodePostVerification,
                },
            );
        },
    };
    if code.locals.0 as usize >= module.signatures.len() {
        return Err(oob);
    }
    let body = module.signatures[code.locals.0 as usize].0.len();
    match argc.checked_add(body) {
        Some(total) => Ok((argc, total)),
        None => Err(oob),
    }
}

/// Builds the callee's frame from its arguments.
fn make_callee_frame(handle: FunctionHandleIndex, args: Vec<Value>, total: usize, mode: crate::runtime::frame::PrivacyMode) -> (r: Frame)
    requires
        args@.len() <= total,
    ensures
        r.model() == callee_frame(handle, seq_model(args@), total as nat, mode),
{
    let mut frame = Frame::new_with_privacy(handle, total, mode);
    let mut args = args;
    let ghost all = seq_model(args@);
    let ghost n = args@.len();
    assert(frame.model().locals =~= Seq::new(
        total as nat,
        |i: int|
            if args@.len() <= i < n {
                Some(all[i])
            } else {
                None
            },
    ));
    assert(seq_model(args@) =~= all.subrange(0, args@.len() as int));
    while args.len() > 0
        invariant
            args@.len() <= n,
            n <= total,
            all.len() == n,
            seq_model(args@) == all.subrange(0, args@.len() as int),
            frame.model() == (FrameModel {
                locals: Seq::new(
                    total as nat,
                    |i: int|
                        if args@.len() <= i < n {
                            Some(all[i])
                        } else {
                            None
                        },
                ),
                ..callee_frame(handle, all, total as nat, mode)
            }),
        decreases args@.len(),
    {
        let k = args.len() - 1;
        let ghost before_args = args@;
        let v = args.pop().unwrap();
        proof {
            assert(args@ =~= before_args.drop_last());
            assert(v == before_args.last());
            assert forall|j: int| 0 <= j < k implies seq_model(args@)[j] == all[j] by {
                assert(seq_model(before_args)[j] == all.subrange(0, before_args.len() as int)[j]);
            }
            assert(seq_model(args@) =~= all.subrange(0, k as int));
            assert(seq_model(before_args)[k as int] == all.subrange(0, before_args.len() as int)[k as int]);
            assert(v.model() == all[k as int]);
        }
        let ghost vm = v.model();
        let ghost before = frame.model();
        assert(frame.locals@.len() == before.locals.len());
        frame.locals.set(k, Some(v));
        assert(frame.model().locals =~= before.locals.update(k as int, Some(vm)));
        assert(frame.model().locals =~= Seq::new(
            total as nat,
            |i: int|
                if args@.len() <= i < n {
                    Some(all[i])
                } else {
                    None
                },
        ));
        assert(frame.model().stack =~= before.stack);
    }
    assert(frame.model().locals =~= callee_frame(handle, all, total as nat, mode).locals);
    frame
}

/// Enters `handle` on behalf of the executing frame (see
/// [`spec_enter`]).
fn enter_function(state: &mut InterpreterState, module: &AdamantCompiledModule, handle: FunctionHandleIndex, expected: Option<crate::runtime::frame::PrivacyMode>) -> (r: Result<(), VMError>)
    ensures
        (r, final(state).model()) == spec_enter(old(state).model(), *module, handle, expected),
{
    let ghost s0 = state.model();
    if let Some(mode) = expected {
        let n = state.frames.len();
        if n == 0 {
            return Err(VMError::InvariantViolation { reason: InvariantViolationReason::StackUnderflow });
        }
        if state.frames[n - 1].privacy_mode != mode {
            return Err(
                VMError::InvariantViolation {
                    reason: InvariantViolationReason::PrivacyModeMismatchPostVerification,
                },
            );
        }
    }
    let (argc, total) = frame_shape(module, handle)?;
    if state.frames.len() == 0 {
        return Err(VMError::InvariantViolation { reason: InvariantViolationReason::StackUnderflow });
    }
    let mut caller = state.frames.pop().unwrap();
    let mode = match expected {
        Some(md) => md,
        None => caller.privacy_mode,
    };
    let popped = pop_n_values(&mut caller, argc);
    let ghost cm = caller.model();
    state.frames.push(caller);
    assert(state.model().frames =~= with_top(s0, cm).frames);
    match popped {
        Err(e) => Err(e),
        Ok(args) => {
            let callee = make_callee_frame(handle, args, total, mode);
            let ghost fm = callee.model();
            state.frames.push(callee);
            assert(state.model().frames =~= with_top(s0, cm).frames.push(fm));
            Ok(())
        },
    }
}

/// Enters `handle` for a `Call`: the callee inherits the caller's
/// privacy mode.
pub fn do_call(state: &mut InterpreterState, module: &AdamantCompiledModule, handle: FunctionHandleIndex) -> (r: Result<(), VMError>)
    ensures
        (r, final(state).model()) == spec_enter(old(state).model(), *module, handle, None),
{
    enter_function(state, module, handle, None)
}

/// Enters `handle` for `InvokeShielded` or `InvokeTransparent`: the
/// caller must run in `expected_mode`, and so does the callee.
pub fn do_call_with_privacy(state: &mut InterpreterState, module: &AdamantCompiledModule, handle: FunctionHandleIndex, expected_mode: crate::runtime::frame::PrivacyMode) -> (r: Result<(), VMError>)
    ensures
        (r, final(state).model()) == spec_enter(old(state).model(), *module, handle, Some(expected_mode)),
{
    enter_function(state, module, handle, Some(expected_mode))
}

/// Enters the function of generic instantiation `idx` for a
/// `CallGeneric`.
pub fn do_call_generic(state: &mut InterpreterState, module: &AdamantCompiledModule, idx: FunctionInstantiationIndex) -> (r: Result<(), VMError>)
    ensures
        idx.0 >= module.function_instantiations@.len() ==> r == Err::<(), VMError>(out_of_bounds())
            && final(state).model() == old(state).model(),
        idx.0 < module.function_instantiations@.len() ==> (r, final(state).model()) == spec_enter(
            old(state).model(),
            *module,
            module.function_instantiations@[idx.0 as int].handle,
            None,
        ),
{
    if idx.0 as usize >= module.function_instantiations.len() {
        return Err(VMError::InvariantViolation { reason: InvariantViolationReason::IndexOutOfBoundsPostVerification });
    }
    let handle = module.function_instantiations[idx.0 as usize].handle;
    enter_function(state, module, handle, None)
}

} // verus!
