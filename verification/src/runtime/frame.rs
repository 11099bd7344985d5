//! Call frames: the operand stack, local slots and program counter of
//! one executing function.
//!
//! Every operation is stated over the frame's model
//! ([`FrameModel`]), where values are replaced by their models.

use crate::bytecode::{FunctionHandleIndex, LocalIndex};
use crate::runtime::error::{InvariantViolationReason, VMError};
use crate::transaction::Address;
use crate::value::{seq_model, u256_value, StructValue, Value, ValueModel};
use vstd::prelude::*;

verus! {

/// Whether a frame executes in shielded or transparent mode.
#[derive(Debug, Clone, Copy, PartialEq, Eq, Hash, Structural)]
pub enum PrivacyMode {
    /// Transparent execution.
    Transparent,
    /// Shielded execution.
    Shielded,
}

/// One executing function.
#[derive(Debug, PartialEq, Eq)]
pub struct Frame {
    /// The executing function.
    pub function_handle: FunctionHandleIndex,
    /// The operand stack; its last element is the top.
    pub stack: Vec<Value>,
    /// The local slots; `None` is an empty slot.
    pub locals: Vec<Option<Value>>,
    /// Offset of the next instruction.
    pub pc: u16,
    /// The frame's privacy mode.
    pub privacy_mode: PrivacyMode,
}

/// The model of a frame.
pub struct FrameModel {
    /// The executing function.
    pub function_handle: FunctionHandleIndex,
    /// Models of the operand stack's values, top last.
    pub stack: Seq<ValueModel>,
    /// Models of the local slots.
    pub locals: Seq<Option<ValueModel>>,
    /// Offset of the next instruction.
    pub pc: u16,
    /// The privacy mode.
    pub privacy_mode: PrivacyMode,
}

/// The model of a local slot.
pub open spec fn slot_model(slot: Option<Value>) -> Option<ValueModel> {
    match slot {
        Some(v) => Some(v.model()),
        None => None,
    }
}

/// The error of an operation on too few operand-stack values.
pub open spec fn underflow() -> VMError {
    VMError::InvariantViolation { reason: InvariantViolationReason::StackUnderflow }
}

/// The error of an operand of the wrong type.
pub open spec fn type_mismatch() -> VMError {
    VMError::InvariantViolation { reason: InvariantViolationReason::TypeMismatchOnStack }
}

/// The error of an index outside its table, slots or container.
pub open spec fn out_of_bounds() -> VMError {
    VMError::InvariantViolation { reason: InvariantViolationReason::IndexOutOfBoundsPostVerification }
}

/// The error of a read of an empty local slot.
pub open spec fn not_initialized() -> VMError {
    VMError::InvariantViolation { reason: InvariantViolationReason::LocalNotInitialized }
}

impl FrameModel {
    /// The frame with `v` pushed.
    pub open spec fn push(self, v: ValueModel) -> FrameModel {
        FrameModel { stack: self.stack.push(v), ..self }
    }

    /// The frame with its top value removed.
    pub open spec fn drop_top(self) -> FrameModel {
        FrameModel { stack: self.stack.drop_last(), ..self }
    }

    /// The frame with the program counter advanced by one, wrapping.
    pub open spec fn advance(self) -> FrameModel {
        FrameModel { pc: (if self.pc == u16::MAX { 0 } else { (self.pc + 1) as u16 }), ..self }
    }

    /// The frame with the program counter set to `target`.
    pub open spec fn jump(self, target: u16) -> FrameModel {
        FrameModel { pc: target, ..self }
    }

    /// Popping the top value: the value and the frame without it, or
    /// a stack underflow with the frame unchanged.
    pub open spec fn pop(self) -> (Result<ValueModel, VMError>, FrameModel) {
        if self.stack.len() == 0 {
            (Err(underflow()), self)
        } else {
            (Ok(self.stack.last()), self.drop_top())
        }
    }

    /// Reading local `idx` without moving it out.
    pub open spec fn copy_loc(self, idx: LocalIndex) -> Result<ValueModel, VMError> {
        if idx >= self.locals.len() {
            Err(out_of_bounds())
        } else {
            match self.locals[idx as int] {
                Some(v) => Ok(v),
                None => Err(not_initialized()),
            }
        }
    }

    /// Moving local `idx` out, which empties the slot.
    pub open spec fn move_loc(self, idx: LocalIndex) -> (Result<ValueModel, VMError>, FrameModel) {
        match self.copy_loc(idx) {
            Ok(v) => (Ok(v), FrameModel { locals: self.locals.update(idx as int, None), ..self }),
            Err(e) => (Err(e), self),
        }
    }

    /// Storing `v` in local `idx`.
    pub open spec fn st_loc(self, idx: LocalIndex, v: ValueModel) -> Result<FrameModel, VMError> {
        if idx >= self.locals.len() {
            Err(out_of_bounds())
        } else {
            Ok(FrameModel { locals: self.locals.update(idx as int, Some(v)), ..self })
        }
    }
}

/// The `u8` a model holds, or a type mismatch.
pub open spec fn as_u8(v: ValueModel) -> Result<u8, VMError> {
    match v {
        ValueModel::U8(x) => Ok(x),
        _ => Err(type_mismatch()),
    }
}

/// The `u64` a model holds, or a type mismatch.
pub open spec fn as_u64(v: ValueModel) -> Result<u64, VMError> {
    match v {
        ValueModel::U64(x) => Ok(x),
        _ => Err(type_mismatch()),
    }
}

/// The `bool` a model holds, or a type mismatch.
pub open spec fn as_bool(v: ValueModel) -> Result<bool, VMError> {
    match v {
        ValueModel::Bool(x) => Ok(x),
        _ => Err(type_mismatch()),
    }
}

/// Popping the top value and reading it with `read`: the frame loses
/// the value whenever there is one, matching type or not.
pub open spec fn pop_as<T>(f: FrameModel, read: spec_fn(ValueModel) -> Result<T, VMError>) -> (
    Result<T, VMError>,
    FrameModel,
) {
    match f.pop() {
        (Ok(v), g) => (read(v), g),
        (Err(e), g) => (Err(e), g),
    }
}

impl Frame {
    /// The model of the frame.
    pub open spec fn model(self) -> FrameModel {
        FrameModel {
            function_handle: self.function_handle,
            stack: seq_model(self.stack@),
            locals: self.locals@.map_values(|s: Option<Value>| slot_model(s)),
            pc: self.pc,
            privacy_mode: self.privacy_mode,
        }
    }

    /// A transparent frame for `function_handle` with `local_count`
    /// empty local slots, an empty stack and the counter at zero.
    pub fn new(function_handle: FunctionHandleIndex, local_count: usize) -> (r: Self)
        ensures
            r.model() == (FrameModel {
                function_handle,
                stack: Seq::empty(),
                locals: Seq::new(local_count as nat, |i: int| None),
                pc: 0,
                privacy_mode: PrivacyMode::Transparent,
            }),
    {
        Self::new_with_privacy(function_handle, local_count, PrivacyMode::Transparent)
    }

    /// A frame in `privacy_mode` for `function_handle` with
    /// `local_count` empty local slots, an empty stack and the counter
    /// at zero.
    pub fn new_with_privacy(
        function_handle: FunctionHandleIndex,
        local_count: usize,
        privacy_mode: PrivacyMode,
    ) -> (r: Self)
        ensures
            r.model() == (FrameModel {
                function_handle,
                stack: Seq::empty(),
                locals: Seq::new(local_count as nat, |i: int| None),
                pc: 0,
                privacy_mode,
            }),
    {
        let mut locals: Vec<Option<Value>> = Vec::new();
        let mut i: usize = 0;
        while i < local_count
            invariant
                i <= local_count,
                locals@.len() == i,
                forall|j: int| 0 <= j < i ==> (#[trigger] locals@[j]) is None,
            decreases local_count - i,
        {
            locals.push(None);
            i = i + 1;
        }
        let r = Frame { function_handle, stack: Vec::new(), locals, pc: 0, privacy_mode };
        assert(seq_model(r.stack@) =~= Seq::empty());
        assert(r.locals@.map_values(|s: Option<Value>| slot_model(s)) =~= Seq::new(
            local_count as nat,
            |i: int| None,
        ));
        r
    }

    /// Whether the operand stack is empty.
    pub fn stack_is_empty(&self) -> (r: bool)
        ensures
            r == (self.model().stack.len() == 0),
    {
        self.stack.len() == 0
    }

    /// Pushes a value on the operand stack.
    pub fn push_value(&mut self, value: Value)
        ensures
            final(self).model() == old(self).model().push(value.model()),
            final(self).stack@ == old(self).stack@.push(value),
    {
        self.stack.push(value);
        assert(seq_model(self.stack@) =~= seq_model(old(self).stack@).push(value.model()));
    }

    /// Pops the top value of the operand stack.
    pub fn pop_value(&mut self) -> (r: Result<Value, VMError>)
        ensures
            (match r {
                Ok(v) => Ok(v.model()),
                Err(e) => Err(e),
            }) == old(self).model().pop().0,
            final(self).model() == old(self).model().pop().1,
            r matches Ok(v) ==> v == old(self).stack@.last(),
            old(self).stack@.len() > 0 ==> final(self).stack@ == old(self).stack@.drop_last(),
    {
        match self.stack.pop() {
            Some(v) => {
                assert(seq_model(self.stack@) =~= seq_model(old(self).stack@).drop_last());
                Ok(v)
            },
            None => Err(VMError::InvariantViolation { reason: InvariantViolationReason::StackUnderflow }),
        }
    }

    /// Pops the top value, which must be a `u8`.
    pub fn pop_u8(&mut self) -> (r: Result<u8, VMError>)
        ensures
            (r, final(self).model()) == pop_as(old(self).model(), |v: ValueModel| as_u8(v)),
    {
        match self.pop_value()? {
            Value::U8(v) => Ok(v),
            _ => Err(VMError::InvariantViolation { reason: InvariantViolationReason::TypeMismatchOnStack }),
        }
    }

    /// Pops the top value, which must be a `u16`.
    pub fn pop_u16(&mut self) -> (r: Result<u16, VMError>)
        ensures
            (r, final(self).model()) == pop_as(
                old(self).model(),
                |v: ValueModel|
                    match v {
                        ValueModel::U16(x) => Ok(x),
                        _ => Err(type_mismatch()),
                    },
            ),
    {
        match self.pop_value()? {
            Value::U16(v) => Ok(v),
            _ => Err(VMError::InvariantViolation { reason: InvariantViolationReason::TypeMismatchOnStack }),
        }
    }

    /// Pops the top value, which must be a `u32`.
    pub fn pop_u32(&mut self) -> (r: Result<u32, VMError>)
        ensures
            (r, final(self).model()) == pop_as(
                old(self).model(),
                |v: ValueModel|
                    match v {
                        ValueModel::U32(x) => Ok(x),
                        _ => Err(type_mismatch()),
                    },
            ),
    {
        match self.pop_value()? {
            Value::U32(v) => Ok(v),
            _ => Err(VMError::InvariantViolation { reason: InvariantViolationReason::TypeMismatchOnStack }),
        }
    }

    /// Pops the top value, which must be a `u64`.
    pub fn pop_u64(&mut self) -> (r: Result<u64, VMError>)
        ensures
            (r, final(self).model()) == pop_as(old(self).model(), |v: ValueModel| as_u64(v)),
    {
        match self.pop_value()? {
            Value::U64(v) => Ok(v),
            _ => Err(VMError::InvariantViolation { reason: InvariantViolationReason::TypeMismatchOnStack }),
        }
    }

    /// Pops the top value, which must be a `u128`.
    pub fn pop_u128(&mut self) -> (r: Result<u128, VMError>)
        ensures
            (r, final(self).model()) == pop_as(
                old(self).model(),
                |v: ValueModel|
                    match v {
                        ValueModel::U128(x) => Ok(x),
                        _ => Err(type_mismatch()),
                    },
            ),
    {
        match self.pop_value()? {
            Value::U128(v) => Ok(v),
            _ => Err(VMError::InvariantViolation { reason: InvariantViolationReason::TypeMismatchOnStack }),
        }
    }

    /// Pops the top value, which must be a `u256`; returns its
    /// little-endian bytes.
    pub fn pop_u256(&mut self) -> (r: Result<[u8; 32], VMError>)
        ensures
            (match r {
                Ok(b) => Ok(u256_value(b)),
                Err(e) => Err(e),
            }, final(self).model()) == pop_as(
                old(self).model(),
                |v: ValueModel|
                    match v {
                        ValueModel::U256(x) => Ok(x),
                        _ => Err(type_mismatch()),
                    },
            ),
    {
        match self.pop_value()? {
            Value::U256(v) => Ok(v),
            _ => Err(VMError::InvariantViolation { reason: InvariantViolationReason::TypeMismatchOnStack }),
        }
    }

    /// Pops the top value, which must be a `bool`.
    pub fn pop_bool(&mut self) -> (r: Result<bool, VMError>)
        ensures
            (r, final(self).model()) == pop_as(old(self).model(), |v: ValueModel| as_bool(v)),
    {
        match self.pop_value()? {
            Value::Bool(v) => Ok(v),
            _ => Err(VMError::InvariantViolation { reason: InvariantViolationReason::TypeMismatchOnStack }),
        }
    }

    /// Pops the top value, which must be an address.
    pub fn pop_address(&mut self) -> (r: Result<Address, VMError>)
        ensures
            (match r {
                Ok(a) => Ok(a.0@),
                Err(e) => Err(e),
            }, final(self).model()) == pop_as(
                old(self).model(),
                |v: ValueModel|
                    match v {
                        ValueModel::Address(x) => Ok(x),
                        _ => Err(type_mismatch()),
                    },
            ),
    {
        match self.pop_value()? {
            Value::Address(v) => Ok(v),
            _ => Err(VMError::InvariantViolation { reason: InvariantViolationReason::TypeMismatchOnStack }),
        }
    }

    /// Pops the top value, which must be a struct.
    pub fn pop_struct(&mut self) -> (r: Result<StructValue, VMError>)
        ensures
            (match r {
                Ok(s) => Ok(seq_model(s.fields@)),
                Err(e) => Err(e),
            }, final(self).model()) == pop_as(
                old(self).model(),
                |v: ValueModel|
                    match v {
                        ValueModel::Struct(fields) => Ok(fields),
                        _ => Err(type_mismatch()),
                    },
            ),
    {
        match self.pop_value()? {
            Value::Struct(v) => {
                proof {
                    crate::value::lemma_vec_model(v.fields);
                }
                Ok(v)
            },
            _ => Err(VMError::InvariantViolation { reason: InvariantViolationReason::TypeMismatchOnStack }),
        }
    }

    /// Pops the top value, which must be a vector.
    pub fn pop_vector(&mut self) -> (r: Result<Vec<Value>, VMError>)
        ensures
            (match r {
                Ok(v) => Ok(seq_model(v@)),
                Err(e) => Err(e),
            }, final(self).model()) == pop_as(
                old(self).model(),
                |v: ValueModel|
                    match v {
                        ValueModel::Vector(elems) => Ok(elems),
                        _ => Err(type_mismatch()),
                    },
            ),
    {
        match self.pop_value()? {
            Value::Vector(v) => {
                proof {
                    crate::value::lemma_vec_model(v);
                }
                Ok(v)
            },
            _ => Err(VMError::InvariantViolation { reason: InvariantViolationReason::TypeMismatchOnStack }),
        }
    }

    /// A copy of local `idx`, which stays in its slot.
    pub fn copy_loc(&self, idx: LocalIndex) -> (r: Result<Value, VMError>)
        ensures
            (match r {
                Ok(v) => Ok(v.model()),
                Err(e) => Err(e),
            }) == self.model().copy_loc(idx),
    {
        if (idx as usize) >= self.locals.len() {
            return Err(
                VMError::InvariantViolation {
                    reason: InvariantViolationReason::IndexOutOfBoundsPostVerification,
                },
            );
        }
        match &self.locals[idx as usize] {
            Some(v) => Ok(v.deep_copy()),
            None => Err(VMError::InvariantViolation { reason: InvariantViolationReason::LocalNotInitialized }),
        }
    }

    /// Moves local `idx` out, leaving the slot empty.
    pub fn move_loc(&mut self, idx: LocalIndex) -> (r: Result<Value, VMError>)
        ensures
            (match r {
                Ok(v) => Ok(v.model()),
                Err(e) => Err(e),
            }) == old(self).model().move_loc(idx).0,
            final(self).model() == old(self).model().move_loc(idx).1,
    {
        if (idx as usize) >= self.locals.len() {
            return Err(
                VMError::InvariantViolation {
                    reason: InvariantViolationReason::IndexOutOfBoundsPostVerification,
                },
            );
        }
        let i = idx as usize;
        if self.locals[i].is_none() {
            return Err(VMError::InvariantViolation { reason: InvariantViolationReason::LocalNotInitialized });
        }
        let slot = self.locals[i].take();
        assert(self.locals@.map_values(|s: Option<Value>| slot_model(s)) =~= old(self).model().locals.update(
            i as int,
            None,
        ));
        match slot {
            Some(v) => Ok(v),
            None => Err(VMError::InvariantViolation { reason: InvariantViolationReason::LocalNotInitialized }),
        }
    }

    /// Stores `value` in local `idx`.
    pub fn st_loc(&mut self, idx: LocalIndex, value: Value) -> (r: Result<(), VMError>)
        ensures
            match old(self).model().st_loc(idx, value.model()) {
                Ok(f) => r is Ok && final(self).model() == f,
                Err(e) => r == Err::<(), VMError>(e) && final(self).model() == old(self).model(),
            },
    {
        if (idx as usize) >= self.locals.len() {
            return Err(
                VMError::InvariantViolation {
                    reason: InvariantViolationReason::IndexOutOfBoundsPostVerification,
                },
            );
        }
        let ghost vm = value.model();
        self.locals.set(idx as usize, Some(value));
        assert(self.locals@.map_values(|s: Option<Value>| slot_model(s)) =~= old(self).model().locals.update(
            idx as int,
            Some(vm),
        ));
        Ok(())
    }
}

} // verus!
