//! Runtime error type of the Adamant VM.  Each top-level variant says
//! what the failure means for the transaction; arithmetic aborts and
//! defensive invariant violations carry a closed sub-reason.

use crate::bytecode::{FunctionHandleIndex, GasDimension};
use crate::transaction::ObjectId;
use vstd::prelude::*;

verus! {

/// Failure to load an object of the read set from chain state.
#[derive(Debug, Clone, Copy, PartialEq, Eq, Hash)]
pub enum LoadError {
    /// No object has the identifier.
    ObjectNotFound {
        /// The identifier.
        id: ObjectId,
    },
    /// The object's version is not the declared one.
    VersionMismatch {
        /// The identifier.
        id: ObjectId,
        /// The declared version.
        expected: u64,
        /// The version in chain state.
        actual: u64,
    },
    /// The object is archived.
    ObjectArchived {
        /// The identifier.
        id: ObjectId,
    },
    /// The object is destroyed.
    ObjectDestroyed {
        /// The identifier.
        id: ObjectId,
    },
}

/// Failure to commit a transaction's state changes.
#[derive(Debug, Clone, Copy, PartialEq, Eq, Hash)]
pub enum CommitError {
    /// A created object's identifier is already in use.
    ObjectIdCollision {
        /// The identifier.
        id: ObjectId,
    },
}

/// Why a transaction aborted on purpose.
#[derive(Debug, Clone, Copy, PartialEq, Eq, Hash, Structural)]
pub enum AbortReason {
    /// A gas dimension's budget was exhausted.
    OutOfGas {
        /// The exhausted dimension.
        dimension: GasDimension,
    },
    /// The bytecode executed `Abort` with this code.
    UserAbort {
        /// The popped abort code.
        code: u64,
    },
}

/// Arithmetic abort conditions.
#[derive(Debug, Clone, Copy, PartialEq, Eq, Hash, Structural)]
pub enum ArithmeticErrorReason {
    /// `Add` or `Mul` result above the operand type's range.
    Overflow,
    /// `Sub` result below zero.
    Underflow,
    /// `Div` or `Mod` by zero.
    DivisionByZero,
    /// Shift amount at or above the operand's bit width.
    ShiftAmountTooLarge,
    /// Narrowing cast of a value outside the target range.
    CastNotRepresentable,
}

/// Defensive conditions that verified bytecode never reaches.
#[derive(Debug, Clone, Copy, PartialEq, Eq, Hash, Structural)]
pub enum InvariantViolationReason {
    /// A shielded callee invoked from a transparent caller or the
    /// reverse.
    PrivacyModeMismatchPostVerification,
    /// A deprecated global-storage opcode reached execution.
    DeprecatedOpcodePostVerification,
    /// Too few values on the operand stack.
    StackUnderflow,
    /// A value of the wrong type on the operand stack.
    TypeMismatchOnStack,
    /// An index outside its table, local slots or container.
    IndexOutOfBoundsPostVerification,
    /// A local slot read while empty.
    LocalNotInitialized,
    /// A branch target outside the function body.
    BranchTargetOutOfBounds,
    /// A KZG instruction without a loaded trusted setup.
    KzgSetupNotLoaded,
    /// A native handler pushed or popped call frames.
    NativeHandlerMutatedFrameStack,
    /// A native handler returned the wrong number of values.
    ReturnArityMismatchPostNativeHandler,
    /// A variant's tag differs from the one the instruction names.
    VariantTagMismatch,
    /// A variant tag outside the jump table.
    JumpTableTagOutOfRange,
}

/// Runtime error returned by VM entry points.
#[derive(Debug, Clone, Copy, PartialEq, Eq, Hash)]
pub enum VMError {
    /// Loading the read set failed.
    Load(LoadError),
    /// Committing the state changes failed.
    Commit(CommitError),
    /// The transaction loaded an object outside its read set.
    ReadSetViolation {
        /// The object.
        attempted: ObjectId,
    },
    /// The transaction modified an object outside its write set.
    WriteSetViolation {
        /// The object.
        attempted: ObjectId,
    },
    /// A gas dimension was exhausted.
    GasExhausted {
        /// The dimension.
        dimension: GasDimension,
    },
    /// An instruction the runtime cannot dispatch.
    InvalidInstruction {
        /// The executing function.
        function_handle: FunctionHandleIndex,
        /// Offset of the instruction in its body.
        pc: u16,
    },
    /// An arithmetic abort.
    ArithmeticError {
        /// The condition.
        reason: ArithmeticErrorReason,
    },
    /// A defensive invariant failed.
    InvariantViolation {
        /// The invariant.
        reason: InvariantViolationReason,
    },
    /// The transaction aborted.
    AbortError {
        /// Why.
        reason: AbortReason,
    },
}

impl From<LoadError> for VMError {
    fn from(err: LoadError) -> (r: Self) {
        VMError::Load(err)
    }
}

impl vstd::std_specs::convert::FromSpecImpl<LoadError> for VMError {
    open spec fn obeys_from_spec() -> bool {
        true
    }

    open spec fn from_spec(err: LoadError) -> Self {
        VMError::Load(err)
    }
}

impl From<CommitError> for VMError {
    fn from(err: CommitError) -> (r: Self) {
        VMError::Commit(err)
    }
}

impl vstd::std_specs::convert::FromSpecImpl<CommitError> for VMError {
    open spec fn obeys_from_spec() -> bool {
        true
    }

    open spec fn from_spec(err: CommitError) -> Self {
        VMError::Commit(err)
    }
}

} // verus!
