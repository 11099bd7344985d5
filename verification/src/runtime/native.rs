//! Native functions: the name by which a called function is looked up
//! among the handlers the embedder registered, and the two halves of a
//! native call around the handler: taking its arguments from the
//! caller's stack, and giving its results back.

use crate::bytecode::FunctionHandleIndex;
use crate::module::AdamantCompiledModule;
use crate::runtime::error::{InvariantViolationReason, VMError};
use crate::runtime::frame::{out_of_bounds, Frame};
use crate::runtime::interpreter::{InterpreterState, StateModel, pop_n, with_top};
use crate::transaction::Address;
use crate::value::{seq_model, Value, ValueModel};
use vstd::prelude::*;

verus! {

/// The bytes of the standard library's address: 31 zero bytes, then
/// `0x01`.
pub const STDLIB_ADDRESS_BYTES: [u8; 32] = [
    0u8, 0u8, 0u8, 0u8, 0u8, 0u8, 0u8, 0u8, 0u8, 0u8, 0u8, 0u8, 0u8, 0u8, 0u8, 0u8,
    0u8, 0u8, 0u8, 0u8, 0u8, 0u8, 0u8, 0u8, 0u8, 0u8, 0u8, 0u8, 0u8, 0u8, 0u8, 1u8,
];

/// The address of the standard library.
pub fn stdlib_address() -> (r: Address)
    ensures
        r.0 == STDLIB_ADDRESS_BYTES,
{
    Address(STDLIB_ADDRESS_BYTES)
}

/// The fully qualified name of a function: the address and name of
/// its module, and its own name.
#[derive(Clone, Debug, PartialEq, Eq, Hash)]
pub struct NativeKey {
    /// The module's address.
    pub address: Address,
    /// The module's name.
    pub module: String,
    /// The function's name.
    pub function: String,
}

impl NativeKey {
    /// The key of `function` in module `module` at `address`.
    pub fn new(address: Address, module: String, function: String) -> (r: Self)
        ensures
            r.address == address,
            r.module@ == module@,
            r.function@ == function@,
    {
        NativeKey { address, module, function }
    }
}

/// The name of function handle `h` as (address, module name, function
/// name), if every table lookup it takes is in range.
pub open spec fn spec_native_key(m: AdamantCompiledModule, h: FunctionHandleIndex) -> Option<(Address, Seq<char>, Seq<char>)> {
    if h.0 >= m.function_handles@.len() {
        None
    } else {
        let fh = m.function_handles@[h.0 as int];
        if fh.module.0 >= m.module_handles@.len() {
            None
        } else {
            let mh = m.module_handles@[fh.module.0 as int];
            if mh.address.0 >= m.address_identifiers@.len() || mh.name.0 >= m.identifiers@.len()
                || fh.name.0 >= m.identifiers@.len() {
                None
            } else {
                Some(
                    (
                        m.address_identifiers@[mh.address.0 as int],
                        m.identifiers@[mh.name.0 as int]@,
                        m.identifiers@[fh.name.0 as int]@,
                    ),
                )
            }
        }
    }
}

/// The name of the function a call of `handle` reaches.
pub fn native_key_from_handle(module: &AdamantCompiledModule, handle: FunctionHandleIndex) -> (r: Option<NativeKey>)
    ensures
        match spec_native_key(*module, handle) {
            None => r is None,
            Some((a, mname, fname)) => r matches Some(k) && k.address == a && k.module@ == mname
                && k.function@ == fname,
        },
{
    if handle.0 as usize >= module.function_handles.len() {
        return None;
    }
    let fh = &module.function_handles[handle.0 as usize];
    if fh.module.0 as usize >= module.module_handles.len() {
        return None;
    }
    let mh = &module.module_handles[fh.module.0 as usize];
    if mh.address.0 as usize >= module.address_identifiers.len() || mh.name.0 as usize
        >= module.identifiers.len() || fh.name.0 as usize >= module.identifiers.len() {
        return None;
    }
    let address = module.address_identifiers[mh.address.0 as usize];
    let module_name = module.identifiers[mh.name.0 as usize].clone();
    let function_name = module.identifiers[fh.name.0 as usize].clone();
    Some(NativeKey::new(address, module_name, function_name))
}


/// The number of parameters and of results of function handle `h`,
/// if its handle and both signatures are in the module's tables.
pub open spec fn spec_native_arity(m: AdamantCompiledModule, h: FunctionHandleIndex) -> Result<(nat, nat), VMError> {
    if h.0 >= m.function_handles@.len() {
        Err(out_of_bounds())
    } else {
        let fh = m.function_handles@[h.0 as int];
        if fh.parameters.0 >= m.signatures@.len() || fh.return_.0 >= m.signatures@.len() {
            Err(out_of_bounds())
        } else {
            Ok(
                (
                    m.signatures@[fh.parameters.0 as int].0@.len(),
                    m.signatures@[fh.return_.0 as int].0@.len(),
                ),
            )
        }
    }
}

/// Taking the arguments of a native call of `h` from the executing
/// frame: the arguments in order and the number of results the
/// handler must give back.
pub open spec fn spec_native_call_args(s: StateModel, m: AdamantCompiledModule, h: FunctionHandleIndex) -> (Result<(Seq<ValueModel>, nat), VMError>, StateModel) {
    match spec_native_arity(m, h) {
        Err(e) => (Err(e), s),
        Ok((argc, retc)) => if s.frames.len() == 0 {
            (Err(crate::runtime::frame::underflow()), s)
        } else {
            match pop_n(s.frames.last(), argc) {
                (Err(e), g) => (Err(e), with_top(s, g)),
                (Ok(args), g) => (Ok((args, retc)), with_top(s, g)),
            }
        },
    }
}

/// Pops the arguments of a native call of `handle` from the executing
/// frame, whose counter already points past the call.  Returns them in
/// order, with the number of results the handler must produce.
pub fn native_call_args(state: &mut InterpreterState, module: &AdamantCompiledModule, handle: FunctionHandleIndex) -> (r: Result<(Vec<Value>, usize), VMError>)
    ensures
        (match r {
            Ok((args, retc)) => Ok((seq_model(args@), retc as nat)),
            Err(e) => Err(e),
        }, final(state).model()) == spec_native_call_args(old(state).model(), *module, handle),
{
    let oob = VMError::InvariantViolation { reason: InvariantViolationReason::IndexOutOfBoundsPostVerification };
    if handle.0 as usize >= module.function_handles.len() {
        return Err(oob);
    }
    let fh = &module.function_handles[handle.0 as usize];
    if fh.parameters.0 as usize >= module.signatures.len() || fh.return_.0 as usize
        >= module.signatures.len() {
        return Err(oob);
    }
    let argc = module.signatures[fh.parameters.0 as usize].0.len();
    let retc = module.signatures[fh.return_.0 as usize].0.len();
    state.take_top_values(argc, retc)
}

/// Giving a native handler's results back: the handler must leave the
/// call stack at `depth_before` frames and return `expected` values,
/// which are pushed in order on the executing frame.
pub open spec fn spec_finish_native_call(s: StateModel, depth_before: nat, expected: nat, results: Seq<ValueModel>) -> (Result<(), VMError>, StateModel) {
    if s.frames.len() != depth_before {
        (Err(VMError::InvariantViolation { reason: InvariantViolationReason::NativeHandlerMutatedFrameStack }), s)
    } else if results.len() != expected {
        (Err(VMError::InvariantViolation { reason: InvariantViolationReason::ReturnArityMismatchPostNativeHandler }), s)
    } else if s.frames.len() == 0 {
        (Err(crate::runtime::frame::underflow()), s)
    } else {
        (Ok(()), with_top(s, crate::runtime::interpreter::push_all(s.frames.last(), results)))
    }
}

/// Checks what a native handler left and pushes its results.
pub fn finish_native_call(state: &mut InterpreterState, depth_before: usize, expected: usize, results: Vec<Value>) -> (r: Result<(), VMError>)
    ensures
        (r, final(state).model()) == spec_finish_native_call(
            old(state).model(),
            depth_before as nat,
            expected as nat,
            seq_model(results@),
        ),
{
    if state.frame_depth() != depth_before {
        return Err(VMError::InvariantViolation { reason: InvariantViolationReason::NativeHandlerMutatedFrameStack });
    }
    assert(seq_model(results@).len() == results@.len());
    if results.len() != expected {
        return Err(VMError::InvariantViolation { reason: InvariantViolationReason::ReturnArityMismatchPostNativeHandler });
    }
    state.push_top_values(results)
}

/// The error of a caller whose privacy mode is not the expected one.
pub open spec fn spec_check_caller_mode(s: StateModel, expected: crate::runtime::frame::PrivacyMode) -> Result<(), VMError> {
    if s.frames.len() == 0 {
        Err(crate::runtime::frame::underflow())
    } else if s.frames.last().privacy_mode != expected {
        Err(crate::runtime::interpreter::privacy_mismatch())
    } else {
        Ok(())
    }
}

/// Checks that the executing frame runs in `expected` mode, as a
/// privacy-pinned call of a native function requires.
pub fn check_caller_mode(state: &InterpreterState, expected: crate::runtime::frame::PrivacyMode) -> (r: Result<(), VMError>)
    ensures
        r == spec_check_caller_mode(state.model(), expected),
{
    match state.top_frame() {
        None => Err(VMError::InvariantViolation { reason: InvariantViolationReason::StackUnderflow }),
        Some(f) => if f.privacy_mode != expected {
            Err(VMError::InvariantViolation { reason: InvariantViolationReason::PrivacyModeMismatchPostVerification })
        } else {
            Ok(())
        },
    }
}

} // verus!
