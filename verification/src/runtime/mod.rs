//! The Adamant VM runtime: error taxonomy, gas accounting, execution
//! frames and the instruction semantics of the interpreter.

pub mod constants;
pub mod crypto;
pub mod error;
pub mod frame;
pub mod gas;
pub mod interpreter;
pub mod laws;
pub mod module_helpers;
pub mod module_resolver_adapter;
pub mod native;
pub mod ops;

pub use error::{
    AbortReason, ArithmeticErrorReason, CommitError, InvariantViolationReason, LoadError, VMError,
};
pub use gas::GasTracker;
pub use crypto::{CryptoRequest, CryptoResponse, SignatureScheme};
pub use frame::{Frame, PrivacyMode};
pub use interpreter::{DispatchOutcome, InterpreterState};
pub use module_resolver_adapter::{LoadedModulesResolver, MalformedSelfHandle, ModuleId};
pub use native::{native_key_from_handle, stdlib_address, NativeKey, STDLIB_ADDRESS_BYTES};
