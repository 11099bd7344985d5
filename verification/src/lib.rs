//! Adamant Move virtual machine: instruction set, bytecode wire
//! format, multi-dimensional gas accounting and the interpreter's
//! instruction semantics, each with a machine-checked contract.

pub mod bytecode;
pub mod bytecode_wire;
pub mod cursor;
pub mod module;
pub mod module_wire;
pub mod opcodes;
pub mod runtime;
pub mod transaction;
pub mod u256;
pub mod uleb128;
pub mod value;

pub use bytecode::{
    AdamantBytecode, AdamantOpcodeKind, Bytecode, BytecodeInstruction, CircuitId, CodeOffset,
    ConstantPoolIndex, EnumDefinitionIndex, FieldHandleIndex, FieldInstantiationIndex, FunctionHandleIndex,
    FunctionInstantiationIndex, GasDimension, LocalIndex, SignatureIndex,
    StructDefInstantiationIndex, StructDefinitionIndex, VariantHandleIndex,
    VariantInstantiationHandleIndex, VariantJumpTable, VariantJumpTableIndex, JumpTableInner, U256,
};
pub use cursor::Cursor;
pub use transaction::{Address, GasBudget, ObjectId};
pub use bytecode_wire::{
    deserialize_function_body, deserialize_function_body_from_cursor, serialize_function_body,
    DeserializeConfig, DeserializeError, SerializeError,
};
pub use module::{
    AdamantCodeUnit, AdamantCompiledModule, AdamantFunctionDefinition,
    AdamantToSuiConversionError,
};
pub use module_wire::{
    adamant_deserialize, adamant_serialize, AdamantDeserializeError, AdamantSerializeError,
};
pub use value::{StructValue, Value, VariantValue, U256_BYTES};
