//! Module-level wire format: the header (magic and version word), the
//! table index, the tables' contents and the trailing handle of the
//! module itself.  Function bodies inside the function-definition
//! table use the instruction encoding of [`crate::bytecode_wire`],
//! Adamant extensions included.

pub mod decode;
pub mod encode;
pub mod format;
pub mod laws;

pub use decode::{adamant_deserialize, AdamantDeserializeError};
pub use encode::{adamant_serialize, AdamantSerializeError};
pub use format::TableType;
