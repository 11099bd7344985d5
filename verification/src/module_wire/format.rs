//! Constants of the module binary format: the magic numbers, the
//! flavored version word, the table kinds, the type tags and flags,
//! and the bounds on indices, counts and sizes.

use vstd::prelude::*;

verus! {

/// Lowest binary-format version this format reads and writes.
pub const VERSION_MIN: u32 = 5;
/// Version 5: metadata tables, the entry flag.
pub const VERSION_5: u32 = 5;
/// Version 6.
pub const VERSION_6: u32 = 6;
/// Version 7: enums, variant handles and jump tables; flavored
/// version word.
pub const VERSION_7: u32 = 7;
/// Highest binary-format version this format reads and writes.
pub const VERSION_MAX: u32 = 7;

/// The flavor byte carried in the top byte of the version word from
/// version 7 on.
pub const SUI_FLAVOR: u8 = 0x05;

/// Bound on the number of tables.
pub const TABLE_COUNT_MAX: u64 = 255;
/// Bound on a table offset.
pub const TABLE_OFFSET_MAX: u64 = 0xffff_ffff;
/// Bound on a table size.
pub const TABLE_SIZE_MAX: u64 = 0xffff_ffff;
/// Bound on a table index.
pub const TABLE_INDEX_MAX: u64 = 65535;
/// Bound on a bytecode offset.
pub const BYTECODE_INDEX_MAX: u64 = 65535;
/// Bound on the length of an identifier, in bytes.
pub const IDENTIFIER_SIZE_MAX: u64 = 65535;
/// Bound on the length of a constant's data, in bytes.
pub const CONSTANT_SIZE_MAX: u64 = 65535;
/// Bound on the length of a metadata key, in bytes.
pub const METADATA_KEY_SIZE_MAX: u64 = 1023;
/// Bound on the length of a metadata value, in bytes.
pub const METADATA_VALUE_SIZE_MAX: u64 = 65535;
/// Bound on the number of types in a signature.
pub const SIGNATURE_SIZE_MAX: u64 = 255;
/// Bound on the length of an acquires list.
pub const ACQUIRES_COUNT_MAX: u64 = 255;
/// Bound on the number of fields of a struct or variant.
pub const FIELD_COUNT_MAX: u64 = 255;
/// Bound on a field offset.
pub const FIELD_OFFSET_MAX: u64 = 255;
/// Bound on the number of type parameters.
pub const TYPE_PARAMETER_COUNT_MAX: u64 = 255;
/// Bound on a type-parameter index.
pub const TYPE_PARAMETER_INDEX_MAX: u64 = 65536;
/// Bound on the number of variants of an enum.
pub const VARIANT_COUNT_MAX: u64 = 127;
/// Bound on a variant tag.
pub const VARIANT_TAG_MAX_VALUE: u64 = 127;
/// Bound on the number of jump tables of a code unit.
pub const JUMP_TABLE_INDEX_MAX: u64 = 65535;
/// Bound on the nesting depth of a type.
pub const SIGNATURE_TOKEN_DEPTH_MAX: u64 = 256;
/// The ability set holding every ability.
pub const ABILITY_SET_ALL: u8 = 0x0f;

/// Visibility byte of a private function.
pub const VISIBILITY_PRIVATE: u8 = 0x00;
/// Visibility byte of a public function.
pub const VISIBILITY_PUBLIC: u8 = 0x01;
/// Visibility byte of the deprecated script visibility.
pub const VISIBILITY_DEPRECATED_SCRIPT: u8 = 0x02;
/// Visibility byte of a friend function.
pub const VISIBILITY_FRIEND: u8 = 0x03;

/// Function-definition flag: native.
pub const FUNCTION_FLAG_NATIVE: u8 = 0x02;
/// Function-definition flag: entry.
pub const FUNCTION_FLAG_ENTRY: u8 = 0x04;

/// Struct-definition flag: native struct.
pub const STRUCT_FLAG_NATIVE: u8 = 0x01;
/// Struct-definition flag: declared fields follow.
pub const STRUCT_FLAG_DECLARED: u8 = 0x02;
/// Enum-definition flag: declared variants follow.
pub const ENUM_FLAG_DECLARED: u8 = 0x02;
/// Jump-table flag: a full table.
pub const JUMP_TABLE_FLAG_FULL: u8 = 0x01;

/// Type tag of `bool`.
pub const TYPE_BOOL: u8 = 0x01;
/// Type tag of `u8`.
pub const TYPE_U8: u8 = 0x02;
/// Type tag of `u64`.
pub const TYPE_U64: u8 = 0x03;
/// Type tag of `u128`.
pub const TYPE_U128: u8 = 0x04;
/// Type tag of `address`.
pub const TYPE_ADDRESS: u8 = 0x05;
/// Type tag of an immutable reference.
pub const TYPE_REFERENCE: u8 = 0x06;
/// Type tag of a mutable reference.
pub const TYPE_MUTABLE_REFERENCE: u8 = 0x07;
/// Type tag of a non-generic datatype.
pub const TYPE_STRUCT: u8 = 0x08;
/// Type tag of a type parameter.
pub const TYPE_TYPE_PARAMETER: u8 = 0x09;
/// Type tag of a vector.
pub const TYPE_VECTOR: u8 = 0x0a;
/// Type tag of an instantiated generic datatype.
pub const TYPE_DATATYPE_INST: u8 = 0x0b;
/// Type tag of `signer`.
pub const TYPE_SIGNER: u8 = 0x0c;
/// Type tag of `u16`.
pub const TYPE_U16: u8 = 0x0d;
/// Type tag of `u32`.
pub const TYPE_U32: u8 = 0x0e;
/// Type tag of `u256`.
pub const TYPE_U256: u8 = 0x0f;

/// The kinds of table of a module, in the order they are written.
#[derive(Clone, Copy, Debug, PartialEq, Eq, Hash, Structural)]
pub enum TableType {
    /// Module handles.
    ModuleHandles,
    /// Datatype handles.
    DatatypeHandles,
    /// Function handles.
    FunctionHandles,
    /// Function instantiations.
    FunctionInst,
    /// The signature pool.
    Signatures,
    /// The identifier pool.
    Identifiers,
    /// The address pool.
    AddressIdentifiers,
    /// The constant pool.
    ConstantPool,
    /// Metadata entries.
    Metadata,
    /// Struct definitions.
    StructDefs,
    /// Struct instantiations.
    StructDefInst,
    /// Function definitions.
    FunctionDefs,
    /// Field handles.
    FieldHandle,
    /// Field instantiations.
    FieldInst,
    /// Friend declarations.
    FriendDecls,
    /// Enum definitions.
    EnumDefs,
    /// Enum instantiations.
    EnumDefInst,
    /// Variant handles.
    VariantHandles,
    /// Variant instantiation handles.
    VariantInstHandles,
}

/// The byte that names a table kind in the table index.
pub open spec fn spec_table_type_byte(t: TableType) -> u8 {
    match t {
        TableType::ModuleHandles => 0x01,
        TableType::DatatypeHandles => 0x02,
        TableType::FunctionHandles => 0x03,
        TableType::FunctionInst => 0x04,
        TableType::Signatures => 0x05,
        TableType::ConstantPool => 0x06,
        TableType::Identifiers => 0x07,
        TableType::AddressIdentifiers => 0x08,
        TableType::StructDefs => 0x0a,
        TableType::StructDefInst => 0x0b,
        TableType::FunctionDefs => 0x0c,
        TableType::FieldHandle => 0x0d,
        TableType::FieldInst => 0x0e,
        TableType::FriendDecls => 0x0f,
        TableType::Metadata => 0x10,
        TableType::EnumDefs => 0x11,
        TableType::EnumDefInst => 0x12,
        TableType::VariantHandles => 0x13,
        TableType::VariantInstHandles => 0x14,
    }
}

/// The table kind a byte names, if any.
pub open spec fn spec_table_type_of_byte(b: u8) -> Option<TableType> {
    if b == 0x01 {
        Some(TableType::ModuleHandles)
    } else if b == 0x02 {
        Some(TableType::DatatypeHandles)
    } else if b == 0x03 {
        Some(TableType::FunctionHandles)
    } else if b == 0x04 {
        Some(TableType::FunctionInst)
    } else if b == 0x05 {
        Some(TableType::Signatures)
    } else if b == 0x06 {
        Some(TableType::ConstantPool)
    } else if b == 0x07 {
        Some(TableType::Identifiers)
    } else if b == 0x08 {
        Some(TableType::AddressIdentifiers)
    } else if b == 0x0a {
        Some(TableType::StructDefs)
    } else if b == 0x0b {
        Some(TableType::StructDefInst)
    } else if b == 0x0c {
        Some(TableType::FunctionDefs)
    } else if b == 0x0d {
        Some(TableType::FieldHandle)
    } else if b == 0x0e {
        Some(TableType::FieldInst)
    } else if b == 0x0f {
        Some(TableType::FriendDecls)
    } else if b == 0x10 {
        Some(TableType::Metadata)
    } else if b == 0x11 {
        Some(TableType::EnumDefs)
    } else if b == 0x12 {
        Some(TableType::EnumDefInst)
    } else if b == 0x13 {
        Some(TableType::VariantHandles)
    } else if b == 0x14 {
        Some(TableType::VariantInstHandles)
    } else {
        None
    }
}

impl TableType {
    /// The byte that names this table kind.
    pub fn byte(self) -> (r: u8)
        ensures
            r == spec_table_type_byte(self),
    {
        match self {
            TableType::ModuleHandles => 0x01,
            TableType::DatatypeHandles => 0x02,
            TableType::FunctionHandles => 0x03,
            TableType::FunctionInst => 0x04,
            TableType::Signatures => 0x05,
            TableType::ConstantPool => 0x06,
            TableType::Identifiers => 0x07,
            TableType::AddressIdentifiers => 0x08,
            TableType::StructDefs => 0x0a,
            TableType::StructDefInst => 0x0b,
            TableType::FunctionDefs => 0x0c,
            TableType::FieldHandle => 0x0d,
            TableType::FieldInst => 0x0e,
            TableType::FriendDecls => 0x0f,
            TableType::Metadata => 0x10,
            TableType::EnumDefs => 0x11,
            TableType::EnumDefInst => 0x12,
            TableType::VariantHandles => 0x13,
            TableType::VariantInstHandles => 0x14,
        }
    }

    /// The table kind a byte names, if any.
    pub fn from_byte(b: u8) -> (r: Option<TableType>)
        ensures
            r == spec_table_type_of_byte(b),
    {
        if b == 0x01 {
            Some(TableType::ModuleHandles)
        } else if b == 0x02 {
            Some(TableType::DatatypeHandles)
        } else if b == 0x03 {
            Some(TableType::FunctionHandles)
        } else if b == 0x04 {
            Some(TableType::FunctionInst)
        } else if b == 0x05 {
            Some(TableType::Signatures)
        } else if b == 0x06 {
            Some(TableType::ConstantPool)
        } else if b == 0x07 {
            Some(TableType::Identifiers)
        } else if b == 0x08 {
            Some(TableType::AddressIdentifiers)
        } else if b == 0x0a {
            Some(TableType::StructDefs)
        } else if b == 0x0b {
            Some(TableType::StructDefInst)
        } else if b == 0x0c {
            Some(TableType::FunctionDefs)
        } else if b == 0x0d {
            Some(TableType::FieldHandle)
        } else if b == 0x0e {
            Some(TableType::FieldInst)
        } else if b == 0x0f {
            Some(TableType::FriendDecls)
        } else if b == 0x10 {
            Some(TableType::Metadata)
        } else if b == 0x11 {
            Some(TableType::EnumDefs)
        } else if b == 0x12 {
            Some(TableType::EnumDefInst)
        } else if b == 0x13 {
            Some(TableType::VariantHandles)
        } else if b == 0x14 {
            Some(TableType::VariantInstHandles)
        } else {
            None
        }
    }
}

/// Naming a table kind by its byte and reading the byte back give
/// the kind again.
pub proof fn lemma_table_type_byte_round_trip(t: TableType)
    ensures
        spec_table_type_of_byte(spec_table_type_byte(t)) == Some(t),
{
}

/// The first four bytes of a module: the publishable or the
/// unpublishable magic.
pub open spec fn spec_magic(publishable: bool) -> Seq<u8> {
    if publishable {
        seq![0xa1u8, 0x1cu8, 0xebu8, 0x0bu8]
    } else {
        seq![0xdeu8, 0xadu8, 0xc0u8, 0xdeu8]
    }
}

/// The version word written for `version`: from version 7 on, the
/// flavor byte sits in the top byte.
pub open spec fn spec_encode_version(version: u32) -> u32 {
    if version <= VERSION_6 {
        version
    } else {
        (version % 0x0100_0000 + 0x0500_0000) as u32
    }
}

/// The version a version word carries: its low three bytes.
pub open spec fn spec_decode_version(word: u32) -> u32 {
    (word % 0x0100_0000) as u32
}

/// The flavor a version word carries, for versions from 7 on.
pub open spec fn spec_decode_flavor(word: u32) -> Option<u8> {
    if spec_decode_version(word) <= VERSION_6 {
        None
    } else {
        Some((word / 0x0100_0000) as u8)
    }
}

/// The version word written for `version`.
pub fn encode_version(version: u32) -> (r: u32)
    ensures
        r == spec_encode_version(version),
{
    if version <= VERSION_6 {
        version
    } else {
        version % 0x0100_0000 + 0x0500_0000
    }
}

/// The version a version word carries.
pub fn decode_version(word: u32) -> (r: u32)
    ensures
        r == spec_decode_version(word),
{
    word % 0x0100_0000
}

/// The flavor a version word carries, for versions from 7 on.
pub fn decode_flavor(word: u32) -> (r: Option<u8>)
    ensures
        r == spec_decode_flavor(word),
{
    if decode_version(word) <= VERSION_6 {
        None
    } else {
        Some((word / 0x0100_0000) as u8)
    }
}

/// Decoding the version word of a supported version gives the
/// version back, and from version 7 on the flavor byte.
pub proof fn lemma_version_word_round_trip(version: u32)
    requires
        VERSION_MIN <= version <= VERSION_MAX,
    ensures
        spec_decode_version(spec_encode_version(version)) == version,
        version >= VERSION_7 ==> spec_decode_flavor(spec_encode_version(version)) == Some(SUI_FLAVOR),
{
}

/// Whether a byte string is a valid Move identifier: a letter
/// followed by letters, digits and underscores; an underscore
/// followed by at least one of them; or the reserved `<SELF>`.
pub open spec fn spec_is_valid_identifier(b: Seq<u8>) -> bool {
    ||| is_reserved_self(b)
    ||| (b.len() >= 1 && is_ascii_letter(b[0]) && forall|i: int|
        1 <= i < b.len() ==> is_identifier_byte(#[trigger] b[i]))
    ||| (b.len() > 1 && b[0] == 0x5f && forall|i: int|
        1 <= i < b.len() ==> is_identifier_byte(#[trigger] b[i]))
}

/// Whether a byte string is the reserved identifier `<SELF>`.
pub open spec fn is_reserved_self(b: Seq<u8>) -> bool {
    &&& b.len() == 6
    &&& b[0] == 0x3c && b[1] == 0x53 && b[2] == 0x45
    &&& b[3] == 0x4c && b[4] == 0x46 && b[5] == 0x3e
}

/// Whether a byte is an ASCII letter.
pub open spec fn is_ascii_letter(c: u8) -> bool {
    (0x61 <= c <= 0x7a) || (0x41 <= c <= 0x5a)
}

/// Whether a byte may continue an identifier: a letter, a digit or
/// an underscore.
pub open spec fn is_identifier_byte(c: u8) -> bool {
    is_ascii_letter(c) || (0x30 <= c <= 0x39) || c == 0x5f
}

/// Whether a byte string is a valid Move identifier.
pub fn is_valid_identifier(b: &[u8]) -> (r: bool)
    ensures
        r == spec_is_valid_identifier(b@),
{
    let n = b.len();
    if n == 6 && b[0] == 0x3c && b[1] == 0x53 && b[2] == 0x45 && b[3] == 0x4c && b[4] == 0x46
        && b[5] == 0x3e {
        return true;
    }
    if n == 0 {
        return false;
    }
    let first = b[0];
    let letter = (0x61 <= first && first <= 0x7a) || (0x41 <= first && first <= 0x5a);
    if !letter && !(first == 0x5f && n > 1) {
        return false;
    }
    let mut i: usize = 1;
    while i < n
        invariant
            1 <= i <= n,
            !is_reserved_self(b@),
            n == b@.len(),
            forall|j: int| 1 <= j < i ==> is_identifier_byte(#[trigger] b@[j]),
        decreases n - i,
    {
        let c = b[i];
        if !((0x61 <= c && c <= 0x7a) || (0x41 <= c && c <= 0x5a) || (0x30 <= c && c <= 0x39) || c
            == 0x5f) {
            assert(!is_identifier_byte(b@[i as int]));
            return false;
        }
        i = i + 1;
    }
    true
}

} // verus!
