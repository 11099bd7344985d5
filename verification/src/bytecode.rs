//! Instruction set of Adamant Move: the inherited instruction set
//! with its operands, the Adamant-specific extensions, and the
//! opcode-byte assignment of the extensions.
//!
//! A function body is a sequence of [`BytecodeInstruction`]s, each
//! either an inherited instruction ([`Bytecode`]) or an Adamant
//! extension ([`AdamantBytecode`]).  The extensions occupy the
//! opcode bytes `0x80..=0x91` in declaration order; the inherited
//! instructions occupy `0x01..=0x56` (see `crate::opcodes`).

use vstd::bytes::*;
use vstd::prelude::*;

verus! {

/// Offset of an instruction inside a function body.
pub type CodeOffset = u16;

/// Index of a local variable slot.
pub type LocalIndex = u8;

/// Index of a function handle in the module's function-handle pool.
#[derive(Clone, Copy, Debug, Default, PartialEq, Eq, Hash, PartialOrd, Ord)]
pub struct FunctionHandleIndex(pub u16);

impl FunctionHandleIndex {
    /// Wraps a raw table index.
    pub fn new(index: u16) -> (r: Self)
        ensures
            r.0 == index,
    {
        FunctionHandleIndex(index)
    }
}

/// Index of a generic function instantiation.
#[derive(Clone, Copy, Debug, Default, PartialEq, Eq, Hash, PartialOrd, Ord)]
pub struct FunctionInstantiationIndex(pub u16);

impl FunctionInstantiationIndex {
    /// Wraps a raw table index.
    pub fn new(index: u16) -> (r: Self)
        ensures
            r.0 == index,
    {
        FunctionInstantiationIndex(index)
    }
}

/// Index of a constant in the module's constant pool.
#[derive(Clone, Copy, Debug, Default, PartialEq, Eq, Hash, PartialOrd, Ord)]
pub struct ConstantPoolIndex(pub u16);

impl ConstantPoolIndex {
    /// Wraps a raw table index.
    pub fn new(index: u16) -> (r: Self)
        ensures
            r.0 == index,
    {
        ConstantPoolIndex(index)
    }
}

/// Index of a field handle.
#[derive(Clone, Copy, Debug, Default, PartialEq, Eq, Hash, PartialOrd, Ord)]
pub struct FieldHandleIndex(pub u16);

impl FieldHandleIndex {
    /// Wraps a raw table index.
    pub fn new(index: u16) -> (r: Self)
        ensures
            r.0 == index,
    {
        FieldHandleIndex(index)
    }
}

/// Index of a generic field instantiation.
#[derive(Clone, Copy, Debug, Default, PartialEq, Eq, Hash, PartialOrd, Ord)]
pub struct FieldInstantiationIndex(pub u16);

impl FieldInstantiationIndex {
    /// Wraps a raw table index.
    pub fn new(index: u16) -> (r: Self)
        ensures
            r.0 == index,
    {
        FieldInstantiationIndex(index)
    }
}

/// Index of a signature in the module's signature pool.
#[derive(Clone, Copy, Debug, Default, PartialEq, Eq, Hash, PartialOrd, Ord)]
pub struct SignatureIndex(pub u16);

impl SignatureIndex {
    /// Wraps a raw table index.
    pub fn new(index: u16) -> (r: Self)
        ensures
            r.0 == index,
    {
        SignatureIndex(index)
    }
}

/// Index of a struct definition.
#[derive(Clone, Copy, Debug, Default, PartialEq, Eq, Hash, PartialOrd, Ord)]
pub struct StructDefinitionIndex(pub u16);

impl StructDefinitionIndex {
    /// Wraps a raw table index.
    pub fn new(index: u16) -> (r: Self)
        ensures
            r.0 == index,
    {
        StructDefinitionIndex(index)
    }
}

/// Index of a generic struct instantiation.
#[derive(Clone, Copy, Debug, Default, PartialEq, Eq, Hash, PartialOrd, Ord)]
pub struct StructDefInstantiationIndex(pub u16);

impl StructDefInstantiationIndex {
    /// Wraps a raw table index.
    pub fn new(index: u16) -> (r: Self)
        ensures
            r.0 == index,
    {
        StructDefInstantiationIndex(index)
    }
}

/// Index of an enum variant handle.
#[derive(Clone, Copy, Debug, Default, PartialEq, Eq, Hash, PartialOrd, Ord)]
pub struct VariantHandleIndex(pub u16);

impl VariantHandleIndex {
    /// Wraps a raw table index.
    pub fn new(index: u16) -> (r: Self)
        ensures
            r.0 == index,
    {
        VariantHandleIndex(index)
    }
}

/// Index of a generic enum variant handle.
#[derive(Clone, Copy, Debug, Default, PartialEq, Eq, Hash, PartialOrd, Ord)]
pub struct VariantInstantiationHandleIndex(pub u16);

impl VariantInstantiationHandleIndex {
    /// Wraps a raw table index.
    pub fn new(index: u16) -> (r: Self)
        ensures
            r.0 == index,
    {
        VariantInstantiationHandleIndex(index)
    }
}

/// Index of a jump table of the executing function's code unit.
#[derive(Clone, Copy, Debug, Default, PartialEq, Eq, Hash, PartialOrd, Ord)]
pub struct VariantJumpTableIndex(pub u16);

impl VariantJumpTableIndex {
    /// Wraps a raw table index.
    pub fn new(index: u16) -> (r: Self)
        ensures
            r.0 == index,
    {
        VariantJumpTableIndex(index)
    }
}

/// Index of an enum definition.
#[derive(Clone, Copy, Debug, Default, PartialEq, Eq, Hash, PartialOrd, Ord)]
pub struct EnumDefinitionIndex(pub u16);

impl EnumDefinitionIndex {
    /// Wraps a raw table index.
    pub fn new(index: u16) -> (r: Self)
        ensures
            r.0 == index,
    {
        EnumDefinitionIndex(index)
    }
}
/// A 256-bit unsigned integer, held as its low and high 128-bit
/// halves.
#[derive(Clone, Copy, Debug, Default, PartialEq, Eq, Hash)]
pub struct U256 {
    /// The low 128 bits.
    pub lo: u128,
    /// The high 128 bits.
    pub hi: u128,
}

impl U256 {
    /// The value `hi * 2^128 + lo`.
    pub open spec fn value(self) -> nat {
        (self.hi as nat) * 0x1_0000_0000_0000_0000_0000_0000_0000_0000 + (self.lo as nat)
    }

    /// The 32 little-endian bytes of the value.
    pub open spec fn le_bytes(self) -> Seq<u8> {
        spec_u128_to_le_bytes(self.lo) + spec_u128_to_le_bytes(self.hi)
    }

    /// The value whose little-endian bytes are `s` (32 bytes).
    pub open spec fn from_le_seq(s: Seq<u8>) -> U256 {
        U256 {
            lo: spec_u128_from_le_bytes(s.subrange(0, 16)),
            hi: spec_u128_from_le_bytes(s.subrange(16, 32)),
        }
    }

    /// Builds a value from its 32 little-endian bytes.
    pub fn from_le_bytes(bytes: &[u8; 32]) -> (r: Self)
        ensures
            r == Self::from_le_seq(bytes@),
            r.le_bytes() == bytes@,
    {
        let s = bytes.as_slice();
        let lo = u128_from_le_bytes(vstd::slice::slice_subrange(s, 0, 16));
        let hi = u128_from_le_bytes(vstd::slice::slice_subrange(s, 16, 32));
        proof {
            lemma_auto_spec_u128_to_from_le_bytes();
            assert(bytes@ =~= bytes@.subrange(0, 16) + bytes@.subrange(16, 32));
        }
        U256 { lo, hi }
    }

    /// The 32 little-endian bytes of the value.
    pub fn to_le_bytes(&self) -> (r: [u8; 32])
        ensures
            r@ == self.le_bytes(),
    {
        proof {
            lemma_auto_spec_u128_to_from_le_bytes();
        }
        let lo = u128_to_le_bytes(self.lo);
        let hi = u128_to_le_bytes(self.hi);
        let mut out = [0u8; 32];
        let mut i: usize = 0;
        while i < 32
            invariant
                i <= 32,
                lo@.len() == 16,
                hi@.len() == 16,
                lo@ == spec_u128_to_le_bytes(self.lo),
                hi@ == spec_u128_to_le_bytes(self.hi),
                forall|k: int| 0 <= k < i ==> out@[k] == (lo@ + hi@)[k],
            decreases 32 - i,
        {
            if i < 16 {
                out[i] = lo[i];
            } else {
                out[i] = hi[i - 16];
            }
            i = i + 1;
        }
        assert(out@ =~= lo@ + hi@);
        out
    }
}

/// The targets of a `VariantSwitch`, one code offset per variant tag.
#[derive(Clone, Debug, PartialEq, Eq)]
pub enum JumpTableInner {
    /// A table with an entry for every variant of the enum.
    Full(Vec<CodeOffset>),
}

/// A jump table of a function's code unit.
#[derive(Clone, Debug, PartialEq, Eq)]
pub struct VariantJumpTable {
    /// The enum whose variant tag selects the entry.
    pub head_enum: EnumDefinitionIndex,
    /// The targets.
    pub jump_table: JumpTableInner,
}

impl VariantJumpTable {
    /// The targets of the table, indexed by variant tag.
    pub open spec fn targets(self) -> Seq<CodeOffset> {
        match self.jump_table {
            JumpTableInner::Full(offsets) => offsets@,
        }
    }
}

/// An instruction of the inherited instruction set, with its
/// operands.
#[derive(Clone, Debug, PartialEq, Eq)]
pub enum Bytecode {
    /// Pop and discard the top of the operand stack. (opcode `0x01`)
    Pop,
    /// Return from the current function. (opcode `0x02`)
    Ret,
    /// Branch to the offset when the popped boolean is true. (opcode `0x03`)
    BrTrue(CodeOffset),
    /// Branch to the offset when the popped boolean is false. (opcode `0x04`)
    BrFalse(CodeOffset),
    /// Unconditional branch to the offset. (opcode `0x05`)
    Branch(CodeOffset),
    /// Push a `u64` immediate. (opcode `0x06`)
    LdU64(u64),
    /// Push a constant from the constant pool. (opcode `0x07`)
    LdConst(ConstantPoolIndex),
    /// Push `true`. (opcode `0x08`)
    LdTrue,
    /// Push `false`. (opcode `0x09`)
    LdFalse,
    /// Copy a local onto the stack. (opcode `0x0a`)
    CopyLoc(LocalIndex),
    /// Move a local onto the stack. (opcode `0x0b`)
    MoveLoc(LocalIndex),
    /// Store the top of the stack into a local. (opcode `0x0c`)
    StLoc(LocalIndex),
    /// Mutable reference to a local. (opcode `0x0d`)
    MutBorrowLoc(LocalIndex),
    /// Immutable reference to a local. (opcode `0x0e`)
    ImmBorrowLoc(LocalIndex),
    /// Mutable reference to a struct field. (opcode `0x0f`)
    MutBorrowField(FieldHandleIndex),
    /// Immutable reference to a struct field. (opcode `0x10`)
    ImmBorrowField(FieldHandleIndex),
    /// Call a function. (opcode `0x11`)
    Call(FunctionHandleIndex),
    /// Build a struct from its fields. (opcode `0x12`)
    Pack(StructDefinitionIndex),
    /// Split a struct into its fields. (opcode `0x13`)
    Unpack(StructDefinitionIndex),
    /// Read through a reference. (opcode `0x14`)
    ReadRef,
    /// Write through a reference. (opcode `0x15`)
    WriteRef,
    /// Checked addition. (opcode `0x16`)
    Add,
    /// Checked subtraction. (opcode `0x17`)
    Sub,
    /// Checked multiplication. (opcode `0x18`)
    Mul,
    /// Remainder. (opcode `0x19`)
    Mod,
    /// Division. (opcode `0x1a`)
    Div,
    /// Bitwise or. (opcode `0x1b`)
    BitOr,
    /// Bitwise and. (opcode `0x1c`)
    BitAnd,
    /// Bitwise exclusive or. (opcode `0x1d`)
    Xor,
    /// Boolean or. (opcode `0x1e`)
    Or,
    /// Boolean and. (opcode `0x1f`)
    And,
    /// Boolean negation. (opcode `0x20`)
    Not,
    /// Equality. (opcode `0x21`)
    Eq,
    /// Inequality. (opcode `0x22`)
    Neq,
    /// Unsigned less-than. (opcode `0x23`)
    Lt,
    /// Unsigned greater-than. (opcode `0x24`)
    Gt,
    /// Unsigned less-or-equal. (opcode `0x25`)
    Le,
    /// Unsigned greater-or-equal. (opcode `0x26`)
    Ge,
    /// Abort with the popped `u64` code. (opcode `0x27`)
    Abort,
    /// No operation. (opcode `0x28`)
    Nop,
    /// Deprecated global-storage operation; rejected by strict decoding and never executed. (opcode `0x29`)
    ExistsDeprecated(StructDefinitionIndex),
    /// Deprecated global-storage operation; rejected by strict decoding and never executed. (opcode `0x2a`)
    MutBorrowGlobalDeprecated(StructDefinitionIndex),
    /// Deprecated global-storage operation; rejected by strict decoding and never executed. (opcode `0x2b`)
    ImmBorrowGlobalDeprecated(StructDefinitionIndex),
    /// Deprecated global-storage operation; rejected by strict decoding and never executed. (opcode `0x2c`)
    MoveFromDeprecated(StructDefinitionIndex),
    /// Deprecated global-storage operation; rejected by strict decoding and never executed. (opcode `0x2d`)
    MoveToDeprecated(StructDefinitionIndex),
    /// Turn a mutable reference into an immutable one. (opcode `0x2e`)
    FreezeRef,
    /// Shift left. (opcode `0x2f`)
    Shl,
    /// Shift right. (opcode `0x30`)
    Shr,
    /// Push a `u8` immediate. (opcode `0x31`)
    LdU8(u8),
    /// Push a `u128` immediate. (opcode `0x32`)
    LdU128(Box<u128>),
    /// Cast to `u8`. (opcode `0x33`)
    CastU8,
    /// Cast to `u64`. (opcode `0x34`)
    CastU64,
    /// Cast to `u128`. (opcode `0x35`)
    CastU128,
    /// Mutable reference to a field of a generic struct. (opcode `0x36`)
    MutBorrowFieldGeneric(FieldInstantiationIndex),
    /// Immutable reference to a field of a generic struct. (opcode `0x37`)
    ImmBorrowFieldGeneric(FieldInstantiationIndex),
    /// Call a generic function instantiation. (opcode `0x38`)
    CallGeneric(FunctionInstantiationIndex),
    /// Build a generic struct. (opcode `0x39`)
    PackGeneric(StructDefInstantiationIndex),
    /// Split a generic struct. (opcode `0x3a`)
    UnpackGeneric(StructDefInstantiationIndex),
    /// Deprecated global-storage operation; rejected by strict decoding and never executed. (opcode `0x3b`)
    ExistsGenericDeprecated(StructDefInstantiationIndex),
    /// Deprecated global-storage operation; rejected by strict decoding and never executed. (opcode `0x3c`)
    MutBorrowGlobalGenericDeprecated(StructDefInstantiationIndex),
    /// Deprecated global-storage operation; rejected by strict decoding and never executed. (opcode `0x3d`)
    ImmBorrowGlobalGenericDeprecated(StructDefInstantiationIndex),
    /// Deprecated global-storage operation; rejected by strict decoding and never executed. (opcode `0x3e`)
    MoveFromGenericDeprecated(StructDefInstantiationIndex),
    /// Deprecated global-storage operation; rejected by strict decoding and never executed. (opcode `0x3f`)
    MoveToGenericDeprecated(StructDefInstantiationIndex),
    /// Build a vector of the given length. (opcode `0x40`)
    VecPack(SignatureIndex, u64),
    /// Vector length. (opcode `0x41`)
    VecLen(SignatureIndex),
    /// Immutable reference to a vector element. (opcode `0x42`)
    VecImmBorrow(SignatureIndex),
    /// Mutable reference to a vector element. (opcode `0x43`)
    VecMutBorrow(SignatureIndex),
    /// Push onto the back of a vector. (opcode `0x44`)
    VecPushBack(SignatureIndex),
    /// Pop from the back of a vector. (opcode `0x45`)
    VecPopBack(SignatureIndex),
    /// Split a vector of the given length onto the stack. (opcode `0x46`)
    VecUnpack(SignatureIndex, u64),
    /// Swap two vector elements. (opcode `0x47`)
    VecSwap(SignatureIndex),
    /// Push a `u16` immediate. (opcode `0x48`)
    LdU16(u16),
    /// Push a `u32` immediate. (opcode `0x49`)
    LdU32(u32),
    /// Push a `u256` immediate. (opcode `0x4a`)
    LdU256(Box<U256>),
    /// Cast to `u16`. (opcode `0x4b`)
    CastU16,
    /// Cast to `u32`. (opcode `0x4c`)
    CastU32,
    /// Cast to `u256`. (opcode `0x4d`)
    CastU256,
    /// Build an enum variant. (opcode `0x4e`)
    PackVariant(VariantHandleIndex),
    /// Build a variant of a generic enum. (opcode `0x4f`)
    PackVariantGeneric(VariantInstantiationHandleIndex),
    /// Split an enum variant. (opcode `0x50`)
    UnpackVariant(VariantHandleIndex),
    /// Immutable references to the fields of a variant. (opcode `0x51`)
    UnpackVariantImmRef(VariantHandleIndex),
    /// Mutable references to the fields of a variant. (opcode `0x52`)
    UnpackVariantMutRef(VariantHandleIndex),
    /// Split a variant of a generic enum. (opcode `0x53`)
    UnpackVariantGeneric(VariantInstantiationHandleIndex),
    /// Immutable field references of a generic variant. (opcode `0x54`)
    UnpackVariantGenericImmRef(VariantInstantiationHandleIndex),
    /// Mutable field references of a generic variant. (opcode `0x55`)
    UnpackVariantGenericMutRef(VariantInstantiationHandleIndex),
    /// Jump through a jump table on a variant's tag. (opcode `0x56`)
    VariantSwitch(VariantJumpTableIndex),
}

impl Bytecode {
    /// The instruction always transfers control away from the next
    /// instruction.
    pub open spec fn spec_is_unconditional_branch(self) -> bool {
        self is Ret || self is Abort || self is Branch || self is VariantSwitch
    }

    /// The instruction's control transfer depends on a popped value.
    pub open spec fn spec_is_conditional_branch(self) -> bool {
        self is BrTrue || self is BrFalse
    }

    /// The jump tables hold the table a `VariantSwitch` names.
    pub open spec fn offsets_defined(self, jump_tables: Seq<VariantJumpTable>) -> bool {
        self matches Bytecode::VariantSwitch(jt) ==> (jt.0 as int) < jump_tables.len()
    }

    /// The in-function offsets the instruction can branch to.
    pub open spec fn spec_offsets(self, jump_tables: Seq<VariantJumpTable>) -> Seq<CodeOffset> {
        match self {
            Bytecode::BrTrue(off) => seq![off],
            Bytecode::BrFalse(off) => seq![off],
            Bytecode::Branch(off) => seq![off],
            Bytecode::VariantSwitch(jt) => jump_tables[jt.0 as int].targets(),
            _ => Seq::empty(),
        }
    }

    /// Returns `true` if this instruction always branches.
    pub fn is_unconditional_branch(&self) -> (r: bool)
        ensures
            r == self.spec_is_unconditional_branch(),
    {
        match self {
            Bytecode::Ret | Bytecode::Abort | Bytecode::Branch(_) | Bytecode::VariantSwitch(_) => true,
            _ => false,
        }
    }

    /// Returns `true` if this instruction's branching depends on a
    /// runtime value.
    pub fn is_conditional_branch(&self) -> (r: bool)
        ensures
            r == self.spec_is_conditional_branch(),
    {
        match self {
            Bytecode::BrTrue(_) | Bytecode::BrFalse(_) => true,
            _ => false,
        }
    }

    /// The in-function offsets this instruction can branch to.
    pub fn offsets(&self, jump_tables: &[VariantJumpTable]) -> (r: Vec<CodeOffset>)
        requires
            self.offsets_defined(jump_tables@),
        ensures
            r@ == self.spec_offsets(jump_tables@),
    {
        match self {
            Bytecode::BrTrue(off) | Bytecode::BrFalse(off) | Bytecode::Branch(off) => {
                let mut v = Vec::new();
                v.push(*off);
                proof {
                    assert(v@ =~= seq![*off]);
                }
                v
            },
            Bytecode::VariantSwitch(jt) => {
                let table = &jump_tables[jt.0 as usize];
                match &table.jump_table {
                    JumpTableInner::Full(offsets) => offsets.clone(),
                }
            },
            _ => Vec::new(),
        }
    }
}

/// Reference to a circuit definition: an opaque index into the
/// module's circuit-reference pool.
#[derive(Clone, Copy, Debug, PartialEq, Eq, Hash, Structural)]
pub struct CircuitId(pub u16);

/// One of the six gas dimensions, in the declaration order of the
/// transaction's gas budget.
#[derive(Clone, Copy, Debug, PartialEq, Eq, Hash, Structural)]
pub enum GasDimension {
    /// CPU cycles consumed by bytecode execution.
    Computation,
    /// Bytes added to active state.
    Storage,
    /// Storage-rent prepayment.
    Rent,
    /// Bytes transmitted by validators.
    Bandwidth,
    /// Cost of verifying zero-knowledge proofs.
    ProofVerification,
    /// Cost of generating zero-knowledge proofs.
    ProofGeneration,
}

/// The Adamant-specific instructions, with their operands.
#[derive(Clone, Copy, Debug, PartialEq, Eq, Hash)]
pub enum AdamantBytecode {
    /// Invoke a `#[shielded]` function.
    InvokeShielded(FunctionHandleIndex),
    /// Invoke a `#[transparent]` function.
    InvokeTransparent(FunctionHandleIndex),
    /// Emit a proof witness for a circuit.
    GenerateProof(CircuitId),
    /// Verify a proof for a circuit.
    VerifyProof(CircuitId),
    /// Derive a sub-view-key.
    ReleaseSubViewKey,
    /// Commit to a polynomial.
    KzgCommit,
    /// Verify a polynomial opening.
    KzgVerify,
    /// Verify a recursive proof.
    RecursiveVerify,
    /// SHA3-256 of a byte vector.
    Sha3_256,
    /// BLAKE3 of a byte vector.
    Blake3,
    /// Verify an Ed25519 signature.
    Ed25519Verify,
    /// Verify an ML-DSA-65 signature.
    MlDsaVerify65,
    /// Verify a BLS12-381 signature.
    BlsVerify,
    /// ML-KEM-768 encapsulation.
    MlKemEncapsulate,
    /// ML-KEM-768 decapsulation.
    MlKemDecapsulate,
    /// Charge the popped amount against a gas dimension.
    ChargeGas(GasDimension),
    /// Push the remaining budget of a gas dimension.
    RemainingGas(GasDimension),
    /// Abort with the out-of-gas error.
    OutOfGas,
}

impl AdamantBytecode {
    /// The operand-less kind of this instruction.
    pub open spec fn spec_kind(self) -> AdamantOpcodeKind {
        match self {
            AdamantBytecode::InvokeShielded(_) => AdamantOpcodeKind::InvokeShielded,
            AdamantBytecode::InvokeTransparent(_) => AdamantOpcodeKind::InvokeTransparent,
            AdamantBytecode::GenerateProof(_) => AdamantOpcodeKind::GenerateProof,
            AdamantBytecode::VerifyProof(_) => AdamantOpcodeKind::VerifyProof,
            AdamantBytecode::ReleaseSubViewKey => AdamantOpcodeKind::ReleaseSubViewKey,
            AdamantBytecode::KzgCommit => AdamantOpcodeKind::KzgCommit,
            AdamantBytecode::KzgVerify => AdamantOpcodeKind::KzgVerify,
            AdamantBytecode::RecursiveVerify => AdamantOpcodeKind::RecursiveVerify,
            AdamantBytecode::Sha3_256 => AdamantOpcodeKind::Sha3_256,
            AdamantBytecode::Blake3 => AdamantOpcodeKind::Blake3,
            AdamantBytecode::Ed25519Verify => AdamantOpcodeKind::Ed25519Verify,
            AdamantBytecode::MlDsaVerify65 => AdamantOpcodeKind::MlDsaVerify65,
            AdamantBytecode::BlsVerify => AdamantOpcodeKind::BlsVerify,
            AdamantBytecode::MlKemEncapsulate => AdamantOpcodeKind::MlKemEncapsulate,
            AdamantBytecode::MlKemDecapsulate => AdamantOpcodeKind::MlKemDecapsulate,
            AdamantBytecode::ChargeGas(_) => AdamantOpcodeKind::ChargeGas,
            AdamantBytecode::RemainingGas(_) => AdamantOpcodeKind::RemainingGas,
            AdamantBytecode::OutOfGas => AdamantOpcodeKind::OutOfGas,
        }
    }

    /// The operand-less kind of this instruction.
    pub fn kind(&self) -> (r: AdamantOpcodeKind)
        ensures
            r == self.spec_kind(),
    {
        match self {
            AdamantBytecode::InvokeShielded(_) => AdamantOpcodeKind::InvokeShielded,
            AdamantBytecode::InvokeTransparent(_) => AdamantOpcodeKind::InvokeTransparent,
            AdamantBytecode::GenerateProof(_) => AdamantOpcodeKind::GenerateProof,
            AdamantBytecode::VerifyProof(_) => AdamantOpcodeKind::VerifyProof,
            AdamantBytecode::ReleaseSubViewKey => AdamantOpcodeKind::ReleaseSubViewKey,
            AdamantBytecode::KzgCommit => AdamantOpcodeKind::KzgCommit,
            AdamantBytecode::KzgVerify => AdamantOpcodeKind::KzgVerify,
            AdamantBytecode::RecursiveVerify => AdamantOpcodeKind::RecursiveVerify,
            AdamantBytecode::Sha3_256 => AdamantOpcodeKind::Sha3_256,
            AdamantBytecode::Blake3 => AdamantOpcodeKind::Blake3,
            AdamantBytecode::Ed25519Verify => AdamantOpcodeKind::Ed25519Verify,
            AdamantBytecode::MlDsaVerify65 => AdamantOpcodeKind::MlDsaVerify65,
            AdamantBytecode::BlsVerify => AdamantOpcodeKind::BlsVerify,
            AdamantBytecode::MlKemEncapsulate => AdamantOpcodeKind::MlKemEncapsulate,
            AdamantBytecode::MlKemDecapsulate => AdamantOpcodeKind::MlKemDecapsulate,
            AdamantBytecode::ChargeGas(_) => AdamantOpcodeKind::ChargeGas,
            AdamantBytecode::RemainingGas(_) => AdamantOpcodeKind::RemainingGas,
            AdamantBytecode::OutOfGas => AdamantOpcodeKind::OutOfGas,
        }
    }

    /// The opcode byte of this instruction: that of its kind.
    pub fn opcode_byte(&self) -> (r: u8)
        ensures
            r == self.spec_kind().spec_opcode_byte(),
    {
        self.kind().opcode_byte()
    }
}

/// The kind of an Adamant-specific instruction: the instruction
/// without its operands.  Kinds are assigned the opcode bytes
/// `0x80..=0x91` in declaration order.
#[derive(Clone, Copy, Debug, PartialEq, Eq, Hash, Structural)]
pub enum AdamantOpcodeKind {
    /// Opcode byte `0x80`.
    InvokeShielded,
    /// Opcode byte `0x81`.
    InvokeTransparent,
    /// Opcode byte `0x82`.
    GenerateProof,
    /// Opcode byte `0x83`.
    VerifyProof,
    /// Opcode byte `0x84`.
    ReleaseSubViewKey,
    /// Opcode byte `0x85`.
    KzgCommit,
    /// Opcode byte `0x86`.
    KzgVerify,
    /// Opcode byte `0x87`.
    RecursiveVerify,
    /// Opcode byte `0x88`.
    Sha3_256,
    /// Opcode byte `0x89`.
    Blake3,
    /// Opcode byte `0x8A`.
    Ed25519Verify,
    /// Opcode byte `0x8B`.
    MlDsaVerify65,
    /// Opcode byte `0x8C`.
    BlsVerify,
    /// Opcode byte `0x8D`.
    MlKemEncapsulate,
    /// Opcode byte `0x8E`.
    MlKemDecapsulate,
    /// Opcode byte `0x8F`.
    ChargeGas,
    /// Opcode byte `0x90`.
    RemainingGas,
    /// Opcode byte `0x91`.
    OutOfGas,
}

impl AdamantOpcodeKind {
    /// Every kind, in opcode-byte order.
    pub const ALL: [AdamantOpcodeKind; 18] = [
        AdamantOpcodeKind::InvokeShielded,
        AdamantOpcodeKind::InvokeTransparent,
        AdamantOpcodeKind::GenerateProof,
        AdamantOpcodeKind::VerifyProof,
        AdamantOpcodeKind::ReleaseSubViewKey,
        AdamantOpcodeKind::KzgCommit,
        AdamantOpcodeKind::KzgVerify,
        AdamantOpcodeKind::RecursiveVerify,
        AdamantOpcodeKind::Sha3_256,
        AdamantOpcodeKind::Blake3,
        AdamantOpcodeKind::Ed25519Verify,
        AdamantOpcodeKind::MlDsaVerify65,
        AdamantOpcodeKind::BlsVerify,
        AdamantOpcodeKind::MlKemEncapsulate,
        AdamantOpcodeKind::MlKemDecapsulate,
        AdamantOpcodeKind::ChargeGas,
        AdamantOpcodeKind::RemainingGas,
        AdamantOpcodeKind::OutOfGas,
    ];

    /// Position of the kind in declaration order.
    pub open spec fn ordinal(self) -> nat {
        match self {
            AdamantOpcodeKind::InvokeShielded => 0,
            AdamantOpcodeKind::InvokeTransparent => 1,
            AdamantOpcodeKind::GenerateProof => 2,
            AdamantOpcodeKind::VerifyProof => 3,
            AdamantOpcodeKind::ReleaseSubViewKey => 4,
            AdamantOpcodeKind::KzgCommit => 5,
            AdamantOpcodeKind::KzgVerify => 6,
            AdamantOpcodeKind::RecursiveVerify => 7,
            AdamantOpcodeKind::Sha3_256 => 8,
            AdamantOpcodeKind::Blake3 => 9,
            AdamantOpcodeKind::Ed25519Verify => 10,
            AdamantOpcodeKind::MlDsaVerify65 => 11,
            AdamantOpcodeKind::BlsVerify => 12,
            AdamantOpcodeKind::MlKemEncapsulate => 13,
            AdamantOpcodeKind::MlKemDecapsulate => 14,
            AdamantOpcodeKind::ChargeGas => 15,
            AdamantOpcodeKind::RemainingGas => 16,
            AdamantOpcodeKind::OutOfGas => 17,
        }
    }

    /// The opcode byte of the kind: `0x80` plus its position in
    /// declaration order.
    pub open spec fn spec_opcode_byte(self) -> u8 {
        (0x80 + self.ordinal()) as u8
    }

    /// The kind whose opcode byte is `byte`, if any.
    pub open spec fn spec_from_opcode_byte(byte: u8) -> Option<AdamantOpcodeKind> {
        if byte == 0x80 {
            Some(AdamantOpcodeKind::InvokeShielded)
        } else if byte == 0x81 {
            Some(AdamantOpcodeKind::InvokeTransparent)
        } else if byte == 0x82 {
            Some(AdamantOpcodeKind::GenerateProof)
        } else if byte == 0x83 {
            Some(AdamantOpcodeKind::VerifyProof)
        } else if byte == 0x84 {
            Some(AdamantOpcodeKind::ReleaseSubViewKey)
        } else if byte == 0x85 {
            Some(AdamantOpcodeKind::KzgCommit)
        } else if byte == 0x86 {
            Some(AdamantOpcodeKind::KzgVerify)
        } else if byte == 0x87 {
            Some(AdamantOpcodeKind::RecursiveVerify)
        } else if byte == 0x88 {
            Some(AdamantOpcodeKind::Sha3_256)
        } else if byte == 0x89 {
            Some(AdamantOpcodeKind::Blake3)
        } else if byte == 0x8a {
            Some(AdamantOpcodeKind::Ed25519Verify)
        } else if byte == 0x8b {
            Some(AdamantOpcodeKind::MlDsaVerify65)
        } else if byte == 0x8c {
            Some(AdamantOpcodeKind::BlsVerify)
        } else if byte == 0x8d {
            Some(AdamantOpcodeKind::MlKemEncapsulate)
        } else if byte == 0x8e {
            Some(AdamantOpcodeKind::MlKemDecapsulate)
        } else if byte == 0x8f {
            Some(AdamantOpcodeKind::ChargeGas)
        } else if byte == 0x90 {
            Some(AdamantOpcodeKind::RemainingGas)
        } else if byte == 0x91 {
            Some(AdamantOpcodeKind::OutOfGas)
        } else {
            None
        }
    }

    /// The opcode byte assigned to this kind in the wire format.
    pub fn opcode_byte(self) -> (r: u8)
        ensures
            r == self.spec_opcode_byte(),
    {
        match self {
            AdamantOpcodeKind::InvokeShielded => 0x80,
            AdamantOpcodeKind::InvokeTransparent => 0x81,
            AdamantOpcodeKind::GenerateProof => 0x82,
            AdamantOpcodeKind::VerifyProof => 0x83,
            AdamantOpcodeKind::ReleaseSubViewKey => 0x84,
            AdamantOpcodeKind::KzgCommit => 0x85,
            AdamantOpcodeKind::KzgVerify => 0x86,
            AdamantOpcodeKind::RecursiveVerify => 0x87,
            AdamantOpcodeKind::Sha3_256 => 0x88,
            AdamantOpcodeKind::Blake3 => 0x89,
            AdamantOpcodeKind::Ed25519Verify => 0x8a,
            AdamantOpcodeKind::MlDsaVerify65 => 0x8b,
            AdamantOpcodeKind::BlsVerify => 0x8c,
            AdamantOpcodeKind::MlKemEncapsulate => 0x8d,
            AdamantOpcodeKind::MlKemDecapsulate => 0x8e,
            AdamantOpcodeKind::ChargeGas => 0x8f,
            AdamantOpcodeKind::RemainingGas => 0x90,
            AdamantOpcodeKind::OutOfGas => 0x91,
        }
    }

    /// Parses an opcode byte to a kind; `None` outside `0x80..=0x91`.
    pub fn try_from_opcode_byte(byte: u8) -> (r: Option<Self>)
        ensures
            r == Self::spec_from_opcode_byte(byte),
            r is Some <==> 0x80 <= byte <= 0x91,
            r matches Some(k) ==> k.spec_opcode_byte() == byte,
    {
        match byte {
            0x80 => Some(AdamantOpcodeKind::InvokeShielded),
            0x81 => Some(AdamantOpcodeKind::InvokeTransparent),
            0x82 => Some(AdamantOpcodeKind::GenerateProof),
            0x83 => Some(AdamantOpcodeKind::VerifyProof),
            0x84 => Some(AdamantOpcodeKind::ReleaseSubViewKey),
            0x85 => Some(AdamantOpcodeKind::KzgCommit),
            0x86 => Some(AdamantOpcodeKind::KzgVerify),
            0x87 => Some(AdamantOpcodeKind::RecursiveVerify),
            0x88 => Some(AdamantOpcodeKind::Sha3_256),
            0x89 => Some(AdamantOpcodeKind::Blake3),
            0x8a => Some(AdamantOpcodeKind::Ed25519Verify),
            0x8b => Some(AdamantOpcodeKind::MlDsaVerify65),
            0x8c => Some(AdamantOpcodeKind::BlsVerify),
            0x8d => Some(AdamantOpcodeKind::MlKemEncapsulate),
            0x8e => Some(AdamantOpcodeKind::MlKemDecapsulate),
            0x8f => Some(AdamantOpcodeKind::ChargeGas),
            0x90 => Some(AdamantOpcodeKind::RemainingGas),
            0x91 => Some(AdamantOpcodeKind::OutOfGas),
            _ => None,
        }
    }
}

/// Every kind's opcode byte parses back to that kind.
pub proof fn lemma_opcode_byte_round_trip(kind: AdamantOpcodeKind)
    ensures
        AdamantOpcodeKind::spec_from_opcode_byte(kind.spec_opcode_byte()) == Some(kind),
        0x80 <= kind.spec_opcode_byte() <= 0x91,
{
}

/// Every byte that parses to a kind is that kind's opcode byte, and
/// exactly the bytes `0x80..=0x91` parse.
pub proof fn lemma_opcode_byte_parse_inverse(byte: u8)
    ensures
        AdamantOpcodeKind::spec_from_opcode_byte(byte) is Some <==> 0x80 <= byte <= 0x91,
        AdamantOpcodeKind::spec_from_opcode_byte(byte) matches Some(k) ==> k.spec_opcode_byte() == byte,
{
}

/// A single instruction of a function body: an inherited
/// instruction or an Adamant extension.
#[derive(Clone, Debug, PartialEq, Eq)]
pub enum BytecodeInstruction {
    /// An inherited instruction.
    Inherited(Bytecode),
    /// An Adamant-specific extension.
    Adamant(AdamantBytecode),
}

/// `s` is in ascending order.
pub open spec fn sorted_ascending(s: Seq<CodeOffset>) -> bool {
    forall|i: int, j: int| 0 <= i < j < s.len() ==> s[i] <= s[j]
}

impl BytecodeInstruction {
    /// The instruction always branches.  No extension branches.
    pub open spec fn spec_is_unconditional_branch(self) -> bool {
        match self {
            BytecodeInstruction::Inherited(b) => b.spec_is_unconditional_branch(),
            BytecodeInstruction::Adamant(_) => false,
        }
    }

    /// The instruction's branching depends on a runtime value.
    pub open spec fn spec_is_conditional_branch(self) -> bool {
        match self {
            BytecodeInstruction::Inherited(b) => b.spec_is_conditional_branch(),
            BytecodeInstruction::Adamant(_) => false,
        }
    }

    /// The jump table a `VariantSwitch` names exists.
    pub open spec fn offsets_defined(self, jump_tables: Seq<VariantJumpTable>) -> bool {
        match self {
            BytecodeInstruction::Inherited(b) => b.offsets_defined(jump_tables),
            BytecodeInstruction::Adamant(_) => true,
        }
    }

    /// The offsets the instruction can branch to.
    pub open spec fn spec_offsets(self, jump_tables: Seq<VariantJumpTable>) -> Seq<CodeOffset> {
        match self {
            BytecodeInstruction::Inherited(b) => b.spec_offsets(jump_tables),
            BytecodeInstruction::Adamant(_) => Seq::empty(),
        }
    }

    /// The successor offsets of the instruction at `pc`, before
    /// ordering: its branch offsets, then the fall-through offset
    /// `pc + 1` when it is inside the body, the instruction does not
    /// always branch, and it is not already among the offsets.
    pub open spec fn successor_candidates(
        pc: CodeOffset,
        code: Seq<BytecodeInstruction>,
        jump_tables: Seq<VariantJumpTable>,
    ) -> Seq<CodeOffset> {
        let instr = code[pc as int];
        let offs = instr.spec_offsets(jump_tables);
        let next = (pc + 1) as CodeOffset;
        if pc + 1 >= code.len() {
            offs
        } else if !instr.spec_is_unconditional_branch() && !offs.contains(next) {
            offs.push(next)
        } else {
            offs
        }
    }

    /// Returns `true` if this instruction always branches.
    pub fn is_unconditional_branch(&self) -> (r: bool)
        ensures
            r == self.spec_is_unconditional_branch(),
    {
        match self {
            BytecodeInstruction::Inherited(b) => b.is_unconditional_branch(),
            BytecodeInstruction::Adamant(_) => false,
        }
    }

    /// Returns `true` if this instruction's branching depends on a
    /// runtime value.
    pub fn is_conditional_branch(&self) -> (r: bool)
        ensures
            r == self.spec_is_conditional_branch(),
    {
        match self {
            BytecodeInstruction::Inherited(b) => b.is_conditional_branch(),
            BytecodeInstruction::Adamant(_) => false,
        }
    }

    /// Returns `true` if this instruction is a conditional or an
    /// unconditional branch.
    pub fn is_branch(&self) -> (r: bool)
        ensures
            r == (self.spec_is_conditional_branch() || self.spec_is_unconditional_branch()),
    {
        self.is_conditional_branch() || self.is_unconditional_branch()
    }

    /// The in-function offsets this instruction can branch to.
    pub fn offsets(&self, jump_tables: &[VariantJumpTable]) -> (r: Vec<CodeOffset>)
        requires
            self.offsets_defined(jump_tables@),
        ensures
            r@ == self.spec_offsets(jump_tables@),
    {
        match self {
            BytecodeInstruction::Inherited(b) => b.offsets(jump_tables),
            BytecodeInstruction::Adamant(_) => Vec::new(),
        }
    }

    /// The successor offsets of the instruction at `pc`, in ascending
    /// order: its branch offsets plus the fall-through offset when
    /// the instruction does not always branch and `pc + 1` is inside
    /// the body.
    pub fn get_successors(
        pc: CodeOffset,
        code: &[BytecodeInstruction],
        jump_tables: &[VariantJumpTable],
    ) -> (r: Vec<CodeOffset>)
        requires
            pc < u16::MAX,
            (pc as int) < code@.len(),
            code@[pc as int].offsets_defined(jump_tables@),
        ensures
            sorted_ascending(r@),
            r@.to_multiset() == Self::successor_candidates(pc, code@, jump_tables@).to_multiset(),
    {
        let bytecode = &code[pc as usize];
        let mut v = bytecode.offsets(jump_tables);
        let next_pc = pc + 1;
        if (next_pc as usize) < code.len() && !bytecode.is_unconditional_branch() && !contains_offset(&v, next_pc) {
            v.push(next_pc);
        }
        sort_offsets(v)
    }
}

/// Whether `v` holds `x`.
fn contains_offset(v: &Vec<CodeOffset>, x: CodeOffset) -> (r: bool)
    ensures
        r == v@.contains(x),
{
    let mut i: usize = 0;
    while i < v.len()
        invariant
            i <= v.len(),
            forall|k: int| 0 <= k < i ==> v@[k] != x,
        decreases v.len() - i,
    {
        if v[i] == x {
            return true;
        }
        i = i + 1;
    }
    false
}

/// Sorts offsets in ascending order by insertion.
fn sort_offsets(v: Vec<CodeOffset>) -> (r: Vec<CodeOffset>)
    ensures
        sorted_ascending(r@),
        r@.to_multiset() == v@.to_multiset(),
{
    broadcast use vstd::seq_lib::group_to_multiset_ensures;
    let mut r: Vec<CodeOffset> = Vec::new();
    let mut k: usize = 0;
    while k < v.len()
        invariant
            k <= v.len(),
            sorted_ascending(r@),
            r@.to_multiset() == v@.subrange(0, k as int).to_multiset(),
        decreases v.len() - k,
    {
        let x = v[k];
        let mut i: usize = 0;
        while i < r.len() && r[i] <= x
            invariant
                i <= r.len(),
                forall|m: int| 0 <= m < i ==> r@[m] <= x,
            decreases r.len() - i,
        {
            i = i + 1;
        }
        let ghost old_r = r@;
        r.insert(i, x);
        proof {
            vstd::seq_lib::to_multiset_insert(old_r, i as int, x);
            assert(r@ == old_r.insert(i as int, x));
            v@.subrange(0, k as int).to_multiset_ensures();
            assert(v@.subrange(0, k as int + 1) =~= v@.subrange(0, k as int).push(x));
            assert forall|a: int, b: int| 0 <= a < b < r@.len() implies r@[a] <= r@[b] by {
                if b < i {
                } else if b == i {
                } else if a < i {
                } else if a == i {
                    assert(r@[b] == old_r[b - 1]);
                } else {
                }
            }
        }
        k = k + 1;
    }
    proof {
        assert(v@.subrange(0, v@.len() as int) =~= v@);
    }
    r
}

} // verus!
