//! In-memory form of an Adamant module: the module-level pools and
//! handle tables of the inherited binary format, with function bodies
//! that hold the full Adamant instruction set.

use crate::bytecode::{
    BytecodeInstruction, EnumDefinitionIndex, FieldHandleIndex, FunctionHandleIndex,
    SignatureIndex, StructDefinitionIndex, VariantJumpTable,
};
use crate::module_wire::decode::{lemma_token_models_prefix, token_model, token_seq_model};
use crate::transaction::Address;
use vstd::prelude::*;

verus! {

broadcast use vstd::std_specs::vec::axiom_vec_index_decreases;

/// Index of a module handle.
#[derive(Clone, Copy, Debug, Default, PartialEq, Eq, Hash, PartialOrd, Ord)]
pub struct ModuleHandleIndex(pub u16);

/// Index of a datatype (struct or enum) handle.
#[derive(Clone, Copy, Debug, Default, PartialEq, Eq, Hash, PartialOrd, Ord)]
pub struct DatatypeHandleIndex(pub u16);

/// Index of an identifier in the identifier pool.
#[derive(Clone, Copy, Debug, Default, PartialEq, Eq, Hash, PartialOrd, Ord)]
pub struct IdentifierIndex(pub u16);

/// Index of an address in the address-identifier pool.
#[derive(Clone, Copy, Debug, Default, PartialEq, Eq, Hash, PartialOrd, Ord)]
pub struct AddressIdentifierIndex(pub u16);

/// Index of a generic enum instantiation.
#[derive(Clone, Copy, Debug, Default, PartialEq, Eq, Hash, PartialOrd, Ord)]
pub struct EnumDefInstantiationIndex(pub u16);

/// Index of a type parameter.
pub type TypeParameterIndex = u16;

/// Position of a field inside its struct.
pub type MemberCount = u16;

/// Tag of an enum variant.
pub type VariantTag = u16;

/// A set of abilities, one bit each.
#[derive(Clone, Copy, Debug, Default, PartialEq, Eq, Hash)]
pub struct AbilitySet(pub u8);

/// A reference to a module: its address and name.
#[derive(Clone, Copy, Debug, Default, PartialEq, Eq, Hash)]
pub struct ModuleHandle {
    /// Index of the module's address.
    pub address: AddressIdentifierIndex,
    /// Index of the module's name.
    pub name: IdentifierIndex,
}

/// A type parameter of a datatype.
#[derive(Clone, Copy, Debug, Default, PartialEq, Eq, Hash)]
pub struct DatatypeTyParameter {
    /// Abilities the argument must have.
    pub constraints: AbilitySet,
    /// Whether the parameter is phantom.
    pub is_phantom: bool,
}

/// A reference to a struct or enum type.
#[derive(Clone, Debug, Default, PartialEq, Eq, Hash)]
pub struct DatatypeHandle {
    /// The defining module.
    pub module: ModuleHandleIndex,
    /// The type's name.
    pub name: IdentifierIndex,
    /// The type's abilities.
    pub abilities: AbilitySet,
    /// The type's parameters.
    pub type_parameters: Vec<DatatypeTyParameter>,
}

/// A reference to a function.
#[derive(Clone, Debug, Default, PartialEq, Eq, Hash)]
pub struct FunctionHandle {
    /// The defining module.
    pub module: ModuleHandleIndex,
    /// The function's name.
    pub name: IdentifierIndex,
    /// Signature of the parameters.
    pub parameters: SignatureIndex,
    /// Signature of the results.
    pub return_: SignatureIndex,
    /// Constraints of the type parameters.
    pub type_parameters: Vec<AbilitySet>,
}

/// A reference to a field of a struct defined in this module.
#[derive(Clone, Copy, Debug, Default, PartialEq, Eq, Hash)]
pub struct FieldHandle {
    /// The struct.
    pub owner: StructDefinitionIndex,
    /// The field's position.
    pub field: MemberCount,
}

/// A generic struct instantiated at type arguments.
#[derive(Clone, Copy, Debug, Default, PartialEq, Eq, Hash)]
pub struct StructDefInstantiation {
    /// The struct definition.
    pub def: StructDefinitionIndex,
    /// The type arguments.
    pub type_parameters: SignatureIndex,
}

/// A generic function instantiated at type arguments.
#[derive(Clone, Copy, Debug, Default, PartialEq, Eq, Hash)]
pub struct FunctionInstantiation {
    /// The function handle.
    pub handle: FunctionHandleIndex,
    /// The type arguments.
    pub type_parameters: SignatureIndex,
}

/// A field of a generic struct instantiated at type arguments.
#[derive(Clone, Copy, Debug, Default, PartialEq, Eq, Hash)]
pub struct FieldInstantiation {
    /// The field handle.
    pub handle: FieldHandleIndex,
    /// The type arguments.
    pub type_parameters: SignatureIndex,
}

/// A type as it appears in signatures.
#[derive(Debug, PartialEq, Eq, Hash)]
pub enum SignatureToken {
    /// `bool`.
    Bool,
    /// `u8`.
    U8,
    /// `u64`.
    U64,
    /// `u128`.
    U128,
    /// `address`.
    Address,
    /// `signer`.
    Signer,
    /// A vector of the inner type.
    Vector(Box<SignatureToken>),
    /// A non-generic datatype.
    Datatype(DatatypeHandleIndex),
    /// A generic datatype at type arguments.
    DatatypeInstantiation(Box<(DatatypeHandleIndex, Vec<SignatureToken>)>),
    /// An immutable reference.
    Reference(Box<SignatureToken>),
    /// A mutable reference.
    MutableReference(Box<SignatureToken>),
    /// A type parameter.
    TypeParameter(TypeParameterIndex),
    /// `u16`.
    U16,
    /// `u32`.
    U32,
    /// `u256`.
    U256,
}

impl Clone for SignatureToken {
    fn clone(&self) -> (r: Self) {
        clone_token(self)
    }
}

/// A copy of a type: the same type, node for node.
fn clone_token(t: &SignatureToken) -> (r: SignatureToken)
    ensures
        token_model(r) == token_model(*t),
    decreases t, 0nat,
{
    match t {
        SignatureToken::Bool => SignatureToken::Bool,
        SignatureToken::U8 => SignatureToken::U8,
        SignatureToken::U64 => SignatureToken::U64,
        SignatureToken::U128 => SignatureToken::U128,
        SignatureToken::Address => SignatureToken::Address,
        SignatureToken::Signer => SignatureToken::Signer,
        SignatureToken::Vector(inner) => SignatureToken::Vector(Box::new(clone_token(inner))),
        SignatureToken::Datatype(idx) => SignatureToken::Datatype(*idx),
        SignatureToken::DatatypeInstantiation(inst) => {
            let args = clone_tokens(&inst.1);
            proof {
                lemma_token_models_prefix(args, args@.len());
                lemma_token_models_prefix(inst.1, inst.1@.len());
                assert(args@.subrange(0, args@.len() as int) =~= args@);
                assert(inst.1@.subrange(0, inst.1@.len() as int) =~= inst.1@);
            }
            SignatureToken::DatatypeInstantiation(Box::new((inst.0, args)))
        },
        SignatureToken::Reference(inner) => SignatureToken::Reference(Box::new(clone_token(inner))),
        SignatureToken::MutableReference(inner) => SignatureToken::MutableReference(
            Box::new(clone_token(inner)),
        ),
        SignatureToken::TypeParameter(p) => SignatureToken::TypeParameter(*p),
        SignatureToken::U16 => SignatureToken::U16,
        SignatureToken::U32 => SignatureToken::U32,
        SignatureToken::U256 => SignatureToken::U256,
    }
}

/// Copies of a list of types: the same types, in the same order.
fn clone_tokens(v: &Vec<SignatureToken>) -> (r: Vec<SignatureToken>)
    ensures
        r@.len() == v@.len(),
        token_seq_model(r@) == token_seq_model(v@),
    decreases v, 1nat,
{
    let mut out: Vec<SignatureToken> = Vec::new();
    let mut i: usize = 0;
    assert(token_seq_model(out@) =~= token_seq_model(v@.subrange(0, 0)));
    while i < v.len()
        invariant
            i <= v@.len(),
            out@.len() == i,
            token_seq_model(out@) == token_seq_model(v@.subrange(0, i as int)),
        decreases v@.len() - i,
    {
        let c = clone_token(&v[i]);
        let ghost before = out@;
        out.push(c);
        assert(token_seq_model(out@) =~= token_seq_model(before).push(token_model(c)));
        assert(token_seq_model(v@.subrange(0, i + 1)) =~= token_seq_model(v@.subrange(0, i as int)).push(token_model(v@[i as int])));
        i = i + 1;
    }
    assert(v@.subrange(0, v@.len() as int) =~= v@);
    out
}

/// A list of types.
#[derive(Clone, Debug, Default, PartialEq, Eq, Hash)]
pub struct Signature(pub Vec<SignatureToken>);

/// The type of a field.
#[derive(Clone, Debug, PartialEq, Eq, Hash)]
pub struct TypeSignature(pub SignatureToken);

/// A constant: its type and its serialized value.
#[derive(Clone, Debug, PartialEq, Eq, Hash)]
pub struct Constant {
    /// The constant's type.
    pub type_: SignatureToken,
    /// The serialized value.
    pub data: Vec<u8>,
}

/// A key-value metadata entry.
#[derive(Clone, Debug, Default, PartialEq, Eq, Hash)]
pub struct Metadata {
    /// The key.
    pub key: Vec<u8>,
    /// The value.
    pub value: Vec<u8>,
}

/// A field of a struct or variant.
#[derive(Clone, Debug, PartialEq, Eq, Hash)]
pub struct FieldDefinition {
    /// The field's name.
    pub name: IdentifierIndex,
    /// The field's type.
    pub signature: TypeSignature,
}

/// The fields of a struct, or the marker of a native struct.
#[derive(Clone, Debug, PartialEq, Eq, Hash)]
pub enum StructFieldInformation {
    /// A native struct.
    Native,
    /// The declared fields.
    Declared(Vec<FieldDefinition>),
}

/// A struct defined in this module.
#[derive(Clone, Debug, PartialEq, Eq, Hash)]
pub struct StructDefinition {
    /// The struct's handle.
    pub struct_handle: DatatypeHandleIndex,
    /// The struct's fields.
    pub field_information: StructFieldInformation,
}

/// A variant of an enum.
#[derive(Clone, Debug, PartialEq, Eq, Hash)]
pub struct VariantDefinition {
    /// The variant's name.
    pub variant_name: IdentifierIndex,
    /// The variant's fields.
    pub fields: Vec<FieldDefinition>,
}

/// An enum defined in this module.
#[derive(Clone, Debug, PartialEq, Eq, Hash)]
pub struct EnumDefinition {
    /// The enum's handle.
    pub enum_handle: DatatypeHandleIndex,
    /// The variants, in tag order.
    pub variants: Vec<VariantDefinition>,
}

/// A generic enum instantiated at type arguments.
#[derive(Clone, Copy, Debug, Default, PartialEq, Eq, Hash)]
pub struct EnumDefInstantiation {
    /// The enum definition.
    pub def: EnumDefinitionIndex,
    /// The type arguments.
    pub type_parameters: SignatureIndex,
}

/// A reference to a variant of an enum defined in this module.
#[derive(Clone, Copy, Debug, Default, PartialEq, Eq, Hash)]
pub struct VariantHandle {
    /// The enum.
    pub enum_def: EnumDefinitionIndex,
    /// The variant's tag.
    pub variant: VariantTag,
}

/// A reference to a variant of an instantiated generic enum.
#[derive(Clone, Copy, Debug, Default, PartialEq, Eq, Hash)]
pub struct VariantInstantiationHandle {
    /// The enum instantiation.
    pub enum_def: EnumDefInstantiationIndex,
    /// The variant's tag.
    pub variant: VariantTag,
}

/// Who may call a function.
#[derive(Clone, Copy, Debug, Default, PartialEq, Eq, Hash)]
pub enum Visibility {
    /// Callable from its own module only.
    #[default]
    Private,
    /// Callable from any module.
    Public,
    /// Callable from the friend modules.
    Friend,
}

/// A function's body: the signature of its non-parameter locals,
/// its instructions and its variant jump tables.
#[derive(Clone, Debug, Default, PartialEq, Eq)]
pub struct AdamantCodeUnit {
    /// Signature of the locals after the parameters.
    pub locals: SignatureIndex,
    /// The instructions.
    pub code: Vec<BytecodeInstruction>,
    /// The jump tables of `VariantSwitch` instructions.
    pub jump_tables: Vec<VariantJumpTable>,
}

/// A function defined in this module.
#[derive(Clone, Debug, Default, PartialEq, Eq)]
pub struct AdamantFunctionDefinition {
    /// The function's handle.
    pub function: FunctionHandleIndex,
    /// The function's visibility.
    pub visibility: Visibility,
    /// Whether the function is an entry point.
    pub is_entry: bool,
    /// Structs the function acquires from global storage; empty in
    /// valid Adamant modules.
    pub acquires_global_resources: Vec<StructDefinitionIndex>,
    /// The body; `None` marks a native function.
    pub code: Option<AdamantCodeUnit>,
}

impl AdamantFunctionDefinition {
    /// Whether the function is native, i.e. has no body.
    pub fn is_native(&self) -> (r: bool)
        ensures
            r == self.code.is_none(),
    {
        self.code.is_none()
    }
}

/// A parsed Adamant module.  Field order follows the binary
/// format's table order.
#[derive(Clone, Debug, Default, PartialEq, Eq)]
pub struct AdamantCompiledModule {
    /// Binary-format version.
    pub version: u32,
    /// Whether the module may be published.
    pub publishable: bool,
    /// Handle of this module in `module_handles`.
    pub self_module_handle_idx: ModuleHandleIndex,
    /// Handles of this and the referenced modules.
    pub module_handles: Vec<ModuleHandle>,
    /// Handles of the referenced datatypes.
    pub datatype_handles: Vec<DatatypeHandle>,
    /// Handles of the referenced functions.
    pub function_handles: Vec<FunctionHandle>,
    /// Handles of fields of this module's structs.
    pub field_handles: Vec<FieldHandle>,
    /// Friend modules.
    pub friend_decls: Vec<ModuleHandle>,
    /// Generic struct instantiations.
    pub struct_def_instantiations: Vec<StructDefInstantiation>,
    /// Generic function instantiations.
    pub function_instantiations: Vec<FunctionInstantiation>,
    /// Generic field instantiations.
    pub field_instantiations: Vec<FieldInstantiation>,
    /// The signature pool.
    pub signatures: Vec<Signature>,
    /// The identifier pool.
    pub identifiers: Vec<String>,
    /// The address pool.
    pub address_identifiers: Vec<Address>,
    /// The constant pool.
    pub constant_pool: Vec<Constant>,
    /// Metadata entries.
    pub metadata: Vec<Metadata>,
    /// Structs defined in this module.
    pub struct_defs: Vec<StructDefinition>,
    /// Functions defined in this module.
    pub function_defs: Vec<AdamantFunctionDefinition>,
    /// Enums defined in this module.
    pub enum_defs: Vec<EnumDefinition>,
    /// Generic enum instantiations.
    pub enum_def_instantiations: Vec<EnumDefInstantiation>,
    /// Handles of variants of this module's enums.
    pub variant_handles: Vec<VariantHandle>,
    /// Handles of variants of instantiated generic enums.
    pub variant_instantiation_handles: Vec<VariantInstantiationHandle>,
}

/// Why a module cannot be projected to the inherited instruction
/// set.
#[derive(Debug, Clone, Copy, PartialEq, Eq, Hash, Structural)]
pub enum AdamantToSuiConversionError {
    /// A function body holds an Adamant extension.
    ContainsAdamantExtensions {
        /// Position of the function in `function_defs`.
        function_index: u16,
        /// Offset of the extension in the body.
        instruction_offset: u16,
    },
}

/// Whether a body holds an Adamant extension.
pub open spec fn body_has_extension(code: Seq<BytecodeInstruction>) -> bool {
    exists|i: int| 0 <= i < code.len() && (#[trigger] code[i]) is Adamant
}

/// Whether a function definition has a body holding an extension.
pub open spec fn def_has_extension(def: AdamantFunctionDefinition) -> bool {
    match def.code {
        Some(unit) => body_has_extension(unit.code@),
        None => false,
    }
}

impl AdamantCompiledModule {
    /// Whether some function body holds an Adamant extension.
    pub open spec fn spec_contains_extensions(self) -> bool {
        exists|f: int|
            0 <= f < self.function_defs@.len() && def_has_extension(
                #[trigger] self.function_defs@[f],
            )
    }

    /// Whether some function body holds an Adamant extension.
    pub fn contains_adamant_extensions(&self) -> (r: bool)
        ensures
            r == self.spec_contains_extensions(),
    {
        let mut f: usize = 0;
        while f < self.function_defs.len()
            invariant
                f <= self.function_defs@.len(),
                forall|g: int| 0 <= g < f ==> !def_has_extension(#[trigger] self.function_defs@[g]),
            decreases self.function_defs@.len() - f,
        {
            if let Some(unit) = &self.function_defs[f].code {
                if first_extension(&unit.code).is_some() {
                    return true;
                }
            }
            f = f + 1;
        }
        false
    }

    /// Checks that the module holds no Adamant extension, naming the
    /// first one otherwise: the lowest function position, and in its
    /// body the lowest offset.  A module that passes projects to the
    /// inherited format instruction for instruction.
    pub fn check_inherited_only(&self) -> (r: Result<(), AdamantToSuiConversionError>)
        requires
            forall|f: int|
                0 <= f < self.function_defs@.len() ==> match (#[trigger] self.function_defs@[f]).code {
                    Some(unit) => forall|i: int|
                        0 <= i < unit.code@.len() && (#[trigger] unit.code@[i]) is Adamant ==> f <= u16::MAX
                            && i <= u16::MAX,
                    None => true,
                },
        ensures
            r is Ok <==> !self.spec_contains_extensions(),
            r matches Err(AdamantToSuiConversionError::ContainsAdamantExtensions {
                function_index,
                instruction_offset,
            }) ==> {
                &&& forall|g: int|
                    0 <= g < function_index ==> !def_has_extension(
                        #[trigger] self.function_defs@[g],
                    )
                &&& self.function_defs@[function_index as int].code matches Some(unit) && {
                    &&& unit.code@[instruction_offset as int] is Adamant
                    &&& instruction_offset < unit.code@.len()
                    &&& forall|i: int|
                        0 <= i < instruction_offset ==> (#[trigger] unit.code@[i]) is Inherited
                }
            },
    {
        let mut f: usize = 0;
        while f < self.function_defs.len()
            invariant
                f <= self.function_defs@.len(),
                forall|g: int| 0 <= g < f ==> !def_has_extension(#[trigger] self.function_defs@[g]),
                forall|f: int|
                    0 <= f < self.function_defs@.len() ==> match (#[trigger] self.function_defs@[f]).code {
                        Some(unit) => forall|i: int|
                            0 <= i < unit.code@.len() && (#[trigger] unit.code@[i]) is Adamant ==> f <= u16::MAX
                                && i <= u16::MAX,
                        None => true,
                    },
            decreases self.function_defs@.len() - f,
        {
            if let Some(unit) = &self.function_defs[f].code {
                if let Some(offset) = first_extension(&unit.code) {
                    proof {
                        assert(self.function_defs@[f as int].code matches Some(u) && u.code@[offset as int] is Adamant);
                    }
                    return Err(
                        AdamantToSuiConversionError::ContainsAdamantExtensions {
                            function_index: f as u16,
                            instruction_offset: offset as u16,
                        },
                    );
                }
            }
            f = f + 1;
        }
        Ok(())
    }
}

/// Offset of the first Adamant extension of a body, if any.
fn first_extension(code: &Vec<BytecodeInstruction>) -> (r: Option<usize>)
    ensures
        r is None <==> !body_has_extension(code@),
        r matches Some(i) ==> {
            &&& i < code@.len()
            &&& code@[i as int] is Adamant
            &&& forall|j: int| 0 <= j < i ==> (#[trigger] code@[j]) is Inherited
        },
{
    let mut i: usize = 0;
    while i < code.len()
        invariant
            i <= code@.len(),
            forall|j: int| 0 <= j < i ==> (#[trigger] code@[j]) is Inherited,
        decreases code@.len() - i,
    {
        if let BytecodeInstruction::Adamant(_) = &code[i] {
            return Some(i);
        }
        i = i + 1;
    }
    None
}

} // verus!
