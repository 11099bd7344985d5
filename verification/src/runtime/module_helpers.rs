//! Table lookups the interpreter makes in the executing module.  A
//! verified module never indexes outside its tables; an index that
//! does is an invariant violation.

use crate::bytecode::{
    ConstantPoolIndex, EnumDefinitionIndex, FieldHandleIndex, FunctionHandleIndex,
    StructDefInstantiationIndex, StructDefinitionIndex, VariantHandleIndex,
    VariantInstantiationHandleIndex,
};
use crate::module::{AdamantCompiledModule, AdamantFunctionDefinition, Constant, StructFieldInformation};
use crate::runtime::error::{InvariantViolationReason, VMError};
use crate::runtime::frame::out_of_bounds;
use vstd::prelude::*;

verus! {

/// The first position at or after `i` of a definition of handle `h`.
pub open spec fn first_def_from(defs: Seq<AdamantFunctionDefinition>, h: u16, i: int) -> Option<int>
    decreases defs.len() - i,
{
    if i < 0 || i >= defs.len() {
        None
    } else if defs[i].function.0 == h {
        Some(i)
    } else {
        first_def_from(defs, h, i + 1)
    }
}

/// The position in `function_defs` of the first definition of
/// function handle `h`, if `h` is a handle of the module and some
/// definition names it.
pub open spec fn spec_function_def_position(m: AdamantCompiledModule, h: FunctionHandleIndex) -> Option<int> {
    if h.0 >= m.function_handles@.len() {
        None
    } else {
        first_def_from(m.function_defs@, h.0, 0)
    }
}

/// The number of fields of struct definition `idx`; a native struct
/// has none.
pub open spec fn spec_struct_field_count(m: AdamantCompiledModule, idx: StructDefinitionIndex) -> Result<nat, VMError> {
    if idx.0 >= m.struct_defs@.len() {
        Err(out_of_bounds())
    } else {
        match m.struct_defs@[idx.0 as int].field_information {
            StructFieldInformation::Native => Ok(0),
            StructFieldInformation::Declared(fields) => Ok(fields@.len()),
        }
    }
}

/// The struct definition of generic instantiation `idx`.
pub open spec fn spec_struct_def_instantiation(m: AdamantCompiledModule, idx: StructDefInstantiationIndex) -> Result<StructDefinitionIndex, VMError> {
    if idx.0 >= m.struct_def_instantiations@.len() {
        Err(out_of_bounds())
    } else {
        Ok(m.struct_def_instantiations@[idx.0 as int].def)
    }
}

/// The enum and tag of variant handle `idx`.
pub open spec fn spec_variant_handle(m: AdamantCompiledModule, idx: VariantHandleIndex) -> Result<(EnumDefinitionIndex, u16), VMError> {
    if idx.0 >= m.variant_handles@.len() {
        Err(out_of_bounds())
    } else {
        Ok((m.variant_handles@[idx.0 as int].enum_def, m.variant_handles@[idx.0 as int].variant))
    }
}

/// The enum and tag of variant-instantiation handle `idx`: the enum
/// is that of the handle's enum instantiation.
pub open spec fn spec_variant_instantiation_handle(m: AdamantCompiledModule, idx: VariantInstantiationHandleIndex) -> Result<(EnumDefinitionIndex, u16), VMError> {
    if idx.0 >= m.variant_instantiation_handles@.len() {
        Err(out_of_bounds())
    } else {
        let h = m.variant_instantiation_handles@[idx.0 as int];
        if h.enum_def.0 >= m.enum_def_instantiations@.len() {
            Err(out_of_bounds())
        } else {
            Ok((m.enum_def_instantiations@[h.enum_def.0 as int].def, h.variant))
        }
    }
}

/// The number of fields of variant `tag` of enum `e`.
pub open spec fn spec_variant_field_count(m: AdamantCompiledModule, e: EnumDefinitionIndex, tag: u16) -> Result<nat, VMError> {
    if e.0 >= m.enum_defs@.len() {
        Err(out_of_bounds())
    } else if tag >= m.enum_defs@[e.0 as int].variants@.len() {
        Err(out_of_bounds())
    } else {
        Ok(m.enum_defs@[e.0 as int].variants@[tag as int].fields@.len())
    }
}

/// The definition of function handle `handle`: the first definition
/// in `function_defs` that names it.
pub fn resolve_function_def(module: &AdamantCompiledModule, handle: FunctionHandleIndex) -> (r: Result<&AdamantFunctionDefinition, VMError>)
    ensures
        match spec_function_def_position(*module, handle) {
            Some(i) => r matches Ok(d) && *d == module.function_defs@[i],
            None => r == Err::<&AdamantFunctionDefinition, VMError>(out_of_bounds()),
        },
{
    let oob = VMError::InvariantViolation { reason: InvariantViolationReason::IndexOutOfBoundsPostVerification };
    if handle.0 as usize >= module.function_handles.len() {
        return Err(oob);
    }
    let mut i: usize = 0;
    while i < module.function_defs.len()
        invariant
            i <= module.function_defs@.len(),
            handle.0 < module.function_handles@.len(),
            first_def_from(module.function_defs@, handle.0, 0) == first_def_from(
                module.function_defs@,
                handle.0,
                i as int,
            ),
        decreases module.function_defs@.len() - i,
    {
        if module.function_defs[i].function.0 == handle.0 {
            return Ok(&module.function_defs[i]);
        }
        i = i + 1;
    }
    Err(oob)
}

/// The number of fields of struct definition `idx`.
pub fn resolve_struct_field_count(module: &AdamantCompiledModule, idx: StructDefinitionIndex) -> (r: Result<usize, VMError>)
    ensures
        match spec_struct_field_count(*module, idx) {
            Ok(n) => r == Ok::<usize, VMError>(n as usize) && n <= usize::MAX,
            Err(e) => r == Err::<usize, VMError>(e),
        },
{
    if idx.0 as usize >= module.struct_defs.len() {
        return Err(VMError::InvariantViolation { reason: InvariantViolationReason::IndexOutOfBoundsPostVerification });
    }
    match &module.struct_defs[idx.0 as usize].field_information {
        StructFieldInformation::Native => Ok(0),
        StructFieldInformation::Declared(fields) => Ok(fields.len()),
    }
}

/// The position of field handle `handle`'s field in its struct.
pub fn resolve_field_offset(module: &AdamantCompiledModule, handle: FieldHandleIndex) -> (r: Result<usize, VMError>)
    ensures
        handle.0 < module.field_handles@.len() ==> r == Ok::<usize, VMError>(
            module.field_handles@[handle.0 as int].field as usize,
        ),
        handle.0 >= module.field_handles@.len() ==> r == Err::<usize, VMError>(out_of_bounds()),
{
    if handle.0 as usize >= module.field_handles.len() {
        return Err(VMError::InvariantViolation { reason: InvariantViolationReason::IndexOutOfBoundsPostVerification });
    }
    Ok(module.field_handles[handle.0 as usize].field as usize)
}

/// Constant `idx` of the constant pool.
pub fn resolve_constant(module: &AdamantCompiledModule, idx: ConstantPoolIndex) -> (r: Result<&Constant, VMError>)
    ensures
        idx.0 < module.constant_pool@.len() ==> (r matches Ok(c) && *c == module.constant_pool@[idx.0 as int]),
        idx.0 >= module.constant_pool@.len() ==> r == Err::<&Constant, VMError>(out_of_bounds()),
{
    if idx.0 as usize >= module.constant_pool.len() {
        return Err(VMError::InvariantViolation { reason: InvariantViolationReason::IndexOutOfBoundsPostVerification });
    }
    Ok(&module.constant_pool[idx.0 as usize])
}

/// The enum position and tag of variant handle `handle`.
pub fn resolve_variant_handle(module: &AdamantCompiledModule, handle: VariantHandleIndex) -> (r: Result<(usize, u16), VMError>)
    ensures
        match spec_variant_handle(*module, handle) {
            Ok((e, t)) => r == Ok::<(usize, u16), VMError>((e.0 as usize, t)),
            Err(err) => r == Err::<(usize, u16), VMError>(err),
        },
{
    if handle.0 as usize >= module.variant_handles.len() {
        return Err(VMError::InvariantViolation { reason: InvariantViolationReason::IndexOutOfBoundsPostVerification });
    }
    let h = &module.variant_handles[handle.0 as usize];
    Ok((h.enum_def.0 as usize, h.variant))
}

/// The struct definition of generic instantiation `idx`.
pub fn resolve_struct_def_instantiation(module: &AdamantCompiledModule, idx: StructDefInstantiationIndex) -> (r: Result<StructDefinitionIndex, VMError>)
    ensures
        r == spec_struct_def_instantiation(*module, idx),
{
    if idx.0 as usize >= module.struct_def_instantiations.len() {
        return Err(VMError::InvariantViolation { reason: InvariantViolationReason::IndexOutOfBoundsPostVerification });
    }
    Ok(module.struct_def_instantiations[idx.0 as usize].def)
}

/// The enum and tag of variant-instantiation handle `idx`.
pub fn resolve_variant_instantiation_handle(module: &AdamantCompiledModule, idx: VariantInstantiationHandleIndex) -> (r: Result<(EnumDefinitionIndex, u16), VMError>)
    ensures
        r == spec_variant_instantiation_handle(*module, idx),
{
    let oob = VMError::InvariantViolation { reason: InvariantViolationReason::IndexOutOfBoundsPostVerification };
    if idx.0 as usize >= module.variant_instantiation_handles.len() {
        return Err(oob);
    }
    let h = &module.variant_instantiation_handles[idx.0 as usize];
    if h.enum_def.0 as usize >= module.enum_def_instantiations.len() {
        return Err(oob);
    }
    Ok((module.enum_def_instantiations[h.enum_def.0 as usize].def, h.variant))
}

/// The number of fields of variant `tag` of enum `enum_def`.
pub fn resolve_variant_field_count(module: &AdamantCompiledModule, enum_def: EnumDefinitionIndex, tag: u16) -> (r: Result<usize, VMError>)
    ensures
        match spec_variant_field_count(*module, enum_def, tag) {
            Ok(n) => r == Ok::<usize, VMError>(n as usize) && n <= usize::MAX,
            Err(e) => r == Err::<usize, VMError>(e),
        },
{
    let oob = VMError::InvariantViolation { reason: InvariantViolationReason::IndexOutOfBoundsPostVerification };
    if enum_def.0 as usize >= module.enum_defs.len() {
        return Err(oob);
    }
    let def = &module.enum_defs[enum_def.0 as usize];
    if tag as usize >= def.variants.len() {
        return Err(oob);
    }
    Ok(def.variants[tag as usize].fields.len())
}

} // verus!
