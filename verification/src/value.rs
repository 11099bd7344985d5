//! Values of Adamant Move as the runtime holds them, and their
//! mathematical model.
//!
//! A [`Value`] is a primitive (an unsigned integer of one of six
//! widths, a boolean or an address) or a container (a struct, a
//! vector or an enum variant) of further values.  Its model
//! ([`ValueModel`]) replaces each container's `Vec` by the sequence
//! of its elements' models and each `u256` by its numeric value, so
//! that two values hold the same data exactly when their models are
//! equal.

use crate::bytecode::U256;
use crate::runtime::error::{InvariantViolationReason, VMError};
use crate::runtime::frame::{out_of_bounds, type_mismatch};
use crate::transaction::Address;
use vstd::prelude::*;

verus! {

broadcast use vstd::std_specs::vec::axiom_vec_index_decreases;

/// Byte width of a `u256` value.
pub const U256_BYTES: usize = 32;

/// A runtime value.
#[derive(Debug, PartialEq, Eq)]
pub enum Value {
    /// An 8-bit unsigned integer.
    U8(u8),
    /// A 16-bit unsigned integer.
    U16(u16),
    /// A 32-bit unsigned integer.
    U32(u32),
    /// A 64-bit unsigned integer.
    U64(u64),
    /// A 128-bit unsigned integer.
    U128(u128),
    /// A 256-bit unsigned integer, as its 32 little-endian bytes.
    U256([u8; 32]),
    /// A boolean.
    Bool(bool),
    /// An account address.
    Address(Address),
    /// A struct value.
    Struct(StructValue),
    /// A vector value.
    Vector(Vec<Value>),
    /// An enum variant value.
    Variant(VariantValue),
    /// A reference to a local slot, or to a value nested in one.
    Reference(Reference),
}

/// A reference: the frame (by its position on the call stack, bottom
/// first) and local slot holding the referenced value, and the path
/// of field or element positions leading from the slot's value to it.
#[derive(Debug, PartialEq, Eq)]
pub struct Reference {
    /// Position of the frame on the call stack.
    pub frame: usize,
    /// The local slot.
    pub local: u8,
    /// Field or element positions, outermost first.
    pub path: Vec<usize>,
}

/// The fields of a struct value, in declaration order.
#[derive(Debug, PartialEq, Eq)]
pub struct StructValue {
    /// The field values.
    pub fields: Vec<Value>,
}

/// An enum variant: its tag and its fields in declaration order.
#[derive(Debug, PartialEq, Eq)]
pub struct VariantValue {
    /// The variant's tag.
    pub tag: u16,
    /// The field values.
    pub fields: Vec<Value>,
}

/// The mathematical model of a [`Value`].
pub enum ValueModel {
    /// An 8-bit unsigned integer.
    U8(u8),
    /// A 16-bit unsigned integer.
    U16(u16),
    /// A 32-bit unsigned integer.
    U32(u32),
    /// A 64-bit unsigned integer.
    U64(u64),
    /// A 128-bit unsigned integer.
    U128(u128),
    /// A 256-bit unsigned integer, by its value.
    U256(nat),
    /// A boolean.
    Bool(bool),
    /// An account address, by its bytes.
    Address(Seq<u8>),
    /// A struct: the models of its fields.
    Struct(Seq<ValueModel>),
    /// A vector: the models of its elements.
    Vector(Seq<ValueModel>),
    /// A variant: its tag and the models of its fields.
    Variant(u16, Seq<ValueModel>),
    /// A reference: frame position, local slot and path.
    Reference(usize, u8, Seq<usize>),
}

/// The numeric value of 32 little-endian bytes.
pub open spec fn u256_value(bytes: [u8; 32]) -> nat {
    U256::from_le_seq(bytes@).value()
}

impl Value {
    /// The model of the value.
    pub open spec fn model(self) -> ValueModel
        decreases self, 0nat,
    {
        match self {
            Value::U8(x) => ValueModel::U8(x),
            Value::U16(x) => ValueModel::U16(x),
            Value::U32(x) => ValueModel::U32(x),
            Value::U64(x) => ValueModel::U64(x),
            Value::U128(x) => ValueModel::U128(x),
            Value::U256(b) => ValueModel::U256(u256_value(b)),
            Value::Bool(b) => ValueModel::Bool(b),
            Value::Address(a) => ValueModel::Address(a.0@),
            Value::Struct(s) => ValueModel::Struct(models_prefix(s.fields, s.fields.len() as nat)),
            Value::Vector(v) => ValueModel::Vector(models_prefix(v, v.len() as nat)),
            Value::Variant(v) => ValueModel::Variant(
                v.tag,
                models_prefix(v.fields, v.fields.len() as nat),
            ),
            Value::Reference(r) => ValueModel::Reference(r.frame, r.local, r.path@),
        }
    }
}

/// The models of the first `n` elements of `v`.
pub open spec fn models_prefix(v: Vec<Value>, n: nat) -> Seq<ValueModel>
    decreases v, n,
{
    if n == 0 || n > v.len() {
        Seq::empty()
    } else {
        models_prefix(v, (n - 1) as nat).push(v[n - 1].model())
    }
}

/// Whether two values hold the same data.
pub open spec fn same_data(a: Value, b: Value) -> bool {
    a.model() == b.model()
}

/// The models of a sequence of values, element by element.
pub open spec fn seq_model(s: Seq<Value>) -> Seq<ValueModel> {
    s.map_values(|v: Value| v.model())
}

/// The models of a vector's elements.
pub proof fn lemma_models_prefix(v: Vec<Value>, n: nat)
    requires
        n <= v.len(),
    ensures
        models_prefix(v, n) == seq_model(v@.subrange(0, n as int)),
    decreases n,
{
    if n > 0 {
        lemma_models_prefix(v, (n - 1) as nat);
        assert(v@.subrange(0, n as int) =~= v@.subrange(0, n - 1).push(v@[n - 1]));
        assert(seq_model(v@.subrange(0, n as int)) =~= seq_model(v@.subrange(0, n - 1)).push(
            v@[n - 1].model(),
        ));
    } else {
        assert(seq_model(v@.subrange(0, 0)) =~= Seq::empty());
    }
}

/// A container's model is the model of its element sequence.
pub proof fn lemma_vec_model(v: Vec<Value>)
    ensures
        models_prefix(v, v.len() as nat) == seq_model(v@),
{
    lemma_models_prefix(v, v.len() as nat);
    assert(v@.subrange(0, v.len() as int) =~= v@);
}

/// Equal little-endian bytes and equal values go together.
pub proof fn lemma_u256_bytes_injective(a: [u8; 32], b: [u8; 32])
    requires
        u256_value(a) == u256_value(b),
    ensures
        a == b,
{
    crate::u256::lemma_u256_from_le_seq_injective(a@, b@);
    assert(a@ =~= b@);
}

impl Value {
    /// A copy of the value that holds the same data.
    pub fn deep_copy(&self) -> (r: Value)
        ensures
            r.model() == self.model(),
        decreases self, 0nat,
    {
        match self {
            Value::U8(x) => Value::U8(*x),
            Value::U16(x) => Value::U16(*x),
            Value::U32(x) => Value::U32(*x),
            Value::U64(x) => Value::U64(*x),
            Value::U128(x) => Value::U128(*x),
            Value::U256(b) => Value::U256(*b),
            Value::Bool(b) => Value::Bool(*b),
            Value::Address(a) => Value::Address(*a),
            Value::Struct(s) => {
                let fields = copy_values(&s.fields);
                proof {
                    lemma_vec_model(fields);
                    lemma_vec_model(s.fields);
                }
                Value::Struct(StructValue { fields })
            },
            Value::Vector(v) => {
                let elements = copy_values(v);
                proof {
                    lemma_vec_model(elements);
                    lemma_vec_model(*v);
                }
                Value::Vector(elements)
            },
            Value::Variant(v) => {
                let fields = copy_values(&v.fields);
                proof {
                    lemma_vec_model(fields);
                    lemma_vec_model(v.fields);
                }
                Value::Variant(VariantValue { tag: v.tag, fields })
            },
            Value::Reference(r) => Value::Reference(r.copy()),
        }
    }

    /// Whether the two values hold the same data: the same primitive,
    /// or containers of the same kind (and tag) whose elements are
    /// pairwise equal.
    pub fn equals(&self, other: &Value) -> (r: bool)
        ensures
            r == same_data(*self, *other),
        decreases self, 0nat,
    {
        match self {
            Value::U8(a) => if let Value::U8(b) = other { *a == *b } else { false },
            Value::U16(a) => if let Value::U16(b) = other { *a == *b } else { false },
            Value::U32(a) => if let Value::U32(b) = other { *a == *b } else { false },
            Value::U64(a) => if let Value::U64(b) = other { *a == *b } else { false },
            Value::U128(a) => if let Value::U128(b) = other { *a == *b } else { false },
            Value::U256(a) => if let Value::U256(b) = other {
                let r = bytes32_equal(a, b);
                proof {
                    if r {
                        assert(a@ =~= b@);
                    } else if u256_value(*a) == u256_value(*b) {
                        lemma_u256_bytes_injective(*a, *b);
                    }
                }
                r
            } else {
                false
            },
            Value::Bool(a) => if let Value::Bool(b) = other { *a == *b } else { false },
            Value::Address(a) => if let Value::Address(b) = other {
                let r = bytes32_equal(&a.0, &b.0);
                r
            } else {
                false
            },
            Value::Struct(a) => if let Value::Struct(b) = other {
                proof {
                    lemma_vec_model(a.fields);
                    lemma_vec_model(b.fields);
                }
                values_equal(&a.fields, &b.fields)
            } else {
                false
            },
            Value::Vector(a) => if let Value::Vector(b) = other {
                proof {
                    lemma_vec_model(*a);
                    lemma_vec_model(*b);
                }
                values_equal(a, b)
            } else {
                false
            },
            Value::Variant(a) => if let Value::Variant(b) = other {
                proof {
                    lemma_vec_model(a.fields);
                    lemma_vec_model(b.fields);
                }
                if a.tag != b.tag {
                    false
                } else {
                    values_equal(&a.fields, &b.fields)
                }
            } else {
                false
            },
            Value::Reference(a) => if let Value::Reference(b) = other {
                a.frame == b.frame && a.local == b.local && usizes_equal(&a.path, &b.path)
            } else {
                false
            },
        }
    }
}

impl Clone for Value {
    fn clone(&self) -> (r: Self)
        ensures
            r.model() == self.model(),
    {
        self.deep_copy()
    }
}

impl Clone for StructValue {
    fn clone(&self) -> (r: Self)
        ensures
            seq_model(r.fields@) == seq_model(self.fields@),
    {
        StructValue { fields: copy_values(&self.fields) }
    }
}

impl Clone for VariantValue {
    fn clone(&self) -> (r: Self)
        ensures
            r.tag == self.tag,
            seq_model(r.fields@) == seq_model(self.fields@),
    {
        VariantValue { tag: self.tag, fields: copy_values(&self.fields) }
    }
}

/// Copies each element of `v`.
fn copy_values(v: &Vec<Value>) -> (r: Vec<Value>)
    ensures
        seq_model(r@) == seq_model(v@),
    decreases v, 1nat,
{
    let mut out: Vec<Value> = Vec::new();
    let mut i: usize = 0;
    while i < v.len()
        invariant
            i <= v.len(),
            out@.len() == i,
            forall|j: int| 0 <= j < i ==> (#[trigger] out@[j]).model() == v@[j].model(),
        decreases v.len() - i,
    {
        let c = v[i].deep_copy();
        out.push(c);
        i = i + 1;
    }
    assert(seq_model(out@) =~= seq_model(v@));
    out
}

/// Whether two element vectors are pairwise equal.
fn values_equal(a: &Vec<Value>, b: &Vec<Value>) -> (r: bool)
    ensures
        r == (seq_model(a@) == seq_model(b@)),
    decreases a, 1nat,
{
    if a.len() != b.len() {
        proof {
            assert(seq_model(a@).len() != seq_model(b@).len());
        }
        return false;
    }
    let mut i: usize = 0;
    while i < a.len()
        invariant
            i <= a.len(),
            a.len() == b.len(),
            forall|j: int| 0 <= j < i ==> (#[trigger] a@[j]).model() == b@[j].model(),
        decreases a.len() - i,
    {
        if !a[i].equals(&b[i]) {
            proof {
                assert(seq_model(a@)[i as int] != seq_model(b@)[i as int]);
            }
            return false;
        }
        i = i + 1;
    }
    assert(seq_model(a@) =~= seq_model(b@));
    true
}

impl Reference {
    /// A copy of the reference.
    pub fn copy(&self) -> (r: Reference)
        ensures
            r.frame == self.frame,
            r.local == self.local,
            r.path@ == self.path@,
    {
        let mut path: Vec<usize> = Vec::new();
        let mut i: usize = 0;
        while i < self.path.len()
            invariant
                i <= self.path@.len(),
                path@ == self.path@.subrange(0, i as int),
            decreases self.path@.len() - i,
        {
            path.push(self.path[i]);
            i = i + 1;
            assert(path@ =~= self.path@.subrange(0, i as int));
        }
        assert(path@ =~= self.path@);
        Reference { frame: self.frame, local: self.local, path }
    }

    /// The reference one step further down `step`.
    pub fn extended(&self, step: usize) -> (r: Reference)
        ensures
            r.frame == self.frame,
            r.local == self.local,
            r.path@ == self.path@.push(step),
    {
        let mut r = self.copy();
        r.path.push(step);
        r
    }
}

/// Whether two position lists are equal.
fn usizes_equal(a: &Vec<usize>, b: &Vec<usize>) -> (r: bool)
    ensures
        r == (a@ == b@),
{
    if a.len() != b.len() {
        return false;
    }
    let mut i: usize = 0;
    while i < a.len()
        invariant
            i <= a@.len(),
            a@.len() == b@.len(),
            forall|j: int| 0 <= j < i ==> a@[j] == b@[j],
        decreases a@.len() - i,
    {
        if a[i] != b[i] {
            return false;
        }
        i = i + 1;
    }
    assert(a@ =~= b@);
    true
}

/// Whether two byte arrays are equal.
fn bytes32_equal(a: &[u8; 32], b: &[u8; 32]) -> (r: bool)
    ensures
        r == (a@ == b@),
{
    let mut i: usize = 0;
    while i < 32
        invariant
            i <= 32,
            a@.len() == 32,
            b@.len() == 32,
            forall|j: int| 0 <= j < i ==> a@[j] == b@[j],
        decreases 32 - i,
    {
        if a[i] != b[i] {
            return false;
        }
        i = i + 1;
    }
    assert(a@ =~= b@);
    true
}


// ---------- Navigation below a value ----------

/// The elements of a container: a struct's or a variant's fields, a
/// vector's elements.
pub open spec fn elements(v: ValueModel) -> Option<Seq<ValueModel>> {
    match v {
        ValueModel::Struct(fs) => Some(fs),
        ValueModel::Vector(es) => Some(es),
        ValueModel::Variant(_, fs) => Some(fs),
        _ => None,
    }
}

/// The container with its elements replaced.
pub open spec fn with_elements(v: ValueModel, es: Seq<ValueModel>) -> ValueModel {
    match v {
        ValueModel::Struct(_) => ValueModel::Struct(es),
        ValueModel::Vector(_) => ValueModel::Vector(es),
        ValueModel::Variant(t, _) => ValueModel::Variant(t, es),
        _ => v,
    }
}

/// The value reached from `v` along `path`, if every step stays
/// inside a container.
pub open spec fn value_at(v: ValueModel, path: Seq<usize>) -> Option<ValueModel>
    decreases path.len(),
{
    if path.len() == 0 {
        Some(v)
    } else {
        match elements(v) {
            Some(es) => if path[0] < es.len() {
                value_at(es[path[0] as int], path.drop_first())
            } else {
                None
            },
            None => None,
        }
    }
}

/// `v` with the value along `path` replaced by `new`.
pub open spec fn update_at(v: ValueModel, path: Seq<usize>, new: ValueModel) -> ValueModel
    decreases path.len(),
{
    if path.len() == 0 {
        new
    } else {
        match elements(v) {
            Some(es) => if path[0] < es.len() {
                with_elements(
                    v,
                    es.update(path[0] as int, update_at(es[path[0] as int], path.drop_first(), new)),
                )
            } else {
                v
            },
            None => v,
        }
    }
}

/// A change made through a reference.
#[derive(Debug)]
pub enum RefOp {
    /// Replace the referenced value.
    Write(Value),
    /// Append to the referenced vector.
    PushBack(Value),
    /// Remove the last element of the referenced vector.
    PopBack,
    /// Exchange two elements of the referenced vector.
    Swap(usize, usize),
}

/// The model of a change made through a reference.
pub enum RefEdit {
    /// Replace the referenced value.
    Write(ValueModel),
    /// Append to the referenced vector.
    PushBack(ValueModel),
    /// Remove the last element of the referenced vector.
    PopBack,
    /// Exchange two elements of the referenced vector.
    Swap(usize, usize),
}

impl RefOp {
    /// The model of the change.
    pub open spec fn edit(self) -> RefEdit {
        match self {
            RefOp::Write(v) => RefEdit::Write(v.model()),
            RefOp::PushBack(x) => RefEdit::PushBack(x.model()),
            RefOp::PopBack => RefEdit::PopBack,
            RefOp::Swap(a, b) => RefEdit::Swap(a, b),
        }
    }
}

/// The change `op` makes to the referenced value `t`: the new value
/// and what the change gives back, or the error.
pub open spec fn spec_apply(op: RefEdit, t: ValueModel) -> Result<(ValueModel, Option<ValueModel>), VMError> {
    match op {
        RefEdit::Write(v) => Ok((v, None)),
        RefEdit::PushBack(x) => match t {
            ValueModel::Vector(es) => Ok((ValueModel::Vector(es.push(x)), None)),
            _ => Err(type_mismatch()),
        },
        RefEdit::PopBack => match t {
            ValueModel::Vector(es) => if es.len() == 0 {
                Err(out_of_bounds())
            } else {
                Ok((ValueModel::Vector(es.drop_last()), Some(es.last())))
            },
            _ => Err(type_mismatch()),
        },
        RefEdit::Swap(a, b) => match t {
            ValueModel::Vector(es) => if a < es.len() && b < es.len() {
                Ok((ValueModel::Vector(es.update(a as int, es[b as int]).update(b as int, es[a as int])), None))
            } else {
                Err(out_of_bounds())
            },
            _ => Err(type_mismatch()),
        },
    }
}

/// The model of an optional value.
pub open spec fn opt_model(o: Option<Value>) -> Option<ValueModel> {
    match o {
        Some(v) => Some(v.model()),
        None => None,
    }
}

/// The elements after a change to one of them.
proof fn lemma_seq_model_update(s: Seq<Value>, k: int, v: Value)
    requires
        0 <= k < s.len(),
    ensures
        seq_model(s.update(k, v)) == seq_model(s).update(k, v.model()),
{
    assert(seq_model(s.update(k, v)) =~= seq_model(s).update(k, v.model()));
}

/// Exchanges elements `a` and `b`.
fn swap_elements(es: &mut Vec<Value>, a: usize, b: usize)
    requires
        a < old(es)@.len(),
        b < old(es)@.len(),
    ensures
        final(es)@ == old(es)@.update(a as int, old(es)@[b as int]).update(b as int, old(es)@[a as int]),
{
    if a == b {
        assert(es@ =~= old(es)@.update(a as int, old(es)@[b as int]).update(b as int, old(es)@[a as int]));
        return;
    }
    let mut tmp = Value::Bool(false);
    std::mem::swap(&mut tmp, &mut es[a]);
    std::mem::swap(&mut tmp, &mut es[b]);
    std::mem::swap(&mut tmp, &mut es[a]);
    assert(es@ =~= old(es)@.update(a as int, old(es)@[b as int]).update(b as int, old(es)@[a as int]));
}

impl Value {
    /// The value reached along `path[i..]`.
    pub fn peek_at(&self, path: &Vec<usize>, i: usize) -> (r: Result<&Value, VMError>)
        requires
            i <= path@.len(),
        ensures
            match value_at(self.model(), path@.subrange(i as int, path@.len() as int)) {
                Some(t) => r matches Ok(v) && v.model() == t,
                None => r == Err::<&Value, VMError>(out_of_bounds()),
            },
        decreases path@.len() - i,
    {
        let oob = VMError::InvariantViolation { reason: InvariantViolationReason::IndexOutOfBoundsPostVerification };
        if i == path.len() {
            return Ok(self);
        }
        let k = path[i];
        let ghost rest = path@.subrange(i as int, path@.len() as int);
        assert(rest.drop_first() =~= path@.subrange(i + 1, path@.len() as int));
        let es = match self {
            Value::Struct(s) => &s.fields,
            Value::Vector(v) => v,
            Value::Variant(v) => &v.fields,
            _ => {
                return Err(oob);
            },
        };
        proof {
            lemma_vec_model(*es);
        }
        if k >= es.len() {
            return Err(oob);
        }
        es[k].peek_at(path, i + 1)
    }

    /// Applies `op` to the value reached along `path[i..]`.
    pub fn modify_at(&mut self, path: &Vec<usize>, i: usize, op: RefOp) -> (r: Result<Option<Value>, VMError>)
        requires
            i <= path@.len(),
        ensures
            match value_at(old(self).model(), path@.subrange(i as int, path@.len() as int)) {
                None => r == Err::<Option<Value>, VMError>(out_of_bounds()) && final(self).model()
                    == old(self).model(),
                Some(t) => match spec_apply(op.edit(), t) {
                    Err(e) => r == Err::<Option<Value>, VMError>(e) && final(self).model() == old(
                        self,
                    ).model(),
                    Ok((nt, out)) => r matches Ok(o) && opt_model(o) == out && final(self).model()
                        == update_at(
                        old(self).model(),
                        path@.subrange(i as int, path@.len() as int),
                        nt,
                    ),
                },
            },
        decreases path@.len() - i,
    {
        let oob = VMError::InvariantViolation { reason: InvariantViolationReason::IndexOutOfBoundsPostVerification };
        let ghost rest = path@.subrange(i as int, path@.len() as int);
        if i == path.len() {
            return self.apply(op);
        }
        let k = path[i];
        assert(rest.drop_first() =~= path@.subrange(i + 1, path@.len() as int));
        match self {
            Value::Struct(s) => {
                proof {
                    lemma_vec_model(s.fields);
                }
                if k >= s.fields.len() {
                    return Err(oob);
                }
                let ghost before = s.fields@;
                let r = s.fields[k].modify_at(path, i + 1, op);
                proof {
                    lemma_vec_model(s.fields);
                    lemma_seq_model_update(before, k as int, s.fields@[k as int]);
                    assert(s.fields@ =~= before.update(k as int, s.fields@[k as int]));
                    if s.fields@[k as int].model() == before[k as int].model() {
                        assert(seq_model(before).update(k as int, before[k as int].model()) =~= seq_model(before));
                    }
                }
                r
            },
            Value::Vector(v) => {
                proof {
                    lemma_vec_model(*v);
                }
                if k >= v.len() {
                    return Err(oob);
                }
                let ghost before = v@;
                let r = v[k].modify_at(path, i + 1, op);
                proof {
                    lemma_vec_model(*v);
                    lemma_seq_model_update(before, k as int, v@[k as int]);
                    assert(v@ =~= before.update(k as int, v@[k as int]));
                    if v@[k as int].model() == before[k as int].model() {
                        assert(seq_model(before).update(k as int, before[k as int].model()) =~= seq_model(before));
                    }
                }
                r
            },
            Value::Variant(vv) => {
                proof {
                    lemma_vec_model(vv.fields);
                }
                if k >= vv.fields.len() {
                    return Err(oob);
                }
                let ghost before = vv.fields@;
                let r = vv.fields[k].modify_at(path, i + 1, op);
                proof {
                    lemma_vec_model(vv.fields);
                    lemma_seq_model_update(before, k as int, vv.fields@[k as int]);
                    assert(vv.fields@ =~= before.update(k as int, vv.fields@[k as int]));
                    if vv.fields@[k as int].model() == before[k as int].model() {
                        assert(seq_model(before).update(k as int, before[k as int].model()) =~= seq_model(before));
                    }
                }
                r
            },
            _ => Err(oob),
        }
    }

    /// Applies `op` to this value.
    fn apply(&mut self, op: RefOp) -> (r: Result<Option<Value>, VMError>)
        ensures
            match spec_apply(op.edit(), old(self).model()) {
                Err(e) => r == Err::<Option<Value>, VMError>(e) && final(self).model() == old(
                    self,
                ).model(),
                Ok((nt, out)) => r matches Ok(o) && opt_model(o) == out && final(self).model() == nt,
            },
    {
        let oob = VMError::InvariantViolation { reason: InvariantViolationReason::IndexOutOfBoundsPostVerification };
        let mismatch = VMError::InvariantViolation { reason: InvariantViolationReason::TypeMismatchOnStack };
        match op {
            RefOp::Write(v) => {
                *self = v;
                Ok(None)
            },
            RefOp::PushBack(x) => match self {
                Value::Vector(es) => {
                    proof {
                        lemma_vec_model(*es);
                    }
                    let ghost before = es@;
                    let ghost xm = x.model();
                    es.push(x);
                    proof {
                        lemma_vec_model(*es);
                        assert(seq_model(es@) =~= seq_model(before).push(xm));
                    }
                    Ok(None)
                },
                _ => Err(mismatch),
            },
            RefOp::PopBack => match self {
                Value::Vector(es) => {
                    proof {
                        lemma_vec_model(*es);
                    }
                    let ghost before = es@;
                    match es.pop() {
                        Some(x) => {
                            proof {
                                lemma_vec_model(*es);
                                assert(seq_model(es@) =~= seq_model(before).drop_last());
                            }
                            Ok(Some(x))
                        },
                        None => Err(oob),
                    }
                },
                _ => Err(mismatch),
            },
            RefOp::Swap(a, b) => match self {
                Value::Vector(es) => {
                    proof {
                        lemma_vec_model(*es);
                    }
                    if a >= es.len() || b >= es.len() {
                        return Err(oob);
                    }
                    let ghost before = es@;
                    swap_elements(es, a, b);
                    proof {
                        lemma_vec_model(*es);
                        assert(seq_model(es@) =~= seq_model(before).update(a as int, seq_model(before)[b as int]).update(
                            b as int,
                            seq_model(before)[a as int],
                        ));
                    }
                    Ok(None)
                },
                _ => Err(mismatch),
            },
        }
    }
}

} // verus!
