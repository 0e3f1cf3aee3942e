//! Runtime values and their mathematical model.

use crate::ir::concrete::ConcreteModel;
use crate::ir::concrete::ConcreteType;
use crate::ir::concrete::SubstitutionContext;
use crate::ir::data::TypeDefId;
use crate::ir::function::FunctionId;
use vstd::prelude::*;

verus! {

/// A function with the arguments collected for it so far, and the
/// substitution context under which it will run.
#[derive(Debug)]
pub struct Callable {
    pub function_id: FunctionId,
    pub values: Vec<Value>,
    pub sub_context: SubstitutionContext,
}

/// What a value holds. A float is held as the bits of its IEEE 754 binary64
/// form.
#[derive(Debug)]
pub enum ValueCore {
    Int(i64),
    Float(u64),
    Bool(bool),
    String(String),
    Tuple(Vec<Value>),
    List(Vec<Value>),
    Record(TypeDefId, Vec<Value>),
    Variant(TypeDefId, usize, Vec<Value>),
    Callable(Callable),
}

/// A runtime value with its concrete type.
#[derive(Debug)]
pub struct Value {
    pub core: ValueCore,
    pub ty: ConcreteType,
}

/// The mathematical model of what a value holds.
pub ghost enum CoreModel {
    Int(i64),
    Float(u64),
    Bool(bool),
    String(Seq<char>),
    Tuple(Seq<ValueModel>),
    List(Seq<ValueModel>),
    Record(TypeDefId, Seq<ValueModel>),
    Variant(TypeDefId, usize, Seq<ValueModel>),
    Callable(FunctionId, Seq<ValueModel>, Map<usize, ConcreteModel>),
}

/// The mathematical model of a value.
pub ghost struct ValueModel {
    pub core: CoreModel,
    pub ty: ConcreteModel,
}

/// The models of a sequence of values, item by item.
pub open spec fn value_models(items: Seq<Value>) -> Seq<ValueModel>
    decreases items,
{
    Seq::new(items.len(), |i: int| if 0 <= i < items.len() { items[i].model() } else { arbitrary() })
}

impl ValueCore {
    /// The mathematical model of what the value holds.
    pub open spec fn model(&self) -> CoreModel
        decreases self,
    {
        match self {
            ValueCore::Int(v) => CoreModel::Int(*v),
            ValueCore::Float(v) => CoreModel::Float(*v),
            ValueCore::Bool(v) => CoreModel::Bool(*v),
            ValueCore::String(v) => CoreModel::String(v@),
            ValueCore::Tuple(items) => CoreModel::Tuple(value_models(items@)),
            ValueCore::List(items) => CoreModel::List(value_models(items@)),
            ValueCore::Record(id, items) => CoreModel::Record(*id, value_models(items@)),
            ValueCore::Variant(id, index, items) => CoreModel::Variant(
                *id,
                *index,
                value_models(items@),
            ),
            ValueCore::Callable(callable) => CoreModel::Callable(
                callable.function_id,
                value_models(callable.values@),
                callable.sub_context@,
            ),
        }
    }
}

impl Value {
    /// The mathematical model of the value.
    pub open spec fn model(&self) -> ValueModel
        decreases self,
    {
        ValueModel { core: self.core.model(), ty: self.ty@ }
    }

    pub fn new(core: ValueCore, ty: ConcreteType) -> (v: Value)
        ensures
            v.core == core,
            v.ty == ty,
    {
        Value { core, ty }
    }

    /// A deep copy.
    pub fn copy(&self) -> (r: Value)
        ensures
            r@ == self@,
        decreases self,
    {
        let core = match &self.core {
            ValueCore::Int(v) => ValueCore::Int(*v),
            ValueCore::Float(v) => ValueCore::Float(*v),
            ValueCore::Bool(v) => ValueCore::Bool(*v),
            ValueCore::String(v) => ValueCore::String(v.clone()),
            ValueCore::Tuple(items) => ValueCore::Tuple(copy_values(items)),
            ValueCore::List(items) => ValueCore::List(copy_values(items)),
            ValueCore::Record(id, items) => ValueCore::Record(*id, copy_values(items)),
            ValueCore::Variant(id, index, items) => ValueCore::Variant(
                *id,
                *index,
                copy_values(items),
            ),
            ValueCore::Callable(callable) => ValueCore::Callable(
                Callable {
                    function_id: callable.function_id,
                    values: copy_values(&callable.values),
                    sub_context: callable.sub_context.copy(),
                },
            ),
        };
        Value { core, ty: self.ty.copy() }
    }
}

/// A deep copy of a list of values.
pub fn copy_values(items: &Vec<Value>) -> (r: Vec<Value>)
    ensures
        value_models(r@) == value_models(items@),
    decreases items,
{
    let mut r: Vec<Value> = Vec::new();
    let mut i: usize = 0;
    while i < items.len()
        invariant
            i <= items.len(),
            r.len() == i,
            forall|k: int| 0 <= k < i ==> (#[trigger] r@[k]).model() == items@[k].model(),
        decreases items.len() - i,
    {
        r.push(items[i].copy());
        i = i + 1;
    }
    assert(value_models(r@) =~= value_models(items@));
    r
}

impl View for Value {
    type V = ValueModel;

    open spec fn view(&self) -> ValueModel {
        self.model()
    }
}

impl Clone for Value {
    fn clone(&self) -> (r: Value)
        ensures
            r@ == self@,
    {
        self.copy()
    }
}

/// Whether two floats, each given by its bits, are equal as floats: neither
/// is a NaN, and they have the same bits or are both zeros.
pub open spec fn float_bits_equal(a: u64, b: u64) -> bool {
    !float_bits_nan(a) && !float_bits_nan(b) && (a == b || (a & 0x7fff_ffff_ffff_ffffu64 == 0 && b
        & 0x7fff_ffff_ffff_ffffu64 == 0))
}

/// Whether the bits are those of a NaN: the exponent is all ones and the
/// fraction is not zero.
pub open spec fn float_bits_nan(a: u64) -> bool {
    a & 0x7ff0_0000_0000_0000u64 == 0x7ff0_0000_0000_0000u64 && a & 0x000f_ffff_ffff_ffffu64 != 0
}

/// Compares two floats, each given by its bits, as floats.
pub fn float_equal(a: u64, b: u64) -> (r: bool)
    ensures
        r == float_bits_equal(a, b),
{
    let a_nan = a & 0x7ff0_0000_0000_0000u64 == 0x7ff0_0000_0000_0000u64 && a
        & 0x000f_ffff_ffff_ffffu64 != 0;
    let b_nan = b & 0x7ff0_0000_0000_0000u64 == 0x7ff0_0000_0000_0000u64 && b
        & 0x000f_ffff_ffff_ffffu64 != 0;
    !a_nan && !b_nan && (a == b || (a & 0x7fff_ffff_ffff_ffffu64 == 0 && b
        & 0x7fff_ffff_ffff_ffffu64 == 0))
}

} // verus!
