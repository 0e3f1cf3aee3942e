//! Algebraic data types and records.

use crate::ir::function::FunctionId;
use crate::ir::type_signature::TypeSignatureId;
use crate::location_info::LocationId;
use vstd::prelude::*;

verus! {

#[derive(Debug, Clone, Copy, PartialEq, Eq, PartialOrd, Ord, Structural)]
pub struct TypeDefId {
    pub id: usize,
}

#[derive(Debug, Clone)]
pub struct RecordField {
    pub name: String,
    pub type_signature_id: TypeSignatureId,
}

/// A record: its fields in declaration order, and its constructor.
#[derive(Debug, Clone)]
pub struct Record {
    pub name: String,
    pub module: String,
    pub id: TypeDefId,
    pub type_args: Vec<usize>,
    pub fields: Vec<RecordField>,
    pub constructor: FunctionId,
    pub location_id: LocationId,
}

#[derive(Debug, Clone, Copy, PartialEq, Eq, Structural)]
pub struct VariantItem {
    pub type_signature_id: TypeSignatureId,
}

/// One variant of an algebraic data type: its items in order, and its constructor.
#[derive(Debug, Clone)]
pub struct Variant {
    pub name: String,
    pub items: Vec<VariantItem>,
    pub type_signature_id: TypeSignatureId,
    pub constructor: FunctionId,
}

/// An algebraic data type: its variants in declaration order.
#[derive(Debug, Clone)]
pub struct Adt {
    pub name: String,
    pub module: String,
    pub id: TypeDefId,
    pub type_args: Vec<usize>,
    pub variants: Vec<Variant>,
}

#[derive(Debug, Clone)]
pub enum TypeDef {
    Record(Record),
    Adt(Adt),
}

impl TypeDef {
    pub fn get_adt(&self) -> (r: &Adt)
        requires
            self is Adt,
        ensures
            *self == TypeDef::Adt(*r),
    {
        match self {
            TypeDef::Adt(adt) => adt,
            TypeDef::Record(_) => vstd::pervasive::unreached(),
        }
    }

    pub fn get_record(&self) -> (r: &Record)
        requires
            self is Record,
        ensures
            *self == TypeDef::Record(*r),
    {
        match self {
            TypeDef::Record(record) => record,
            TypeDef::Adt(_) => vstd::pervasive::unreached(),
        }
    }

    /// The algebraic data type that this definition is, to be changed in
    /// place.
    pub fn get_mut_adt(&mut self) -> (r: &mut Adt)
        requires
            *old(self) is Adt,
        ensures
            *old(self) == TypeDef::Adt(*r),
            *final(self) == TypeDef::Adt(*final(r)),
    {
        match self {
            TypeDef::Adt(adt) => adt,
            TypeDef::Record(_) => vstd::pervasive::unreached(),
        }
    }

    /// The record that this definition is, to be changed in place.
    pub fn get_mut_record(&mut self) -> (r: &mut Record)
        requires
            *old(self) is Record,
        ensures
            *old(self) == TypeDef::Record(*r),
            *final(self) == TypeDef::Record(*final(r)),
    {
        match self {
            TypeDef::Record(record) => record,
            TypeDef::Adt(_) => vstd::pervasive::unreached(),
        }
    }

    /// The name of the type.
    pub open spec fn name(&self) -> Seq<char> {
        match self {
            TypeDef::Record(r) => r.name@,
            TypeDef::Adt(a) => a.name@,
        }
    }

    /// The module that declares the type.
    pub open spec fn module(&self) -> Seq<char> {
        match self {
            TypeDef::Record(r) => r.module@,
            TypeDef::Adt(a) => a.module@,
        }
    }
}

} // verus!
