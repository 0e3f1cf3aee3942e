//! Type signatures as written in the source, after name resolution.

use crate::ir::class::ClassId;
use crate::ir::data::TypeDefId;
use vstd::prelude::*;

verus! {

#[derive(Debug, Clone, Copy, PartialEq, Eq, PartialOrd, Ord, Structural)]
pub struct TypeSignatureId {
    pub id: usize,
}

/// One node of a type signature; its children are other signatures, by id.
#[derive(Debug, Clone)]
pub enum TypeSignature {
    Tuple(Vec<TypeSignatureId>),
    Function(TypeSignatureId, TypeSignatureId),
    TypeArgument(usize, String, Vec<ClassId>),
    Named(String, TypeDefId, Vec<TypeSignatureId>),
    Variant(String, Vec<TypeSignatureId>),
    Wildcard,
}

} // verus!
