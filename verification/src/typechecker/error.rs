//! What the type checker reports.

use crate::ir::class::ClassId;
use crate::ir::data::TypeDefId;
use crate::ir::types::type_models;
use crate::ir::types::Type;
use crate::ir::types::TypeModel;
use crate::location_info::LocationId;
use vstd::prelude::*;

verus! {

/// An error of the type checker, with the place it is about.
#[derive(Debug)]
pub enum TypecheckError {
    /// What was expected and the type found do not fit: the text of the
    /// type expected, or of what else was expected, and the text of the
    /// type found.
    TypeMismatch(LocationId, String, String),
    /// The arguments do not fit the function: their types, and the
    /// function's type.
    FunctionArgumentMismatch(LocationId, Vec<Type>, Type),
    /// A field that more than one of the records can have: their names.
    AmbiguousFieldAccess(LocationId, Vec<String>),
    /// A record pattern with another number of sub-patterns than the record
    /// has fields: the name of the record, the number of fields, the number
    /// found.
    InvalidRecordPattern(LocationId, String, usize, usize),
    /// A variant pattern with another number of sub-patterns than the
    /// variant has items: the name of the variant, the number of items, the
    /// number found.
    InvalidVariantPattern(LocationId, String, usize, usize),
    /// A format string whose markers and arguments differ in number.
    InvalidFormatString(LocationId),
    /// An expression whose type only an annotation can settle. Inference
    /// itself reports an ambiguous field access or a mismatch where a type
    /// stays open; the error is for producers of programs that ask for the
    /// annotation.
    TypeAnnotationNeeded(LocationId),
    /// A function whose type holds itself.
    RecursiveType(LocationId),
    /// No instance of the class at the type: the name of the class, and
    /// the type.
    MissingInstance(String, Type, LocationId),
    /// Two instances of one class whose heads unify: the name of the class
    /// and the places of the two.
    ConflictingInstances(String, LocationId, LocationId),
    /// The program has no function `main` in module `Main`.
    MainNotFound,
    /// The program refers to something that its tables lack, lacks a
    /// built-in type, nests too deep, or needs more variables than there are.
    InvalidProgram(LocationId),
}

/// The characters of each of a list of names.
pub open spec fn name_views(names: Seq<String>) -> Seq<Seq<char>> {
    Seq::new(names.len(), |i: int| names[i]@)
}

/// The mathematical model of a type checker error.
pub ghost enum TypecheckErrorModel {
    TypeMismatch(LocationId, Seq<char>, Seq<char>),
    FunctionArgumentMismatch(LocationId, Seq<TypeModel>, TypeModel),
    AmbiguousFieldAccess(LocationId, Seq<Seq<char>>),
    InvalidRecordPattern(LocationId, Seq<char>, usize, usize),
    InvalidVariantPattern(LocationId, Seq<char>, usize, usize),
    InvalidFormatString(LocationId),
    TypeAnnotationNeeded(LocationId),
    RecursiveType(LocationId),
    MissingInstance(Seq<char>, TypeModel, LocationId),
    ConflictingInstances(Seq<char>, LocationId, LocationId),
    MainNotFound,
    InvalidProgram(LocationId),
}

impl View for TypecheckError {
    type V = TypecheckErrorModel;

    open spec fn view(&self) -> TypecheckErrorModel {
        match self {
            TypecheckError::TypeMismatch(l, a, b) => TypecheckErrorModel::TypeMismatch(*l, a@, b@),
            TypecheckError::FunctionArgumentMismatch(l, args, f) => {
                TypecheckErrorModel::FunctionArgumentMismatch(*l, type_models(args@), f@)
            },
            TypecheckError::AmbiguousFieldAccess(l, names) => {
                TypecheckErrorModel::AmbiguousFieldAccess(*l, name_views(names@))
            },
            TypecheckError::InvalidRecordPattern(l, name, a, b) => {
                TypecheckErrorModel::InvalidRecordPattern(*l, name@, *a, *b)
            },
            TypecheckError::InvalidVariantPattern(l, name, a, b) => {
                TypecheckErrorModel::InvalidVariantPattern(*l, name@, *a, *b)
            },
            TypecheckError::InvalidFormatString(l) => TypecheckErrorModel::InvalidFormatString(*l),
            TypecheckError::TypeAnnotationNeeded(l) => TypecheckErrorModel::TypeAnnotationNeeded(*l),
            TypecheckError::RecursiveType(l) => TypecheckErrorModel::RecursiveType(*l),
            TypecheckError::MissingInstance(c, t, l) => TypecheckErrorModel::MissingInstance(
                c@,
                t@,
                *l,
            ),
            TypecheckError::ConflictingInstances(c, a, b) => {
                TypecheckErrorModel::ConflictingInstances(c@, *a, *b)
            },
            TypecheckError::MainNotFound => TypecheckErrorModel::MainNotFound,
            TypecheckError::InvalidProgram(l) => TypecheckErrorModel::InvalidProgram(*l),
        }
    }
}

/// The models of a list of errors.
pub open spec fn error_models(errors: Seq<TypecheckError>) -> Seq<TypecheckErrorModel> {
    Seq::new(errors.len(), |i: int| errors[i]@)
}

/// Appends an error to a list of errors.
pub fn push_error(errors: &mut Vec<TypecheckError>, error: TypecheckError)
    ensures
        error_models(final(errors)@) == error_models(old(errors)@).push(error@),
{
    errors.push(error);
    assert(error_models(errors@) =~= error_models(old(errors)@).push(error@));
}

} // verus!
