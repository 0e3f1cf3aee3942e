//! The errors of name resolution.

use crate::location_info::LocationId;
use vstd::prelude::*;

verus! {

/// Two items of one module under one name.
#[derive(Debug)]
pub enum InternalModuleConflict {
    ItemConflict(String, Vec<LocationId>),
}

/// An error of name resolution. A table from names is a list of pairs, each
/// name once, in the order in which the names were met.
#[derive(Debug)]
pub enum ResolverError {
    ModuleConflict(Vec<(String, Vec<LocationId>)>),
    InternalModuleConflicts(Vec<(String, Vec<InternalModuleConflict>)>),
    ImportedModuleNotFound(String, LocationId),
    ImportedSymbolNotExportedByModule(String, String, LocationId),
    UnknownTypeName(String, LocationId),
    TypeArgumentConflict(Vec<String>, LocationId),
    ArgumentConflict(Vec<String>, LocationId),
    LambdaArgumentConflict(Vec<String>, LocationId),
    UnknownFunction(String, LocationId),
    AmbiguousName(String, LocationId),
    FunctionTypeNameMismatch(String, String, LocationId),
    UnusedTypeArgument(Vec<String>, LocationId),
    RecordTypeNameMismatch(String, String, LocationId),
    RecordFieldNotUnique(String, String, LocationId),
    VariantNotUnique(String, String, LocationId),
    ExportedEntityDoesNotExist(String, String, LocationId),
    IncorrectNameInExportedTypeConstructor(String, String, LocationId),
    ExportedRecordFieldDoesNotExist(String, String, LocationId),
    ExportedAdtVariantDoesNotExist(String, String, LocationId),
    ExplicitlyImportedItemHidden(String, String, LocationId),
    ExplicitlyImportedRecordFieldHidden(String, String, LocationId),
    ExplicitlyImportedTypeHidden(String, String, LocationId),
    IncorrectNameInImportedTypeConstructor(String, String, LocationId),
    ImportedRecordFieldNotExported(String, String, LocationId),
    ExplicitlyImportedAdtVariantdHidden(String, String, LocationId),
    ImportedAdtVariantNotExported(String, String, LocationId),
    /// An instance implements what its class does not declare: the name,
    /// the class, the place of the implementation.
    NotAClassMember(String, String, LocationId),
    /// An instance implements a member twice: the name and the place of
    /// the later implementation.
    ClassMemberImplementedMultipleTimes(String, LocationId),
    /// An instance lacks a member that has no default implementation: the
    /// name, the class, the place of the instance.
    MissingClassMemberInInstance(String, String, LocationId),
}

/// What an error says of the members of an instance; `Other` for the
/// errors that say nothing of them.
pub ghost enum MemberErrorModel {
    NotAClassMember(Seq<char>, Seq<char>, LocationId),
    ImplementedMultipleTimes(Seq<char>, LocationId),
    Missing(Seq<char>, Seq<char>, LocationId),
    Other,
}

impl ResolverError {
    /// What the error says of the members of an instance.
    pub open spec fn member_error(&self) -> MemberErrorModel {
        match self {
            ResolverError::NotAClassMember(name, class, place) => MemberErrorModel::NotAClassMember(
                name@,
                class@,
                *place,
            ),
            ResolverError::ClassMemberImplementedMultipleTimes(name, place) => {
                MemberErrorModel::ImplementedMultipleTimes(name@, *place)
            },
            ResolverError::MissingClassMemberInInstance(name, class, place) => {
                MemberErrorModel::Missing(name@, class@, *place)
            },
            _ => MemberErrorModel::Other,
        }
    }
}

/// What each of a list of errors says of the members of an instance.
pub open spec fn member_errors(errors: Seq<ResolverError>) -> Seq<MemberErrorModel> {
    Seq::new(errors.len(), |i: int| errors[i].member_error())
}

} // verus!
