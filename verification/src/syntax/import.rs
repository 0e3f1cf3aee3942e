//! The imports of a module.

use crate::location_info::LocationId;
use vstd::prelude::*;

verus! {

/// The id of an import.
#[derive(Debug, Clone, Copy, PartialEq, Eq, Structural)]
pub struct ImportId {
    pub id: usize,
}

/// A member of an imported group: one by name, or all of them.
#[derive(Debug, Clone)]
pub enum ImportedMember {
    Specific(String),
    All,
}

/// An imported type with the members that come with it.
#[derive(Debug, Clone)]
pub struct ImportedGroup {
    pub name: String,
    pub members: Vec<ImportedMember>,
}

/// An item of an import list.
#[derive(Debug, Clone)]
pub enum ImportedItem {
    NamedItem(String),
    Group(ImportedGroup),
}

/// An item that an import hides.
#[derive(Debug, Clone)]
pub struct HiddenItem {
    pub name: String,
}

/// What an import list names: everything, or the items listed.
#[derive(Debug, Clone)]
pub enum ImportList {
    ImplicitAll,
    Explicit(Vec<ImportedItem>),
}

/// What an import brings: everything but the hidden items, or a list,
/// possibly under another module name.
#[derive(Debug, Clone)]
pub enum ImportKind {
    Hiding(Vec<HiddenItem>),
    ImportList { items: ImportList, alternative_name: Option<String> },
}

/// An import. One that the compiler adds by itself has no location.
#[derive(Debug, Clone)]
pub struct Import {
    pub id: ImportId,
    pub path: String,
    pub kind: ImportKind,
    pub location_id: Option<LocationId>,
}

impl Import {
    /// The location of an import that the source holds.
    pub fn get_location(&self) -> (r: LocationId)
        requires
            self.location_id.is_some(),
        ensures
            Some(r) == self.location_id,
    {
        match self.location_id {
            Some(location_id) => location_id,
            None => vstd::pervasive::unreached(),
        }
    }
}

} // verus!
