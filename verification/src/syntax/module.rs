//! The modules of the surface syntax, as far as name resolution files them.

use crate::location_info::LocationId;
use vstd::prelude::*;

verus! {

/// The id of a module.
#[derive(Debug, Clone, Copy, PartialEq, Eq, Structural)]
pub struct ModuleId {
    pub id: usize,
}

/// A module of the source: its id, its name and where it is declared.
#[derive(Debug, Clone)]
pub struct Module {
    pub id: ModuleId,
    pub name: String,
    pub location_id: LocationId,
}

} // verus!
