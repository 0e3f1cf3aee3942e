//! Handles into the location table that upstream parsing fills.

use vstd::prelude::*;

verus! {

/// An opaque handle into the location table.
#[derive(Debug, Clone, Copy, PartialEq, Eq, PartialOrd, Ord, Structural)]
pub struct LocationId {
    pub id: usize,
}

/// An item together with the place it came from.
#[derive(Debug, Clone)]
pub struct ItemInfo<T> {
    pub item: T,
    pub location_id: LocationId,
}

impl<T> ItemInfo<T> {
    pub fn new(item: T, location_id: LocationId) -> (r: ItemInfo<T>)
        ensures
            r.item == item,
            r.location_id == location_id,
    {
        ItemInfo { item, location_id }
    }
}

} // verus!
