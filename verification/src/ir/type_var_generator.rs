//! The source of fresh type variable indices.

use crate::util::Counter;
use vstd::prelude::*;

verus! {

#[derive(Debug, Clone)]
pub struct TypeVarGenerator {
    counter: Counter,
}

impl TypeVarGenerator {
    /// The index that the next fresh variable gets; every index handed out so
    /// far is below it.
    pub closed spec fn next_index(&self) -> nat {
        self.counter.issued()
    }

    pub fn new() -> (g: TypeVarGenerator)
        ensures
            g.next_index() == 0,
    {
        TypeVarGenerator { counter: Counter::new() }
    }

    /// A fresh variable index, or `None` once the indices are used up.
    pub fn get_new_index(&mut self) -> (r: Option<usize>)
        ensures
            old(self).next_index() < usize::MAX ==> r == Some(old(self).next_index() as usize)
                && final(self).next_index() == old(self).next_index() + 1,
            old(self).next_index() >= usize::MAX ==> r.is_none() && final(self).next_index()
                == old(self).next_index(),
    {
        self.counter.next()
    }

    /// A deep copy, which hands out the same indices from here on.
    pub fn copy(&self) -> (g: TypeVarGenerator)
        ensures
            g.next_index() == self.next_index(),
    {
        TypeVarGenerator { counter: self.counter.copy() }
    }

    /// The index that the next fresh variable gets.
    pub fn peek(&self) -> (r: usize)
        ensures
            r == self.next_index(),
    {
        self.counter.peek()
    }
}

} // verus!
