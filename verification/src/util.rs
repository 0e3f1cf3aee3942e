//! Monotonic counters and stable-id containers.

use vstd::prelude::*;

verus! {

/// A monotonic source of dense indices: `next` hands out 0, 1, 2, ...
#[derive(Debug, Clone)]
pub struct Counter {
    value: usize,
}

impl Counter {
    /// The number of indices handed out so far, which is also the next index.
    pub closed spec fn issued(&self) -> nat {
        self.value as nat
    }

    pub fn new() -> (c: Counter)
        ensures
            c.issued() == 0,
    {
        Counter { value: 0 }
    }

    /// Hands out the next index. The counter stays put, and returns `None`,
    /// once every `usize` below `usize::MAX` has been handed out.
    pub fn next(&mut self) -> (r: Option<usize>)
        ensures
            old(self).issued() < usize::MAX ==> r == Some(old(self).issued() as usize)
                && final(self).issued() == old(self).issued() + 1,
            old(self).issued() >= usize::MAX ==> r.is_none() && final(self).issued() == old(
                self,
            ).issued(),
    {
        if self.value < usize::MAX {
            let v: usize = self.value;
            self.value = v + 1;
            Some(v)
        } else {
            None
        }
    }

    /// A counter that has handed out as many indices as this one.
    pub fn copy(&self) -> (c: Counter)
        ensures
            c.issued() == self.issued(),
    {
        Counter { value: self.value }
    }

    /// The index that the next call of `next` hands out.
    pub fn peek(&self) -> (r: usize)
        ensures
            r == self.issued(),
    {
        self.value
    }
}

/// A table keyed by dense ids. An id is allocated first (`get_id`) and filled
/// later (`add_item`); iteration order is id order.
#[derive(Debug, Clone)]
pub struct ItemContainer<T> {
    pub items: Vec<Option<T>>,
}

impl<T> ItemContainer<T> {
    /// The number of ids allocated so far.
    pub open spec fn allocated(&self) -> nat {
        self.items@.len()
    }

    /// Whether `id` has been allocated and filled.
    pub open spec fn contains(&self, id: usize) -> bool {
        id < self.items@.len() && self.items@[id as int].is_some()
    }

    /// The item stored under `id`.
    pub open spec fn item(&self, id: usize) -> T
        recommends
            self.contains(id),
    {
        self.items@[id as int].unwrap()
    }

    pub fn new() -> (c: ItemContainer<T>)
        ensures
            c.allocated() == 0,
    {
        ItemContainer { items: Vec::new() }
    }

    /// Allocates the next id; the slot stays empty until `add_item` fills it.
    pub fn get_id(&mut self) -> (id: usize)
        ensures
            id == old(self).allocated(),
            final(self).items@ == old(self).items@.push(None),
    {
        let id: usize = self.items.len();
        self.items.push(None);
        id
    }

    /// Stores `item` under an allocated id, replacing what was there.
    pub fn add_item(&mut self, id: usize, item: T)
        requires
            id < old(self).allocated(),
        ensures
            final(self).items@ == old(self).items@.update(id as int, Some(item)),
    {
        self.items.set(id, Some(item));
    }

    /// The item under `id`, if the id was allocated and filled.
    pub fn get(&self, id: usize) -> (r: Option<&T>)
        ensures
            self.contains(id) ==> r == Some(&self.item(id)),
            !self.contains(id) ==> r.is_none(),
    {
        if id < self.items.len() {
            self.items[id].as_ref()
        } else {
            None
        }
    }

    pub fn len(&self) -> (n: usize)
        ensures
            n == self.allocated(),
    {
        self.items.len()
    }

    /// Stores `item` under `id`, allocating the ids up to it where they
    /// are not allocated yet.
    pub fn insert(&mut self, id: usize, item: T)
        requires
            id < usize::MAX,
        ensures
            final(self).items@ == table_insert(old(self).items@, id, item),
    {
        while self.items.len() < id
            invariant
                old(self).items@.len() <= self.items@.len(),
                self.items@.len() <= id || self.items@.len() == old(self).items@.len(),
                self.items@ =~= old(self).items@ + Seq::new(
                    (self.items@.len() - old(self).items@.len()) as nat,
                    |i: int| None::<T>,
                ),
            decreases id - self.items.len(),
        {
            self.items.push(None);
        }
        if id < self.items.len() {
            self.items.set(id, Some(item));
            assert(self.items@ =~= table_insert(old(self).items@, id, item));
        } else {
            self.items.push(Some(item));
            assert(self.items@ =~= table_insert(old(self).items@, id, item));
        }
    }
}

/// `table`, made long enough to hold `id`, with `id` bound to `entry`.
pub open spec fn table_insert<T>(table: Seq<Option<T>>, id: usize, entry: T) -> Seq<Option<T>> {
    if id < table.len() {
        table.update(id as int, Some(entry))
    } else {
        (table + Seq::new((id - table.len()) as nat, |i: int| None::<T>)).push(Some(entry))
    }
}

/// What `table` holds under `id`.
pub open spec fn table_get<T>(table: Seq<Option<T>>, id: usize) -> Option<T> {
    if id < table.len() {
        table[id as int]
    } else {
        None
    }
}

/// Whether two string slices hold the same characters. This is the `==` of
/// `str` in the standard library, which compares the contents; the contract
/// rests on that and is not proved here.
#[verifier::external_body]
pub(crate) fn str_equal(a: &str, b: &str) -> (r: bool)
    ensures
        r == (a@ == b@),
{
    a == b
}

} // verus!
