//! A handle table: a free-list over a fixed vector of slots, handing out
//! small stable indices (handles) for rooted addresses.
//!
//! Each slot holds either the index of the next free slot or a stored
//! value, as a tagged sum; the head of the free chain is kept beside the
//! vector. Allocation pops the chain head, freeing pushes a slot back onto
//! it. A full table is a fatal capacity condition, excluded by
//! precondition.

use vstd::prelude::*;

verus! {

/// Number of slots a freshly built handle table offers, plus one for the
/// "table full" sentinel.
pub const HANDLE_TABLE_SIZE: u64 = 5;

/// A stable index naming one allocated slot of a handle table.
#[derive(Debug)]
pub struct Handle {
    index: u64,
}

impl Handle {
    /// The slot this handle names.
    pub closed spec fn spec_index(&self) -> u64 {
        self.index
    }

    /// The slot this handle names.
    pub fn index(&self) -> (r: u64)
        ensures
            r == self.spec_index(),
    {
        self.index
    }
}

/// One slot of a handle table: a link in the free chain or a stored value.
#[derive(Debug)]
pub enum FreeItem<T> {
    Next(u64),
    Content(T),
}

/// The interface of a table that roots items and hands out handles for
/// them.
pub trait RootList<T> {
    /// Whether a further handle can be allocated.
    spec fn spec_can_alloc(&self) -> bool;

    /// Whether `handle` names a slot of this table.
    spec fn spec_valid_handle(&self, handle: Handle) -> bool;

    /// Stores `item` and returns a handle naming its slot.
    fn alloc_handle(&mut self, item: T) -> (h: Handle)
        requires
            old(self).spec_can_alloc(),
    ;

    /// Returns the slot named by `handle` to the free chain.
    fn free_handle(&mut self, handle: Handle)
        requires
            old(self).spec_valid_handle(handle),
    ;
}

/// A handle table over rooted addresses, kept as plain words: a vector of
/// slots plus the index of the first open slot. An open-slot index equal to
/// the vector length means the table is full.
pub struct FreeRootItemList {
    open_slot: u64,
    freelist: Vec<FreeItem<u64>>,
}

impl FreeRootItemList {
    /// The index of the first open slot, or the length when full.
    pub closed spec fn spec_open_slot(&self) -> u64 {
        self.open_slot
    }

    /// The slots.
    pub closed spec fn spec_items(&self) -> Seq<FreeItem<u64>> {
        self.freelist@
    }

    /// The open-slot index never points past the table, and every free
    /// link stays inside it too, so following the chain keeps landing on
    /// real slots.
    pub open spec fn wf(&self) -> bool {
        &&& self.spec_open_slot() <= self.spec_items().len()
        &&& forall|i: int|
            0 <= i < self.spec_items().len() ==> ((#[trigger] self.spec_items()[i]) matches
            FreeItem::Next(n) ==> n <= self.spec_items().len())
    }

    /// The index of the first open slot, or the length when full.
    pub fn open_slot(&self) -> (r: u64)
        ensures
            r == self.spec_open_slot(),
    {
        self.open_slot
    }

    /// The number of slots.
    pub fn len(&self) -> (r: usize)
        ensures
            r == self.spec_items().len(),
    {
        self.freelist.len()
    }

    /// The value stored in a slot, if that slot currently stores one.
    pub fn content_at(&self, index: usize) -> (r: Option<u64>)
        requires
            index < self.spec_items().len(),
        ensures
            match r {
                Some(v) => self.spec_items()[index as int] == FreeItem::Content(v),
                None => self.spec_items()[index as int] matches FreeItem::Next(_),
            },
    {
        match &self.freelist[index] {
            FreeItem::Content(v) => Some(*v),
            FreeItem::Next(_) => None,
        }
    }

    /// Stores `item` into the first open slot and returns its handle; the
    /// slot's old free link becomes the new open slot. A full table is a
    /// fatal condition, excluded by precondition, as is an open slot that
    /// does not lie on the free chain.
    pub fn alloc_handle(&mut self, item: u64) -> (h: Handle)
        requires
            old(self).wf(),
            old(self).spec_open_slot() < old(self).spec_items().len(),
            old(self).spec_items()[old(self).spec_open_slot() as int] matches FreeItem::Next(_),
        ensures
            final(self).wf(),
            h.spec_index() == old(self).spec_open_slot(),
            final(self).spec_items() == old(self).spec_items().update(
                old(self).spec_open_slot() as int,
                FreeItem::Content(item),
            ),
            old(self).spec_items()[old(self).spec_open_slot() as int] matches FreeItem::Next(n)
                && final(self).spec_open_slot() == n,
    {
        let n = self.freelist.len();
        proof {
            assert(self.open_slot < n);
        }
        let idx = self.open_slot as usize;
        let next: u64 = match &self.freelist[idx] {
            FreeItem::Next(n) => *n,
            FreeItem::Content(_) => {
                proof {
                    assert(false);
                }
                0
            },
        };
        self.freelist[idx] = FreeItem::Content(item);
        let h = Handle { index: self.open_slot };
        self.open_slot = next;
        h
    }

    /// Returns the slot named by `handle` to the free chain: the slot now
    /// links to the old open slot, and the handle's index becomes the new
    /// open slot.
    pub fn free_handle(&mut self, handle: Handle)
        requires
            old(self).wf(),
            handle.spec_index() < old(self).spec_items().len(),
        ensures
            final(self).wf(),
            final(self).spec_items() == old(self).spec_items().update(
                handle.spec_index() as int,
                FreeItem::Next(old(self).spec_open_slot()),
            ),
            final(self).spec_open_slot() == handle.spec_index(),
    {
        let n = self.freelist.len();
        proof {
            assert(handle.index < n);
        }
        let idx = handle.index as usize;
        self.freelist[idx] = FreeItem::Next(self.open_slot);
        self.open_slot = handle.index;
    }
}

impl RootList<u64> for FreeRootItemList {
    open spec fn spec_can_alloc(&self) -> bool {
        &&& self.wf()
        &&& self.spec_open_slot() < self.spec_items().len()
        &&& self.spec_items()[self.spec_open_slot() as int] matches FreeItem::Next(_)
    }

    open spec fn spec_valid_handle(&self, handle: Handle) -> bool {
        self.wf() && handle.spec_index() < self.spec_items().len()
    }

    fn alloc_handle(&mut self, item: u64) -> Handle {
        FreeRootItemList::alloc_handle(self, item)
    }

    fn free_handle(&mut self, handle: Handle) {
        FreeRootItemList::free_handle(self, handle)
    }
}

/// Builds the initial handle table: every slot open, each linking to the
/// next, the last linking to the full sentinel, and slot zero as the open
/// slot.
pub fn build_handle_table() -> (r: FreeRootItemList)
    ensures
        r.wf(),
        r.spec_open_slot() == 0,
        r.spec_items().len() == HANDLE_TABLE_SIZE - 1,
        forall|i: int|
            0 <= i < r.spec_items().len() ==> r.spec_items()[i] == FreeItem::<u64>::Next(
                (i + 1) as u64,
            ),
{
    let mut freelist: Vec<FreeItem<u64>> = Vec::new();
    let mut x: u64 = 1;
    while x < HANDLE_TABLE_SIZE
        invariant
            1 <= x <= HANDLE_TABLE_SIZE,
            freelist@.len() == x - 1,
            forall|i: int|
                0 <= i < freelist@.len() ==> freelist@[i] == FreeItem::<u64>::Next((i + 1) as u64),
        decreases HANDLE_TABLE_SIZE - x,
    {
        freelist.push(FreeItem::Next(x));
        x = x + 1;
    }
    FreeRootItemList { open_slot: 0, freelist }
}

} // verus!
