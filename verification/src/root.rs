//! Root tables: fixed-length arrays of tagged cells registered with the
//! collector as rewritable roots, and object allocation into a region
//! through a cell of such a table.
//!
//! A root table owns its slots for its whole lifetime; the process edge
//! registers the backing address range with the collector when the table is
//! created and unregisters it before the memory is freed. This module holds
//! the table itself: creation with zeroed slots and bounds-checked access.
//! Out-of-range access is a fatal misconfiguration, not a recoverable error,
//! so it is excluded by precondition rather than reported.

use vstd::prelude::*;

use crate::fmt::{
    spec_byte_len, spec_header_word, spec_wf_header, spec_wf_range, Content, Header, Region,
};
use crate::nanbox::{spec_is_ptr, NanBox};

verus! {

/// Describes one class of heap objects to the allocator: how many fields an
/// instance has and which 16-bit class id its header carries.
pub trait ObjType {
    /// The number of fields of an instance.
    spec fn spec_count(&self) -> usize;

    /// The class id stored in the header.
    spec fn spec_id(&self) -> u16;

    /// The number of fields of an instance.
    fn count(&self) -> (r: usize)
        ensures
            r == self.spec_count(),
    ;

    /// The class id stored in the header.
    fn id(&self) -> (r: u16)
        ensures
            r == self.spec_id(),
    ;
}

/// A dynamically described object class: a class id paired with a field
/// count.
pub struct CljType {
    pub id: u16,
    pub count: u32,
}

impl CljType {
    /// A class descriptor with the given id and field count.
    pub fn new(id: u16, count: u32) -> (r: CljType)
        ensures
            r.id == id,
            r.count == count,
    {
        CljType { id, count }
    }
}

impl ObjType for CljType {
    open spec fn spec_count(&self) -> usize {
        self.count as usize
    }

    open spec fn spec_id(&self) -> u16 {
        self.id
    }

    fn count(&self) -> usize {
        self.count as usize
    }

    fn id(&self) -> u16 {
        self.id
    }
}

/// A fixed-length array of tagged cells, zero-initialized at creation. Its
/// address range is what the process edge registers with the collector, so
/// every slot is a root the collector may rewrite.
pub struct RootTable {
    slots: Vec<NanBox>,
}

impl View for RootTable {
    type V = Seq<u64>;

    closed spec fn view(&self) -> Seq<u64> {
        self.slots@.map_values(|b: NanBox| b@)
    }
}

impl RootTable {
    /// A table of `count` slots, all holding nil.
    pub fn new(count: usize) -> (r: RootTable)
        ensures
            r@.len() == count,
            forall|i: int| 0 <= i < count ==> r@[i] == 0,
    {
        let mut slots: Vec<NanBox> = Vec::new();
        let mut n: usize = 0;
        while n < count
            invariant
                n <= count,
                slots@.len() == n,
                forall|i: int| 0 <= i < n ==> (#[trigger] slots@[i])@ == 0,
            decreases count - n,
        {
            slots.push(NanBox::new());
            n = n + 1;
        }
        let table = RootTable { slots };
        proof {
            assert forall|i: int| 0 <= i < count implies table@[i] == 0 by {
                assert(table@[i] == slots@[i]@);
            }
        }
        table
    }

    /// The number of slots.
    pub fn len(&self) -> (r: usize)
        ensures
            r == self@.len(),
    {
        self.slots.len()
    }

    /// Bounds-checked shared access to one slot.
    pub fn at(&self, index: usize) -> (r: &NanBox)
        requires
            index < self@.len(),
        ensures
            r@ == self@[index as int],
    {
        &self.slots[index]
    }

    /// The raw word held by one slot.
    pub fn read(&self, index: usize) -> (r: u64)
        requires
            index < self@.len(),
        ensures
            r == self@[index as int],
    {
        self.slots[index].bits()
    }

    /// Bounds-checked exclusive access to one slot.
    pub fn at_mut(&mut self, index: usize) -> (r: &mut NanBox)
        requires
            index < old(self)@.len(),
        ensures
            r@ == old(self)@[index as int],
            final(self)@ =~= old(self)@.update(index as int, final(r)@),
    {
        &mut self.slots[index]
    }

    /// Overwrites one slot with a whole cell.
    pub fn put(&mut self, index: usize, cell: NanBox)
        requires
            index < old(self)@.len(),
        ensures
            final(self)@ == old(self)@.update(index as int, cell@),
    {
        self.slots[index] = cell;
        proof {
            assert(final(self)@ =~= old(self)@.update(index as int, cell@));
        }
    }

    /// Stores nil into one slot, removing whatever reference it held from
    /// the collector's view of this root.
    pub fn store_nil_at(&mut self, index: usize)
        requires
            index < old(self)@.len(),
        ensures
            final(self)@ == old(self)@.update(index as int, 0u64),
    {
        let cell = self.at_mut(index);
        cell.store_nil();
    }

    /// Snapshot-copies another live cell into one slot.
    pub fn copy_at(&mut self, index: usize, from: &NanBox)
        requires
            index < old(self)@.len(),
        ensures
            final(self)@ == old(self)@.update(index as int, from@),
    {
        let cell = self.at_mut(index);
        cell.copy_from(from);
    }
}

/// Allocates an object of class `ty` into `region` and stores the new
/// reference into the rooted cell `dst`, so the object is reachable the
/// moment it exists. The record is one header word followed by
/// `ty.count()` nil fields; a reference addresses the first field, eight
/// bytes past the record base, which keeps every reference nonzero and
/// inside the low (tag zero) half of the address range.
pub fn alloc_obj<T: ObjType>(dst: &mut NanBox, region: &mut Region, ty: &T)
    requires
        old(region).wf(),
        ty.spec_count() <= 0x1FFF_FFFE,
        spec_byte_len(old(region)@) + 8 + ty.spec_count() * 8 <= usize::MAX,
        spec_byte_len(old(region)@) + 8 + ty.spec_count() * 8 < 0x1_0000_0000_0000,
    ensures
        final(region).wf(),
        final(region)@.len() == old(region)@.len() + 1 + ty.spec_count(),
        // the new record: an Object header carrying the class id, then nil fields
        spec_wf_header(
            final(region)@,
            spec_byte_len(old(region)@),
            spec_byte_len(final(region)@),
        ),
        final(region)@[old(region)@.len() as int] == spec_header_word(
            Header {
                content: Content::Object,
                class: ty.spec_id(),
                length: (8 + ty.spec_count() * 8) as u32,
            },
        ),
        forall|i: int|
            old(region)@.len() < i < final(region)@.len() ==> final(region)@[i] == 0,
        // everything already in the region is untouched
        forall|i: int| 0 <= i < old(region)@.len() ==> final(region)@[i] == old(region)@[i],
        // the cell now holds the reference: the new record's first-field address
        final(dst)@ == spec_byte_len(old(region)@) + 8,
        spec_is_ptr(final(dst)@),
        // a region that was well formed end to end stays so
        spec_wf_range(old(region)@, 0, spec_byte_len(old(region)@)) ==> spec_wf_range(
            final(region)@,
            0,
            spec_byte_len(final(region)@),
        ),
{
    let count = ty.count();
    let size: u32 = 8 + (count as u32) * 8;
    let addr = region.append_record(Content::Object, ty.id(), size);
    let cell = NanBox::from_ptr_bits(addr);
    *dst = cell;
}

} // verus!
