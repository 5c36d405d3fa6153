//! The scratch table: a bounded per-thread pool of extra rooted slots, and
//! the handle type that owns one slot at a time.
//!
//! A reference obtained mid-computation (a field read, a load from another
//! cell) must stay visible to the collector while user code holds it. The
//! scratch table pairs one root table with a same-length free bitmap; an
//! [`ObjRef`] snapshot-copies a cell into a freshly allocated slot and is
//! the only owner of that slot until it is released. The table is strictly
//! thread-local, so the bitmap needs no cross-thread synchronization;
//! correctness against the collector is inherited because scratch slots are
//! ordinary root-table slots.
//!
//! Exhaustion is a deliberate fixed-capacity tradeoff and a fatal
//! condition, not a recoverable error: allocation requires a free slot, and
//! [`ScratchTable::try_alloc`] reports exhaustion to callers that must
//! check first.

use vstd::prelude::*;

use crate::nanbox::{spec_is_double, spec_is_ptr, spec_transform, NanBox};
use crate::root::RootTable;

verus! {

/// How many slots of a free bitmap are free.
pub open spec fn spec_num_free(s: Seq<bool>) -> nat
    decreases s.len(),
{
    if s.len() == 0 {
        0
    } else {
        (if s[0] {
            1nat
        } else {
            0nat
        }) + spec_num_free(s.drop_first())
    }
}

/// The index of the first free slot of a bitmap, or -1 when every slot is
/// in use.
pub open spec fn spec_first_free(s: Seq<bool>) -> int
    decreases s.len(),
{
    if s.len() == 0 {
        -1
    } else if s[0] {
        0
    } else {
        let r = spec_first_free(s.drop_first());
        if r < 0 {
            -1
        } else {
            r + 1
        }
    }
}

/// Law: a bitmap has a first free slot exactly when its free count is
/// positive, that slot is free, everything before it is in use, and no
/// bitmap frees more slots than it has.
pub proof fn lemma_first_free_properties(s: Seq<bool>)
    ensures
        spec_num_free(s) <= s.len(),
        spec_first_free(s) >= 0 <==> spec_num_free(s) > 0,
        spec_first_free(s) >= 0 ==> spec_first_free(s) < s.len() && s[spec_first_free(s)],
        forall|j: int| 0 <= j < spec_first_free(s) ==> !s[j],
    decreases s.len(),
{
    if s.len() == 0 {
    } else {
        lemma_first_free_properties(s.drop_first());
        assert forall|j: int| 0 <= j < spec_first_free(s) implies !s[j] by {
            if j > 0 {
                assert(s.drop_first()[j - 1] == s[j]);
            }
        }
    }
}

/// Law: the first free slot is the unique free slot with an all-used
/// prefix.
pub proof fn lemma_first_free_unique(s: Seq<bool>, i: int)
    requires
        0 <= i < s.len(),
        s[i],
        forall|j: int| 0 <= j < i ==> !s[j],
    ensures
        spec_first_free(s) == i,
    decreases s.len(),
{
    if i == 0 {
    } else {
        assert(!s[0]);
        assert(forall|j: int| 0 <= j < s.len() - 1 ==> s.drop_first()[j] == s[j + 1]);
        lemma_first_free_unique(s.drop_first(), i - 1);
    }
}

/// Marking one free slot as used lowers the free count by exactly one.
pub proof fn lemma_num_free_take(s: Seq<bool>, i: int)
    requires
        0 <= i < s.len(),
        s[i],
    ensures
        spec_num_free(s.update(i, false)) == spec_num_free(s) - 1,
    decreases s.len(),
{
    if i == 0 {
        assert(s.update(0, false).drop_first() =~= s.drop_first());
    } else {
        assert(s.update(i, false).drop_first() =~= s.drop_first().update(i - 1, false));
        lemma_num_free_take(s.drop_first(), i - 1);
    }
}

/// Marking one used slot as free raises the free count by exactly one.
pub proof fn lemma_num_free_put_back(s: Seq<bool>, i: int)
    requires
        0 <= i < s.len(),
        !s[i],
    ensures
        spec_num_free(s.update(i, true)) == spec_num_free(s) + 1,
    decreases s.len(),
{
    if i == 0 {
        assert(s.update(0, true).drop_first() =~= s.drop_first());
    } else {
        assert(s.update(i, true).drop_first() =~= s.drop_first().update(i - 1, true));
        lemma_num_free_put_back(s.drop_first(), i - 1);
    }
}

/// An all-free bitmap has as many free slots as it has slots.
pub proof fn lemma_num_free_all_free(s: Seq<bool>)
    requires
        forall|i: int| 0 <= i < s.len() ==> s[i],
    ensures
        spec_num_free(s) == s.len(),
    decreases s.len(),
{
    if s.len() == 0 {
    } else {
        assert(forall|j: int| 0 <= j < s.len() - 1 ==> s.drop_first()[j] == s[j + 1]);
        lemma_num_free_all_free(s.drop_first());
    }
}

/// The bitmap after one successful allocation: the first free slot marked
/// used.
pub open spec fn spec_alloc_round(s: Seq<bool>) -> Seq<bool> {
    if spec_first_free(s) >= 0 {
        s.update(spec_first_free(s), false)
    } else {
        s
    }
}

/// The bitmap after `k` successive allocations.
pub open spec fn spec_alloc_rounds(s: Seq<bool>, k: nat) -> Seq<bool>
    decreases k,
{
    if k == 0 {
        s
    } else {
        spec_alloc_rounds(spec_alloc_round(s), (k - 1) as nat)
    }
}

/// Law: scratch capacity. Starting from a bitmap with `f` free slots,
/// every one of the first `f` allocations finds a free slot, and the
/// allocation after those fails for want of one. A fresh table has as many
/// free slots as its capacity ([`ScratchTable::new`]), so allocating up to
/// capacity handles never fails and allocating one more hits the fatal
/// capacity condition that [`ScratchTable::try_alloc`] reports and
/// [`ScratchTable::alloc_slot`] excludes by precondition, with the bitmap
/// left unchanged.
pub proof fn lemma_scratch_capacity(s: Seq<bool>, k: nat)
    requires
        k <= spec_num_free(s),
    ensures
        spec_num_free(spec_alloc_rounds(s, k)) == spec_num_free(s) - k,
        k < spec_num_free(s) ==> spec_first_free(spec_alloc_rounds(s, k)) >= 0,
        k == spec_num_free(s) ==> spec_first_free(spec_alloc_rounds(s, k)) == -1,
    decreases k,
{
    lemma_first_free_properties(s);
    if k == 0 {
        lemma_first_free_properties(spec_alloc_rounds(s, 0));
    } else {
        lemma_num_free_take(s, spec_first_free(s));
        lemma_scratch_capacity(spec_alloc_round(s), (k - 1) as nat);
    }
}

/// Law: scratch reuse. Allocating, freeing the slot just allocated, and
/// allocating again returns the same slot index, because the free gives the
/// bitmap back exactly as it was.
pub proof fn lemma_scratch_reuse(s: Seq<bool>)
    requires
        spec_first_free(s) >= 0,
    ensures
        spec_alloc_round(s).update(spec_first_free(s), true) == s,
        spec_first_free(spec_alloc_round(s).update(spec_first_free(s), true)) == spec_first_free(
            s,
        ),
{
    lemma_first_free_properties(s);
    assert(spec_alloc_round(s).update(spec_first_free(s), true) =~= s);
}

/// A bounded thread-local pool of extra rooted slots: one root table plus a
/// same-length free bitmap.
pub struct ScratchTable {
    table: RootTable,
    free: Vec<bool>,
}

impl ScratchTable {
    /// The slot contents, as raw words.
    pub closed spec fn slots(&self) -> Seq<u64> {
        self.table@
    }

    /// The free bitmap: `true` marks a free slot.
    pub closed spec fn free_map(&self) -> Seq<bool> {
        self.free@
    }

    /// The bitmap covers exactly the slots.
    pub open spec fn wf(&self) -> bool {
        self.slots().len() == self.free_map().len()
    }

    /// A scratch table of `capacity` slots, all free, all nil.
    pub fn new(capacity: usize) -> (r: ScratchTable)
        ensures
            r.wf(),
            r.free_map().len() == capacity,
            forall|i: int| 0 <= i < capacity ==> r.free_map()[i],
            forall|i: int| 0 <= i < capacity ==> r.slots()[i] == 0,
            spec_num_free(r.free_map()) == capacity,
    {
        let table = RootTable::new(capacity);
        let mut free: Vec<bool> = Vec::new();
        let mut n: usize = 0;
        while n < capacity
            invariant
                n <= capacity,
                free@.len() == n,
                forall|i: int| 0 <= i < n ==> free@[i],
            decreases capacity - n,
        {
            free.push(true);
            n = n + 1;
        }
        proof {
            lemma_num_free_all_free(free@);
        }
        ScratchTable { table, free }
    }

    /// The number of slots.
    pub fn capacity(&self) -> (r: usize)
        requires
            self.wf(),
        ensures
            r == self.free_map().len(),
    {
        self.free.len()
    }

    /// Allocates a slot if one is free: the linear search returns the first
    /// free index and marks it used. Returns nothing exactly when the pool
    /// is exhausted.
    pub fn try_alloc(&mut self) -> (r: Option<usize>)
        requires
            old(self).wf(),
        ensures
            final(self).wf(),
            match r {
                Some(i) => {
                    &&& i == spec_first_free(old(self).free_map())
                    &&& i < old(self).free_map().len()
                    &&& old(self).free_map()[i as int]
                    &&& final(self).free_map() == old(self).free_map().update(i as int, false)
                    &&& final(self).slots() == old(self).slots()
                },
                None => {
                    &&& spec_first_free(old(self).free_map()) == -1
                    &&& spec_num_free(old(self).free_map()) == 0
                    &&& *final(self) == *old(self)
                },
            },
    {
        let n = self.free.len();
        let mut index: usize = 0;
        while index < n
            invariant
                self.wf(),
                *self == *old(self),
                n == self.free_map().len(),
                index <= n,
                forall|j: int| 0 <= j < index ==> !self.free_map()[j],
            decreases n - index,
        {
            if self.free[index] {
                proof {
                    lemma_first_free_unique(self.free_map(), index as int);
                }
                self.free[index] = false;
                proof {
                    assert(final(self).free_map() =~= old(self).free_map().update(
                        index as int,
                        false,
                    ));
                }
                return Some(index);
            }
            index = index + 1;
        }
        proof {
            lemma_first_free_properties(self.free_map());
            if spec_first_free(self.free_map()) >= 0 {
                assert(self.free_map()[spec_first_free(self.free_map())]);
                assert(false);
            }
        }
        None
    }

    /// Allocates a slot: the first free index, marked used. Exhaustion is a
    /// fatal capacity misconfiguration and is excluded by precondition;
    /// callers that cannot rule it out use [`Self::try_alloc`].
    pub fn alloc_slot(&mut self) -> (i: usize)
        requires
            old(self).wf(),
            spec_num_free(old(self).free_map()) > 0,
        ensures
            final(self).wf(),
            i == spec_first_free(old(self).free_map()),
            i < old(self).free_map().len(),
            old(self).free_map()[i as int],
            final(self).free_map() == old(self).free_map().update(i as int, false),
            final(self).slots() == old(self).slots(),
            spec_num_free(final(self).free_map()) == spec_num_free(old(self).free_map()) - 1,
    {
        proof {
            lemma_first_free_properties(old(self).free_map());
        }
        let r = self.try_alloc();
        match r {
            Some(i) => {
                proof {
                    lemma_num_free_take(old(self).free_map(), i as int);
                }
                i
            },
            None => {
                proof {
                    assert(false);
                }
                0
            },
        }
    }

    /// Marks a slot free again. The slot's contents are left stale and are
    /// overwritten on the next allocation of that slot. Only the handle
    /// owning the slot may free it, so the slot must currently be in use.
    pub fn free(&mut self, index: usize)
        requires
            old(self).wf(),
            index < old(self).free_map().len(),
            !old(self).free_map()[index as int],
        ensures
            final(self).wf(),
            final(self).free_map() == old(self).free_map().update(index as int, true),
            final(self).slots() == old(self).slots(),
            spec_num_free(final(self).free_map()) == spec_num_free(old(self).free_map()) + 1,
    {
        self.free[index] = true;
        proof {
            assert(final(self).free_map() =~= old(self).free_map().update(index as int, true));
            lemma_num_free_put_back(old(self).free_map(), index as int);
        }
    }

    /// Shared access to one slot's cell.
    pub fn slot(&self, index: usize) -> (r: &NanBox)
        requires
            self.wf(),
            index < self.slots().len(),
        ensures
            r@ == self.slots()[index as int],
    {
        self.table.at(index)
    }

    /// Snapshot-copies a cell into one slot.
    fn write_slot(&mut self, index: usize, from: &NanBox)
        requires
            old(self).wf(),
            index < old(self).slots().len(),
        ensures
            final(self).wf(),
            final(self).slots() == old(self).slots().update(index as int, from@),
            final(self).free_map() == old(self).free_map(),
    {
        self.table.copy_at(index, from);
    }
}

/// A handle owning exactly one scratch slot, which holds a snapshot of the
/// cell it was created from. The slot stays allocated — and its contents
/// rooted — until the handle releases it; a slot has exactly one owning
/// handle at a time.
pub struct ObjRef {
    index: usize,
}

impl ObjRef {
    /// The slot this handle owns.
    pub closed spec fn spec_index(&self) -> int {
        self.index as int
    }

    /// Allocates a scratch slot and snapshot-copies `from` into it. The
    /// returned handle owns that slot.
    pub fn new(scratch: &mut ScratchTable, from: &NanBox) -> (r: ObjRef)
        requires
            old(scratch).wf(),
            spec_num_free(old(scratch).free_map()) > 0,
        ensures
            final(scratch).wf(),
            r.spec_index() == spec_first_free(old(scratch).free_map()),
            0 <= r.spec_index() < old(scratch).free_map().len(),
            final(scratch).free_map().len() == old(scratch).free_map().len(),
            final(scratch).free_map() == old(scratch).free_map().update(r.spec_index(), false),
            final(scratch).slots() == old(scratch).slots().update(r.spec_index(), from@),
            !final(scratch).free_map()[r.spec_index()],
    {
        let index = scratch.alloc_slot();
        scratch.write_slot(index, from);
        ObjRef { index }
    }

    /// The slot index this handle owns.
    pub fn index(&self) -> (r: usize)
        ensures
            r == self.spec_index(),
    {
        self.index
    }

    /// The slot's cell, holding the rooted snapshot.
    pub fn get<'a>(&self, scratch: &'a ScratchTable) -> (r: &'a NanBox)
        requires
            scratch.wf(),
            self.spec_index() < scratch.slots().len(),
        ensures
            r@ == scratch.slots()[self.spec_index()],
    {
        scratch.slot(self.index)
    }

    /// Releases the owned slot back to the bitmap, consuming the handle:
    /// the slot's only release path.
    pub fn release(self, scratch: &mut ScratchTable)
        requires
            old(scratch).wf(),
            self.spec_index() < old(scratch).free_map().len(),
            !old(scratch).free_map()[self.spec_index()],
        ensures
            final(scratch).wf(),
            final(scratch).free_map() == old(scratch).free_map().update(self.spec_index(), true),
            final(scratch).slots() == old(scratch).slots(),
    {
        scratch.free(self.index);
    }
}

/// A dynamically typed value held by a cell: nil, a double carried as its
/// decoded IEEE-754 bit pattern, or an object handle rooted in the scratch
/// table.
pub enum Value {
    Nil,
    Float(u64),
    Obj(ObjRef),
}

impl NanBox {
    /// Stores a value into the cell: nil as the zero word, a double through
    /// the bit transform, an object by snapshot-copying the handle's
    /// rooted slot.
    pub fn store(&mut self, value: &Value, scratch: &ScratchTable)
        requires
            scratch.wf(),
            value matches Value::Float(bits) ==> spec_is_double(spec_transform(*bits)),
            value matches Value::Obj(r) ==> 0 <= r.spec_index() < scratch.slots().len()
                && spec_is_ptr(scratch.slots()[r.spec_index()]),
        ensures
            match value {
                Value::Nil => final(self)@ == 0,
                Value::Float(bits) => final(self)@ == spec_transform(*bits) && spec_is_double(
                    final(self)@,
                ),
                Value::Obj(r) => final(self)@ == scratch.slots()[r.spec_index()] && spec_is_ptr(
                    final(self)@,
                ),
            },
    {
        match value {
            Value::Nil => self.store_nil(),
            Value::Float(bits) => self.store_double_bits(*bits),
            Value::Obj(r) => self.store_ptr(r.get(scratch)),
        }
    }

    /// Loads the cell as a value. A nil cell yields nil and a double cell
    /// its decoded bit pattern; a pointer cell allocates a scratch slot and
    /// returns a handle to the rooted snapshot, never the raw address,
    /// because the underlying object can move. A word outside all three
    /// classifications is heap corruption, a fatal condition excluded by
    /// precondition.
    pub fn load(&self, scratch: &mut ScratchTable) -> (v: Value)
        requires
            old(scratch).wf(),
            self@ == 0 || spec_is_double(self@) || spec_is_ptr(self@),
            spec_is_ptr(self@) ==> spec_num_free(old(scratch).free_map()) > 0,
        ensures
            final(scratch).wf(),
            match v {
                Value::Nil => self@ == 0 && *final(scratch) == *old(scratch),
                Value::Float(bits) => spec_is_double(self@) && bits == spec_transform(self@)
                    && *final(scratch) == *old(scratch),
                Value::Obj(r) => {
                    &&& spec_is_ptr(self@)
                    &&& r.spec_index() == spec_first_free(old(scratch).free_map())
                    &&& 0 <= r.spec_index() < final(scratch).slots().len()
                    &&& final(scratch).slots() == old(scratch).slots().update(
                        r.spec_index(),
                        self@,
                    )
                    &&& final(scratch).free_map() == old(scratch).free_map().update(
                        r.spec_index(),
                        false,
                    )
                    &&& final(scratch).slots()[r.spec_index()] == self@
                },
            },
    {
        if self.is_nil() {
            Value::Nil
        } else if self.is_double() {
            Value::Float(self.load_double_bits())
        } else {
            let r = ObjRef::new(scratch, self);
            proof {
                let i = r.spec_index();
                let m0 = old(scratch).free_map();
                let s0 = old(scratch).slots();
                assert(scratch.free_map() == m0.update(i, false));
                assert(m0.update(i, false).len() == m0.len());
                assert(0 <= i < s0.len());
                assert(scratch.slots() == s0.update(i, self@));
                assert(s0.update(i, self@)[i] == self@);
            }
            Value::Obj(r)
        }
    }
}

} // verus!
