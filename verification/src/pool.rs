//! The manual fixed-unit pool and the typed spans it hands out.
//!
//! The collector's manual pool class deals in fixed-size units; this module
//! models the mutator-side bookkeeping of such a pool — which units are
//! taken, how much space is left — and the slice-like, bounds-checked span
//! a caller receives. Pool exhaustion surfaces as a typed error, never as a
//! fatal condition: callers decide whether to retry, fall back, or abort.

use vstd::prelude::*;

use crate::errors::Error;
use crate::scratch::{
    lemma_first_free_properties, lemma_first_free_unique, lemma_num_free_all_free,
    lemma_num_free_put_back, lemma_num_free_take, spec_first_free, spec_num_free,
};

verus! {

/// The introspection every pool offers: how much memory it occupies and
/// how much of that is currently unallocated.
pub trait Pool {
    /// The pool's bookkeeping is in order.
    spec fn wf(&self) -> bool;

    /// The total size the pool occupies, in bytes.
    spec fn spec_total_size(&self) -> int;

    /// The unallocated part of that size, in bytes.
    spec fn spec_free_size(&self) -> int;

    /// The total size the pool occupies, in bytes.
    fn total_size(&self) -> (r: usize)
        requires
            self.wf(),
        ensures
            r == self.spec_total_size(),
    ;

    /// The unallocated part of that size, in bytes.
    fn free_size(&self) -> (r: usize)
        requires
            self.wf(),
        ensures
            r == self.spec_free_size(),
    ;
}

/// A manual fixed-unit pool: a fixed number of units of one size, a free
/// bitmap over them, and a running count of free units.
pub struct MfsPool {
    unit_size: usize,
    free: Vec<bool>,
    free_units: usize,
}

impl MfsPool {
    /// The byte size every unit shares.
    pub closed spec fn spec_unit_size(&self) -> usize {
        self.unit_size
    }

    /// The free bitmap: `true` marks a free unit.
    pub closed spec fn spec_free_map(&self) -> Seq<bool> {
        self.free@
    }

    /// The running free count matches the bitmap, units have a nonzero
    /// size, and the pool's total byte size is representable.
    pub closed spec fn spec_wf(&self) -> bool {
        &&& self.unit_size > 0
        &&& self.free_units == spec_num_free(self.free@)
        &&& self.free@.len() * self.unit_size <= usize::MAX
    }

    /// A pool of `units` units of `unit_size` bytes each, all free.
    /// A zero unit size is an invalid parameter.
    pub fn new(unit_size: usize, units: usize) -> (r: Result<MfsPool, Error>)
        requires
            units * unit_size <= usize::MAX,
        ensures
            match r {
                Ok(p) => {
                    &&& unit_size > 0
                    &&& p.wf()
                    &&& p.spec_unit_size() == unit_size
                    &&& p.spec_free_map().len() == units
                    &&& forall|i: int| 0 <= i < units ==> p.spec_free_map()[i]
                    &&& p.spec_total_size() == units * unit_size
                    &&& p.spec_free_size() == units * unit_size
                },
                Err(e) => unit_size == 0 && e == Error::InvalidParam,
            },
    {
        if unit_size == 0 {
            return Err(Error::InvalidParam);
        }
        let mut free: Vec<bool> = Vec::new();
        let mut n: usize = 0;
        while n < units
            invariant
                n <= units,
                free@.len() == n,
                forall|i: int| 0 <= i < n ==> free@[i],
            decreases units - n,
        {
            free.push(true);
            n = n + 1;
        }
        proof {
            lemma_num_free_all_free(free@);
        }
        Ok(MfsPool { unit_size, free, free_units: units })
    }

    /// Takes the first free unit, marking it used. Succeeds exactly while a
    /// free unit exists; an exhausted pool reports insufficient memory.
    pub fn alloc_unit(&mut self) -> (r: Result<usize, Error>)
        requires
            old(self).wf(),
        ensures
            final(self).wf(),
            final(self).spec_unit_size() == old(self).spec_unit_size(),
            match r {
                Ok(i) => {
                    &&& i == spec_first_free(old(self).spec_free_map())
                    &&& i < old(self).spec_free_map().len()
                    &&& old(self).spec_free_map()[i as int]
                    &&& final(self).spec_free_map() == old(self).spec_free_map().update(
                        i as int,
                        false,
                    )
                    &&& final(self).spec_free_size() == old(self).spec_free_size() - old(
                        self,
                    ).spec_unit_size()
                },
                Err(e) => {
                    &&& e == Error::InsufficientMemory
                    &&& spec_num_free(old(self).spec_free_map()) == 0
                    &&& *final(self) == *old(self)
                },
            },
    {
        let n = self.free.len();
        let mut index: usize = 0;
        while index < n
            invariant
                self.wf(),
                *self == *old(self),
                n == self.spec_free_map().len(),
                index <= n,
                forall|j: int| 0 <= j < index ==> !self.spec_free_map()[j],
            decreases n - index,
        {
            if self.free[index] {
                proof {
                    lemma_first_free_unique(self.free@, index as int);
                    lemma_num_free_take(self.free@, index as int);
                    assert((self.free_units - 1) * self.unit_size == self.free_units
                        * self.unit_size - self.unit_size) by (nonlinear_arith);
                }
                self.free[index] = false;
                self.free_units = self.free_units - 1;
                proof {
                    assert(final(self).spec_free_map() =~= old(self).spec_free_map().update(
                        index as int,
                        false,
                    ));
                }
                return Ok(index);
            }
            index = index + 1;
        }
        proof {
            lemma_first_free_properties(self.free@);
            if spec_num_free(self.free@) > 0 {
                assert(self.free@[spec_first_free(self.free@)]);
                assert(false);
            }
        }
        Err(Error::InsufficientMemory)
    }

    /// Returns one used unit to the pool.
    pub fn free_unit(&mut self, index: usize)
        requires
            old(self).wf(),
            index < old(self).spec_free_map().len(),
            !old(self).spec_free_map()[index as int],
        ensures
            final(self).wf(),
            final(self).spec_unit_size() == old(self).spec_unit_size(),
            final(self).spec_free_map() == old(self).spec_free_map().update(index as int, true),
            final(self).spec_free_size() == old(self).spec_free_size() + old(
                self,
            ).spec_unit_size(),
    {
        let n = self.free.len();
        proof {
            lemma_num_free_put_back(self.free@, index as int);
            lemma_first_free_properties(self.free@.update(index as int, true));
            assert((self.free_units + 1) * self.unit_size == self.free_units * self.unit_size
                + self.unit_size) by (nonlinear_arith);
            assert(spec_num_free(self.free@.update(index as int, true)) <= self.free@.len());
            assert((spec_num_free(self.free@) + 1) * self.unit_size <= self.free@.len()
                * self.unit_size) by (nonlinear_arith)
                requires
                    spec_num_free(self.free@) + 1 <= self.free@.len(),
                    self.unit_size >= 0,
            ;
        }
        self.free[index] = true;
        self.free_units = self.free_units + 1;
        proof {
            assert(final(self).spec_free_map() =~= old(self).spec_free_map().update(
                index as int,
                true,
            ));
        }
    }

    /// Allocates a typed span of `len` default-initialized words, backed by
    /// one unit of the pool. Succeeds exactly when the span fits one unit
    /// and a free unit exists: a span that does not fit is an invalid
    /// parameter, and with no free unit left the pool reports insufficient
    /// memory.
    pub fn alloc_chunk(&mut self, len: usize) -> (r: Result<Chunk, Error>)
        requires
            old(self).wf(),
        ensures
            final(self).wf(),
            final(self).spec_unit_size() == old(self).spec_unit_size(),
            r is Ok <==> len <= old(self).spec_unit_size() as int / 8 && spec_num_free(
                old(self).spec_free_map(),
            ) > 0,
            match r {
                Ok(c) => {
                    &&& len <= old(self).spec_unit_size() as int / 8
                    &&& c@.len() == len
                    &&& forall|i: int| 0 <= i < len ==> c@[i] == 0
                    &&& c.spec_unit() == spec_first_free(old(self).spec_free_map())
                    &&& c.spec_unit() < old(self).spec_free_map().len()
                    &&& final(self).spec_free_map() == old(self).spec_free_map().update(
                        c.spec_unit() as int,
                        false,
                    )
                    &&& final(self).spec_free_size() == old(self).spec_free_size() - old(
                        self,
                    ).spec_unit_size()
                },
                Err(e) => {
                    &&& *final(self) == *old(self)
                    &&& (e == Error::InvalidParam <==> len > old(self).spec_unit_size() as int
                        / 8)
                    &&& (e == Error::InsufficientMemory <==> len <= old(
                        self,
                    ).spec_unit_size() as int / 8 && spec_num_free(old(self).spec_free_map())
                        == 0)
                },
            },
    {
        if len > self.unit_size / 8 {
            return Err(Error::InvalidParam);
        }
        proof {
            lemma_first_free_properties(old(self).spec_free_map());
        }
        let unit = match self.alloc_unit() {
            Ok(u) => u,
            Err(e) => {
                return Err(e);
            },
        };
        let mut words: Vec<u64> = Vec::new();
        let mut n: usize = 0;
        while n < len
            invariant
                n <= len,
                words@.len() == n,
                forall|i: int| 0 <= i < n ==> words@[i] == 0,
            decreases len - n,
        {
            words.push(0);
            n = n + 1;
        }
        Ok(Chunk { unit, words })
    }

    /// Takes back a span, returning its backing unit to the pool. Only the
    /// span that owns the unit can be released, so the unit must currently
    /// be in use.
    pub fn release_chunk(&mut self, chunk: Chunk)
        requires
            old(self).wf(),
            chunk.spec_unit() < old(self).spec_free_map().len(),
            !old(self).spec_free_map()[chunk.spec_unit() as int],
        ensures
            final(self).wf(),
            final(self).spec_unit_size() == old(self).spec_unit_size(),
            final(self).spec_free_map() == old(self).spec_free_map().update(
                chunk.spec_unit() as int,
                true,
            ),
            final(self).spec_free_size() == old(self).spec_free_size() + old(
                self,
            ).spec_unit_size(),
    {
        self.free_unit(chunk.unit);
    }
}

impl Pool for MfsPool {
    open spec fn wf(&self) -> bool {
        self.spec_wf()
    }

    open spec fn spec_total_size(&self) -> int {
        self.spec_free_map().len() * self.spec_unit_size()
    }

    open spec fn spec_free_size(&self) -> int {
        spec_num_free(self.spec_free_map()) * self.spec_unit_size()
    }

    fn total_size(&self) -> usize {
        self.free.len() * self.unit_size
    }

    fn free_size(&self) -> (r: usize) {
        proof {
            lemma_first_free_properties(self.free@);
            assert(spec_num_free(self.free@) * self.unit_size <= self.free@.len()
                * self.unit_size) by (nonlinear_arith)
                requires
                    spec_num_free(self.free@) <= self.free@.len(),
                    self.unit_size >= 0,
            ;
        }
        self.free_units * self.unit_size
    }
}

/// A manually allocated span of fixed-size, homogeneous memory: `len`
/// default-initialized words with bounds-checked access, owning one pool
/// unit until it is released.
pub struct Chunk {
    unit: usize,
    words: Vec<u64>,
}

impl View for Chunk {
    type V = Seq<u64>;

    closed spec fn view(&self) -> Seq<u64> {
        self.words@
    }
}

impl Chunk {
    /// The pool unit backing this span.
    pub closed spec fn spec_unit(&self) -> usize {
        self.unit
    }

    /// The pool unit backing this span.
    pub fn unit(&self) -> (r: usize)
        ensures
            r == self.spec_unit(),
    {
        self.unit
    }

    /// The number of words of the span.
    pub fn len(&self) -> (r: usize)
        ensures
            r == self@.len(),
    {
        self.words.len()
    }

    /// Bounds-checked read of one word.
    pub fn get(&self, index: usize) -> (r: u64)
        requires
            index < self@.len(),
        ensures
            r == self@[index as int],
    {
        self.words[index]
    }

    /// Bounds-checked write of one word.
    pub fn set(&mut self, index: usize, value: u64)
        requires
            index < old(self)@.len(),
        ensures
            final(self)@ == old(self)@.update(index as int, value),
            final(self).spec_unit() == old(self).spec_unit(),
    {
        self.words[index] = value;
    }
}

} // verus!
