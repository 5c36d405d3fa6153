//! The clamp: reference-counted pause coordination around collector-visible
//! address stability.
//!
//! A clamp guard is created whenever addresses must not move (inspection,
//! explicit collection) and dropped when that need ends. The guards share one
//! process-wide counter; the collector's "clamp" request must be issued
//! exactly at the 0 to 1 transition of that counter and its "release" request
//! exactly at the 1 to 0 transition. This module holds the verified counter
//! logic; the process edge wraps it in a mutex and performs the two collector
//! requests when told to.

use vstd::prelude::*;

verus! {

/// The process-wide clamp counter: the number of guards currently alive.
pub struct Clamp {
    count: u64,
}

impl Clamp {
    /// The number of guards currently alive.
    pub closed spec fn spec_count(&self) -> u64 {
        self.count
    }

    /// A fresh counter with no guard alive.
    pub fn new() -> (r: Clamp)
        ensures
            r.spec_count() == 0,
    {
        Clamp { count: 0 }
    }

    /// The number of guards currently alive.
    pub fn count(&self) -> (r: u64)
        ensures
            r == self.spec_count(),
    {
        self.count
    }

    /// Records the creation of one guard. Returns whether this was the
    /// 0 to 1 transition, i.e. whether the collector's "clamp" request must
    /// be issued now.
    pub fn acquire(&mut self) -> (first: bool)
        requires
            old(self).spec_count() < u64::MAX,
        ensures
            final(self).spec_count() == old(self).spec_count() + 1,
            first <==> old(self).spec_count() == 0,
    {
        let was = self.count;
        self.count = self.count + 1;
        was == 0
    }

    /// Records the drop of one guard. Returns whether this was the 1 to 0
    /// transition, i.e. whether the collector's "release" request must be
    /// issued now.
    pub fn release(&mut self) -> (last: bool)
        requires
            old(self).spec_count() > 0,
        ensures
            final(self).spec_count() == old(self).spec_count() - 1,
            last <==> final(self).spec_count() == 0,
    {
        self.count = self.count - 1;
        self.count == 0
    }
}

/// The number of guards alive after the first `i` events of a history.
/// An event is `true` for a guard creation and `false` for a guard drop.
pub open spec fn spec_live(events: Seq<bool>, i: int) -> int
    decreases i,
{
    if i <= 0 {
        0
    } else {
        spec_live(events, i - 1) + if events[i - 1] {
            1int
        } else {
            -1int
        }
    }
}

/// How many of the first `i` events issue the collector's "clamp" request:
/// creations that find the counter at zero.
pub open spec fn spec_clamp_calls(events: Seq<bool>, i: int) -> int
    decreases i,
{
    if i <= 0 {
        0
    } else {
        spec_clamp_calls(events, i - 1) + if events[i - 1] && spec_live(events, i - 1) == 0 {
            1int
        } else {
            0int
        }
    }
}

/// How many of the first `i` events issue the collector's "release" request:
/// drops that bring the counter back to zero.
pub open spec fn spec_release_calls(events: Seq<bool>, i: int) -> int
    decreases i,
{
    if i <= 0 {
        0
    } else {
        spec_release_calls(events, i - 1) + if !events[i - 1] && spec_live(events, i - 1) == 1 {
            1int
        } else {
            0int
        }
    }
}

proof fn lemma_clamp_pairing_aux(events: Seq<bool>, i: int)
    requires
        1 <= i <= events.len(),
        spec_live(events, events.len() as int) == 0,
        forall|j: int| 1 <= j < events.len() ==> spec_live(events, j) >= 1,
    ensures
        spec_clamp_calls(events, i) == 1,
        spec_release_calls(events, i) == if spec_live(events, i) == 0 {
            1int
        } else {
            0int
        },
    decreases i,
{
    assert(spec_live(events, i) == spec_live(events, i - 1) + (if events[i - 1] {
        1int
    } else {
        -1int
    }));
    assert(spec_clamp_calls(events, i) == spec_clamp_calls(events, i - 1) + (if events[i - 1]
        && spec_live(events, i - 1) == 0 {
        1int
    } else {
        0int
    }));
    assert(spec_release_calls(events, i) == spec_release_calls(events, i - 1) + (if !events[i - 1]
        && spec_live(events, i - 1) == 1 {
        1int
    } else {
        0int
    }));
    if i == 1 {
        assert(spec_live(events, 0) == 0);
        assert(spec_clamp_calls(events, 0) == 0);
        assert(spec_release_calls(events, 0) == 0);
        if events.len() == 1 {
            assert(spec_live(events, 1) == 0);
            assert(false);
        } else {
            assert(spec_live(events, 1) >= 1);
            assert(events[0]);
        }
    } else {
        lemma_clamp_pairing_aux(events, i - 1);
        assert(spec_live(events, i - 1) >= 1);
        if !events[i - 1] && spec_live(events, i - 1) == 1 {
            assert(spec_live(events, i) == 0);
        } else {
            assert(spec_live(events, i) != 0);
        }
    }
}

/// Law: however many clamp guards a history creates and in whatever order it
/// drops them, as long as their lifetimes overlap (from the first creation
/// to the last drop at least one guard is alive) and every guard created is
/// eventually dropped, exactly one "clamp" request is issued — at the first
/// creation — and exactly one "release" request — at the last drop.
pub proof fn lemma_clamp_pairing(events: Seq<bool>)
    requires
        events.len() >= 1,
        spec_live(events, events.len() as int) == 0,
        forall|j: int| 1 <= j < events.len() ==> spec_live(events, j) >= 1,
    ensures
        spec_clamp_calls(events, events.len() as int) == 1,
        spec_release_calls(events, events.len() as int) == 1,
{
    lemma_clamp_pairing_aux(events, events.len() as int);
}

} // verus!
