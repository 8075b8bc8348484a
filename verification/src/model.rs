//! The mathematical model of a filter: a sequence of counters and a number of
//! probes per item, with insertion, removal and membership as pure functions.

use crate::counters::clamp;
use crate::hashing::slot_of;
use vstd::prelude::*;

verus! {

/// How many of the first `upto` probes of `item` select position `at` in an
/// array of `size` counters.
pub open spec fn hits_among(item: Seq<u8>, size: nat, upto: nat, at: int) -> nat
    decreases upto,
{
    if upto == 0 {
        0
    } else {
        let earlier = hits_among(item, size, (upto - 1) as nat, at);
        if slot_of(item, (upto - 1) as usize, size as usize) == at {
            earlier + 1
        } else {
            earlier
        }
    }
}

/// What a filter is, seen as a value.
pub struct FilterState {
    /// One counter for each position of the array.
    pub counters: Seq<u32>,
    /// How many positions are derived for each item.
    pub probes: nat,
}

impl FilterState {
    /// The state of a filter with `size` counters, all zero.
    pub open spec fn empty(size: nat, probes: nat) -> FilterState {
        FilterState { counters: Seq::new(size, |j: int| 0u32), probes }
    }

    /// The number of counters.
    pub open spec fn size(self) -> nat {
        self.counters.len()
    }

    /// A state that a filter can be in: it has at least one counter and at
    /// least one probe, and both numbers fit the machine.
    pub open spec fn wf(self) -> bool {
        &&& 0 < self.size() <= usize::MAX
        &&& 0 < self.probes <= usize::MAX
    }

    /// The position that probe number `probe` of `item` selects.
    pub open spec fn slot(self, item: Seq<u8>, probe: int) -> int {
        slot_of(item, probe as usize, self.size() as usize) as int
    }

    /// How many of the probes of `item` select position `at`.
    pub open spec fn hits(self, item: Seq<u8>, at: int) -> nat {
        hits_among(item, self.size(), self.probes, at)
    }

    /// The state after `item` was inserted once: each counter grows by the
    /// number of probes of the item that select it, and stops at `u32::MAX`.
    pub open spec fn added(self, item: Seq<u8>) -> FilterState {
        FilterState {
            counters: Seq::new(
                self.size(),
                |j: int| clamp(self.counters[j] + self.hits(item, j)),
            ),
            probes: self.probes,
        }
    }

    /// The state after `item` was removed once: each counter shrinks by the
    /// number of probes of the item that select it, and stops at zero.
    pub open spec fn removed(self, item: Seq<u8>) -> FilterState {
        FilterState {
            counters: Seq::new(
                self.size(),
                |j: int| clamp(self.counters[j] - self.hits(item, j)),
            ),
            probes: self.probes,
        }
    }

    /// Whether every position that `item` selects holds a counter above zero.
    pub open spec fn might_contain(self, item: Seq<u8>) -> bool {
        forall|probe: int|
            0 <= probe < self.probes ==> self.counters[#[trigger] self.slot(item, probe)] > 0
    }

    /// The state after each of `items` was inserted once, in order.
    pub open spec fn added_all(self, items: Seq<Seq<u8>>) -> FilterState
        decreases items.len(),
    {
        if items.len() == 0 {
            self
        } else {
            self.added_all(items.drop_last()).added(items.last())
        }
    }

    /// The state after `item` was inserted `times` times.
    pub open spec fn added_times(self, item: Seq<u8>, times: nat) -> FilterState
        decreases times,
    {
        if times == 0 {
            self
        } else {
            self.added_times(item, (times - 1) as nat).added(item)
        }
    }

    /// The state after `item` was removed `times` times.
    pub open spec fn removed_times(self, item: Seq<u8>, times: nat) -> FilterState
        decreases times,
    {
        if times == 0 {
            self
        } else {
            self.removed_times(item, (times - 1) as nat).removed(item)
        }
    }
}

} // verus!
