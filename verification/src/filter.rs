//! The filter itself: a fixed array of counters and the operations on it.

use crate::counters::{clamp, decrement_at, increment_at};
use crate::hashing::{hash_probe, md5_digest, slot_from_digest, to_le_bytes};
use crate::laws::{lemma_added_item_is_present, lemma_empty_contains_nothing, lemma_shape_is_kept};
use crate::model::{hits_among, FilterState};
use vstd::prelude::*;

verus! {

/// A counting Bloom filter: an approximate set of byte strings that supports
/// removal. A query never misses an item that was inserted and not removed; it
/// may report an item that was never inserted.
pub struct CountingBloomFilter {
    counters: Vec<u32>,
    size: usize,
    num_hash_functions: usize,
}

impl View for CountingBloomFilter {
    type V = FilterState;

    closed spec fn view(&self) -> FilterState {
        FilterState { counters: self.counters@, probes: self.num_hash_functions as nat }
    }
}

impl CountingBloomFilter {
    #[verifier::type_invariant]
    spec fn inv(self) -> bool {
        &&& self.counters.len() == self.size
        &&& self.size > 0
        &&& self.num_hash_functions > 0
    }

    /// A filter with `size` counters, all zero, that derives
    /// `num_hash_functions` positions for each item.
    pub fn new(size: usize, num_hash_functions: usize) -> (filter: Self)
        requires
            size > 0,
            num_hash_functions > 0,
        ensures
            filter@ == FilterState::empty(size as nat, num_hash_functions as nat),
            filter@.wf(),
            forall|item: Seq<u8>| !filter@.might_contain(item),
    {
        let filter = CountingBloomFilter { counters: vec![0; size], size, num_hash_functions };
        assert(filter@.counters =~= FilterState::empty(
            size as nat,
            num_hash_functions as nat,
        ).counters);
        assert forall|item: Seq<u8>| !filter@.might_contain(item) by {
            lemma_empty_contains_nothing(size as nat, num_hash_functions as nat, item);
        }
        filter
    }

    /// The number of counters.
    pub fn size(&self) -> (size: usize)
        ensures
            size == self@.size(),
            size > 0,
    {
        proof {
            use_type_invariant(self);
        }
        self.size
    }

    /// The number of positions derived for each item.
    pub fn num_hash_functions(&self) -> (probes: usize)
        ensures
            probes == self@.probes,
            probes > 0,
    {
        proof {
            use_type_invariant(self);
        }
        self.num_hash_functions
    }

    /// The value of the counter at `index`, or `None` where the array has no
    /// such position.
    pub fn counter(&self, index: usize) -> (count: Option<u32>)
        ensures
            count == if index < self@.size() {
                Some(self@.counters[index as int])
            } else {
                None
            },
    {
        proof {
            use_type_invariant(self);
        }
        if index < self.size {
            Some(self.counters[index])
        } else {
            None
        }
    }

    /// The position in the counter array that probe number `i` of `item`
    /// selects.
    pub fn get_hash(&self, item: &[u8], i: usize) -> (index: usize)
        ensures
            index == self@.slot(item@, i as int),
            index < self@.size(),
            self@.wf(),
    {
        proof {
            use_type_invariant(self);
        }
        let hash = hash_probe(item, i);
        let bytes = to_le_bytes(hash);
        let digest = md5_digest(bytes.as_slice());
        slot_from_digest(&digest, self.size)
    }

    /// Inserts `item`: each of its positions is incremented once, and a
    /// counter that has reached `u32::MAX` stays there.
    pub fn add(&mut self, item: &[u8])
        ensures
            final(self)@ == old(self)@.added(item@),
            final(self)@.wf(),
            final(self)@.might_contain(item@),
    {
        proof {
            use_type_invariant(&*self);
        }
        let ghost before = self@;
        let probes = self.num_hash_functions;
        for i in 0..probes
            invariant
                self.inv(),
                self@.probes == before.probes == probes,
                self@.size() == before.size(),
                forall|j: int|
                    0 <= j < before.size() ==> #[trigger] self@.counters[j] == clamp(
                        before.counters[j] + hits_among(item@, before.size(), i as nat, j),
                    ),
        {
            let index = self.get_hash(item, i);
            increment_at(&mut self.counters, index);
        }
        assert(self@.counters =~= before.added(item@).counters);
        proof {
            lemma_shape_is_kept(before, item@);
            lemma_added_item_is_present(before, item@);
        }
    }

    /// Removes `item`: each of its positions is decremented once, and a
    /// counter that has reached zero stays there.
    pub fn remove(&mut self, item: &[u8])
        ensures
            final(self)@ == old(self)@.removed(item@),
            final(self)@.wf(),
    {
        proof {
            use_type_invariant(&*self);
        }
        let ghost before = self@;
        let probes = self.num_hash_functions;
        for i in 0..probes
            invariant
                self.inv(),
                self@.probes == before.probes == probes,
                self@.size() == before.size(),
                forall|j: int|
                    0 <= j < before.size() ==> #[trigger] self@.counters[j] == clamp(
                        before.counters[j] - hits_among(item@, before.size(), i as nat, j),
                    ),
        {
            let index = self.get_hash(item, i);
            decrement_at(&mut self.counters, index);
        }
        assert(self@.counters =~= before.removed(item@).counters);
        proof {
            lemma_shape_is_kept(before, item@);
        }
    }

    /// Whether `item` may have been inserted: true exactly when every
    /// position that the item selects holds a counter above zero.
    pub fn might_contain(&self, item: &[u8]) -> (present: bool)
        ensures
            present == self@.might_contain(item@),
            self@.wf(),
    {
        proof {
            use_type_invariant(self);
        }
        for i in 0..self.num_hash_functions
            invariant
                forall|probe: int|
                    0 <= probe < i ==> self@.counters[#[trigger] self@.slot(item@, probe)] > 0,
        {
            let index = self.get_hash(item, i);
            if self.counters[index] == 0 {
                return false;
            }
        }
        true
    }
}

} // verus!
