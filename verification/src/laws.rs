//! What holds of every filter: the laws that relate insertion, removal and
//! membership, proved over the model.

use crate::counters::clamp;
use crate::model::{hits_among, FilterState};
use vstd::prelude::*;

verus! {

/// Every probe selects a position inside the counter array.
pub proof fn lemma_slot_in_range(s: FilterState, item: Seq<u8>, probe: int)
    requires
        s.wf(),
    ensures
        0 <= s.slot(item, probe) < s.size(),
{
}

/// The position that a probe selects is counted at least once.
pub proof fn lemma_probe_is_counted(s: FilterState, item: Seq<u8>, upto: nat, probe: int)
    requires
        s.wf(),
        0 <= probe < upto <= s.probes,
    ensures
        hits_among(item, s.size(), upto, s.slot(item, probe)) >= 1,
    decreases upto,
{
    if probe < upto - 1 {
        lemma_probe_is_counted(s, item, (upto - 1) as nat, probe);
    }
}

/// A position that is counted is selected by one of the probes.
pub proof fn lemma_counted_is_probed(s: FilterState, item: Seq<u8>, upto: nat, at: int) -> (probe:
    int)
    requires
        s.wf(),
        upto <= s.probes,
        hits_among(item, s.size(), upto, at) >= 1,
    ensures
        0 <= probe < upto,
        s.slot(item, probe) == at,
    decreases upto,
{
    if s.slot(item, upto - 1) == at {
        upto - 1
    } else {
        lemma_counted_is_probed(s, item, (upto - 1) as nat, at)
    }
}

/// Insertion and removal keep the size, the number of probes, and with them
/// the validity of a state.
pub proof fn lemma_shape_is_kept(s: FilterState, item: Seq<u8>)
    requires
        s.wf(),
    ensures
        s.added(item).wf(),
        s.added(item).size() == s.size(),
        s.added(item).probes == s.probes,
        s.removed(item).wf(),
        s.removed(item).size() == s.size(),
        s.removed(item).probes == s.probes,
{
}

/// An empty filter reports no item as present.
pub proof fn lemma_empty_contains_nothing(size: nat, probes: nat, item: Seq<u8>)
    requires
        0 < size <= usize::MAX,
        0 < probes <= usize::MAX,
    ensures
        !FilterState::empty(size, probes).might_contain(item),
{
    let s = FilterState::empty(size, probes);
    lemma_slot_in_range(s, item, 0);
    assert(s.counters[s.slot(item, 0)] == 0);
}

/// An item is present right after it was inserted.
pub proof fn lemma_added_item_is_present(s: FilterState, item: Seq<u8>)
    requires
        s.wf(),
    ensures
        s.added(item).might_contain(item),
{
    let t = s.added(item);
    assert forall|probe: int| 0 <= probe < t.probes implies t.counters[#[trigger] t.slot(
        item,
        probe,
    )] > 0 by {
        lemma_slot_in_range(s, item, probe);
        lemma_probe_is_counted(s, item, s.probes, probe);
    }
}

/// Inserting any item keeps every present item present.
pub proof fn lemma_add_keeps_present(s: FilterState, item: Seq<u8>, other: Seq<u8>)
    requires
        s.wf(),
        s.might_contain(item),
    ensures
        s.added(other).might_contain(item),
{
    let t = s.added(other);
    assert forall|probe: int| 0 <= probe < t.probes implies t.counters[#[trigger] t.slot(
        item,
        probe,
    )] > 0 by {
        lemma_slot_in_range(s, item, probe);
        assert(s.counters[s.slot(item, probe)] > 0);
    }
}

/// No false negatives without removal: once an item was inserted, it stays
/// present however many items are inserted after it.
pub proof fn lemma_no_false_negatives(s: FilterState, item: Seq<u8>, later: Seq<Seq<u8>>)
    requires
        s.wf(),
    ensures
        s.added(item).added_all(later).wf(),
        s.added(item).added_all(later).might_contain(item),
    decreases later.len(),
{
    lemma_shape_is_kept(s, item);
    if later.len() == 0 {
        lemma_added_item_is_present(s, item);
    } else {
        lemma_no_false_negatives(s, item, later.drop_last());
        let before = s.added(item).added_all(later.drop_last());
        lemma_shape_is_kept(before, later.last());
        lemma_add_keeps_present(before, item, later.last());
    }
}

/// A query reads the counters at the item's own positions and nothing else:
/// two filters of one shape that agree there give the same answer.
pub proof fn lemma_query_reads_own_slots(a: FilterState, b: FilterState, item: Seq<u8>)
    requires
        a.wf(),
        a.size() == b.size(),
        a.probes == b.probes,
        forall|probe: int|
            0 <= probe < a.probes ==> a.counters[#[trigger] a.slot(item, probe)] == b.counters[a.slot(
                item,
                probe,
            )],
    ensures
        a.might_contain(item) == b.might_contain(item),
{
    if a.might_contain(item) {
        assert forall|probe: int| 0 <= probe < b.probes implies b.counters[#[trigger] b.slot(
            item,
            probe,
        )] > 0 by {
            assert(a.counters[a.slot(item, probe)] > 0);
        }
    }
    if b.might_contain(item) {
        assert forall|probe: int| 0 <= probe < a.probes implies a.counters[#[trigger] a.slot(
            item,
            probe,
        )] > 0 by {
            assert(b.counters[b.slot(item, probe)] > 0);
        }
    }
}

/// Insertion and removal leave alone every counter that no probe of the item
/// selects.
pub proof fn lemma_other_slots_untouched(s: FilterState, item: Seq<u8>, at: int)
    requires
        s.wf(),
        0 <= at < s.size(),
        forall|probe: int| 0 <= probe < s.probes ==> #[trigger] s.slot(item, probe) != at,
    ensures
        s.added(item).counters[at] == s.counters[at],
        s.removed(item).counters[at] == s.counters[at],
{
    if s.hits(item, at) >= 1 {
        let probe = lemma_counted_is_probed(s, item, s.probes, at);
        assert(s.slot(item, probe) == at);
    }
}

/// Saturation: after `times` insertions of one item, a counter holds its old
/// value plus `times` for each probe that selects it, or `u32::MAX` where that
/// sum is larger.
pub proof fn lemma_repeated_add(s: FilterState, item: Seq<u8>, times: nat, at: int)
    requires
        s.wf(),
        0 <= at < s.size(),
    ensures
        s.added_times(item, times).wf(),
        s.added_times(item, times).size() == s.size(),
        s.added_times(item, times).probes == s.probes,
        s.added_times(item, times).counters[at] == clamp(
            s.counters[at] + times * s.hits(item, at),
        ),
    decreases times,
{
    if times > 0 {
        let earlier = (times - 1) as nat;
        lemma_repeated_add(s, item, earlier, at);
        lemma_shape_is_kept(s.added_times(item, earlier), item);
        assert(times * s.hits(item, at) == earlier * s.hits(item, at) + s.hits(item, at))
            by (nonlinear_arith)
            requires
                times == earlier + 1,
        ;
        assert(earlier * s.hits(item, at) >= 0) by (nonlinear_arith);
    }
}

/// A counter that an item selects reads exactly `u32::MAX` once the item was
/// inserted `u32::MAX` times or more, whatever it held before.
pub proof fn lemma_counter_saturates(s: FilterState, item: Seq<u8>, times: nat, probe: int)
    requires
        s.wf(),
        0 <= probe < s.probes,
        times >= u32::MAX,
    ensures
        s.added_times(item, times).counters[s.slot(item, probe)] == u32::MAX,
{
    let at = s.slot(item, probe);
    lemma_slot_in_range(s, item, probe);
    lemma_probe_is_counted(s, item, s.probes, probe);
    lemma_repeated_add(s, item, times, at);
    assert(times * s.hits(item, at) >= times) by (nonlinear_arith)
        requires
            s.hits(item, at) >= 1,
    ;
}

/// Floor at zero: after `times` removals of one item, a counter holds its old
/// value less `times` for each probe that selects it, or zero where that would
/// be negative.
pub proof fn lemma_repeated_remove(s: FilterState, item: Seq<u8>, times: nat, at: int)
    requires
        s.wf(),
        0 <= at < s.size(),
    ensures
        s.removed_times(item, times).wf(),
        s.removed_times(item, times).size() == s.size(),
        s.removed_times(item, times).probes == s.probes,
        s.removed_times(item, times).counters[at] == clamp(
            s.counters[at] - times * s.hits(item, at),
        ),
    decreases times,
{
    if times > 0 {
        let earlier = (times - 1) as nat;
        lemma_repeated_remove(s, item, earlier, at);
        lemma_shape_is_kept(s.removed_times(item, earlier), item);
        assert(times * s.hits(item, at) == earlier * s.hits(item, at) + s.hits(item, at))
            by (nonlinear_arith)
            requires
                times == earlier + 1,
        ;
        assert(earlier * s.hits(item, at) >= 0) by (nonlinear_arith);
    }
}

/// Removing an item whose positions all hold zero changes nothing: a counter
/// goes down to zero once and stays there.
pub proof fn lemma_remove_at_floor(s: FilterState, item: Seq<u8>)
    requires
        s.wf(),
        forall|probe: int|
            0 <= probe < s.probes ==> s.counters[#[trigger] s.slot(item, probe)] == 0,
    ensures
        s.removed(item) == s,
{
    assert forall|at: int| 0 <= at < s.size() implies s.removed(item).counters[at]
        == s.counters[at] by {
        if s.hits(item, at) >= 1 {
            let probe = lemma_counted_is_probed(s, item, s.probes, at);
            assert(s.counters[s.slot(item, probe)] == 0);
        }
    }
    assert(s.removed(item).counters =~= s.counters);
}

/// The order of two insertions does not matter.
pub proof fn lemma_adds_commute(s: FilterState, first: Seq<u8>, second: Seq<u8>)
    requires
        s.wf(),
    ensures
        s.added(first).added(second) == s.added(second).added(first),
{
    assert(s.added(first).added(second).counters =~= s.added(second).added(first).counters);
}

/// Removal undoes insertion wherever the insertion saturated no counter.
pub proof fn lemma_remove_undoes_add(s: FilterState, item: Seq<u8>)
    requires
        s.wf(),
        forall|at: int| 0 <= at < s.size() ==> s.counters[at] + #[trigger] s.hits(item, at) <= u32::MAX,
    ensures
        s.added(item).removed(item) == s,
{
    assert forall|at: int| 0 <= at < s.size() implies s.added(item).removed(item).counters[at]
        == s.counters[at] by {
        assert(s.counters[at] + s.hits(item, at) <= u32::MAX);
    }
    assert(s.added(item).removed(item).counters =~= s.counters);
}

/// Removing one inserted item leaves another inserted item present, in
/// whichever order the two were inserted, as long as no counter saturated.
pub proof fn lemma_remove_keeps_other_item(s: FilterState, gone: Seq<u8>, kept: Seq<u8>)
    requires
        s.wf(),
        forall|at: int|
            0 <= at < s.size() ==> s.added(kept).counters[at] + #[trigger] s.hits(gone, at)
                <= u32::MAX,
    ensures
        s.added(kept).added(gone).removed(gone).might_contain(kept),
        s.added(gone).added(kept).removed(gone).might_contain(kept),
{
    lemma_shape_is_kept(s, kept);
    lemma_adds_commute(s, gone, kept);
    let t = s.added(kept);
    assert forall|at: int| 0 <= at < t.size() implies t.counters[at] + #[trigger] t.hits(gone, at)
        <= u32::MAX by {
        assert(t.hits(gone, at) == s.hits(gone, at));
    }
    lemma_remove_undoes_add(t, gone);
    lemma_added_item_is_present(s, kept);
}

} // verus!
