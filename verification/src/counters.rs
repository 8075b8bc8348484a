//! Single-counter updates: increments that stop at the largest value a
//! counter can hold, and decrements that stop at zero.

use vstd::prelude::*;

verus! {

/// The counter value nearest to `n`: `n` itself where it fits, else the bound
/// of the counter range that `n` lies beyond.
pub open spec fn clamp(n: int) -> u32 {
    if n <= 0 {
        0
    } else if n >= u32::MAX {
        u32::MAX
    } else {
        n as u32
    }
}

/// Adds one to the counter at `index` unless it already holds `u32::MAX`.
pub fn increment_at(counters: &mut Vec<u32>, index: usize)
    requires
        index < old(counters).len(),
    ensures
        final(counters)@ == old(counters)@.update(
            index as int,
            clamp(old(counters)@[index as int] + 1),
        ),
    no_unwind
{
    let count = counters[index];
    if count < u32::MAX {
        counters[index] = count + 1;
    }
    assert(counters@ =~= old(counters)@.update(index as int, clamp(count + 1)));
}

/// Takes one from the counter at `index` unless it already holds zero.
pub fn decrement_at(counters: &mut Vec<u32>, index: usize)
    requires
        index < old(counters).len(),
    ensures
        final(counters)@ == old(counters)@.update(
            index as int,
            clamp(old(counters)@[index as int] - 1),
        ),
    no_unwind
{
    let count = counters[index];
    if count > 0 {
        counters[index] = count - 1;
    }
    assert(counters@ =~= old(counters)@.update(index as int, clamp(count - 1)));
}

} // verus!
