//! Counters for the monitor, which wrap rather than stop.
use vstd::prelude::*;

verus! {

/// A count after `by` more.
pub open spec fn counted(count: u64, by: u64) -> u64 {
    ((count + by) % 0x1_0000_0000_0000_0000) as u64
}

/// A count after `by` more.
pub fn count(before: u64, by: u64) -> (after: u64)
    ensures
        after == counted(before, by),
{
    before.wrapping_add(by)
}

/// A count goes up by what was counted, and past the largest number it starts
/// again from zero.
pub proof fn law_a_count_goes_up(before: u64, by: u64)
    ensures
        before + by <= u64::MAX ==> counted(before, by) == before + by,
        before + by > u64::MAX ==> counted(before, by) == before + by - 0x1_0000_0000_0000_0000,
{
}

} // verus!
