//! What a program counts on when it makes threads and makes them wait, in its own
//! numbers.
use vstd::prelude::*;

#[allow(unused_imports)]
use super::{
    as_expected, at_most, clone_refused, flag, futex_end, op, Model, HEAD_SIZE, MAX_THREADS,
};
#[allow(unused_imports)]
use crate::compat::error::{EINVAL, ENOSYS};

verus! {

/// The bits of the flags of `clone`, the operations on a word that is waited for
/// with the two bits that may be added to them, and how many threads a process has at
/// most.
pub proof fn law_flags_and_operations()
    ensures
        flag::VM == 0x100,
        flag::FILES == 0x400,
        flag::SIGHAND == 0x800,
        flag::THREAD == 0x1_0000,
        flag::SETTLS == 0x8_0000,
        flag::PARENT_SETTID == 0x10_0000,
        flag::CHILD_CLEARTID == 0x20_0000,
        flag::CHILD_SETTID == 0x100_0000,
        op::WAIT == 0,
        op::WAKE == 1,
        op::WAIT_BITSET == 9,
        op::WAKE_BITSET == 10,
        op::PRIVATE == 128,
        op::CLOCK_REALTIME == 256,
        HEAD_SIZE == 24,
        MAX_THREADS == 64,
{
}

/// Only a thread can be made: one that shares the memory, or there is no such call;
/// and one that shares the files and the handlers and has a stack in the program's
/// own half.
pub proof fn law_what_cannot_be_made(flags: u64, stack: u64, user_space_end: u64)
    ensures
        flags & 0x100 == 0 || flags & 0x1_0000 == 0 <==> clone_refused(flags, stack, user_space_end)
            == Some(ENOSYS),
        clone_refused(flags, stack, user_space_end) is None <==> flags & 0x100 != 0 && flags
            & 0x1_0000 != 0 && flags & 0x800 != 0 && flags & 0x400 != 0 && 0 < stack
            < user_space_end,
        clone_refused(flags, stack, user_space_end) matches Some(reason) ==> reason == ENOSYS
            || reason == EINVAL,
{
}

/// A process has one thread until it makes another. One that ends counts no more;
/// other processes do not notice.
pub proof fn law_threads_of_a_process(before: Model, process: u64, other: u64)
    ensures
        !before.counts.dom().contains(process) ==> before.threads(process) == 1,
        ({
            let after = Model { counts: before.one_fewer(process), ..before };
            &&& before.counts.dom().contains(process) && before.threads(process) > 0
                ==> after.threads(process) == before.threads(process) - 1
            &&& before.counts.dom().contains(process) && before.threads(process) == 0
                ==> after.threads(process) == 0
            &&& !before.counts.dom().contains(process) ==> after.threads(process) == 1
            &&& other != process ==> after.threads(other) == before.threads(other)
        }),
{
}

/// A wait with an end ends as many ticks from now as its milliseconds take at the
/// clock's rate, parts left out, and one too long to count at the last tick.
pub proof fn law_when_a_wait_ends(seconds: u64, nanoseconds: u64, rate: u64, ticks: u64)
    ensures
        ({
            let milliseconds = seconds * 1000 + nanoseconds / 1_000_000;
            let end = futex_end(seconds, nanoseconds, rate, ticks);
            &&& milliseconds <= u64::MAX && milliseconds * rate <= u64::MAX && ticks + milliseconds
                * rate <= u64::MAX ==> {
                &&& (end - ticks) * 1000 <= milliseconds * rate
                &&& milliseconds * rate < (end - ticks + 1) * 1000
            }
        }),
        forall|value: int| value > u64::MAX ==> #[trigger] at_most(value) == u64::MAX,
        forall|value: int| 0 <= value <= u64::MAX ==> #[trigger] at_most(value) == value,
{
    let milliseconds = seconds * 1000 + nanoseconds / 1_000_000;
    assert(milliseconds * rate >= 0) by (nonlinear_arith)
        requires
            milliseconds >= 0,
            rate >= 0,
    ;
}

/// A word is compared with the low half of what the program expects there.
pub proof fn law_what_is_expected(current: u32, expected: u64)
    ensures
        as_expected(current, expected) <==> current == expected % 0x1_0000_0000,
        as_expected(current, current as u64),
        expected < 0x1_0000_0000 ==> (as_expected(current, expected) <==> current == expected),
{
}

} // verus!
