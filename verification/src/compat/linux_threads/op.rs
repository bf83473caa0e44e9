//! What `futex` may be asked to do.
use vstd::prelude::*;

verus! {

pub const WAIT: u64 = 0;

pub const WAKE: u64 = 1;

/// A wait with a deadline of its own.
pub const WAIT_BITSET: u64 = 9;

pub const WAKE_BITSET: u64 = 10;

/// A bit: the futex is not in shared memory.
pub const PRIVATE: u64 = 128;

/// A bit that changes nothing.
pub const CLOCK_REALTIME: u64 = 256;

} // verus!
