//! The requests the window's device answers.
use vstd::prelude::*;

verus! {

/// Ask how large the surface is.
pub const INFO: u64 = 0x4E58_0001;

/// Put a rectangle of it on screen, and wait until it is there.
pub const PRESENT: u64 = 0x4E58_0002;

/// Take the next thing that happened, if anything has.
pub const EVENT: u64 = 0x4E58_0003;

} // verus!
