//! What became of something, as an event reports it.
use vstd::prelude::*;

verus! {

pub const SUCCESS: u32 = 1;

/// Less was moved than was asked for, which is ordinary.
pub const SHORT_PACKET: u32 = 13;

} // verus!
