//! The bits `epoll` reports, and what it can be told.
use vstd::prelude::*;

verus! {

pub const IN: u32 = 0x001;

pub const OUT: u32 = 0x004;

pub const ERR: u32 = 0x008;

pub const HUP: u32 = 0x010;

/// Report changes rather than states. Refused.
pub const ET: u32 = 0x8000_0000;

pub const CTL_ADD: u64 = 1;

pub const CTL_DEL: u64 = 2;

pub const CTL_MOD: u64 = 3;

} // verus!
