//! The commands a disk understands.
use vstd::prelude::*;

verus! {

pub const TEST_UNIT_READY: u8 = 0x00;

pub const REQUEST_SENSE: u8 = 0x03;

pub const INQUIRY: u8 = 0x12;

pub const READ_CAPACITY_10: u8 = 0x25;

pub const READ_10: u8 = 0x28;

pub const WRITE_10: u8 = 0x2A;

} // verus!
