//! The kinds of entry that are written or read.
use vstd::prelude::*;

verus! {

/// Data, on a transfer ring.
pub const NORMAL: u32 = 1;

pub const SETUP: u32 = 2;

pub const DATA: u32 = 3;

pub const STATUS: u32 = 4;

/// The link back to the start of a ring.
pub const LINK: u32 = 6;

pub const ENABLE_SLOT: u32 = 9;

pub const ADDRESS_DEVICE: u32 = 11;

pub const CONFIGURE_ENDPOINT: u32 = 12;

pub const TRANSFER_EVENT: u32 = 32;

pub const COMMAND_COMPLETE: u32 = 33;

pub const PORT_STATUS_CHANGE: u32 = 34;

} // verus!
