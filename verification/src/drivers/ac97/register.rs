//! The registers of an AC'97 card.
use vstd::prelude::*;

verus! {

/// Of the codec: how quiet the whole output is.
pub const MASTER: u16 = 0x02;

/// Of the codec: how quiet the stream is.
pub const PCM_VOLUME: u16 = 0x18;

/// Of the stream: where the list of descriptors is.
pub const DESCRIPTOR_LIST: u16 = 0x10;

/// Of the stream: which descriptor is being read.
pub const CURRENT: u16 = 0x14;

/// Of the stream: the last descriptor that was filled in.
pub const LAST_VALID: u16 = 0x15;

/// Of the stream: what has happened.
pub const STATUS: u16 = 0x16;

/// Of the stream: how many samples are left in the buffer being read.
pub const REMAINING: u16 = 0x18;

/// Of the stream: run, reset, and what is told.
pub const CONTROL: u16 = 0x1B;

/// Of the controller: what it does.
pub const GLOBAL_CONTROL: u16 = 0x2C;

/// Of the controller: what has happened.
pub const GLOBAL_STATUS: u16 = 0x30;

/// In the control register: reset the stream.
pub const RESET_STREAM: u8 = 0x02;

/// In the control register: run, and tell of the last descriptor and of every
/// one that asks.
pub const RUN: u8 = 0x15;

/// In the status register: everything that a tone leaves, which is cleared by
/// writing it.
pub const FINISHED: u16 = 0x000D;

/// In the status register: halted, or through with the last descriptor.
pub const STOPPED: u16 = 0x0005;

/// In a descriptor: tell when it is done.
pub const INTERRUPT: u16 = 0x8000;

} // verus!
