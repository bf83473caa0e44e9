//! The bits `poll` reports.
use vstd::prelude::*;

verus! {

/// There is something to read, or there never will be again.
pub const IN: u16 = 0x001;

/// There is room to write.
pub const OUT: u16 = 0x004;

/// An error condition. Always reported.
pub const ERR: u16 = 0x008;

/// The far end has gone. Always reported.
pub const HUP: u16 = 0x010;

/// The descriptor names nothing. Always reported.
pub const NVAL: u16 = 0x020;

} // verus!
