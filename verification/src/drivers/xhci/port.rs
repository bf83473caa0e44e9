//! The bits of a port's register.
use vstd::prelude::*;

verus! {

/// Something is plugged in.
pub const CONNECTED: u32 = 0x0000_0001;

/// The port is enabled.
pub const ENABLED: u32 = 0x0000_0002;

/// Reset the port.
pub const RESET: u32 = 0x0000_0010;

/// The port has power.
pub const POWER: u32 = 0x0000_0200;

/// Whether something is plugged in has changed.
pub const CONNECT_CHANGE: u32 = 0x0002_0000;

/// A reset is over.
pub const RESET_CHANGE: u32 = 0x0020_0000;

/// The bits that are cleared by writing them.
pub const CHANGES: u32 = 0x007E_0000;

} // verus!
