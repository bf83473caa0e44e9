//! How far a driver has got with a device: written in this order.
use vstd::prelude::*;

verus! {

/// The driver has noticed the device.
pub const ACKNOWLEDGE: u8 = 1;

/// The driver knows how to drive it.
pub const DRIVER: u8 = 2;

/// The driver is ready, and the device may start.
pub const DRIVER_OK: u8 = 4;

/// What the driver agreed to is settled.
pub const FEATURES_OK: u8 = 8;

/// The driver has given up.
pub const FAILED: u8 = 0x80;

} // verus!
