//! Registers, as offsets from the first port of a device.
use vstd::prelude::*;

verus! {

/// What the device can do.
pub const DEVICE_FEATURES: u16 = 0x00;

/// What the driver agrees to.
pub const DRIVER_FEATURES: u16 = 0x04;

/// The page the selected queue starts at.
pub const QUEUE_ADDRESS: u16 = 0x08;

/// How many descriptors the selected queue has.
pub const QUEUE_SIZE: u16 = 0x0C;

/// Which queue the registers above speak of.
pub const QUEUE_SELECT: u16 = 0x0E;

/// Written to tell the device that a queue has something new.
pub const QUEUE_NOTIFY: u16 = 0x10;

/// How far the driver has got.
pub const DEVICE_STATUS: u16 = 0x12;

/// Why the device raised an interrupt: reading it acknowledges.
pub const ISR: u16 = 0x13;

/// The first byte of the device's own configuration.
pub const CONFIG: u16 = 0x14;

} // verus!
