//! Registers of the structure every modern virtio device has.
use vstd::prelude::*;

verus! {

pub const DEVICE_FEATURE_SELECT: u64 = 0x00;

pub const DEVICE_FEATURE: u64 = 0x04;

pub const DRIVER_FEATURE_SELECT: u64 = 0x08;

pub const DRIVER_FEATURE: u64 = 0x0C;

pub const NUM_QUEUES: u64 = 0x12;

pub const DEVICE_STATUS: u64 = 0x14;

pub const QUEUE_SELECT: u64 = 0x16;

pub const QUEUE_SIZE: u64 = 0x18;

pub const QUEUE_ENABLE: u64 = 0x1C;

pub const QUEUE_NOTIFY_OFF: u64 = 0x1E;

pub const QUEUE_DESCRIPTORS: u64 = 0x20;

pub const QUEUE_AVAILABLE: u64 = 0x28;

pub const QUEUE_USED: u64 = 0x30;

} // verus!
