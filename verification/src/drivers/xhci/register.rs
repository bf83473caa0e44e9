//! Where the controller's registers are, and their bits.
use vstd::prelude::*;

verus! {

/// How many bytes of registers stand before the operational ones.
pub const LENGTH: u64 = 0x00;

/// How many slots and ports there are.
pub const PARAMS1: u64 = 0x04;

/// How large a context is.
pub const CAPPARAMS1: u64 = 0x10;

/// Where the doorbells are.
pub const DOORBELL_OFFSET: u64 = 0x14;

/// Where the runtime registers are.
pub const RUNTIME_OFFSET: u64 = 0x18;

/// How many bytes of registers there can be.
pub const WINDOW: u64 = 65_536;

/// Operational: what to do.
pub const COMMAND: u64 = 0x00;

/// Operational: what is.
pub const STATUS: u64 = 0x04;

/// Operational: how large a page is, as a set of sizes.
pub const PAGE_SIZE: u64 = 0x08;

/// Operational: the first port.
pub const PORTS: u64 = 0x400;

/// How far one port is from the next.
pub const PORT_STRIDE: u64 = 0x10;

/// In the command register: run.
pub const RUN: u32 = 0x0000_0001;

/// In the command register: reset.
pub const RESET: u32 = 0x0000_0002;

/// In the status register: the controller has stopped.
pub const HALTED: u32 = 0x0000_0001;

/// In the status register: the controller and the machine disagree.
pub const HOST_ERROR: u32 = 0x0000_0004;

/// In the status register: the controller cannot be written to.
pub const NOT_READY: u32 = 0x0000_0800;

} // verus!
