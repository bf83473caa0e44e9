//! Ports, and what a driver asks of the machine while it brings a device up.
use vstd::prelude::*;

verus! {

/// A byte to be written to a port.
#[derive(Debug, Clone, Copy, PartialEq, Eq, Structural)]
pub struct Out {
    pub port: u16,
    pub value: u8,
}

/// A write to a port, of any width.
#[derive(Debug, Clone, Copy, PartialEq, Eq, Structural)]
pub enum PortWrite {
    Byte { port: u16, byte: u8 },
    Word { port: u16, word: u16 },
    Long { port: u16, long: u32 },
}

/// Where memory ends: physical addresses have fifty-two bits.
pub const MEMORY_END: u64 = 0x10_0000_0000_0000;

/// What a driver wants before it can go on.
#[derive(Debug, Clone, Copy, PartialEq, Eq, Structural)]
pub enum Want {
    /// What a port reads, one byte wide.
    Read8(u16),
    /// The same, two bytes wide.
    Read16(u16),
    /// The same, four bytes wide.
    Read32(u16),
    /// A block of pages of zeros, of this order.
    Block(u32),
}

/// What it is told.
#[derive(Debug, Clone, Copy, PartialEq, Eq, Structural)]
pub enum Heard {
    /// What the port read.
    Read(u32),
    /// Where the block is, if there was one.
    Block(Option<u64>),
}

impl Want {
    /// Whether this is what was wanted.
    pub open spec fn fits(self, heard: Heard) -> bool {
        match self {
            Want::Read8(_) => heard matches Heard::Read(value) && value <= 0xFF,
            Want::Read16(_) => heard matches Heard::Read(value) && value <= 0xFFFF,
            Want::Read32(_) => heard is Read,
            Want::Block(_) => heard matches Heard::Block(block) && (block matches Some(at)
                ==> at < MEMORY_END),
        }
    }
}

} // verus!
