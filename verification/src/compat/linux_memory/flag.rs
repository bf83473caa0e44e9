//! What `mmap` may be asked for.
use vstd::prelude::*;

verus! {

/// Changes are to be visible to everyone else mapping the file. Refused.
pub const SHARED: u64 = 0x01;

/// Changes are private to this process.
pub const PRIVATE: u64 = 0x02;

/// The caller insists on the address.
pub const FIXED: u64 = 0x10;

/// The mapping is not backed by a file.
pub const ANONYMOUS: u64 = 0x20;

/// The caller insists on the address, and on nothing being there.
pub const FIXED_NOREPLACE: u64 = 0x10_0000;

pub const PROT_NONE: u64 = 0;

pub const PROT_READ: u64 = 1;

pub const PROT_WRITE: u64 = 2;

pub const PROT_EXEC: u64 = 4;

} // verus!
