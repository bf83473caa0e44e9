//! What `clone` may be asked for.
use vstd::prelude::*;

verus! {

/// Share the address space. Without it this would be `fork`.
pub const VM: u64 = 0x0000_0100;

/// Share the file descriptor table.
pub const FILES: u64 = 0x0000_0400;

/// Share signal handlers.
pub const SIGHAND: u64 = 0x0000_0800;

/// Be a thread of the same group, rather than a child process.
pub const THREAD: u64 = 0x0001_0000;

/// Set the new thread's thread pointer.
pub const SETTLS: u64 = 0x0008_0000;

/// Write the new thread's identifier where the parent said.
pub const PARENT_SETTID: u64 = 0x0010_0000;

/// Clear a word when the thread exits, and wake anything waiting on it.
pub const CHILD_CLEARTID: u64 = 0x0020_0000;

/// Write the new thread's identifier where the child can read it.
pub const CHILD_SETTID: u64 = 0x0100_0000;

} // verus!
