//! The call numbers of a thirty-two bit program: a list of its own.
use vstd::prelude::*;

verus! {

pub const EXIT: u64 = 1;

pub const READ: u64 = 3;

pub const WRITE: u64 = 4;

pub const OPEN: u64 = 5;

pub const CLOSE: u64 = 6;

pub const UNLINK: u64 = 10;

pub const LSEEK: u64 = 19;

pub const GETPID: u64 = 20;

pub const GETUID: u64 = 24;

pub const ACCESS: u64 = 33;

pub const MKDIR: u64 = 39;

pub const RMDIR: u64 = 40;

pub const DUP: u64 = 41;

pub const PIPE: u64 = 42;

pub const BRK: u64 = 45;

pub const GETGID: u64 = 47;

pub const GETEUID: u64 = 49;

pub const GETEGID: u64 = 50;

pub const IOCTL: u64 = 54;

pub const DUP2: u64 = 63;

pub const MUNMAP: u64 = 91;

pub const UNAME: u64 = 122;

pub const MPROTECT: u64 = 125;

pub const SCHED_YIELD: u64 = 158;

pub const GETCWD: u64 = 183;

pub const MMAP2: u64 = 192;

pub const GETTID: u64 = 224;

pub const SET_THREAD_AREA: u64 = 243;

pub const EXIT_GROUP: u64 = 252;

pub const SET_TID_ADDRESS: u64 = 258;

pub const OPENAT: u64 = 295;

pub const PIPE2: u64 = 331;

pub const GETRANDOM: u64 = 355;

} // verus!
