//! The numbers of the calls a C library makes before it will start.
use vstd::prelude::*;

verus! {

pub const LSTAT: u64 = 6;

pub const READV: u64 = 19;

pub const MADVISE: u64 = 28;

pub const NANOSLEEP: u64 = 35;

pub const FSYNC: u64 = 74;

pub const FDATASYNC: u64 = 75;

pub const READLINK: u64 = 89;

pub const GETTIMEOFDAY: u64 = 96;

pub const GETRLIMIT: u64 = 97;

pub const SYSINFO: u64 = 99;

pub const TIME: u64 = 201;

pub const CLOCK_NANOSLEEP: u64 = 230;

pub const READLINKAT: u64 = 267;

pub const PRLIMIT64: u64 = 302;

pub const MEMBARRIER: u64 = 324;

} // verus!
