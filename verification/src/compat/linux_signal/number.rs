//! The signals with a meaning worth naming.
use vstd::prelude::*;

verus! {

pub const HUP: u64 = 1;

pub const INT: u64 = 2;

pub const QUIT: u64 = 3;

pub const ILL: u64 = 4;

pub const ABRT: u64 = 6;

pub const FPE: u64 = 8;

/// Cannot be caught, blocked or ignored.
pub const KILL: u64 = 9;

pub const USR1: u64 = 10;

pub const SEGV: u64 = 11;

pub const USR2: u64 = 12;

pub const PIPE: u64 = 13;

pub const ALRM: u64 = 14;

pub const TERM: u64 = 15;

pub const CHLD: u64 = 17;

/// Cannot be caught either.
pub const STOP: u64 = 19;

} // verus!
