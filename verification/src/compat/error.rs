//! Errors, as Linux returns them: negative, in the return register.
//!
//! The value itself is the answer, and a caller tells an error from a count by
//! whether it is negative as a signed number.
use vstd::prelude::*;

verus! {

/// Not permitted.
pub const EPERM: u64 = 0xFFFF_FFFF_FFFF_FFFF;

/// No such file or directory.
pub const ENOENT: u64 = 0xFFFF_FFFF_FFFF_FFFE;

/// Interrupted.
pub const EINTR: u64 = 0xFFFF_FFFF_FFFF_FFFC;

/// The medium failed.
pub const EIO: u64 = 0xFFFF_FFFF_FFFF_FFFB;

/// The device is not there for this process.
pub const ENXIO: u64 = 0xFFFF_FFFF_FFFF_FFFA;

/// The argument list is too long.
pub const E2BIG: u64 = 0xFFFF_FFFF_FFFF_FFF9;

/// Bad file descriptor.
pub const EBADF: u64 = 0xFFFF_FFFF_FFFF_FFF7;

/// Nothing to give without waiting.
pub const EAGAIN: u64 = 0xFFFF_FFFF_FFFF_FFF5;

/// Out of memory.
pub const ENOMEM: u64 = 0xFFFF_FFFF_FFFF_FFF4;

/// Not allowed to reach that.
pub const EACCES: u64 = 0xFFFF_FFFF_FFFF_FFF3;

/// Bad address.
pub const EFAULT: u64 = 0xFFFF_FFFF_FFFF_FFF2;

/// It is there already.
pub const EEXIST: u64 = 0xFFFF_FFFF_FFFF_FFEF;

/// No such device.
pub const ENODEV: u64 = 0xFFFF_FFFF_FFFF_FFED;

/// Not a directory.
pub const ENOTDIR: u64 = 0xFFFF_FFFF_FFFF_FFEC;

/// It is a directory.
pub const EISDIR: u64 = 0xFFFF_FFFF_FFFF_FFEB;

/// An argument this call will not accept.
pub const EINVAL: u64 = 0xFFFF_FFFF_FFFF_FFEA;

/// Not a terminal.
pub const ENOTTY: u64 = 0xFFFF_FFFF_FFFF_FFE7;

/// No room left.
pub const ENOSPC: u64 = 0xFFFF_FFFF_FFFF_FFE4;

/// It has no positions.
pub const ESPIPE: u64 = 0xFFFF_FFFF_FFFF_FFE3;

/// Nobody is reading.
pub const EPIPE: u64 = 0xFFFF_FFFF_FFFF_FFE0;

/// The buffer is too small.
pub const ERANGE: u64 = 0xFFFF_FFFF_FFFF_FFDE;

/// The name is too long.
pub const ENAMETOOLONG: u64 = 0xFFFF_FFFF_FFFF_FFDC;

/// Function not implemented.
pub const ENOSYS: u64 = 0xFFFF_FFFF_FFFF_FFDA;

/// The directory is not empty.
pub const ENOTEMPTY: u64 = 0xFFFF_FFFF_FFFF_FFD9;

/// Not a socket.
pub const ENOTSOCK: u64 = 0xFFFF_FFFF_FFFF_FFA8;

/// No such protocol.
pub const EPROTONOSUPPORT: u64 = 0xFFFF_FFFF_FFFF_FFA3;

/// The operation is not supported.
pub const EOPNOTSUPP: u64 = 0xFFFF_FFFF_FFFF_FFA1;

/// No such address family.
pub const EAFNOSUPPORT: u64 = 0xFFFF_FFFF_FFFF_FF9F;

/// The address is taken.
pub const EADDRINUSE: u64 = 0xFFFF_FFFF_FFFF_FF9E;

/// Connected already.
pub const EISCONN: u64 = 0xFFFF_FFFF_FFFF_FF96;

/// Not connected.
pub const ENOTCONN: u64 = 0xFFFF_FFFF_FFFF_FF95;

/// The time ran out.
pub const ETIMEDOUT: u64 = 0xFFFF_FFFF_FFFF_FF92;

/// Nobody is listening there.
pub const ECONNREFUSED: u64 = 0xFFFF_FFFF_FFFF_FF91;

/// Whether an answer is an error, read as a signed number.
pub open spec fn is_error(answer: u64) -> bool {
    answer > 0x7FFF_FFFF_FFFF_FFFF
}

/// Whether an answer is an error, read as a signed number.
pub fn failed(answer: u64) -> (error: bool)
    ensures
        error == is_error(answer),
{
    answer > 0x7FFF_FFFF_FFFF_FFFF
}

/// Each error is its number in Linux, negated in sixty-four bits, and reads as
/// an error.
pub proof fn law_errors_are_negated_numbers()
    ensures
        0x1_0000_0000_0000_0000 - EPERM == 1,
        0x1_0000_0000_0000_0000 - ENOENT == 2,
        0x1_0000_0000_0000_0000 - EINTR == 4,
        0x1_0000_0000_0000_0000 - EIO == 5,
        0x1_0000_0000_0000_0000 - ENXIO == 6,
        0x1_0000_0000_0000_0000 - E2BIG == 7,
        0x1_0000_0000_0000_0000 - EBADF == 9,
        0x1_0000_0000_0000_0000 - EAGAIN == 11,
        0x1_0000_0000_0000_0000 - ENOMEM == 12,
        0x1_0000_0000_0000_0000 - EACCES == 13,
        0x1_0000_0000_0000_0000 - EFAULT == 14,
        0x1_0000_0000_0000_0000 - EEXIST == 17,
        0x1_0000_0000_0000_0000 - ENODEV == 19,
        0x1_0000_0000_0000_0000 - ENOTDIR == 20,
        0x1_0000_0000_0000_0000 - EISDIR == 21,
        0x1_0000_0000_0000_0000 - EINVAL == 22,
        0x1_0000_0000_0000_0000 - ENOTTY == 25,
        0x1_0000_0000_0000_0000 - ENOSPC == 28,
        0x1_0000_0000_0000_0000 - ESPIPE == 29,
        0x1_0000_0000_0000_0000 - EPIPE == 32,
        0x1_0000_0000_0000_0000 - ERANGE == 34,
        0x1_0000_0000_0000_0000 - ENAMETOOLONG == 36,
        0x1_0000_0000_0000_0000 - ENOSYS == 38,
        0x1_0000_0000_0000_0000 - ENOTEMPTY == 39,
        0x1_0000_0000_0000_0000 - ENOTSOCK == 88,
        0x1_0000_0000_0000_0000 - EPROTONOSUPPORT == 93,
        0x1_0000_0000_0000_0000 - EOPNOTSUPP == 95,
        0x1_0000_0000_0000_0000 - EAFNOSUPPORT == 97,
        0x1_0000_0000_0000_0000 - EADDRINUSE == 98,
        0x1_0000_0000_0000_0000 - EISCONN == 106,
        0x1_0000_0000_0000_0000 - ENOTCONN == 107,
        0x1_0000_0000_0000_0000 - ETIMEDOUT == 110,
        0x1_0000_0000_0000_0000 - ECONNREFUSED == 111,
{
}

/// The answers that are errors are those with the top bit set: as signed numbers
/// they are negative, and no count of bytes below that is one.
pub proof fn law_an_error_is_negative(answer: u64)
    ensures
        is_error(answer) <==> answer >= 0x8000_0000_0000_0000,
{
}

} // verus!
