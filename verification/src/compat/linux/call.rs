//! The call numbers of a sixty-four bit program.
use vstd::prelude::*;

verus! {

pub const READ: u64 = 0;

pub const WRITE: u64 = 1;

pub const OPEN: u64 = 2;

pub const CLOSE: u64 = 3;

pub const STAT: u64 = 4;

pub const FSTAT: u64 = 5;

pub const POLL: u64 = 7;

pub const LSEEK: u64 = 8;

pub const MMAP: u64 = 9;

pub const MPROTECT: u64 = 10;

pub const MUNMAP: u64 = 11;

pub const BRK: u64 = 12;

pub const RT_SIGACTION: u64 = 13;

pub const RT_SIGPROCMASK: u64 = 14;

pub const RT_SIGRETURN: u64 = 15;

pub const IOCTL: u64 = 16;

pub const PREAD64: u64 = 17;

pub const WRITEV: u64 = 20;

pub const ACCESS: u64 = 21;

pub const PIPE: u64 = 22;

pub const SCHED_YIELD: u64 = 24;

pub const DUP: u64 = 32;

pub const DUP2: u64 = 33;

pub const GETPID: u64 = 39;

pub const SOCKET: u64 = 41;

pub const CONNECT: u64 = 42;

pub const ACCEPT: u64 = 43;

pub const SENDTO: u64 = 44;

pub const RECVFROM: u64 = 45;

pub const SENDMSG: u64 = 46;

pub const RECVMSG: u64 = 47;

pub const SHUTDOWN: u64 = 48;

pub const BIND: u64 = 49;

pub const LISTEN: u64 = 50;

pub const GETSOCKNAME: u64 = 51;

pub const GETPEERNAME: u64 = 52;

pub const SOCKETPAIR: u64 = 53;

pub const SETSOCKOPT: u64 = 54;

pub const GETSOCKOPT: u64 = 55;

pub const CLONE: u64 = 56;

pub const EXECVE: u64 = 59;

pub const EXIT: u64 = 60;

pub const KILL: u64 = 62;

pub const UNAME: u64 = 63;

pub const FTRUNCATE: u64 = 77;

pub const GETCWD: u64 = 79;

pub const MKDIR: u64 = 83;

pub const RMDIR: u64 = 84;

pub const UNLINK: u64 = 87;

pub const GETUID: u64 = 102;

pub const GETGID: u64 = 104;

pub const GETEUID: u64 = 107;

pub const GETEGID: u64 = 108;

pub const RT_SIGPENDING: u64 = 127;

pub const RT_SIGTIMEDWAIT: u64 = 128;

pub const RT_SIGSUSPEND: u64 = 130;

pub const SIGALTSTACK: u64 = 131;

pub const ARCH_PRCTL: u64 = 158;

pub const GETTID: u64 = 186;

pub const FUTEX: u64 = 202;

pub const SCHED_GETAFFINITY: u64 = 204;

pub const EPOLL_CREATE: u64 = 213;

pub const GETDENTS64: u64 = 217;

pub const SET_TID_ADDRESS: u64 = 218;

pub const CLOCK_GETTIME: u64 = 228;

pub const EXIT_GROUP: u64 = 231;

pub const EPOLL_WAIT: u64 = 232;

pub const EPOLL_CTL: u64 = 233;

pub const TGKILL: u64 = 234;

pub const OPENAT: u64 = 257;

pub const MKDIRAT: u64 = 258;

pub const NEWFSTATAT: u64 = 262;

pub const UNLINKAT: u64 = 263;

pub const FACCESSAT: u64 = 269;

pub const PPOLL: u64 = 271;

pub const SET_ROBUST_LIST: u64 = 273;

pub const GET_ROBUST_LIST: u64 = 274;

pub const EPOLL_PWAIT: u64 = 281;

pub const ACCEPT4: u64 = 288;

pub const EPOLL_CREATE1: u64 = 291;

pub const DUP3: u64 = 292;

pub const PIPE2: u64 = 293;

pub const GETCPU: u64 = 309;

pub const GETRANDOM: u64 = 318;

pub const MEMFD_CREATE: u64 = 319;

} // verus!
