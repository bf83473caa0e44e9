//! The calls of a program built for Linux.
//!
//! A program puts a call number in one register and its arguments in six others.
//! [`dispatch`] says which call that is and with which arguments; each call is
//! then carried out through what the rest of this directory decides. What is not
//! here is answered as a call that does not exist, which a program is required
//! to handle.
use vstd::prelude::*;

use crate::bytes::{le32, le64, put_bytes, put_u32, put_u64, put_zeros};
use crate::compat::error::{EFAULT, EINVAL, ENOMEM, ENOSYS, ENOTTY};
use crate::compat::frame::Frame;
use crate::compat::linux_display::{self as display, Request};
use crate::compat::linux_files::AT_FDCWD;
use crate::compat::linux_memory as memory;
use crate::compat::linux_more::{self as more, MONOTONIC, REALTIME};
use crate::compat::linux_socket::write_unnamed;
#[allow(unused_imports)]
use crate::compat::linux_socket::unnamed;
use crate::compat::linux_threads as threads;
use crate::compat::reply::Reply;
use crate::compat::vectors::{Vectors, MAX_IOV};
#[allow(unused_imports)]
use crate::compat::vectors::{holding, pieces_of};
use crate::count::{count, counted};

pub mod call;
pub mod law;

verus! {

/// `arch_prctl`: set the thread pointer.
pub const SET_FS: u64 = 0x1002;

/// `arch_prctl`: read the thread pointer.
pub const GET_FS: u64 = 0x1003;

/// Bytes in one field of a `struct utsname`.
pub const FIELD: usize = 65;

/// How many fields it has.
pub const FIELDS: usize = 6;

/// `NexusOS`.
pub const SYSTEM: [u8; 7] = [0x4E, 0x65, 0x78, 0x75, 0x73, 0x4F, 0x53];

/// `nexus`.
pub const NODE: [u8; 5] = [0x6E, 0x65, 0x78, 0x75, 0x73];

/// `NexusOS-compat`: not a version of anything else.
pub const RELEASE: [u8; 14] = [
    0x4E, 0x65, 0x78, 0x75, 0x73, 0x4F, 0x53, 0x2D, 0x63, 0x6F, 0x6D, 0x70, 0x61, 0x74,
];

/// `x86_64`.
pub const MACHINE: [u8; 6] = [0x78, 0x38, 0x36, 0x5F, 0x36, 0x34];

/// `(none)`.
pub const DOMAIN: [u8; 6] = [0x28, 0x6E, 0x6F, 0x6E, 0x65, 0x29];

/// Calls translated, and calls refused.
pub struct State {
    translated: u64,
    refused: u64,
}

/// The same, as a value.
pub struct Model {
    pub translated: u64,
    pub refused: u64,
}

impl View for State {
    type V = Model;

    closed spec fn view(&self) -> Model {
        Model { translated: self.translated, refused: self.refused }
    }
}

impl State {
    /// None of either.
    pub fn new() -> (state: Self)
        ensures
            state@ == (Model { translated: 0, refused: 0 }),
    {
        State { translated: 0, refused: 0 }
    }
}

/// How many calls have been translated, how many refused, and how many pages of
/// memory handed out.
pub fn statistics(state: &State, mappings: &memory::State) -> (counts: (u64, u64, u64))
    ensures
        counts == (state@.translated, state@.refused, mappings@.mapped),
{
    let (mapped, _, _) = memory::statistics(mappings);
    (state.translated, state.refused, mapped)
}

/// A call and its arguments.
#[derive(Clone, Copy, PartialEq, Eq, Structural, Debug)]
pub enum Call {
    /// Answered already.
    Answer(u64),
    /// `write`.
    Write { descriptor: u64, buffer: u64, length: u64 },
    /// `writev`: [`writev`].
    Writev { descriptor: u64, vectors: u64, count: u64 },
    Read { descriptor: u64, buffer: u64, length: u64 },
    Pread64 { descriptor: u64, buffer: u64, length: u64, offset: u64 },
    /// `openat`, or `open` and the working directory.
    Openat { directory: u64, path: u64, flags: u64 },
    Lseek { descriptor: u64, offset: u64, whence: u64 },
    Fstat { descriptor: u64, out: u64 },
    /// `newfstatat`, or `stat` and the working directory.
    Newfstatat { directory: u64, path: u64, out: u64 },
    Getdents64 { descriptor: u64, buffer: u64, length: u64 },
    /// `faccessat`, or `access` and the working directory.
    Faccessat { directory: u64, path: u64 },
    Getcwd { buffer: u64, size: u64 },
    /// `mkdirat`, or `mkdir` and the working directory.
    Mkdirat { directory: u64, path: u64 },
    /// `unlinkat`, or `unlink` or `rmdir` and the working directory.
    Unlinkat { directory: u64, path: u64 },
    Getrandom { buffer: u64, length: u64 },
    Close { descriptor: u64 },
    Dup { descriptor: u64 },
    /// `dup2`, or `dup3` of two that differ.
    Dup2 { from: u64, to: u64 },
    /// `pipe2`, or `pipe` and no flags.
    Pipe2 { ends: u64, flags: u64 },
    Socket { family: u64, kind: u64, protocol: u64 },
    Socketpair { family: u64, kind: u64, protocol: u64, fds: u64 },
    Bind { descriptor: u64, address: u64, length: u64 },
    Listen { descriptor: u64, backlog: u64 },
    Connect { descriptor: u64, address: u64, length: u64 },
    /// `accept4`, or `accept` and no flags.
    Accept { descriptor: u64, address: u64, length: u64, flags: u64 },
    /// `sendto`; a connected socket has no address to send to.
    Send { descriptor: u64, buffer: u64, length: u64, flags: u64 },
    /// `recvfrom`.
    Receive { descriptor: u64, buffer: u64, length: u64, flags: u64 },
    Sendmsg { descriptor: u64, message: u64, flags: u64 },
    Recvmsg { descriptor: u64, message: u64, flags: u64 },
    Shutdown { descriptor: u64, how: u64 },
    /// `setsockopt` or `getsockopt`.
    Setsockopt { descriptor: u64, level: u64, option: u64 },
    /// `getsockname` or `getpeername`: [`unnamed_address`].
    UnnamedAddress { address: u64, length: u64 },
    Poll { descriptors: u64, count: u64, milliseconds: u64 },
    /// `poll` with a `timespec`: [`timespec_ms`].
    Ppoll { descriptors: u64, count: u64, timespec: u64 },
    /// `epoll_create1`, or `epoll_create` and no flags.
    EpollCreate { flags: u64 },
    EpollControl { set: u64, operation: u64, descriptor: u64, event: u64 },
    /// `epoll_wait` or `epoll_pwait`; there is no mask to apply.
    EpollWait { set: u64, events: u64, most: u64, milliseconds: u64 },
    Mmap { address: u64, length: u64, protection: u64, flags: u64, descriptor: u64, offset: u64 },
    Munmap { address: u64, length: u64 },
    Mprotect { address: u64, length: u64, protection: u64 },
    /// `clone`, in the order the registers have.
    Clone { flags: u64, stack: u64, parent_tid: u64, child_tid: u64, tls: u64 },
    Futex { address: u64, operation: u64, expected: u64, timeout: u64 },
    SetRobustList { head: u64, length: u64 },
    GetRobustList { out_head: u64, out_length: u64 },
    /// `sched_yield`: the answer is zero, afterwards.
    SchedYield,
    SchedGetaffinity { size: u64, mask: u64 },
    Getcpu { processor: u64, node: u64 },
    ArchPrctl { code: u64, address: u64 },
    Uname { buffer: u64 },
    ClockGettime { which: u64, buffer: u64 },
    MemfdCreate { name: u64, flags: u64 },
    Ftruncate { descriptor: u64, length: u64 },
    Execve { path: u64, arguments: u64, environment: u64 },
    Sigaction { signal: u64, new: u64, past: u64, size: u64 },
    Sigprocmask { how: u64, new: u64, past: u64, size: u64 },
    /// `rt_sigreturn`: the one call that puts the frame back.
    Sigreturn,
    /// `kill`, or `tgkill`: a signal to one thread of a process is one to it.
    Kill { target: u64, signal: u64 },
    /// One of the signal calls that are refused by name.
    NotTranslated,
    /// `gettid` or `set_tid_address`: the number of the calling thread.
    Gettid,
    /// `ioctl`: [`ioctl`].
    Ioctl { descriptor: u64, request: u64, argument: u64 },
    /// `getpid`: [`getpid`].
    Getpid,
    /// `exit`: [`exit_thread`].
    ExitThread { status: u64 },
    /// `exit_group`: [`exit`].
    Exit { status: u64 },
    /// One of the calls a C library makes before it will start.
    More(more::Call),
    /// No call that is translated: the answer is that it does not exist.
    Unknown,
}

impl Call {
    /// Whether a call counts as refused.
    pub open spec fn refused(self) -> bool {
        self is Shutdown || self is NotTranslated || self is Unknown
    }
}

/// Which call a number is, and with which arguments.
pub open spec fn routed(number: u64, frame: Frame) -> Call {
    let more = more::translated(number, frame);
    match number {
        call::WRITE => Call::Write { descriptor: frame.rdi, buffer: frame.rsi, length: frame.rdx },
        call::WRITEV => Call::Writev {
            descriptor: frame.rdi,
            vectors: frame.rsi,
            count: frame.rdx,
        },
        call::READ => Call::Read { descriptor: frame.rdi, buffer: frame.rsi, length: frame.rdx },
        call::PREAD64 => Call::Pread64 {
            descriptor: frame.rdi,
            buffer: frame.rsi,
            length: frame.rdx,
            offset: frame.r10,
        },
        call::OPENAT => Call::Openat { directory: frame.rdi, path: frame.rsi, flags: frame.rdx },
        call::OPEN => Call::Openat {
            directory: AT_FDCWD as u64,
            path: frame.rdi,
            flags: frame.rsi,
        },
        call::LSEEK => Call::Lseek { descriptor: frame.rdi, offset: frame.rsi, whence: frame.rdx },
        call::FSTAT => Call::Fstat { descriptor: frame.rdi, out: frame.rsi },
        call::NEWFSTATAT => Call::Newfstatat {
            directory: frame.rdi,
            path: frame.rsi,
            out: frame.rdx,
        },
        call::STAT => Call::Newfstatat {
            directory: AT_FDCWD as u64,
            path: frame.rdi,
            out: frame.rsi,
        },
        call::GETDENTS64 => Call::Getdents64 {
            descriptor: frame.rdi,
            buffer: frame.rsi,
            length: frame.rdx,
        },
        call::FACCESSAT => Call::Faccessat { directory: frame.rdi, path: frame.rsi },
        call::ACCESS => Call::Faccessat { directory: AT_FDCWD as u64, path: frame.rdi },
        call::GETCWD => Call::Getcwd { buffer: frame.rdi, size: frame.rsi },
        call::MKDIRAT => Call::Mkdirat { directory: frame.rdi, path: frame.rsi },
        call::MKDIR => Call::Mkdirat { directory: AT_FDCWD as u64, path: frame.rdi },
        call::UNLINKAT => Call::Unlinkat { directory: frame.rdi, path: frame.rsi },
        call::UNLINK => Call::Unlinkat { directory: AT_FDCWD as u64, path: frame.rdi },
        call::RMDIR => Call::Unlinkat { directory: AT_FDCWD as u64, path: frame.rdi },
        call::GETRANDOM => Call::Getrandom { buffer: frame.rdi, length: frame.rsi },
        call::CLOSE => Call::Close { descriptor: frame.rdi },
        call::DUP => Call::Dup { descriptor: frame.rdi },
        call::DUP2 => Call::Dup2 { from: frame.rdi, to: frame.rsi },
        call::DUP3 => if frame.rdi == frame.rsi {
            Call::Answer(EINVAL)
        } else {
            Call::Dup2 { from: frame.rdi, to: frame.rsi }
        },
        call::PIPE => Call::Pipe2 { ends: frame.rdi, flags: 0 },
        call::PIPE2 => Call::Pipe2 { ends: frame.rdi, flags: frame.rsi },
        call::SOCKET => Call::Socket { family: frame.rdi, kind: frame.rsi, protocol: frame.rdx },
        call::SOCKETPAIR => Call::Socketpair {
            family: frame.rdi,
            kind: frame.rsi,
            protocol: frame.rdx,
            fds: frame.r10,
        },
        call::BIND => Call::Bind { descriptor: frame.rdi, address: frame.rsi, length: frame.rdx },
        call::LISTEN => Call::Listen { descriptor: frame.rdi, backlog: frame.rsi },
        call::CONNECT => Call::Connect {
            descriptor: frame.rdi,
            address: frame.rsi,
            length: frame.rdx,
        },
        call::ACCEPT => Call::Accept {
            descriptor: frame.rdi,
            address: frame.rsi,
            length: frame.rdx,
            flags: 0,
        },
        call::ACCEPT4 => Call::Accept {
            descriptor: frame.rdi,
            address: frame.rsi,
            length: frame.rdx,
            flags: frame.r10,
        },
        call::SENDTO => Call::Send {
            descriptor: frame.rdi,
            buffer: frame.rsi,
            length: frame.rdx,
            flags: frame.r10,
        },
        call::RECVFROM => Call::Receive {
            descriptor: frame.rdi,
            buffer: frame.rsi,
            length: frame.rdx,
            flags: frame.r10,
        },
        call::SENDMSG => Call::Sendmsg {
            descriptor: frame.rdi,
            message: frame.rsi,
            flags: frame.rdx,
        },
        call::RECVMSG => Call::Recvmsg {
            descriptor: frame.rdi,
            message: frame.rsi,
            flags: frame.rdx,
        },
        call::SHUTDOWN => Call::Shutdown { descriptor: frame.rdi, how: frame.rsi },
        call::SETSOCKOPT => Call::Setsockopt {
            descriptor: frame.rdi,
            level: frame.rsi,
            option: frame.rdx,
        },
        call::GETSOCKOPT => Call::Setsockopt {
            descriptor: frame.rdi,
            level: frame.rsi,
            option: frame.rdx,
        },
        call::GETSOCKNAME => Call::UnnamedAddress { address: frame.rsi, length: frame.rdx },
        call::GETPEERNAME => Call::UnnamedAddress { address: frame.rsi, length: frame.rdx },
        call::POLL => Call::Poll {
            descriptors: frame.rdi,
            count: frame.rsi,
            milliseconds: frame.rdx,
        },
        call::PPOLL => Call::Ppoll {
            descriptors: frame.rdi,
            count: frame.rsi,
            timespec: frame.rdx,
        },
        call::EPOLL_CREATE => Call::EpollCreate { flags: 0 },
        call::EPOLL_CREATE1 => Call::EpollCreate { flags: frame.rdi },
        call::EPOLL_CTL => Call::EpollControl {
            set: frame.rdi,
            operation: frame.rsi,
            descriptor: frame.rdx,
            event: frame.r10,
        },
        call::EPOLL_WAIT => Call::EpollWait {
            set: frame.rdi,
            events: frame.rsi,
            most: frame.rdx,
            milliseconds: frame.r10,
        },
        call::EPOLL_PWAIT => Call::EpollWait {
            set: frame.rdi,
            events: frame.rsi,
            most: frame.rdx,
            milliseconds: frame.r10,
        },
        call::MMAP => Call::Mmap {
            address: frame.rdi,
            length: frame.rsi,
            protection: frame.rdx,
            flags: frame.r10,
            descriptor: frame.r8,
            offset: frame.r9,
        },
        call::MUNMAP => Call::Munmap { address: frame.rdi, length: frame.rsi },
        call::MPROTECT => Call::Mprotect {
            address: frame.rdi,
            length: frame.rsi,
            protection: frame.rdx,
        },
        call::CLONE => Call::Clone {
            flags: frame.rdi,
            stack: frame.rsi,
            parent_tid: frame.rdx,
            child_tid: frame.r10,
            tls: frame.r8,
        },
        call::FUTEX => Call::Futex {
            address: frame.rdi,
            operation: frame.rsi,
            expected: frame.rdx,
            timeout: frame.r10,
        },
        call::SET_ROBUST_LIST => Call::SetRobustList { head: frame.rdi, length: frame.rsi },
        call::GET_ROBUST_LIST => Call::GetRobustList {
            out_head: frame.rsi,
            out_length: frame.rdx,
        },
        call::SCHED_YIELD => Call::SchedYield,
        call::SCHED_GETAFFINITY => Call::SchedGetaffinity { size: frame.rsi, mask: frame.rdx },
        call::GETCPU => Call::Getcpu { processor: frame.rdi, node: frame.rsi },
        call::ARCH_PRCTL => Call::ArchPrctl { code: frame.rdi, address: frame.rsi },
        call::UNAME => Call::Uname { buffer: frame.rdi },
        call::CLOCK_GETTIME => Call::ClockGettime { which: frame.rdi, buffer: frame.rsi },
        call::BRK => Call::Answer(ENOMEM),
        call::MEMFD_CREATE => Call::MemfdCreate { name: frame.rdi, flags: frame.rsi },
        call::FTRUNCATE => Call::Ftruncate { descriptor: frame.rdi, length: frame.rsi },
        call::EXECVE => Call::Execve {
            path: frame.rdi,
            arguments: frame.rsi,
            environment: frame.rdx,
        },
        call::RT_SIGACTION => Call::Sigaction {
            signal: frame.rdi,
            new: frame.rsi,
            past: frame.rdx,
            size: frame.r10,
        },
        call::RT_SIGPROCMASK => Call::Sigprocmask {
            how: frame.rdi,
            new: frame.rsi,
            past: frame.rdx,
            size: frame.r10,
        },
        call::RT_SIGRETURN => Call::Sigreturn,
        call::KILL => Call::Kill { target: frame.rdi, signal: frame.rsi },
        call::TGKILL => Call::Kill { target: frame.rdi, signal: frame.rdx },
        call::SIGALTSTACK => Call::NotTranslated,
        call::RT_SIGSUSPEND => Call::NotTranslated,
        call::RT_SIGPENDING => Call::NotTranslated,
        call::RT_SIGTIMEDWAIT => Call::NotTranslated,
        call::SET_TID_ADDRESS => Call::Gettid,
        call::GETTID => Call::Gettid,
        call::GETUID => Call::Answer(0),
        call::GETGID => Call::Answer(0),
        call::GETEUID => Call::Answer(0),
        call::GETEGID => Call::Answer(0),
        call::IOCTL => Call::Ioctl {
            descriptor: frame.rdi,
            request: frame.rsi,
            argument: frame.rdx,
        },
        call::GETPID => Call::Getpid,
        call::EXIT => Call::ExitThread { status: frame.rdi },
        call::EXIT_GROUP => Call::Exit { status: frame.rdi },
        _ => match more {
            Some(found) => Call::More(found),
            None => Call::Unknown,
        },
    }
}

/// Which call a number is, with the arguments from the registers, counted as
/// translated or refused.
///
/// The fourth argument is in `r10`: the instruction that enters the kernel takes
/// `rcx` for the return address.
pub fn dispatch(state: &mut State, number: u64, frame: &Frame) -> (found: Call)
    ensures
        found == routed(number, *frame),
        final(state)@ == if found.refused() {
            Model { refused: counted(old(state)@.refused, 1), ..old(state)@ }
        } else {
            Model { translated: counted(old(state)@.translated, 1), ..old(state)@ }
        },
{
    let found: Call = route(number, frame);
    match found {
        Call::Shutdown { .. } | Call::NotTranslated | Call::Unknown => {
            state.refused = count(state.refused, 1);
        },
        _ => {
            state.translated = count(state.translated, 1);
        },
    }
    found
}

fn route(number: u64, frame: &Frame) -> (found: Call)
    ensures
        found == routed(number, *frame),
{
    let more = more::translate(number, frame);
    match number {
        call::WRITE => Call::Write { descriptor: frame.rdi, buffer: frame.rsi, length: frame.rdx },
        call::WRITEV => Call::Writev {
            descriptor: frame.rdi,
            vectors: frame.rsi,
            count: frame.rdx,
        },
        call::READ => Call::Read { descriptor: frame.rdi, buffer: frame.rsi, length: frame.rdx },
        call::PREAD64 => Call::Pread64 {
            descriptor: frame.rdi,
            buffer: frame.rsi,
            length: frame.rdx,
            offset: frame.r10,
        },
        call::OPENAT => Call::Openat { directory: frame.rdi, path: frame.rsi, flags: frame.rdx },
        call::OPEN => Call::Openat {
            directory: AT_FDCWD as u64,
            path: frame.rdi,
            flags: frame.rsi,
        },
        call::LSEEK => Call::Lseek { descriptor: frame.rdi, offset: frame.rsi, whence: frame.rdx },
        call::FSTAT => Call::Fstat { descriptor: frame.rdi, out: frame.rsi },
        call::NEWFSTATAT => Call::Newfstatat {
            directory: frame.rdi,
            path: frame.rsi,
            out: frame.rdx,
        },
        call::STAT => Call::Newfstatat {
            directory: AT_FDCWD as u64,
            path: frame.rdi,
            out: frame.rsi,
        },
        call::GETDENTS64 => Call::Getdents64 {
            descriptor: frame.rdi,
            buffer: frame.rsi,
            length: frame.rdx,
        },
        call::FACCESSAT => Call::Faccessat { directory: frame.rdi, path: frame.rsi },
        call::ACCESS => Call::Faccessat { directory: AT_FDCWD as u64, path: frame.rdi },
        call::GETCWD => Call::Getcwd { buffer: frame.rdi, size: frame.rsi },
        call::MKDIRAT => Call::Mkdirat { directory: frame.rdi, path: frame.rsi },
        call::MKDIR => Call::Mkdirat { directory: AT_FDCWD as u64, path: frame.rdi },
        call::UNLINKAT => Call::Unlinkat { directory: frame.rdi, path: frame.rsi },
        call::UNLINK => Call::Unlinkat { directory: AT_FDCWD as u64, path: frame.rdi },
        call::RMDIR => Call::Unlinkat { directory: AT_FDCWD as u64, path: frame.rdi },
        call::GETRANDOM => Call::Getrandom { buffer: frame.rdi, length: frame.rsi },
        call::CLOSE => Call::Close { descriptor: frame.rdi },
        call::DUP => Call::Dup { descriptor: frame.rdi },
        call::DUP2 => Call::Dup2 { from: frame.rdi, to: frame.rsi },
        call::DUP3 => if frame.rdi == frame.rsi {
            Call::Answer(EINVAL)
        } else {
            Call::Dup2 { from: frame.rdi, to: frame.rsi }
        },
        call::PIPE => Call::Pipe2 { ends: frame.rdi, flags: 0 },
        call::PIPE2 => Call::Pipe2 { ends: frame.rdi, flags: frame.rsi },
        call::SOCKET => Call::Socket { family: frame.rdi, kind: frame.rsi, protocol: frame.rdx },
        call::SOCKETPAIR => Call::Socketpair {
            family: frame.rdi,
            kind: frame.rsi,
            protocol: frame.rdx,
            fds: frame.r10,
        },
        call::BIND => Call::Bind { descriptor: frame.rdi, address: frame.rsi, length: frame.rdx },
        call::LISTEN => Call::Listen { descriptor: frame.rdi, backlog: frame.rsi },
        call::CONNECT => Call::Connect {
            descriptor: frame.rdi,
            address: frame.rsi,
            length: frame.rdx,
        },
        call::ACCEPT => Call::Accept {
            descriptor: frame.rdi,
            address: frame.rsi,
            length: frame.rdx,
            flags: 0,
        },
        call::ACCEPT4 => Call::Accept {
            descriptor: frame.rdi,
            address: frame.rsi,
            length: frame.rdx,
            flags: frame.r10,
        },
        call::SENDTO => Call::Send {
            descriptor: frame.rdi,
            buffer: frame.rsi,
            length: frame.rdx,
            flags: frame.r10,
        },
        call::RECVFROM => Call::Receive {
            descriptor: frame.rdi,
            buffer: frame.rsi,
            length: frame.rdx,
            flags: frame.r10,
        },
        call::SENDMSG => Call::Sendmsg {
            descriptor: frame.rdi,
            message: frame.rsi,
            flags: frame.rdx,
        },
        call::RECVMSG => Call::Recvmsg {
            descriptor: frame.rdi,
            message: frame.rsi,
            flags: frame.rdx,
        },
        call::SHUTDOWN => Call::Shutdown { descriptor: frame.rdi, how: frame.rsi },
        call::SETSOCKOPT => Call::Setsockopt {
            descriptor: frame.rdi,
            level: frame.rsi,
            option: frame.rdx,
        },
        call::GETSOCKOPT => Call::Setsockopt {
            descriptor: frame.rdi,
            level: frame.rsi,
            option: frame.rdx,
        },
        call::GETSOCKNAME => Call::UnnamedAddress { address: frame.rsi, length: frame.rdx },
        call::GETPEERNAME => Call::UnnamedAddress { address: frame.rsi, length: frame.rdx },
        call::POLL => Call::Poll {
            descriptors: frame.rdi,
            count: frame.rsi,
            milliseconds: frame.rdx,
        },
        call::PPOLL => Call::Ppoll {
            descriptors: frame.rdi,
            count: frame.rsi,
            timespec: frame.rdx,
        },
        call::EPOLL_CREATE => Call::EpollCreate { flags: 0 },
        call::EPOLL_CREATE1 => Call::EpollCreate { flags: frame.rdi },
        call::EPOLL_CTL => Call::EpollControl {
            set: frame.rdi,
            operation: frame.rsi,
            descriptor: frame.rdx,
            event: frame.r10,
        },
        call::EPOLL_WAIT => Call::EpollWait {
            set: frame.rdi,
            events: frame.rsi,
            most: frame.rdx,
            milliseconds: frame.r10,
        },
        call::EPOLL_PWAIT => Call::EpollWait {
            set: frame.rdi,
            events: frame.rsi,
            most: frame.rdx,
            milliseconds: frame.r10,
        },
        call::MMAP => Call::Mmap {
            address: frame.rdi,
            length: frame.rsi,
            protection: frame.rdx,
            flags: frame.r10,
            descriptor: frame.r8,
            offset: frame.r9,
        },
        call::MUNMAP => Call::Munmap { address: frame.rdi, length: frame.rsi },
        call::MPROTECT => Call::Mprotect {
            address: frame.rdi,
            length: frame.rsi,
            protection: frame.rdx,
        },
        call::CLONE => Call::Clone {
            flags: frame.rdi,
            stack: frame.rsi,
            parent_tid: frame.rdx,
            child_tid: frame.r10,
            tls: frame.r8,
        },
        call::FUTEX => Call::Futex {
            address: frame.rdi,
            operation: frame.rsi,
            expected: frame.rdx,
            timeout: frame.r10,
        },
        call::SET_ROBUST_LIST => Call::SetRobustList { head: frame.rdi, length: frame.rsi },
        call::GET_ROBUST_LIST => Call::GetRobustList {
            out_head: frame.rsi,
            out_length: frame.rdx,
        },
        call::SCHED_YIELD => Call::SchedYield,
        call::SCHED_GETAFFINITY => Call::SchedGetaffinity { size: frame.rsi, mask: frame.rdx },
        call::GETCPU => Call::Getcpu { processor: frame.rdi, node: frame.rsi },
        call::ARCH_PRCTL => Call::ArchPrctl { code: frame.rdi, address: frame.rsi },
        call::UNAME => Call::Uname { buffer: frame.rdi },
        call::CLOCK_GETTIME => Call::ClockGettime { which: frame.rdi, buffer: frame.rsi },
        call::BRK => Call::Answer(ENOMEM),
        call::MEMFD_CREATE => Call::MemfdCreate { name: frame.rdi, flags: frame.rsi },
        call::FTRUNCATE => Call::Ftruncate { descriptor: frame.rdi, length: frame.rsi },
        call::EXECVE => Call::Execve {
            path: frame.rdi,
            arguments: frame.rsi,
            environment: frame.rdx,
        },
        call::RT_SIGACTION => Call::Sigaction {
            signal: frame.rdi,
            new: frame.rsi,
            past: frame.rdx,
            size: frame.r10,
        },
        call::RT_SIGPROCMASK => Call::Sigprocmask {
            how: frame.rdi,
            new: frame.rsi,
            past: frame.rdx,
            size: frame.r10,
        },
        call::RT_SIGRETURN => Call::Sigreturn,
        call::KILL => Call::Kill { target: frame.rdi, signal: frame.rsi },
        call::TGKILL => Call::Kill { target: frame.rdi, signal: frame.rdx },
        call::SIGALTSTACK => Call::NotTranslated,
        call::RT_SIGSUSPEND => Call::NotTranslated,
        call::RT_SIGPENDING => Call::NotTranslated,
        call::RT_SIGTIMEDWAIT => Call::NotTranslated,
        call::SET_TID_ADDRESS => Call::Gettid,
        call::GETTID => Call::Gettid,
        call::GETUID => Call::Answer(0),
        call::GETGID => Call::Answer(0),
        call::GETEUID => Call::Answer(0),
        call::GETEGID => Call::Answer(0),
        call::IOCTL => Call::Ioctl {
            descriptor: frame.rdi,
            request: frame.rsi,
            argument: frame.rdx,
        },
        call::GETPID => Call::Getpid,
        call::EXIT => Call::ExitThread { status: frame.rdi },
        call::EXIT_GROUP => Call::Exit { status: frame.rdi },
        _ => match more {
            Some(found) => Call::More(found),
            None => Call::Unknown,
        },
    }
}

/// `writev(fd, iov, count)`: the pieces to write, an answer or a refusal.
///
/// `bytes` is the list, if the program has that many entries.
pub fn writev(count: u64, bytes: Option<&[u8]>) -> (vectors: Result<Vectors, u64>)
    requires
        0 < count <= MAX_IOV ==> (bytes matches Some(bytes) ==> bytes@.len() == 16 * count),
    ensures
        if count == 0 {
            vectors matches Err(answer) && answer == 0
        } else if count > MAX_IOV {
            vectors matches Err(answer) && answer == EINVAL
        } else {
            match bytes {
                None => vectors matches Err(answer) && answer == EFAULT,
                Some(bytes) => vectors matches Ok(vectors) && vectors.wf() && vectors@.rest
                    == holding(pieces_of(bytes@)) && vectors@.total == 0,
            }
        },
{
    if count == 0 {
        return Err(0);
    }
    if count > MAX_IOV {
        return Err(EINVAL);
    }
    match bytes {
        None => Err(EFAULT),
        Some(bytes) => Ok(Vectors::new(bytes)),
    }
}

/// What `arch_prctl` comes to.
#[derive(Debug)]
pub enum Prctl {
    /// Set the thread pointer to this; the answer is zero.
    Point(u64),
    Reply(Reply),
}

/// `arch_prctl(code, address)`: the thread pointer, which a program may point
/// only into its own half.
///
/// `base` is the thread pointer now, and `in_range` whether the program has
/// eight bytes at the address.
pub fn arch_prctl(code: u64, address: u64, base: u64, in_range: bool, user_space_end: u64) -> (next:
    Prctl)
    ensures
        if code == SET_FS {
            if address >= user_space_end {
                next matches Prctl::Reply(reply) && reply.is_plain(EFAULT)
            } else {
                next == Prctl::Point(address)
            }
        } else if code == GET_FS {
            if in_range {
                next matches Prctl::Reply(reply) && reply.is_writing(0, address, le64(base))
            } else {
                next matches Prctl::Reply(reply) && reply.is_plain(EFAULT)
            }
        } else {
            next matches Prctl::Reply(reply) && reply.is_plain(EINVAL)
        },
{
    match code {
        SET_FS => {
            if address >= user_space_end {
                return Prctl::Reply(Reply::plain(EFAULT));
            }
            Prctl::Point(address)
        },
        GET_FS => {
            if !in_range {
                return Prctl::Reply(Reply::plain(EFAULT));
            }
            let mut out: Vec<u8> = Vec::new();
            put_u64(&mut out, base);
            assert(out@ =~= le64(base));
            Prctl::Reply(Reply::writing(0, address, out))
        },
        _ => Prctl::Reply(Reply::plain(EINVAL)),
    }
}

/// One field of a `struct utsname`: as much of the text as leaves room for a
/// terminator, and zeros.
pub open spec fn field(text: Seq<u8>) -> Seq<u8> {
    let shown = if text.len() < FIELD {
        text
    } else {
        text.take(FIELD - 1)
    };
    shown + Seq::new((FIELD - shown.len()) as nat, |i: int| 0u8)
}

fn put_field(out: &mut Vec<u8>, text: &[u8])
    ensures
        final(out)@ == old(out)@ + field(text@),
{
    let shown: usize = if text.len() < FIELD {
        text.len()
    } else {
        FIELD - 1
    };
    let part = crate::bytes::copy_range(text, 0, shown);
    put_bytes(out, part.as_slice());
    put_zeros(out, FIELD - shown);
    assert(part@ =~= text@.take(shown as int));
    if text.len() < FIELD {
        assert(part@ =~= text@);
    }
    assert(out@ =~= old(out)@ + field(text@));
}

/// A `struct utsname` of this machine.
pub open spec fn utsname(version: Seq<u8>) -> Seq<u8> {
    field(SYSTEM@) + field(NODE@) + field(RELEASE@) + field(version) + field(MACHINE@) + field(
        DOMAIN@,
    )
}

/// `uname(buffer)`, the same for a program of either width.
///
/// `version` is the kernel's own version.
pub fn uname_into(buffer: u64, in_range: bool, version: &[u8]) -> (reply: Reply)
    ensures
        if in_range {
            reply.is_writing(0, buffer, utsname(version@))
        } else {
            reply.is_plain(EFAULT)
        },
{
    if !in_range {
        return Reply::plain(EFAULT);
    }
    let mut out: Vec<u8> = Vec::new();
    put_field(&mut out, &SYSTEM);
    put_field(&mut out, &NODE);
    put_field(&mut out, &RELEASE);
    put_field(&mut out, version);
    put_field(&mut out, &MACHINE);
    put_field(&mut out, &DOMAIN);
    assert(out@ =~= utsname(version@));
    Reply::writing(0, buffer, out)
}

/// The two words of the clock that was asked for: seconds, and nanoseconds past
/// them.
pub open spec fn clock_of(which: u64, clock: Option<u64>, uptime_ms: u64) -> (u64, u64) {
    if which == REALTIME {
        (
            match clock {
                Some(now) => now,
                None => uptime_ms / 1000,
            },
            0,
        )
    } else {
        (uptime_ms / 1000, ((uptime_ms % 1000) * 1_000_000) as u64)
    }
}

/// `clock_gettime(which, buffer)`: the machine's clock, and how long it has been
/// up. A machine without a clock answers with the second for both.
pub fn clock_gettime(
    which: u64,
    buffer: u64,
    in_range: bool,
    clock: Option<u64>,
    uptime_ms: u64,
) -> (reply: Reply)
    ensures
        if which != REALTIME && which != MONOTONIC {
            reply.is_plain(EINVAL)
        } else if !in_range {
            reply.is_plain(EFAULT)
        } else {
            let (seconds, nanoseconds) = clock_of(which, clock, uptime_ms);
            reply.is_writing(0, buffer, le64(seconds) + le64(nanoseconds))
        },
{
    let (seconds, nanoseconds): (u64, u64) = match which {
        REALTIME => match clock {
            Some(now) => (now, 0),
            None => (uptime_ms / 1000, 0),
        },
        MONOTONIC => (uptime_ms / 1000, (uptime_ms % 1000) * 1_000_000),
        _ => return Reply::plain(EINVAL),
    };
    if !in_range {
        return Reply::plain(EFAULT);
    }
    let mut out: Vec<u8> = Vec::new();
    put_u64(&mut out, seconds);
    put_u64(&mut out, nanoseconds);
    assert(out@ =~= le64(seconds) + le64(nanoseconds));
    Reply::writing(0, buffer, out)
}

/// The address of a socket that has none: the family, and a length of two.
///
/// `room` is the number the program has at `length`, if it has one there.
pub fn unnamed_address(address: u64, length: u64, room: Option<u32>, address_in_range: bool) -> (reply:
    Reply)
    ensures
        if address == 0 || length == 0 {
            reply.is_plain(EINVAL)
        } else {
            match room {
                None => reply.is_plain(EFAULT),
                Some(room) => if room >= 2 && !address_in_range {
                    reply.is_plain(EFAULT)
                } else {
                    reply.answer == 0 && reply.written() == unnamed(
                        address,
                        length,
                        room,
                        address_in_range,
                    )
                },
            }
        },
{
    if address == 0 || length == 0 {
        return Reply::plain(EINVAL);
    }
    match room {
        None => Reply::plain(EFAULT),
        Some(room) => {
            if room >= 2 && !address_in_range {
                return Reply::plain(EFAULT);
            }
            let mut reply = Reply::plain(0);
            write_unnamed(&mut reply, address, length, room, address_in_range);
            reply
        },
    }
}

/// The nearest number of sixty-four bits.
pub open spec fn nearest(value: int) -> i64 {
    if value > i64::MAX {
        i64::MAX
    } else if value < i64::MIN {
        i64::MIN
    } else {
        value as i64
    }
}

/// Whole millions in a number, towards zero.
pub open spec fn millions(value: int) -> int {
    if value >= 0 {
        value / 1_000_000
    } else {
        -((-value) / 1_000_000)
    }
}

fn narrow(value: i128) -> (near: i64)
    ensures
        near == nearest(value as int),
{
    if value > 0x7FFF_FFFF_FFFF_FFFF {
        i64::MAX
    } else if value < -0x8000_0000_0000_0000 {
        i64::MIN
    } else {
        value as i64
    }
}

/// A `timespec` as a count of milliseconds, for a wait.
///
/// None at all is to wait for ever. One the program does not have is not to wait,
/// which returns whatever is ready now.
pub fn timespec_ms(timespec: u64, words: Option<(i64, i64)>) -> (milliseconds: i64)
    ensures
        milliseconds == if timespec == 0 {
            -1i64
        } else {
            match words {
                None => 0,
                Some((seconds, nanoseconds)) => nearest(
                    nearest(seconds * 1000) + millions(nanoseconds as int),
                ),
            }
        },
{
    if timespec == 0 {
        return -1;
    }
    match words {
        None => 0,
        Some((seconds, nanoseconds)) => {
            let whole: i64 = narrow(seconds as i128 * 1000i128);
            let part: i128 = if nanoseconds >= 0 {
                (nanoseconds as u64 / 1_000_000) as i128
            } else {
                let positive: i128 = -(nanoseconds as i128);
                -((positive as u64 / 1_000_000) as i128)
            };
            narrow(whole as i128 + part)
        },
    }
}

/// `getpid()`.
pub fn getpid(process: Option<u64>) -> (answer: u64)
    ensures
        answer == match process {
            Some(process) => process,
            None => ENOSYS,
        },
{
    match process {
        Some(process) => process,
        None => ENOSYS,
    }
}

/// `ioctl(fd, request, argument)`: the window's device answers for the window,
/// and nothing else is a terminal.
pub fn ioctl(
    windows: &display::State,
    process: Option<u64>,
    descriptor: u64,
    wanted: u64,
) -> (next: Request)
    requires
        windows.wf(),
    ensures
        ({
            let window = process is Some && descriptor <= u32::MAX && windows@.windows.dom().contains(
                (process.unwrap(), descriptor as u32),
            );
            next == if !window {
                Request::Answer(ENOTTY)
            } else if wanted == display::request::INFO {
                Request::Info(descriptor as u32)
            } else if wanted == display::request::PRESENT {
                Request::Present(descriptor as u32)
            } else if wanted == display::request::EVENT {
                Request::Event(descriptor as u32)
            } else {
                Request::Answer(ENOTTY)
            }
        }),
{
    match process {
        None => Request::Answer(ENOTTY),
        Some(process) => {
            if display::is_window(windows, process, descriptor) {
                display::ioctl(true, descriptor, wanted)
            } else {
                Request::Answer(ENOTTY)
            }
        },
    }
}

/// Something to do when a program ends.
#[derive(Clone, Copy, PartialEq, Eq, Structural, Debug)]
pub enum Ending {
    /// Ask every thread of the process to stop.
    Cancel,
    /// Wake every thread of the process, so that each looks.
    Wake,
    /// Record the status.
    Finish(u64),
}

/// What to do, in order, when a program ends.
pub open spec fn endings(has_process: bool, others: usize, status: u64) -> Seq<Ending> {
    if !has_process {
        Seq::empty()
    } else if others > 0 {
        seq![Ending::Cancel, Ending::Wake, Ending::Finish(status)]
    } else {
        seq![Ending::Cancel, Ending::Finish(status)]
    }
}

/// `exit_group(status)`: the whole program stops, and the calling thread with it.
///
/// Every other thread is asked rather than stopped: a thread is the only thing
/// that knows what it is holding. The flag comes before the wakes, because a
/// thread woken first would find nothing and go back to sleep.
pub fn exit(has_process: bool, others: usize, status: u64) -> (steps: Vec<Ending>)
    ensures
        steps@ == endings(has_process, others, status),
{
    let mut steps: Vec<Ending> = Vec::new();
    if has_process {
        steps.push(Ending::Cancel);
        if others > 0 {
            steps.push(Ending::Wake);
        }
        steps.push(Ending::Finish(status));
    }
    assert(steps@ =~= endings(has_process, others, status));
    steps
}

/// The same, for a program of thirty-two bits.
pub fn exit_now(has_process: bool, others: usize, status: u64) -> (steps: Vec<Ending>)
    ensures
        steps@ == endings(has_process, others, status),
{
    exit(has_process, others, status)
}

/// What a thread that exits does.
#[derive(Clone, Copy, PartialEq, Eq, Structural, Debug)]
pub struct ThreadExit {
    /// The word to clear, and whose waiters to wake, while the thread can still
    /// reach it.
    pub clear: Option<u64>,
    /// Whether the program ends with it.
    pub last: bool,
}

/// `exit(status)`: this thread stops, and the program goes on unless it was the
/// last.
///
/// `live` are the threads of the process.
pub fn exit_thread(
    state: &mut threads::State,
    process: Option<u64>,
    here: u64,
    live: &[u64],
) -> (next: ThreadExit)
    requires
        old(state).wf(),
    ensures
        final(state).wf(),
        match process {
            None => {
                &&& next == (ThreadExit { clear: None, last: true })
                &&& final(state)@ == old(state)@
            },
            Some(process) => {
                &&& next.clear == if old(state)@.cleared.dom().contains(here) {
                    Some(old(state)@.cleared[here])
                } else {
                    None
                }
                &&& next.last == (live@.filter(|thread: u64| thread != here).len() == 0)
                &&& final(state)@ == threads::Model {
                    cleared: old(state)@.cleared.remove(here),
                    robust: old(state)@.robust.remove(here),
                    counts: old(state)@.one_fewer(process),
                    ..old(state)@
                }
            },
        },
{
    match process {
        None => ThreadExit { clear: None, last: true },
        Some(process) => {
            let clear: Option<u64> = threads::ending(state, here);
            threads::forget_thread(state, process, here);
            assert(state@.cleared =~= old(state)@.cleared.remove(here));
            let others = threads::siblings(live, here);
            ThreadExit { clear, last: others.len() == 0 }
        },
    }
}

/// The mask of the processors there are, one bit each.
pub open spec fn mask_of(processors: u64) -> u64 {
    if processors >= 64 {
        u64::MAX
    } else if processors == 0 {
        1
    } else {
        ((1u64 << processors) - 1) as u64
    }
}

/// `sched_getaffinity(pid, size, mask)`: every processor there is, because none
/// can be left out here. The answer is the bytes written.
pub fn sched_getaffinity(size: u64, mask: u64, in_range: bool, processors: u64) -> (reply: Reply)
    ensures
        if size < 8 {
            reply.is_plain(EINVAL)
        } else if !in_range {
            reply.is_plain(EFAULT)
        } else {
            reply.is_writing(8, mask, le64(mask_of(processors)))
        },
{
    if size < 8 {
        return Reply::plain(EINVAL);
    }
    if !in_range {
        return Reply::plain(EFAULT);
    }
    let bits: u64 = if processors >= 64 {
        u64::MAX
    } else if processors == 0 {
        1
    } else {
        assert((1u64 << processors) >= 1) by (bit_vector)
            requires
                processors < 64,
        ;
        (1u64 << processors) - 1
    };
    let mut out: Vec<u8> = Vec::new();
    put_u64(&mut out, bits);
    assert(out@ =~= le64(bits));
    Reply::writing(8, mask, out)
}

/// `getcpu(cpu, node)`: the processor the thread is on, which is a hint, and
/// node zero. The first is written even where the second cannot be.
pub fn getcpu(
    processor: u64,
    processor_in_range: bool,
    node: u64,
    node_in_range: bool,
    here: u32,
) -> (reply: Reply)
    ensures
        if processor != 0 && !processor_in_range {
            reply.is_plain(EFAULT)
        } else {
            let first = if processor != 0 {
                seq![(processor, le32(here))]
            } else {
                Seq::empty()
            };
            if node == 0 {
                reply.answer == 0 && reply.written() == first
            } else if node_in_range {
                reply.answer == 0 && reply.written() == first.push((node, le32(0)))
            } else {
                reply.answer == EFAULT && reply.written() == first
            }
        },
{
    let mut reply = Reply::plain(0);
    if processor != 0 {
        if !processor_in_range {
            return Reply::plain(EFAULT);
        }
        let mut out: Vec<u8> = Vec::new();
        put_u32(&mut out, here);
        assert(out@ =~= le32(here));
        reply.and_write(processor, out);
        assert(reply.written() =~= seq![(processor, le32(here))]);
    }
    if node != 0 {
        if !node_in_range {
            let ghost written = reply.written();
            reply.answer = EFAULT;
            assert(reply.written() =~= written);
            return reply;
        }
        let mut out: Vec<u8> = Vec::new();
        put_u32(&mut out, 0);
        assert(out@ =~= le32(0));
        reply.and_write(node, out);
    }
    reply
}

/// The old form of a call and the form that names a directory are one call: the
/// old one is the other with the working directory in front.
pub proof fn law_old_forms_are_the_new_ones(frame: Frame)
    ensures
        ({
            let shifted = Frame {
                rdi: AT_FDCWD as u64,
                rsi: frame.rdi,
                rdx: frame.rsi,
                ..frame
            };
            &&& routed(call::OPEN, frame) == routed(call::OPENAT, shifted)
            &&& routed(call::STAT, frame) == routed(call::NEWFSTATAT, shifted)
            &&& routed(call::ACCESS, frame) == routed(call::FACCESSAT, shifted)
            &&& routed(call::MKDIR, frame) == routed(call::MKDIRAT, shifted)
            &&& routed(call::UNLINK, frame) == routed(call::UNLINKAT, shifted)
            &&& routed(call::RMDIR, frame) == routed(call::UNLINKAT, shifted)
        }),
{
}

/// A call without flags is the call with flags of zero.
pub proof fn law_plain_forms_have_no_flags(frame: Frame)
    ensures
        routed(call::PIPE, frame) == routed(call::PIPE2, Frame { rsi: 0, ..frame }),
        routed(call::ACCEPT, frame) == routed(call::ACCEPT4, Frame { r10: 0, ..frame }),
        routed(call::EPOLL_CREATE, frame) == routed(call::EPOLL_CREATE1, Frame { rdi: 0, ..frame }),
{
}

/// A program is told to stop before it is woken to find out, and its status is
/// recorded last.
pub proof fn law_the_flag_comes_before_the_wakes(others: usize, status: u64)
    ensures
        ({
            let steps = endings(true, others, status);
            &&& steps[0] == Ending::Cancel
            &&& steps.last() == Ending::Finish(status)
            &&& others > 0 ==> steps[1] == Ending::Wake
        }),
{
}

/// A `struct utsname` is six fields of sixty-five bytes, whatever the version is
/// called.
pub proof fn law_utsname_is_six_fields(version: Seq<u8>)
    ensures
        utsname(version).len() == FIELD * FIELDS,
        utsname(version).subrange(3 * FIELD as int, 4 * FIELD as int) == field(version),
        forall|text: Seq<u8>| #[trigger] field(text).last() == 0,
{
    assert(utsname(version).subrange(3 * FIELD as int, 4 * FIELD as int) =~= field(version));
}

} // verus!
