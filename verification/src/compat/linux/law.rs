//! What a program counts on: which number is which call, which register holds
//! which argument, and what stands where in an answer.
//!
//! The numbers and the places are the program's side of the door: they are
//! stated here as such, one at a time.
use vstd::prelude::*;

#[allow(unused_imports)]
use super::{
    clock_of, endings, mask_of, millions, nearest, routed, utsname, Call, Ending, GET_FS, SET_FS,
};
#[allow(unused_imports)]
use crate::compat::error::{EINVAL, ENOMEM};
#[allow(unused_imports)]
use crate::compat::frame::Frame;
#[allow(unused_imports)]
use crate::compat::linux_more::{self as more, MONOTONIC, REALTIME};
#[allow(unused_imports)]
use crate::compat::vectors::MAX_IOV;

verus! {

/// The calls on files take their arguments in the order of their prototypes: the
/// first in `rdi`, the second in `rsi`, the third in `rdx` and the fourth in
/// `r10`.
pub proof fn law_file_calls_take_their_registers(frame: Frame)
    ensures
        routed(0, frame) == (Call::Read {
            descriptor: frame.rdi,
            buffer: frame.rsi,
            length: frame.rdx,
        }),
        routed(1, frame) == (Call::Write {
            descriptor: frame.rdi,
            buffer: frame.rsi,
            length: frame.rdx,
        }),
        routed(3, frame) == (Call::Close { descriptor: frame.rdi }),
        routed(5, frame) == (Call::Fstat { descriptor: frame.rdi, out: frame.rsi }),
        routed(8, frame) == (Call::Lseek {
            descriptor: frame.rdi,
            offset: frame.rsi,
            whence: frame.rdx,
        }),
        routed(17, frame) == (Call::Pread64 {
            descriptor: frame.rdi,
            buffer: frame.rsi,
            length: frame.rdx,
            offset: frame.r10,
        }),
        routed(20, frame) == (Call::Writev {
            descriptor: frame.rdi,
            vectors: frame.rsi,
            count: frame.rdx,
        }),
        routed(217, frame) == (Call::Getdents64 {
            descriptor: frame.rdi,
            buffer: frame.rsi,
            length: frame.rdx,
        }),
        routed(77, frame) == (Call::Ftruncate { descriptor: frame.rdi, length: frame.rsi }),
        routed(79, frame) == (Call::Getcwd { buffer: frame.rdi, size: frame.rsi }),
        routed(318, frame) == (Call::Getrandom { buffer: frame.rdi, length: frame.rsi }),
        routed(319, frame) == (Call::MemfdCreate { name: frame.rdi, flags: frame.rsi }),
        routed(16, frame) == (Call::Ioctl {
            descriptor: frame.rdi,
            request: frame.rsi,
            argument: frame.rdx,
        }),
{
}

/// A call that names a directory has it in `rdi` and the path in `rsi`. One that
/// does not has the path in `rdi`, and looks from the working directory.
pub proof fn law_path_calls_take_their_registers(frame: Frame)
    ensures
        routed(257, frame) == (Call::Openat {
            directory: frame.rdi,
            path: frame.rsi,
            flags: frame.rdx,
        }),
        routed(2, frame) == (Call::Openat {
            directory: 0xFFFF_FF9C,
            path: frame.rdi,
            flags: frame.rsi,
        }),
        routed(262, frame) == (Call::Newfstatat {
            directory: frame.rdi,
            path: frame.rsi,
            out: frame.rdx,
        }),
        routed(4, frame) == (Call::Newfstatat {
            directory: 0xFFFF_FF9C,
            path: frame.rdi,
            out: frame.rsi,
        }),
        routed(269, frame) == (Call::Faccessat { directory: frame.rdi, path: frame.rsi }),
        routed(21, frame) == (Call::Faccessat { directory: 0xFFFF_FF9C, path: frame.rdi }),
        routed(258, frame) == (Call::Mkdirat { directory: frame.rdi, path: frame.rsi }),
        routed(83, frame) == (Call::Mkdirat { directory: 0xFFFF_FF9C, path: frame.rdi }),
        routed(263, frame) == (Call::Unlinkat { directory: frame.rdi, path: frame.rsi }),
        routed(87, frame) == (Call::Unlinkat { directory: 0xFFFF_FF9C, path: frame.rdi }),
        routed(84, frame) == (Call::Unlinkat { directory: 0xFFFF_FF9C, path: frame.rdi }),
        routed(59, frame) == (Call::Execve {
            path: frame.rdi,
            arguments: frame.rsi,
            environment: frame.rdx,
        }),
{
}

/// A copy is made from the descriptor in `rdi` to the one in `rsi`, and `dup3`
/// refuses exactly the case that the two are one. The ends of a pipe are written
/// where `rdi` says.
pub proof fn law_descriptor_calls_take_their_registers(frame: Frame)
    ensures
        routed(32, frame) == (Call::Dup { descriptor: frame.rdi }),
        routed(33, frame) == (Call::Dup2 { from: frame.rdi, to: frame.rsi }),
        frame.rdi == frame.rsi ==> routed(292, frame) == Call::Answer(EINVAL),
        frame.rdi != frame.rsi ==> routed(292, frame) == (Call::Dup2 {
            from: frame.rdi,
            to: frame.rsi,
        }),
        routed(22, frame) == (Call::Pipe2 { ends: frame.rdi, flags: 0 }),
        routed(293, frame) == (Call::Pipe2 { ends: frame.rdi, flags: frame.rsi }),
{
}

/// The calls on sockets: the descriptor in `rdi`, an address or a buffer in
/// `rsi`, its length in `rdx` and the flags in `r10`.
pub proof fn law_socket_calls_take_their_registers(frame: Frame)
    ensures
        routed(41, frame) == (Call::Socket {
            family: frame.rdi,
            kind: frame.rsi,
            protocol: frame.rdx,
        }),
        routed(53, frame) == (Call::Socketpair {
            family: frame.rdi,
            kind: frame.rsi,
            protocol: frame.rdx,
            fds: frame.r10,
        }),
        routed(49, frame) == (Call::Bind {
            descriptor: frame.rdi,
            address: frame.rsi,
            length: frame.rdx,
        }),
        routed(50, frame) == (Call::Listen { descriptor: frame.rdi, backlog: frame.rsi }),
        routed(42, frame) == (Call::Connect {
            descriptor: frame.rdi,
            address: frame.rsi,
            length: frame.rdx,
        }),
        routed(43, frame) == (Call::Accept {
            descriptor: frame.rdi,
            address: frame.rsi,
            length: frame.rdx,
            flags: 0,
        }),
        routed(288, frame) == (Call::Accept {
            descriptor: frame.rdi,
            address: frame.rsi,
            length: frame.rdx,
            flags: frame.r10,
        }),
        routed(44, frame) == (Call::Send {
            descriptor: frame.rdi,
            buffer: frame.rsi,
            length: frame.rdx,
            flags: frame.r10,
        }),
        routed(45, frame) == (Call::Receive {
            descriptor: frame.rdi,
            buffer: frame.rsi,
            length: frame.rdx,
            flags: frame.r10,
        }),
        routed(46, frame) == (Call::Sendmsg {
            descriptor: frame.rdi,
            message: frame.rsi,
            flags: frame.rdx,
        }),
        routed(47, frame) == (Call::Recvmsg {
            descriptor: frame.rdi,
            message: frame.rsi,
            flags: frame.rdx,
        }),
        routed(48, frame) == (Call::Shutdown { descriptor: frame.rdi, how: frame.rsi }),
        routed(54, frame) == (Call::Setsockopt {
            descriptor: frame.rdi,
            level: frame.rsi,
            option: frame.rdx,
        }),
        routed(55, frame) == (Call::Setsockopt {
            descriptor: frame.rdi,
            level: frame.rsi,
            option: frame.rdx,
        }),
        routed(51, frame) == (Call::UnnamedAddress { address: frame.rsi, length: frame.rdx }),
        routed(52, frame) == (Call::UnnamedAddress { address: frame.rsi, length: frame.rdx }),
{
}

/// The calls that wait for descriptors: the list or the set in `rdi`, and how
/// long to wait behind everything else.
pub proof fn law_waiting_calls_take_their_registers(frame: Frame)
    ensures
        routed(7, frame) == (Call::Poll {
            descriptors: frame.rdi,
            count: frame.rsi,
            milliseconds: frame.rdx,
        }),
        routed(271, frame) == (Call::Ppoll {
            descriptors: frame.rdi,
            count: frame.rsi,
            timespec: frame.rdx,
        }),
        routed(213, frame) == (Call::EpollCreate { flags: 0 }),
        routed(291, frame) == (Call::EpollCreate { flags: frame.rdi }),
        routed(233, frame) == (Call::EpollControl {
            set: frame.rdi,
            operation: frame.rsi,
            descriptor: frame.rdx,
            event: frame.r10,
        }),
        routed(232, frame) == (Call::EpollWait {
            set: frame.rdi,
            events: frame.rsi,
            most: frame.rdx,
            milliseconds: frame.r10,
        }),
        routed(281, frame) == (Call::EpollWait {
            set: frame.rdi,
            events: frame.rsi,
            most: frame.rdx,
            milliseconds: frame.r10,
        }),
{
}

/// The calls on memory: the address in `rdi`, the length in `rsi` and the
/// protection in `rdx`. A mapping has its flags in `r10`, the descriptor in `r8`
/// and the place in the file in `r9`. The break never moves.
pub proof fn law_memory_calls_take_their_registers(frame: Frame)
    ensures
        routed(9, frame) == (Call::Mmap {
            address: frame.rdi,
            length: frame.rsi,
            protection: frame.rdx,
            flags: frame.r10,
            descriptor: frame.r8,
            offset: frame.r9,
        }),
        routed(11, frame) == (Call::Munmap { address: frame.rdi, length: frame.rsi }),
        routed(10, frame) == (Call::Mprotect {
            address: frame.rdi,
            length: frame.rsi,
            protection: frame.rdx,
        }),
        routed(12, frame) == Call::Answer(ENOMEM),
{
}

/// The calls on threads, and on the processor one runs on.
pub proof fn law_thread_calls_take_their_registers(frame: Frame)
    ensures
        routed(56, frame) == (Call::Clone {
            flags: frame.rdi,
            stack: frame.rsi,
            parent_tid: frame.rdx,
            child_tid: frame.r10,
            tls: frame.r8,
        }),
        routed(202, frame) == (Call::Futex {
            address: frame.rdi,
            operation: frame.rsi,
            expected: frame.rdx,
            timeout: frame.r10,
        }),
        routed(273, frame) == (Call::SetRobustList { head: frame.rdi, length: frame.rsi }),
        routed(274, frame) == (Call::GetRobustList { out_head: frame.rsi, out_length: frame.rdx }),
        routed(24, frame) == Call::SchedYield,
        routed(204, frame) == (Call::SchedGetaffinity { size: frame.rsi, mask: frame.rdx }),
        routed(309, frame) == (Call::Getcpu { processor: frame.rdi, node: frame.rsi }),
        routed(158, frame) == (Call::ArchPrctl { code: frame.rdi, address: frame.rsi }),
        routed(218, frame) == Call::Gettid,
        routed(186, frame) == Call::Gettid,
        routed(60, frame) == (Call::ExitThread { status: frame.rdi }),
        routed(231, frame) == (Call::Exit { status: frame.rdi }),
{
}

/// The calls on signals. `tgkill` has a thread between the process and the
/// signal; the four that are refused by name are not carried out.
pub proof fn law_signal_calls_take_their_registers(frame: Frame)
    ensures
        routed(13, frame) == (Call::Sigaction {
            signal: frame.rdi,
            new: frame.rsi,
            past: frame.rdx,
            size: frame.r10,
        }),
        routed(14, frame) == (Call::Sigprocmask {
            how: frame.rdi,
            new: frame.rsi,
            past: frame.rdx,
            size: frame.r10,
        }),
        routed(15, frame) == Call::Sigreturn,
        routed(62, frame) == (Call::Kill { target: frame.rdi, signal: frame.rsi }),
        routed(234, frame) == (Call::Kill { target: frame.rdi, signal: frame.rdx }),
        routed(131, frame) == Call::NotTranslated,
        routed(130, frame) == Call::NotTranslated,
        routed(127, frame) == Call::NotTranslated,
        routed(128, frame) == Call::NotTranslated,
{
}

/// The calls that ask who and where the program is, and what time it is. Every
/// user and every group is number zero.
pub proof fn law_asking_calls_take_their_registers(frame: Frame)
    ensures
        routed(39, frame) == Call::Getpid,
        routed(102, frame) == Call::Answer(0),
        routed(104, frame) == Call::Answer(0),
        routed(107, frame) == Call::Answer(0),
        routed(108, frame) == Call::Answer(0),
        routed(63, frame) == (Call::Uname { buffer: frame.rdi }),
        routed(228, frame) == (Call::ClockGettime { which: frame.rdi, buffer: frame.rsi }),
{
}

/// The calls a C library makes before it will start: `madvise` has its advice
/// behind an address and a length, and `readlinkat` its path behind a directory.
pub proof fn law_library_calls_take_their_registers(frame: Frame)
    ensures
        routed(35, frame) == Call::More(more::Call::Nanosleep { request: frame.rdi, remaining: frame.rsi }),
        routed(230, frame) == Call::More(
            more::Call::ClockNanosleep {
                clock: frame.rdi,
                flags: frame.rsi,
                request: frame.rdx,
                remaining: frame.r10,
            },
        ),
        routed(96, frame) == Call::More(more::Call::Gettimeofday { time: frame.rdi }),
        routed(201, frame) == Call::More(more::Call::Time { out: frame.rdi }),
        routed(97, frame) == Call::More(more::Call::Getrlimit { resource: frame.rdi, out: frame.rsi }),
        routed(302, frame) == Call::More(
            more::Call::Prlimit64 {
                pid: frame.rdi,
                resource: frame.rsi,
                new: frame.rdx,
                past: frame.r10,
            },
        ),
        routed(99, frame) == Call::More(more::Call::Sysinfo { out: frame.rdi }),
        routed(28, frame) == Call::More(more::Call::Madvise { advice: frame.rdx }),
        routed(324, frame) == Call::More(more::Call::Membarrier { command: frame.rdi }),
        routed(74, frame) == Call::More(more::Call::Fsync { descriptor: frame.rdi }),
        routed(75, frame) == Call::More(more::Call::Fsync { descriptor: frame.rdi }),
        routed(19, frame) == Call::More(
            more::Call::Readv {
                descriptor: frame.rdi,
                vectors: frame.rsi,
                count: frame.rdx,
            },
        ),
        routed(6, frame) == Call::More(
            more::Call::Newfstatat {
                directory: 0xFFFF_FF9C,
                path: frame.rdi,
                out: frame.rsi,
            },
        ),
        routed(89, frame) == Call::More(more::Call::Readlink { path: frame.rdi }),
        routed(267, frame) == Call::More(more::Call::Readlink { path: frame.rsi }),
{
}

/// Whether a number is one of a call that is known here.
pub open spec fn is_known(number: u64) -> bool {
    ||| number <= 17
    ||| 19 <= number <= 22
    ||| number == 24
    ||| number == 28
    ||| 32 <= number <= 33
    ||| number == 35
    ||| number == 39
    ||| 41 <= number <= 56
    ||| 59 <= number <= 60
    ||| 62 <= number <= 63
    ||| 74 <= number <= 75
    ||| number == 77
    ||| number == 79
    ||| 83 <= number <= 84
    ||| number == 87
    ||| number == 89
    ||| 96 <= number <= 97
    ||| number == 99
    ||| number == 102
    ||| number == 104
    ||| 107 <= number <= 108
    ||| 127 <= number <= 128
    ||| 130 <= number <= 131
    ||| number == 158
    ||| number == 186
    ||| 201 <= number <= 202
    ||| number == 204
    ||| number == 213
    ||| 217 <= number <= 218
    ||| number == 228
    ||| 230 <= number <= 234
    ||| 257 <= number <= 258
    ||| 262 <= number <= 263
    ||| number == 267
    ||| number == 269
    ||| number == 271
    ||| 273 <= number <= 274
    ||| number == 281
    ||| number == 288
    ||| 291 <= number <= 293
    ||| number == 302
    ||| number == 309
    ||| 318 <= number <= 319
    ||| number == 324
}

/// Every other number is no call, whatever the registers hold, and only a call
/// that is not carried out counts as refused: shutting down one half of a socket,
/// the four signal calls that are refused by name, and a number that is no call.
pub proof fn law_no_other_number_is_a_call(number: u64, frame: Frame)
    ensures
        routed(number, frame) == Call::Unknown <==> !is_known(number),
        routed(number, frame).refused() <==> !is_known(number) || number == 48 || number == 127
            || number == 128 || number == 130 || number == 131,
{
}

/// What a program reads in a `struct utsname`: six texts, 65 bytes apart, each
/// with zeros behind it. The version is the kernel's own, as much of it as leaves
/// room for one zero.
pub proof fn law_the_machine_says_what_it_is(version: Seq<u8>)
    ensures
        ({
            let name = utsname(version);
            &&& name.len() == 390
            &&& name.subrange(0, 8) == seq![0x4Eu8, 0x65, 0x78, 0x75, 0x73, 0x4F, 0x53, 0]
            &&& name.subrange(65, 71) == seq![0x6Eu8, 0x65, 0x78, 0x75, 0x73, 0]
            &&& name.subrange(130, 138) == seq![0x4Eu8, 0x65, 0x78, 0x75, 0x73, 0x4F, 0x53, 0x2D]
            &&& name.subrange(138, 145) == seq![0x63u8, 0x6F, 0x6D, 0x70, 0x61, 0x74, 0]
            &&& name.subrange(260, 267) == seq![0x78u8, 0x38, 0x36, 0x5F, 0x36, 0x34, 0]
            &&& name.subrange(325, 332) == seq![0x28u8, 0x6E, 0x6F, 0x6E, 0x65, 0x29, 0]
            &&& forall|i: int|
                0 <= i < 65 ==> #[trigger] name[195 + i] == if i < 64 && i < version.len() {
                    version[i]
                } else {
                    0
                }
            &&& forall|i: int| 7 <= i < 65 ==> #[trigger] name[i] == 0
            &&& forall|i: int| 70 <= i < 130 ==> #[trigger] name[i] == 0
            &&& forall|i: int| 144 <= i < 195 ==> #[trigger] name[i] == 0
            &&& forall|i: int| 266 <= i < 325 ==> #[trigger] name[i] == 0
            &&& forall|i: int| 331 <= i < 390 ==> #[trigger] name[i] == 0
        }),
{
    let name = utsname(version);
    assert(name.len() == 390);
    assert(name.subrange(0, 8) =~= seq![0x4Eu8, 0x65, 0x78, 0x75, 0x73, 0x4F, 0x53, 0]);
    assert(name.subrange(65, 71) =~= seq![0x6Eu8, 0x65, 0x78, 0x75, 0x73, 0]);
    assert(name.subrange(130, 138) =~= seq![0x4Eu8, 0x65, 0x78, 0x75, 0x73, 0x4F, 0x53, 0x2D]);
    assert(name.subrange(138, 145) =~= seq![0x63u8, 0x6F, 0x6D, 0x70, 0x61, 0x74, 0]);
    assert(name.subrange(260, 267) =~= seq![0x78u8, 0x38, 0x36, 0x5F, 0x36, 0x34, 0]);
    assert(name.subrange(325, 332) =~= seq![0x28u8, 0x6E, 0x6F, 0x6E, 0x65, 0x29, 0]);
}

/// The clock of the day, number zero, is the machine's in whole seconds. The
/// other, number one, has every millisecond the machine has been up and does not
/// look at the machine's clock, which also stands in for one that is missing.
pub proof fn law_two_clocks(clock: Option<u64>, uptime_ms: u64)
    ensures
        clock matches Some(now) ==> clock_of(0, clock, uptime_ms) == (now, 0u64),
        clock is None ==> clock_of(0, clock, uptime_ms) == ((uptime_ms / 1000) as u64, 0u64),
        ({
            let (seconds, nanoseconds) = clock_of(1, clock, uptime_ms);
            &&& seconds * 1000 + nanoseconds / 1_000_000 == uptime_ms
            &&& nanoseconds < 1_000_000_000
            &&& nanoseconds % 1_000_000 == 0
        }),
{
}

/// A wait is given in milliseconds: what fits is kept as it is, what does not is
/// the nearest that does, and a part of a millisecond is dropped towards zero.
pub proof fn law_a_wait_is_the_nearest_there_is(value: int)
    ensures
        -0x8000_0000_0000_0000 <= value <= 0x7FFF_FFFF_FFFF_FFFF ==> nearest(value) == value,
        value > 0x7FFF_FFFF_FFFF_FFFF ==> nearest(value) == 0x7FFF_FFFF_FFFF_FFFF,
        value < -0x8000_0000_0000_0000 ==> nearest(value) == -0x8000_0000_0000_0000,
        value >= 0 ==> millions(value) * 1_000_000 <= value < (millions(value) + 1) * 1_000_000,
        value <= 0 ==> (millions(value) - 1) * 1_000_000 < value <= millions(value) * 1_000_000,
{
}

/// The mask has the bit of each processor there is, and of no other. There is
/// always the one that is asking, and a mask has room for 64.
pub proof fn law_one_bit_for_each_processor(processors: u64, which: u64)
    requires
        which < 64,
    ensures
        (mask_of(processors) >> which) & 1 == 1 <==> which < processors || which == 0,
{
    assert((u64::MAX >> which) & 1 == 1 && ((1u64 >> which) & 1 == 1 <==> which == 0)) by (bit_vector)
        requires
            which < 64,
    ;
    if 0 < processors < 64 {
        assert((1u64 << processors) >= 1 && (((((1u64 << processors) - 1) as u64) >> which) & 1 == 1
            <==> which < processors)) by (bit_vector)
            requires
                which < 64,
                0 < processors < 64,
        ;
    }
}

/// A program that ends is told to stop and then its status is recorded; threads
/// are woken in between exactly where there are others. Without a process there
/// is nothing to end.
pub proof fn law_an_ending_in_full(others: usize, status: u64)
    ensures
        endings(true, 0, status) == seq![Ending::Cancel, Ending::Finish(status)],
        others > 0 ==> endings(true, others, status) == seq![
            Ending::Cancel,
            Ending::Wake,
            Ending::Finish(status),
        ],
        endings(false, others, status).len() == 0,
{
}

/// The codes of `arch_prctl`, the clocks and the number of pieces a call may
/// have.
pub proof fn law_codes_a_program_knows()
    ensures
        SET_FS == 0x1002,
        GET_FS == 0x1003,
        REALTIME == 0,
        MONOTONIC == 1,
        MAX_IOV == 64,
{
}

} // verus!
