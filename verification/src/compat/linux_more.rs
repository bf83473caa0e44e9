//! The calls a C library asks for before it will start.
//!
//! What can be answered truthfully is answered, and the rest is left to be
//! refused: a library is required to handle a missing call, and cannot detect a
//! wrong answer.
use vstd::prelude::*;

use crate::bytes::{le64, put_u64, put_zeros};
use crate::bytes::{le16, le32, put_u16, put_u32};
#[allow(unused_imports)]
use crate::bytes::{lemma_numbers_among_bytes, u16_at, u32_at, u64_at};
use crate::compat::error::{EBADF, EFAULT, EINVAL, EIO, ENOSYS, EPERM};
use crate::compat::frame::Frame;
use crate::compat::linux_files::AT_FDCWD;
use crate::compat::reply::Reply;
use crate::compat::vectors::{Vectors, MAX_IOV};
#[allow(unused_imports)]
use crate::compat::vectors::{holding, pieces_of};

pub mod call;

verus! {

/// Where there is no limit.
pub const INFINITY: u64 = 0xFFFF_FFFF_FFFF_FFFF;

/// How many open files a program is told to stay under: a policy, because a
/// library told that there is no limit closes every number up to it.
pub const NOFILE_LIMIT: u64 = 1024;

/// The resource that counts open files.
pub const NOFILE: u64 = 7;

/// The clock of the day.
pub const REALTIME: u64 = 0;

/// The clock that only goes forward.
pub const MONOTONIC: u64 = 1;

/// Sleep until a moment rather than for a while.
pub const TIMER_ABSTIME: u64 = 1;

/// Bytes in a `struct sysinfo`.
pub const SYSINFO_BYTES: u64 = 112;

/// Bytes in a page.
pub const PAGE: u64 = 4096;

/// One of these calls and its arguments.
#[derive(Clone, Copy, PartialEq, Eq, Structural, Debug)]
pub enum Call {
    /// The request and where to write what is left.
    Nanosleep { request: u64, remaining: u64 },
    ClockNanosleep { clock: u64, flags: u64, request: u64, remaining: u64 },
    Gettimeofday { time: u64 },
    Time { out: u64 },
    Getrlimit { resource: u64, out: u64 },
    Prlimit64 { pid: u64, resource: u64, new: u64, past: u64 },
    Sysinfo { out: u64 },
    Madvise { advice: u64 },
    Membarrier { command: u64 },
    Fsync { descriptor: u64 },
    Readv { descriptor: u64, vectors: u64, count: u64 },
    /// `newfstatat`: there are no symbolic links for `lstat` not to follow.
    Newfstatat { directory: u64, path: u64, out: u64 },
    Readlink { path: u64 },
}

/// Which of these calls a number is.
pub open spec fn translated(number: u64, frame: Frame) -> Option<Call> {
    match number {
        call::NANOSLEEP => Some(Call::Nanosleep { request: frame.rdi, remaining: frame.rsi }),
        call::CLOCK_NANOSLEEP => Some(
            Call::ClockNanosleep {
                clock: frame.rdi,
                flags: frame.rsi,
                request: frame.rdx,
                remaining: frame.r10,
            },
        ),
        call::GETTIMEOFDAY => Some(Call::Gettimeofday { time: frame.rdi }),
        call::TIME => Some(Call::Time { out: frame.rdi }),
        call::GETRLIMIT => Some(Call::Getrlimit { resource: frame.rdi, out: frame.rsi }),
        call::PRLIMIT64 => Some(
            Call::Prlimit64 {
                pid: frame.rdi,
                resource: frame.rsi,
                new: frame.rdx,
                past: frame.r10,
            },
        ),
        call::SYSINFO => Some(Call::Sysinfo { out: frame.rdi }),
        call::MADVISE => Some(Call::Madvise { advice: frame.rdx }),
        call::MEMBARRIER => Some(Call::Membarrier { command: frame.rdi }),
        call::FSYNC => Some(Call::Fsync { descriptor: frame.rdi }),
        call::FDATASYNC => Some(Call::Fsync { descriptor: frame.rdi }),
        call::READV => Some(
            Call::Readv { descriptor: frame.rdi, vectors: frame.rsi, count: frame.rdx },
        ),
        call::LSTAT => Some(
            Call::Newfstatat { directory: AT_FDCWD as u64, path: frame.rdi, out: frame.rsi },
        ),
        call::READLINK => Some(Call::Readlink { path: frame.rdi }),
        call::READLINKAT => Some(Call::Readlink { path: frame.rsi }),
        _ => None,
    }
}

/// Which of these calls a number is, if it is one, with the arguments it takes
/// from the registers.
pub fn translate(number: u64, frame: &Frame) -> (found: Option<Call>)
    ensures
        found == translated(number, *frame),
{
    match number {
        call::NANOSLEEP => Some(Call::Nanosleep { request: frame.rdi, remaining: frame.rsi }),
        call::CLOCK_NANOSLEEP => Some(
            Call::ClockNanosleep {
                clock: frame.rdi,
                flags: frame.rsi,
                request: frame.rdx,
                remaining: frame.r10,
            },
        ),
        call::GETTIMEOFDAY => Some(Call::Gettimeofday { time: frame.rdi }),
        call::TIME => Some(Call::Time { out: frame.rdi }),
        call::GETRLIMIT => Some(Call::Getrlimit { resource: frame.rdi, out: frame.rsi }),
        call::PRLIMIT64 => Some(
            Call::Prlimit64 {
                pid: frame.rdi,
                resource: frame.rsi,
                new: frame.rdx,
                past: frame.r10,
            },
        ),
        call::SYSINFO => Some(Call::Sysinfo { out: frame.rdi }),
        call::MADVISE => Some(Call::Madvise { advice: frame.rdx }),
        call::MEMBARRIER => Some(Call::Membarrier { command: frame.rdi }),
        call::FSYNC => Some(Call::Fsync { descriptor: frame.rdi }),
        call::FDATASYNC => Some(Call::Fsync { descriptor: frame.rdi }),
        call::READV => Some(
            Call::Readv { descriptor: frame.rdi, vectors: frame.rsi, count: frame.rdx },
        ),
        call::LSTAT => Some(
            Call::Newfstatat { directory: AT_FDCWD as u64, path: frame.rdi, out: frame.rsi },
        ),
        call::READLINK => Some(Call::Readlink { path: frame.rdi }),
        call::READLINKAT => Some(Call::Readlink { path: frame.rsi }),
        _ => None,
    }
}

/// The time of day: the machine's clock where it has one, and otherwise how long
/// it has been up. Seconds, and the nanoseconds past them.
pub open spec fn of_day(clock: Option<u64>, uptime_ms: u64) -> (u64, u64) {
    (
        match clock {
            Some(now) => now,
            None => uptime_ms / 1000,
        },
        ((uptime_ms % 1000) * 1_000_000) as u64,
    )
}

/// The time of day, as seconds and nanoseconds.
pub fn wall_clock(clock: Option<u64>, uptime_ms: u64) -> (time: (u64, u64))
    ensures
        time == of_day(clock, uptime_ms),
{
    let nanoseconds: u64 = (uptime_ms % 1000) * 1_000_000;
    match clock {
        Some(now) => (now, nanoseconds),
        None => (uptime_ms / 1000, nanoseconds),
    }
}

/// How long a sleep is, in whole milliseconds, rounded up: a sleep that returns
/// early is the one failure a sleeping program cannot detect.
pub open spec fn sleep_of(seconds: i64, nanoseconds: i64) -> u64 {
    let whole = if seconds * 1000 > u64::MAX {
        u64::MAX as int
    } else {
        seconds * 1000
    };
    let all = whole + (nanoseconds + 999_999) / 1_000_000;
    if all > u64::MAX {
        u64::MAX
    } else {
        all as u64
    }
}

/// `nanosleep(request, remaining)`: how many milliseconds to sleep, where that
/// is any, or a refusal. [`slept`] finishes.
///
/// `request` is the two words of the program's `timespec`, if it has them.
pub fn nanosleep(request: Option<(i64, i64)>) -> (sleep: Result<u64, u64>)
    ensures
        sleep == match request {
            None => Err::<u64, u64>(EFAULT),
            Some((seconds, nanoseconds)) => if seconds < 0 || nanoseconds < 0 || nanoseconds
                >= 1_000_000_000 {
                Err(EINVAL)
            } else {
                Ok(sleep_of(seconds, nanoseconds))
            },
        },
{
    match request {
        None => Err(EFAULT),
        Some((seconds, nanoseconds)) => {
            if seconds < 0 || nanoseconds < 0 || nanoseconds >= 1_000_000_000 {
                return Err(EINVAL);
            }
            let whole: u64 = if seconds as u64 > u64::MAX / 1000 {
                u64::MAX
            } else {
                seconds as u64 * 1000
            };
            let part: u64 = (nanoseconds as u64 + 999_999) / 1_000_000;
            Ok(whole.saturating_add(part))
        },
    }
}

/// `clock_nanosleep`: whether it is a [`nanosleep`].
///
/// Sleeping until a moment is refused rather than taken for sleeping a while.
pub fn clock_nanosleep(clock: u64, flags: u64) -> (go: Result<(), u64>)
    ensures
        go == if clock != REALTIME && clock != MONOTONIC {
            Err::<(), u64>(EINVAL)
        } else if flags & TIMER_ABSTIME != 0 {
            Err(ENOSYS)
        } else {
            Ok(())
        },
{
    if clock != REALTIME && clock != MONOTONIC {
        return Err(EINVAL);
    }
    if flags & TIMER_ABSTIME != 0 {
        return Err(ENOSYS);
    }
    Ok(())
}

/// Two words, as a program finds them in memory.
pub open spec fn two(first: u64, second: u64) -> Seq<u8> {
    le64(first) + le64(second)
}

fn put_two(first: u64, second: u64) -> (out: Vec<u8>)
    ensures
        out@ == two(first, second),
{
    let mut out: Vec<u8> = Vec::new();
    put_u64(&mut out, first);
    put_u64(&mut out, second);
    assert(out@ =~= two(first, second));
    out
}

/// Finish a sleep: nothing of it is left, which is written where asked for.
pub fn slept(remaining: u64, in_range: bool) -> (reply: Reply)
    ensures
        if remaining != 0 && in_range {
            reply.is_writing(0, remaining, two(0, 0))
        } else {
            reply.is_plain(0)
        },
{
    if remaining != 0 && in_range {
        Reply::writing(0, remaining, put_two(0, 0))
    } else {
        Reply::plain(0)
    }
}

/// `gettimeofday(time, zone)`: seconds and microseconds. The zone is ignored.
pub fn gettimeofday(pointer: u64, in_range: bool, clock: Option<u64>, uptime_ms: u64) -> (reply:
    Reply)
    ensures
        if pointer == 0 {
            reply.is_plain(0)
        } else if !in_range {
            reply.is_plain(EFAULT)
        } else {
            let (seconds, nanoseconds) = of_day(clock, uptime_ms);
            reply.is_writing(0, pointer, two(seconds, nanoseconds / 1000))
        },
{
    if pointer == 0 {
        return Reply::plain(0);
    }
    if !in_range {
        return Reply::plain(EFAULT);
    }
    let (seconds, nanoseconds) = wall_clock(clock, uptime_ms);
    Reply::writing(0, pointer, put_two(seconds, nanoseconds / 1000))
}

/// `time(out)`.
pub fn time(pointer: u64, in_range: bool, clock: Option<u64>, uptime_ms: u64) -> (reply: Reply)
    ensures
        if pointer == 0 {
            reply.is_plain(of_day(clock, uptime_ms).0)
        } else if !in_range {
            reply.is_plain(EFAULT)
        } else {
            reply.is_writing(
                of_day(clock, uptime_ms).0,
                pointer,
                le64(of_day(clock, uptime_ms).0),
            )
        },
{
    let (seconds, _) = wall_clock(clock, uptime_ms);
    if pointer == 0 {
        return Reply::plain(seconds);
    }
    if !in_range {
        return Reply::plain(EFAULT);
    }
    let mut out: Vec<u8> = Vec::new();
    put_u64(&mut out, seconds);
    assert(out@ =~= le64(seconds));
    Reply::writing(seconds, pointer, out)
}

/// The limit on a resource: the soft one and the hard one are the same.
pub open spec fn limit_of(resource: u64) -> u64 {
    if resource == NOFILE {
        NOFILE_LIMIT
    } else {
        INFINITY
    }
}

/// Write a limit, soft and hard.
pub fn write_limit(pointer: u64, in_range: bool, soft: u64, hard: u64) -> (reply: Reply)
    ensures
        if in_range {
            reply.is_writing(0, pointer, two(soft, hard))
        } else {
            reply.is_plain(EFAULT)
        },
{
    if !in_range {
        return Reply::plain(EFAULT);
    }
    Reply::writing(0, pointer, put_two(soft, hard))
}

/// `getrlimit(resource, out)`.
pub fn getrlimit(resource: u64, out: u64, in_range: bool) -> (reply: Reply)
    ensures
        if in_range {
            reply.is_writing(0, out, two(limit_of(resource), limit_of(resource)))
        } else {
            reply.is_plain(EFAULT)
        },
{
    let limit: u64 = if resource == NOFILE {
        NOFILE_LIMIT
    } else {
        INFINITY
    };
    write_limit(out, in_range, limit, limit)
}

/// `prlimit64(pid, resource, new, old)`.
///
/// Setting is refused rather than accepted and ignored, after the limit in force
/// has been written where that was asked for too.
pub fn prlimit64(pid: u64, resource: u64, new: u64, past: u64, past_in_range: bool) -> (reply:
    Reply)
    ensures
        if pid != 0 {
            reply.is_plain(EINVAL)
        } else if past != 0 && !past_in_range {
            reply.is_plain(EFAULT)
        } else {
            &&& reply.answer == if new != 0 {
                EPERM
            } else {
                0
            }
            &&& reply.written() == if past != 0 {
                seq![(past, two(limit_of(resource), limit_of(resource)))]
            } else {
                Seq::empty()
            }
        },
{
    if pid != 0 {
        return Reply::plain(EINVAL);
    }
    let mut reply = if past != 0 {
        getrlimit(resource, past, past_in_range)
    } else {
        Reply::plain(0)
    };
    if reply.answer != 0 {
        return reply;
    }
    if new != 0 {
        let ghost written = reply.written();
        reply.answer = EPERM;
        assert(reply.written() =~= written);
    }
    reply
}

/// What memory and time the machine has.
#[derive(Clone, Copy, PartialEq, Eq, Structural, Debug)]
pub struct Machine {
    pub uptime_ms: u64,
    pub managed_frames: u64,
    pub free_frames: u64,
    pub processes: u16,
}

/// The zero bytes between the fields.
pub open spec fn gap(many: nat) -> Seq<u8> {
    Seq::new(many, |i: int| 0u8)
}

/// A `struct sysinfo`: the uptime in seconds, the memory there is and the memory
/// that is free in bytes, how many processes there are, and at the end the unit
/// of the memory figures, which is one. Everything else is zero.
pub open spec fn sysinfo_of(machine: Machine) -> Seq<u8> {
    le64(machine.uptime_ms / 1000) + gap(24) + le64((machine.managed_frames * PAGE) as u64) + le64(
        (machine.free_frames * PAGE) as u64,
    ) + gap(32) + le16(machine.processes) + gap(22) + le32(1) + gap(4)
}

/// `sysinfo(out)`.
///
/// Without figures for the memory nothing is made up: the structure is left
/// zero, and the answer is that the device said no.
pub fn sysinfo(out: u64, in_range: bool, machine: Option<Machine>) -> (reply: Reply)
    requires
        machine matches Some(machine) ==> machine.managed_frames * PAGE <= u64::MAX
            && machine.free_frames * PAGE <= u64::MAX,
    ensures
        if !in_range {
            reply.is_plain(EFAULT)
        } else {
            match machine {
                None => reply.is_writing(EIO, out, gap(SYSINFO_BYTES as nat)),
                Some(machine) => reply.is_writing(0, out, sysinfo_of(machine)),
            }
        },
{
    if !in_range {
        return Reply::plain(EFAULT);
    }
    let mut bytes: Vec<u8> = Vec::new();
    match machine {
        None => {
            put_zeros(&mut bytes, 112);
            assert(bytes@ =~= gap(SYSINFO_BYTES as nat));
            Reply::writing(EIO, out, bytes)
        },
        Some(machine) => {
            put_u64(&mut bytes, machine.uptime_ms / 1000);
            put_zeros(&mut bytes, 24);
            put_u64(&mut bytes, machine.managed_frames * PAGE);
            put_u64(&mut bytes, machine.free_frames * PAGE);
            put_zeros(&mut bytes, 32);
            put_u16(&mut bytes, machine.processes);
            put_zeros(&mut bytes, 22);
            put_u32(&mut bytes, 1);
            put_zeros(&mut bytes, 4);
            assert(bytes@ =~= sysinfo_of(machine));
            Reply::writing(0, out, bytes)
        },
    }
}

/// Whether an advice is one that may be ignored.
pub open spec fn is_advice(advice: u64) -> bool {
    advice <= 3 || advice == 10 || advice == 11
}

/// `madvise(address, length, advice)`: advice is accepted and ignored. What is
/// not advice, such as a promise of zeros, is refused.
pub fn madvise(advice: u64) -> (answer: u64)
    ensures
        answer == if is_advice(advice) {
            0
        } else {
            EINVAL
        },
{
    match advice {
        0 | 1 | 2 | 3 | 10 | 11 => 0,
        _ => EINVAL,
    }
}

/// `membarrier(command)`: asked which barriers there are, none.
pub fn membarrier(command: u64) -> (answer: u64)
    ensures
        answer == if command == 0 {
            0
        } else {
            EINVAL
        },
{
    if command == 0 {
        0
    } else {
        EINVAL
    }
}

/// `fsync(fd)` and `fdatasync(fd)`: whether the disk is to be flushed. The
/// descriptor comes first, so that one that names no file flushes nothing.
pub fn fsync(file: Result<(), u64>) -> (go: Result<(), u64>)
    ensures
        go == if file is Err {
            Err::<(), u64>(EBADF)
        } else {
            Ok(())
        },
{
    match file {
        Err(_) => Err(EBADF),
        Ok(()) => Ok(()),
    }
}

/// Finish `fsync`: whether the disk's barrier held.
pub fn flushed(held: bool) -> (answer: u64)
    ensures
        answer == if held {
            0
        } else {
            EIO
        },
{
    if held {
        0
    } else {
        EIO
    }
}

/// `readv(fd, iov, count)`: the pieces to read into, or a refusal.
///
/// `bytes` is the list, if the program has that many entries.
pub fn readv(count: u64, bytes: Option<&[u8]>) -> (vectors: Result<Vectors, u64>)
    requires
        count <= MAX_IOV ==> (bytes matches Some(bytes) ==> bytes@.len() == 16 * count),
    ensures
        if count > MAX_IOV {
            vectors matches Err(reason) && reason == EINVAL
        } else {
            match bytes {
                None => vectors matches Err(reason) && reason == EFAULT,
                Some(bytes) => vectors matches Ok(vectors) && vectors.wf() && vectors@.rest
                    == holding(pieces_of(bytes@)) && vectors@.total == 0,
            }
        },
{
    if count > MAX_IOV {
        return Err(EINVAL);
    }
    match bytes {
        None => Err(EFAULT),
        Some(bytes) => Ok(Vectors::new(bytes)),
    }
}

/// `readlink(path, buffer, size)` and `readlinkat`: nothing here is a symbolic
/// link, and that is the answer for a path that is not one.
pub fn readlink(in_range: bool) -> (answer: u64)
    ensures
        answer == if in_range {
            EINVAL
        } else {
            EFAULT
        },
{
    if !in_range {
        return EFAULT;
    }
    EINVAL
}

/// A sleep is never shorter than what was asked for, and never a millisecond or
/// more longer, for any length that a count of milliseconds can hold.
pub proof fn law_sleep_is_long_enough(seconds: i64, nanoseconds: i64)
    requires
        0 <= seconds,
        0 <= nanoseconds < 1_000_000_000,
        seconds * 1000 + 1000 <= u64::MAX,
    ensures
        ({
            let asked = seconds * 1_000_000_000 + nanoseconds;
            let given = sleep_of(seconds, nanoseconds) * 1_000_000;
            asked <= given < asked + 1_000_000
        }),
{
}

/// The time of day is the machine's clock in seconds where it has one, and how
/// long it has been up where it has none; the part of a second is always that of
/// the time it has been up.
pub proof fn law_the_time_of_day(clock: Option<u64>, uptime_ms: u64)
    ensures
        clock matches Some(now) ==> of_day(clock, uptime_ms).0 == now,
        clock is None ==> of_day(clock, uptime_ms).0 * 1000 + of_day(clock, uptime_ms).1 / 1_000_000
            == uptime_ms,
        of_day(clock, uptime_ms).1 < 1_000_000_000,
        of_day(clock, uptime_ms).1 == (uptime_ms % 1000) * 1_000_000,
{
}

/// A sleep too long to count lasts as long as can be counted.
pub proof fn law_a_long_sleep_is_the_longest(seconds: i64, nanoseconds: i64)
    requires
        0 <= seconds,
        0 <= nanoseconds < 1_000_000_000,
    ensures
        seconds * 1000 >= u64::MAX ==> sleep_of(seconds, nanoseconds) == u64::MAX,
        seconds == 0 && nanoseconds == 0 ==> sleep_of(seconds, nanoseconds) == 0,
        seconds == 0 && nanoseconds > 0 ==> sleep_of(seconds, nanoseconds) >= 1,
{
}

/// Two words stand in memory one behind the other.
pub proof fn law_the_first_word_is_first(first: u64, second: u64)
    ensures
        two(first, second).len() == 16,
        u64_at(two(first, second), 0) == first,
        u64_at(two(first, second), 8) == second,
{
    let bytes = two(first, second);
    lemma_numbers_among_bytes(bytes, 0);
    lemma_numbers_among_bytes(bytes, 8);
    assert(bytes.subrange(0, 8) =~= le64(first));
    assert(bytes.subrange(8, 16) =~= le64(second));
}

/// Resource seven, the open files, has a limit of 1024; nothing else has one.
pub proof fn law_only_open_files_are_limited(resource: u64)
    ensures
        resource == 7 ==> limit_of(resource) == 1024,
        resource != 7 ==> limit_of(resource) == 0xFFFF_FFFF_FFFF_FFFF,
{
}

/// What a program reads in a `struct sysinfo`, each figure at its place: the
/// seconds the machine has been up, its memory and its free memory in bytes, how
/// many processes there are, and that a figure of memory counts single bytes.
pub proof fn law_sysinfo_fields(machine: Machine)
    requires
        machine.managed_frames * 4096 <= u64::MAX,
        machine.free_frames * 4096 <= u64::MAX,
    ensures
        ({
            let bytes = sysinfo_of(machine);
            &&& bytes.len() == 112
            &&& u64_at(bytes, 0) == machine.uptime_ms / 1000
            &&& u64_at(bytes, 32) == machine.managed_frames * 4096
            &&& u64_at(bytes, 40) == machine.free_frames * 4096
            &&& u16_at(bytes, 80) == machine.processes
            &&& u32_at(bytes, 104) == 1
            &&& forall|i: int| 8 <= i < 32 ==> #[trigger] bytes[i] == 0
            &&& forall|i: int| 48 <= i < 80 ==> #[trigger] bytes[i] == 0
            &&& forall|i: int| 82 <= i < 104 ==> #[trigger] bytes[i] == 0
            &&& forall|i: int| 108 <= i < 112 ==> #[trigger] bytes[i] == 0
        }),
{
    let bytes = sysinfo_of(machine);
    lemma_numbers_among_bytes(bytes, 0);
    lemma_numbers_among_bytes(bytes, 32);
    lemma_numbers_among_bytes(bytes, 40);
    lemma_numbers_among_bytes(bytes, 80);
    lemma_numbers_among_bytes(bytes, 104);
    assert(bytes.subrange(0, 8) =~= le64(machine.uptime_ms / 1000));
    assert(bytes.subrange(32, 40) =~= le64((machine.managed_frames * 4096) as u64));
    assert(bytes.subrange(40, 48) =~= le64((machine.free_frames * 4096) as u64));
    assert(bytes.subrange(80, 82) =~= le16(machine.processes));
    assert(bytes.subrange(104, 108) =~= le32(1));
}

/// The advice that may be ignored: how memory will be read, and whether a copy
/// of the program sees it. A promise about what it then holds is none.
pub proof fn law_advice_that_may_be_ignored(advice: u64)
    ensures
        is_advice(advice) <==> advice == 0 || advice == 1 || advice == 2 || advice == 3 || advice
            == 10 || advice == 11,
        !is_advice(4),
{
}

} // verus!
