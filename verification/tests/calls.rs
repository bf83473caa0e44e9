//! The calls of a program, by number.
use nexus_kernel::compat::error::{EBADF, EFAULT, EINVAL, EIO, ENOSYS, ENOTTY, EPERM};
use nexus_kernel::compat::frame::Frame;
use nexus_kernel::compat::linux::{
    arch_prctl, call, clock_gettime, dispatch, exit, exit_now, exit_thread, getcpu, getpid, ioctl,
    sched_getaffinity, statistics, timespec_ms, uname_into, unnamed_address, writev, Call, Ending,
    Prctl, State,
};
use nexus_kernel::compat::linux32;
use nexus_kernel::compat::linux_display;
use nexus_kernel::compat::linux_exec;
use nexus_kernel::compat::linux_memory;
use nexus_kernel::compat::linux_more;
use nexus_kernel::compat::linux_more::{
    clock_nanosleep, flushed, fsync, getrlimit, gettimeofday, madvise, membarrier, nanosleep,
    prlimit64, readlink, readv, slept, sysinfo, time, translate, wall_clock, write_limit, Machine,
};
use nexus_kernel::compat::linux_signal;
use nexus_kernel::compat::linux_threads;
use nexus_kernel::compat::vectors::{Next, Vectors};

const END: u64 = 0x8000_0000_0000;
const CWD: u64 = 0xFFFF_FF9C;

fn frame() -> Frame {
    Frame {
        r15: 0,
        r14: 0,
        r13: 0,
        r12: 0,
        rbp: 107,
        rbx: 101,
        r9: 6,
        r8: 5,
        r10: 4,
        rdx: 3,
        rsi: 2,
        rdi: 1,
        rax: 0,
        rflags: 0,
        rip: 0,
        rsp: 0,
    }
}

fn find(number: u64) -> Call {
    dispatch(&mut State::new(), number, &frame())
}

#[test]
fn numbers_are_calls() {
    assert!(matches!(find(0), Call::Read { descriptor: 1, buffer: 2, length: 3 }));
    assert!(matches!(
        find(9),
        Call::Mmap { address: 1, length: 2, protection: 3, flags: 4, descriptor: 5, offset: 6 }
    ));
    assert!(matches!(find(15), Call::Sigreturn));
    assert!(matches!(
        find(56),
        Call::Clone { flags: 1, stack: 2, parent_tid: 3, child_tid: 4, tls: 5 }
    ));
    assert!(matches!(find(202), Call::Futex { address: 1, operation: 2, expected: 3, timeout: 4 }));
    assert!(matches!(find(231), Call::Exit { status: 1 }));
    assert!(matches!(find(60), Call::ExitThread { status: 1 }));
    assert!(matches!(find(131), Call::NotTranslated));
    assert!(matches!(find(234), Call::Kill { target: 1, signal: 3 }));
    assert!(matches!(find(62), Call::Kill { target: 1, signal: 2 }));
    assert!(matches!(find(102), Call::Answer(0)));
    assert!(matches!(find(35), Call::More(linux_more::Call::Nanosleep { request: 1, remaining: 2 })));
    assert!(matches!(find(9999), Call::Unknown));
}

#[test]
fn old_forms_are_the_new_ones_in_the_working_directory() {
    assert!(matches!(find(call::OPEN), Call::Openat { directory: CWD, path: 1, flags: 2 }));
    assert!(matches!(find(call::OPENAT), Call::Openat { directory: 1, path: 2, flags: 3 }));
    assert!(matches!(find(call::STAT), Call::Newfstatat { directory: CWD, path: 1, out: 2 }));
    assert!(matches!(find(call::ACCESS), Call::Faccessat { directory: CWD, path: 1 }));
    assert!(matches!(find(call::MKDIR), Call::Mkdirat { directory: CWD, path: 1 }));
    assert!(matches!(find(call::RMDIR), Call::Unlinkat { directory: CWD, path: 1 }));
}

#[test]
fn plain_forms_have_no_flags() {
    assert!(matches!(find(call::PIPE), Call::Pipe2 { ends: 1, flags: 0 }));
    assert!(matches!(find(call::PIPE2), Call::Pipe2 { ends: 1, flags: 2 }));
    assert!(matches!(find(call::ACCEPT), Call::Accept { descriptor: 1, flags: 0, .. }));
    assert!(matches!(find(call::ACCEPT4), Call::Accept { descriptor: 1, flags: 4, .. }));
    assert!(matches!(find(call::EPOLL_CREATE), Call::EpollCreate { flags: 0 }));
}

#[test]
fn calls_are_counted() {
    let mut state = State::new();
    dispatch(&mut state, call::READ, &frame());
    dispatch(&mut state, call::GETPID, &frame());
    dispatch(&mut state, 9999, &frame());
    assert_eq!(statistics(&state, &linux_memory::State::new()), (2, 1, 0));
}

fn iovec(list: &[(u64, u64)]) -> Vec<u8> {
    let mut bytes = Vec::new();
    for (base, length) in list {
        bytes.extend_from_slice(&base.to_le_bytes());
        bytes.extend_from_slice(&length.to_le_bytes());
    }
    bytes
}

#[test]
fn pieces_are_one_stream() {
    let list = iovec(&[(0x10, 3), (0x20, 0), (0x30, 5)]);
    let mut vectors: Vectors = writev(3, Some(&list)).ok().unwrap();
    assert!(matches!(vectors.next(), Next::Move(piece) if piece.base == 0x10 && piece.length == 3));
    assert_eq!(vectors.took(3), None);
    assert!(matches!(vectors.next(), Next::Move(piece) if piece.base == 0x30));
    // A short piece ends it.
    assert_eq!(vectors.took(2), Some(5));
    let mut failing = writev(3, Some(&list)).ok().unwrap();
    assert_eq!(failing.took(EIO), Some(EIO));
    let mut later = writev(3, Some(&list)).ok().unwrap();
    later.took(3);
    assert_eq!(later.took(EIO), Some(3));
    let empty = writev(1, Some(&iovec(&[(0x10, 0)]))).ok().unwrap();
    assert!(matches!(empty.next(), Next::Done(0)));
    assert_eq!(writev(65, None).err(), Some(EINVAL));
    assert_eq!(writev(1, None).err(), Some(EFAULT));
    assert_eq!(readv(65, None).err(), Some(EINVAL));
    assert_eq!(readv(1, None).err(), Some(EFAULT));
}

#[test]
fn the_thread_pointer() {
    assert!(matches!(arch_prctl(0x1002, 0x5000, 0, true, END), Prctl::Point(0x5000)));
    let outside = arch_prctl(0x1002, END, 0, true, END);
    assert!(matches!(outside, Prctl::Reply(reply) if reply.answer == EFAULT));
    match arch_prctl(0x1003, 0x40, 0x77, true, END) {
        Prctl::Reply(reply) => {
            assert_eq!(reply.writes[0].bytes, 0x77u64.to_le_bytes().to_vec());
        }
        Prctl::Point(_) => panic!("moved"),
    }
    let unreachable = arch_prctl(0x1003, 0x40, 0x77, false, END);
    assert!(matches!(unreachable, Prctl::Reply(reply) if reply.answer == EFAULT));
    let other = arch_prctl(1, 0x40, 0, true, END);
    assert!(matches!(other, Prctl::Reply(reply) if reply.answer == EINVAL));
}

#[test]
fn the_machine_has_a_name() {
    let reply = uname_into(0x40, true, b"0.1.0");
    assert_eq!(reply.answer, 0);
    let bytes = &reply.writes[0].bytes;
    assert_eq!(bytes.len(), 390);
    assert_eq!(&bytes[0..8], b"NexusOS\0");
    assert_eq!(&bytes[65..71], b"nexus\0");
    assert_eq!(&bytes[130..145], b"NexusOS-compat\0");
    assert_eq!(&bytes[195..201], b"0.1.0\0");
    assert_eq!(&bytes[260..267], b"x86_64\0");
    assert_eq!(&bytes[325..332], b"(none)\0");
    // A version that is too long keeps its terminator.
    let long = uname_into(0x40, true, &[b'v'; 100]);
    assert_eq!(long.writes[0].bytes[258], b'v');
    assert_eq!(long.writes[0].bytes[259], 0);
    assert_eq!(long.writes[0].bytes.len(), 390);
    assert_eq!(uname_into(0x40, false, b"").answer, EFAULT);
}

fn two(first: u64, second: u64) -> Vec<u8> {
    let mut bytes = first.to_le_bytes().to_vec();
    bytes.extend_from_slice(&second.to_le_bytes());
    bytes
}

#[test]
fn clocks() {
    let day = clock_gettime(0, 0x40, true, Some(1000), 2500);
    assert_eq!(day.writes[0].bytes, two(1000, 0));
    let up = clock_gettime(1, 0x40, true, Some(1000), 2500);
    assert_eq!(up.writes[0].bytes, two(2, 500_000_000));
    let none = clock_gettime(0, 0x40, true, None, 2500);
    assert_eq!(none.writes[0].bytes, two(2, 0));
    assert_eq!(clock_gettime(99, 0x40, true, None, 0).answer, EINVAL);
    assert_eq!(clock_gettime(0, 0x40, false, None, 0).answer, EFAULT);
    assert_eq!(wall_clock(Some(1000), 5), (1000, 5_000_000));
    assert_eq!(wall_clock(None, 1500), (1, 500_000_000));
    let micro = gettimeofday(0x40, true, None, 1500);
    assert_eq!(micro.writes[0].bytes, two(1, 500_000));
    let seconds = time(0x40, true, Some(1000), 0);
    assert_eq!((seconds.answer, seconds.writes[0].bytes.clone()), (1000, 1000u64.to_le_bytes().to_vec()));
    assert_eq!(time(0, false, Some(1000), 0).answer, 1000);
}

#[test]
fn a_sleep_is_long_enough() {
    assert_eq!(nanosleep(Some((1, 1))), Ok(1001));
    assert_eq!(nanosleep(Some((0, 1_000_000))), Ok(1));
    assert_eq!(nanosleep(Some((0, 0))), Ok(0));
    assert_eq!(nanosleep(None), Err(EFAULT));
    assert_eq!(nanosleep(Some((-1, 0))), Err(EINVAL));
    assert_eq!(nanosleep(Some((0, 1_000_000_000))), Err(EINVAL));
    assert_eq!(clock_nanosleep(1, 0), Ok(()));
    assert_eq!(clock_nanosleep(1, 1), Err(ENOSYS));
    assert_eq!(clock_nanosleep(9, 0), Err(EINVAL));
    assert_eq!(slept(0x40, true).writes[0].bytes, two(0, 0));
    assert!(slept(0, false).writes.is_empty());
    assert_eq!(timespec_ms(0, None), -1);
    assert_eq!(timespec_ms(0x40, Some((1, 2_000_000))), 1002);
    assert_eq!(timespec_ms(0x40, None), 0);
}

#[test]
fn limits() {
    let files = getrlimit(7, 0x40, true);
    assert_eq!(files.writes[0].bytes, two(1024, 1024));
    let memory = getrlimit(2, 0x40, true);
    assert_eq!(memory.writes[0].bytes, two(u64::MAX, u64::MAX));
    assert_eq!(getrlimit(2, 0x40, false).answer, EFAULT);
    assert_eq!(write_limit(0x40, true, 1, 2).writes[0].bytes, two(1, 2));
    let both = prlimit64(0, 7, 0x50, 0x40, true);
    assert_eq!(both.writes[0].bytes, two(1024, 1024));
    assert_eq!(both.answer, EPERM);
    assert_eq!(prlimit64(0, 7, 0, 0x40, true).answer, 0);
}

#[test]
fn what_the_machine_has() {
    let machine = Machine { uptime_ms: 9500, managed_frames: 100, free_frames: 40, processes: 3 };
    let reply = sysinfo(0x40, true, Some(machine));
    assert_eq!(reply.answer, 0);
    let bytes = &reply.writes[0].bytes;
    assert_eq!(bytes.len(), 112);
    assert_eq!(&bytes[0..8], &9u64.to_le_bytes());
    assert_eq!(&bytes[32..40], &409_600u64.to_le_bytes());
    assert_eq!(&bytes[40..48], &163_840u64.to_le_bytes());
    assert_eq!(&bytes[80..82], &3u16.to_le_bytes());
    assert_eq!(&bytes[104..108], &1u32.to_le_bytes());
    let none = sysinfo(0x40, true, None);
    assert_ne!(none.answer, 0);
    assert!(none.writes[0].bytes.iter().all(|byte| *byte == 0));
}

#[test]
fn advice_and_the_rest() {
    assert_eq!(madvise(0), 0);
    assert_eq!(madvise(3), 0);
    assert_eq!(madvise(100), EINVAL);
    assert_eq!(membarrier(0), 0);
    assert_ne!(membarrier(1), 0);
    assert_eq!(fsync(Ok(())), Ok(()));
    assert_eq!(fsync(Err(EINVAL)), Err(EBADF));
    assert_eq!(flushed(true), 0);
    assert_eq!(flushed(false), EIO);
    assert_eq!(readlink(true), EINVAL);
    assert_eq!(readlink(false), EFAULT);
    assert!(translate(9999, &frame()).is_none());
    assert!(matches!(
        translate(6, &frame()),
        Some(linux_more::Call::Newfstatat { directory: CWD, path: 1, out: 2 })
    ));
}

#[test]
fn processes_and_processors() {
    assert_eq!(getpid(Some(7)), 7);
    let windows = linux_display::State::new();
    assert!(matches!(ioctl(&windows, Some(7), 4, 1), linux_display::Request::Answer(ENOTTY)));
    let mask = sched_getaffinity(8, 0x40, true, 3);
    assert_eq!((mask.answer, mask.writes[0].bytes.clone()), (8, 7u64.to_le_bytes().to_vec()));
    assert_eq!(sched_getaffinity(4, 0x40, true, 3).answer, EINVAL);
    assert_eq!(sched_getaffinity(8, 0x40, false, 3).answer, EFAULT);
    let here = getcpu(0x40, true, 0x50, true, 2);
    assert_eq!(here.writes[0].bytes, 2u32.to_le_bytes().to_vec());
    assert_eq!(here.writes[1].bytes, 0u32.to_le_bytes().to_vec());
    let half = getcpu(0x40, true, 0x50, false, 2);
    assert_eq!((half.answer, half.writes.len()), (EFAULT, 1));
    let name = unnamed_address(0x40, 0x50, Some(16), true);
    assert_eq!(name.writes[0].bytes, vec![1, 0]);
    assert_eq!(name.writes[1].bytes, vec![2, 0, 0, 0]);
}

#[test]
fn the_flag_comes_before_the_wakes() {
    let steps = exit(true, 2, 9);
    assert!(matches!(steps[0], Ending::Cancel));
    assert!(matches!(steps[1], Ending::Wake));
    assert!(matches!(steps[2], Ending::Finish(9)));
    assert_eq!(exit(true, 0, 9).len(), exit_now(true, 0, 9).len());
    let mut state = linux_threads::State::new();
    let alone = exit_thread(&mut state, Some(7), 33, &[33]);
    assert!(alone.last);
    let more = exit_thread(&mut state, Some(7), 33, &[33, 34]);
    assert!(!more.last && more.clear.is_none());
}

#[test]
fn the_top_half_of_a_register_is_ignored() {
    let mut clean = frame();
    clean.rax = 3;
    let mut dirty = clean;
    dirty.rax |= 0xDEAD_0000_0000;
    dirty.rbx |= 0xBEEF_0000_0000;
    let one = linux32::narrowed(&clean);
    let other = linux32::narrowed(&dirty);
    assert_eq!((one.number, one.ebx, one.ecx, one.edx), (3, 101, 4, 3));
    assert_eq!((other.number, other.ebx), (3, 101));
    let mut state = linux32::State::new();
    let found = linux32::dispatch(&mut state, &dirty);
    assert!(matches!(
        found,
        linux32::Found::Call(Call::Read { descriptor: 101, buffer: 4, length: 3 })
    ));
    let mut area = frame();
    area.rax = 243;
    assert!(matches!(linux32::dispatch(&mut state, &area), linux32::Found::ThreadArea));
    let mut odd = frame();
    odd.rax = 400;
    assert!(matches!(linux32::dispatch(&mut state, &odd), linux32::Found::Unknown));
    assert_eq!(linux32::statistics(&state), (1, 2));
    assert_eq!(linux32::refused(), ENOSYS);
}

#[test]
fn nothing_arranged_survives_another_program() {
    let mut signals = linux_signal::State::new();
    let mut mappings = linux_memory::State::new();
    let mut windows = linux_display::State::new();
    let mut handler = vec![0u8; 32];
    handler[0..8].copy_from_slice(&0x5000u64.to_le_bytes());
    for process in [7, 8] {
        let answer = linux_signal::sigaction(
            &mut signals,
            Some(process),
            10,
            1,
            Some(&handler),
            0,
            false,
            8,
            END,
        );
        assert_eq!(answer.answer, 0);
        linux_signal::kill(&mut signals, Some(process), process, 10);
    }
    let surface = linux_display::Surface { object: 1, size: 64 };
    let given = linux_display::Given { surface, width: 4, height: 4 };
    linux_display::opened(&mut windows, 7, given, Some(4));
    let mapping = linux_memory::Mapping {
        process: 7,
        pages: 2,
        flags: linux_memory::PageFlags { writable: true, executable: false, shared: false },
        file: None,
        memory: None,
    };
    let (_, first) = linux_memory::place(&mut mappings, mapping, false, END);
    assert_eq!(first, linux_memory::Search::Look(0x2000_0000_0000));
    let released =
        linux_exec::forget_program(&mut signals, &mut mappings, &mut windows, 7);
    assert!(released.is_empty());
    assert!(!linux_signal::pending(&signals, 7));
    assert!(linux_signal::pending(&signals, 8));
    assert!(!linux_display::is_window(&windows, 7, 4));
    let (_, again) = linux_memory::place(&mut mappings, mapping, false, END);
    assert_eq!(again, linux_memory::Search::Look(0x2000_0000_0000));
}
