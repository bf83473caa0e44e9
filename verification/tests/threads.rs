//! Threads, and becoming another program.
use nexus_kernel::compat::error::{
    E2BIG, EAGAIN, EFAULT, EINTR, EINVAL, ENOENT, ENOMEM, ENOSYS, EOPNOTSUPP, ETIMEDOUT,
};
use nexus_kernel::compat::frame::Frame;
use nexus_kernel::compat::linux_exec;
use nexus_kernel::compat::linux_exec::{execve, replaced, string_at, strings_at, Slot};
use nexus_kernel::compat::linux_threads::{
    after_sleep, before_sleep, clone, cloned, ending, flag, forget, forget_thread, futex,
    futex_deadline, get_robust_list, set_robust_list, siblings, statistics, wait, wake, woken,
    Futex, State, Waiting,
};

const END: u64 = 0x8000_0000_0000;
const THREAD: u64 = flag::VM | flag::FILES | flag::SIGHAND | flag::THREAD;

fn frame() -> Frame {
    Frame {
        r15: 1,
        r14: 2,
        r13: 3,
        r12: 4,
        rbp: 5,
        rbx: 6,
        r9: 7,
        r8: 8,
        r10: 9,
        rdx: 10,
        rsi: 11,
        rdi: 12,
        rax: 56,
        rflags: 0x246,
        rip: 0x40_0000,
        rsp: 0x7000,
    }
}

fn make(state: &mut State) -> Result<(), u64> {
    clone(state, Some(7), THREAD, 0x9000, 0, &frame(), END).map(|_| ())
}

#[test]
fn a_thread_has_its_parents_registers_and_its_own_stack() {
    let mut state = State::new();
    let flags = THREAD | flag::SETTLS;
    let child = clone(&mut state, Some(7), flags, 0x9000, 0x5000, &frame(), END).ok().unwrap();
    assert_eq!((child.frame.rsp, child.frame.rax), (0x9000, 0));
    assert_eq!((child.frame.rip, child.frame.rdi), (0x40_0000, 12));
    assert_eq!(child.thread_pointer, Some(0x5000));
    let flags = flag::PARENT_SETTID | flag::CHILD_SETTID | flag::CHILD_CLEARTID;
    let made = cloned(&mut state, 7, flags, 0x10, 0x20, Some(33));
    assert_eq!((made.answer, made.parent, made.child), (33, Some(0x10), Some(0x20)));
    assert_eq!(statistics(&state), (1, 0, 0));
    assert_eq!(ending(&mut state, 33), Some(0x20));
    assert_eq!(ending(&mut state, 34), None);
}

#[test]
fn threads_that_cannot_be() {
    let mut state = State::new();
    let here = frame();
    assert_eq!(clone(&mut state, Some(7), 0, 0x9000, 0, &here, END).err(), Some(ENOSYS));
    assert_eq!(clone(&mut state, Some(7), THREAD, 0, 0, &here, END).err(), Some(EINVAL));
    assert_eq!(clone(&mut state, Some(7), THREAD, END, 0, &here, END).err(), Some(EINVAL));
    let flags = THREAD | flag::SETTLS;
    assert_eq!(clone(&mut state, Some(7), flags, 0x9000, END, &here, END).err(), Some(EFAULT));
    let alone = flag::VM | flag::THREAD;
    assert_eq!(clone(&mut state, Some(7), alone, 0x9000, 0, &here, END).err(), Some(EINVAL));
    assert_eq!(clone(&mut state, None, THREAD, 0x9000, 0, &here, END).err(), Some(ENOSYS));
}

#[test]
fn a_process_has_so_many_threads() {
    let mut state = State::new();
    for _ in 0..63 {
        assert_eq!(make(&mut state), Ok(()));
    }
    assert_eq!(make(&mut state), Err(EAGAIN));
    // One that is joined makes room for another.
    forget_thread(&mut state, 7, 40);
    assert_eq!(make(&mut state), Ok(()));
    assert_eq!(make(&mut state), Err(EAGAIN));
    // One that would not start is not counted.
    let failed = cloned(&mut state, 7, 0, 0, 0, None);
    assert_eq!(failed.answer, ENOMEM);
    assert_eq!(make(&mut state), Ok(()));
    forget(&mut state, 7);
    assert_eq!(make(&mut state), Ok(()));
}

#[test]
fn futexes() {
    assert!(matches!(futex(Some(7), 0x1000, 128, END), Futex::Wait));
    assert!(matches!(futex(Some(7), 0x1000, 129, END), Futex::Wake));
    assert!(matches!(futex(Some(7), 0x1000, 137, END), Futex::Wait));
    assert!(matches!(futex(Some(7), 0x1000, 138 + 256, END), Futex::Wake));
    assert!(matches!(futex(Some(7), 0x1000, 0, END), Futex::Answer(EOPNOTSUPP)));
    assert!(matches!(futex(Some(7), 0x1001, 128, END), Futex::Answer(EINVAL)));
    assert!(matches!(futex(Some(7), END, 128, END), Futex::Answer(EINVAL)));
    assert!(matches!(futex(Some(7), 0x1000, 131, END), Futex::Answer(ENOSYS)));
    assert!(matches!(futex(None, 0x1000, 128, END), Futex::Answer(ENOSYS)));
}

#[test]
fn waits_and_wakes() {
    let mut state = State::new();
    assert!(!wake(&state, 7, 0x1000));
    wait(&mut state, 7, 0x1000);
    assert!(wake(&state, 7, 0x1000));
    assert!(!wake(&state, 8, 0x1000));
    assert_eq!(woken(&mut state, 3), 3);
    assert_eq!(woken(&mut state, 1), 1);
    assert_eq!(statistics(&state), (0, 1, 2));
    assert!(matches!(before_sleep(Some(5), 5, false, None, 0), Waiting::Sleep));
    assert!(matches!(before_sleep(Some(6), 5, false, None, 0), Waiting::Answer(EAGAIN)));
    assert!(matches!(before_sleep(None, 5, false, None, 0), Waiting::Answer(EFAULT)));
    assert!(matches!(before_sleep(Some(5), 5, true, None, 0), Waiting::Answer(EINTR)));
    assert!(matches!(before_sleep(Some(5), 5, false, Some(9), 9), Waiting::Answer(ETIMEDOUT)));
    assert!(matches!(after_sleep(Some(6), 5), Waiting::Answer(0)));
    assert!(matches!(after_sleep(Some(5), 5), Waiting::Again));
}

#[test]
fn futex_deadlines() {
    assert_eq!(futex_deadline(0, None, None, 1000, 5), Ok(None));
    assert_eq!(futex_deadline(0x10, Some(1), Some(500_000_000), 1000, 5), Ok(Some(1505)));
    assert_eq!(futex_deadline(0x10, None, None, 1000, 5), Err(EFAULT));
    assert_eq!(futex_deadline(0x10, Some(1), Some(0), 0, 5), Ok(None));
}

#[test]
fn robust_lists() {
    let mut state = State::new();
    assert_eq!(set_robust_list(&mut state, 33, 0x5000, 24), 0);
    assert_eq!(set_robust_list(&mut state, 33, 0x5000, 23), EINVAL);
    let reply = get_robust_list(&state, 33, 0x10, true, 0x20, true);
    assert_eq!(reply.answer, 0);
    assert_eq!(reply.writes[0].bytes, 0x5000u64.to_le_bytes().to_vec());
    assert_eq!(reply.writes[1].bytes, 24u64.to_le_bytes().to_vec());
    assert_eq!(get_robust_list(&state, 33, 0x10, false, 0x20, true).answer, EFAULT);
    assert_eq!(siblings(&[1, 2, 3], 2), vec![1, 3]);
}

#[test]
fn strings_are_read_out_of_a_program() {
    assert_eq!(string_at(b"ls\0x"), Ok(b"ls".to_vec()));
    assert_eq!(string_at(b"ls").err(), Some(EFAULT));
    assert_eq!(string_at(&[b'a'; 4096]).err(), Some(E2BIG));
    let slots = [
        Slot { pointer: Some(0x10), bytes: b"a\0".to_vec() },
        Slot { pointer: Some(0x20), bytes: b"b\0".to_vec() },
        Slot { pointer: Some(0), bytes: vec![] },
    ];
    assert_eq!(strings_at(0x100, &slots), Ok(vec![b"a".to_vec(), b"b".to_vec()]));
    assert_eq!(strings_at(0, &[]), Ok(vec![]));
    let broken = [Slot { pointer: None, bytes: vec![] }];
    assert_eq!(strings_at(0x100, &broken).err(), Some(EFAULT));
}

#[test]
fn a_program_is_replaced() {
    assert_eq!(execve(true, Ok(()), Ok(()), Ok(()), Ok(()), 0), Ok(()));
    assert_eq!(execve(false, Ok(()), Ok(()), Ok(()), Ok(()), 0), Err(ENOSYS));
    assert_eq!(execve(true, Err(ENOENT), Ok(()), Ok(()), Ok(()), 0), Err(ENOENT));
    assert_eq!(execve(true, Ok(()), Err(E2BIG), Ok(()), Ok(()), 0), Err(E2BIG));
    assert!(execve(true, Ok(()), Ok(()), Ok(()), Ok(()), 1).is_err());
    let mut state = linux_exec::State::new();
    let mut here = frame();
    assert_eq!(replaced(&mut state, &mut here, Some((0x1000, 0x2000))), None);
    assert_eq!((here.rip, here.rsp, here.rflags, here.rax, here.rdi), (0x1000, 0x2000, 0x202, 0, 0));
    assert_eq!(linux_exec::statistics(&state), 1);
    // Nothing of the old program is in the new one's registers.
    let mut other = frame();
    other.rbx = 99;
    other.r15 = 98;
    replaced(&mut state, &mut other, Some((0x1000, 0x2000)));
    assert_eq!(here.to_bytes(), other.to_bytes());
    assert_eq!(replaced(&mut state, &mut here, None), Some(127));
}
