//! Waiting for descriptors.
use nexus_kernel::compat::error::{EBADF, EEXIST, EFAULT, EINTR, EINVAL, ENOENT, ENOSYS};
use nexus_kernel::compat::linux_files::Descriptor;
use nexus_kernel::compat::linux_poll::{
    control, create, created, deadline_of, forget, forget_descriptor, looked, named_readiness, poll,
    ready_now, reported, sleep_on, statistics, wait, watchable, write_answers, write_event, Event,
    Patience, Polling, Readiness, Seen, State, Verdict, Watching,
};

fn patience(timeout: i64) -> Patience {
    Patience { timeout, cancelled: false, blocked: false, deadline: None, ticks: 0 }
}

#[test]
fn what_descriptors_show() {
    assert_eq!(ready_now(Readiness::File), 0x005);
    assert_eq!(ready_now(Readiness::Invalid), 0x020);
    assert_eq!(ready_now(Readiness::Idle), 0);
    assert_eq!(ready_now(Readiness::WritingEnd { room: true, readers_open: true }), 0x004);
    assert_eq!(ready_now(Readiness::WritingEnd { room: false, readers_open: true }), 0);
    assert_eq!(ready_now(Readiness::ReadingEnd { queued: true, writers_open: true }), 0x001);
    // The writers are gone: there may be bytes left, and then the end.
    assert_eq!(ready_now(Readiness::ReadingEnd { queued: false, writers_open: false }), 0x011);
    assert_eq!(ready_now(Readiness::Listener { ready: true }), 0x001);
    let stream = Readiness::Stream { readable: true, writable: true, connected: true };
    assert_eq!(ready_now(stream), 0x005);
}

#[test]
fn what_cannot_be_waited_on_shows_something() {
    for readiness in [Readiness::File, Readiness::Console(1), Readiness::Other, Readiness::Invalid] {
        assert!(!watchable(readiness));
        assert_ne!(ready_now(readiness), 0);
    }
    assert!(!watchable(Readiness::Idle));
    assert!(watchable(Readiness::ReadingEnd { queued: false, writers_open: true }));
}

/// A pipe nothing has been written to.
fn quiet(descriptor: u64) -> Seen {
    Seen { descriptor, readiness: Readiness::ReadingEnd { queued: false, writers_open: true } }
}

#[test]
fn deadlines() {
    assert_eq!(deadline_of(-1, 1000, 5), None);
    assert_eq!(deadline_of(10, 0, 5), None);
    assert_eq!(deadline_of(10, 1000, 5), Some(15));
    let mut state = State::new();
    let file = Seen { descriptor: 3, readiness: Readiness::File };
    assert_eq!(sleep_on(&mut state, &[], false), Err(0));
    assert_eq!(sleep_on(&mut state, &[file], false), Err(0));
    assert_eq!(statistics(&state), (0, 0));
    assert_eq!(sleep_on(&mut state, &[quiet(4), file, quiet(5)], false), Ok(vec![4, 5]));
    assert_eq!(statistics(&state), (1, 0));
}

fn pollfd(descriptor: i32, events: u16) -> Vec<u8> {
    let mut bytes = descriptor.to_le_bytes().to_vec();
    bytes.extend_from_slice(&events.to_le_bytes());
    bytes.extend_from_slice(&[0, 0]);
    bytes
}

#[test]
fn poll_reads_its_list() {
    assert!(matches!(poll(0, 10, None), Polling::Sleep(10)));
    assert!(matches!(poll(0, 0, None), Polling::Answer(0)));
    assert!(matches!(poll(65, 0, None), Polling::Answer(EINVAL)));
    assert!(matches!(poll(1, 0, None), Polling::Answer(EFAULT)));
    let mut bytes = pollfd(3, 5);
    bytes.extend_from_slice(&pollfd(-1, 1));
    match poll(2, 0, Some(&bytes)) {
        Polling::Watch(watching) => {
            assert_eq!((watching[0].descriptor, watching[0].asked), (Some(3), 5));
            assert_eq!((watching[1].descriptor, watching[1].asked), (None, 1));
        }
        _ => panic!("nothing watched"),
    }
}

#[test]
fn a_look_decides() {
    let mut state = State::new();
    let watching =
        [Watching { descriptor: Some(3), asked: 1 }, Watching { descriptor: Some(4), asked: 1 }];
    let (bits, verdict) = looked(&mut state, &watching, &[1, 4], patience(0));
    assert_eq!(bits, vec![1, 0]);
    assert!(matches!(verdict, Verdict::Answer(1)));
    // A hangup is reported although nobody asked.
    let (bits, verdict) = looked(&mut state, &watching, &[0x10, 0x20], patience(-1));
    assert_eq!(bits, vec![0x10, 0x20]);
    assert!(matches!(verdict, Verdict::Answer(2)));
    let (_, verdict) = looked(&mut state, &watching, &[0, 0], patience(0));
    assert!(matches!(verdict, Verdict::Answer(0)));
    assert_eq!(statistics(&state), (0, 2));
    let (_, verdict) = looked(&mut state, &watching, &[0, 0], patience(-1));
    assert!(matches!(verdict, Verdict::Sleep));
    let stop = Patience { cancelled: true, ..patience(-1) };
    let (_, verdict) = looked(&mut state, &watching, &[0, 0], stop);
    assert!(matches!(verdict, Verdict::Answer(EINTR)));
    let over = Patience { deadline: Some(9), ticks: 9, ..patience(5) };
    let (_, verdict) = looked(&mut state, &watching, &[0, 0], over);
    assert!(matches!(verdict, Verdict::Answer(0)));
}

fn event(bits: u32, data: u64) -> Vec<u8> {
    let mut bytes = bits.to_le_bytes().to_vec();
    bytes.extend_from_slice(&data.to_le_bytes());
    bytes
}

fn with_set() -> State {
    let mut state = State::new();
    assert_eq!(created(&mut state, 7, 20), 20);
    state
}

#[test]
fn sets_are_made_and_filled() {
    assert_eq!(create(0, true), Ok(()));
    assert_eq!(create(0, false), Err(ENOSYS));
    assert_eq!(create(1, true), Err(EINVAL));
    let mut state = with_set();
    let add = |state: &mut State, descriptor: u64, bits: u32| {
        control(state, Some(7), 20, 1, descriptor, 0, Some(&event(bits, descriptor * 10)))
    };
    assert_eq!(add(&mut state, 5, 1), 0);
    assert_eq!(add(&mut state, 4, 1), 0);
    assert_eq!(add(&mut state, 5, 1), EEXIST);
    assert_eq!(add(&mut state, 6, 0x8000_0001), EINVAL);
    assert_eq!(add(&mut state, 20, 1), EINVAL);
    assert_eq!(control(&mut state, Some(7), 20, 3, 9, 0, Some(&event(1, 1))), ENOENT);
    assert_eq!(control(&mut state, Some(7), 20, 2, 9, 0, None), ENOENT);
    assert_eq!(control(&mut state, Some(7), 20, 1, 9, 0, None), EFAULT);
    assert_eq!(control(&mut state, Some(7), 20, 1, 9, 0x20, Some(&event(1, 1))), EBADF);
    assert_eq!(control(&mut state, Some(7), 21, 1, 9, 0, Some(&event(1, 1))), EBADF);
    let watched = wait(&state, 20, 8, Some(7), true).ok().unwrap();
    let order: Vec<u64> = watched.iter().map(|(descriptor, _)| *descriptor).collect();
    assert_eq!(order, vec![4, 5]);
    assert_eq!(control(&mut state, Some(7), 20, 2, 5, 0, None), 0);
    assert_eq!(wait(&state, 20, 8, Some(7), true).ok().unwrap().len(), 1);
}

#[test]
fn a_closed_descriptor_is_watched_nowhere() {
    let mut state = with_set();
    control(&mut state, Some(7), 20, 1, 5, 0, Some(&event(1, 1)));
    forget_descriptor(&mut state, 7, 5);
    assert!(wait(&state, 20, 8, Some(7), true).ok().unwrap().is_empty());
    forget_descriptor(&mut state, 7, 20);
    assert_eq!(wait(&state, 20, 8, Some(7), true).err(), Some(EBADF));
    created(&mut state, 7, 20);
    forget(&mut state, 7);
    assert_eq!(wait(&state, 20, 8, Some(7), true).err(), Some(EBADF));
    assert_eq!(wait(&state, 20, 0, Some(7), true).err(), Some(EINVAL));
}

#[test]
fn reports_come_in_order_and_fit() {
    let mut state = with_set();
    for descriptor in [4u64, 5, 6] {
        control(&mut state, Some(7), 20, 1, descriptor, 0, Some(&event(1, descriptor * 10)));
    }
    let watched = wait(&state, 20, 2, Some(7), true).ok().unwrap();
    let (events, verdict) = reported(&mut state, &watched, &[1, 0, 1], 2, patience(0));
    let told: Vec<(u32, u64)> = events.iter().map(|event| (event.bits, event.data)).collect();
    assert_eq!(told, vec![(1, 40), (1, 60)]);
    assert!(matches!(verdict, Verdict::Answer(2)));
    let (events, _) = reported(&mut state, &watched, &[1, 1, 1], 2, patience(0));
    assert_eq!(events.len(), 2);
    assert_eq!(events[1].data, 50);
    let bytes = write_event(&[Event { bits: 1, data: 0x0102 }]);
    assert_eq!(bytes, vec![1, 0, 0, 0, 2, 1, 0, 0, 0, 0, 0, 0]);
}

#[test]
fn a_wait_is_counted_once() {
    let mut state = State::new();
    let watching = [Watching { descriptor: Some(3), asked: 1 }];
    // It sleeps twice, and then finds something.
    for blocked in [false, true] {
        let still = Patience { blocked, ..patience(-1) };
        let (_, verdict) = looked(&mut state, &watching, &[0], still);
        assert!(matches!(verdict, Verdict::Sleep));
        assert_eq!(sleep_on(&mut state, &[quiet(3)], blocked), Ok(vec![3]));
    }
    let woken = Patience { blocked: true, ..patience(-1) };
    let (_, verdict) = looked(&mut state, &watching, &[1], woken);
    assert!(matches!(verdict, Verdict::Answer(1)));
    assert_eq!(statistics(&state), (1, 0));
    // Another finds something at once.
    let (_, verdict) = looked(&mut state, &watching, &[1], patience(-1));
    assert!(matches!(verdict, Verdict::Answer(1)));
    assert_eq!(statistics(&state), (1, 1));
}

#[test]
fn answers_go_into_the_array() {
    let writes = write_answers(0x1000, &[1, 0x0104]);
    let written: Vec<(u64, Vec<u8>)> =
        writes.into_iter().map(|write| (write.at, write.bytes)).collect();
    assert_eq!(written, vec![(0x1006, vec![1, 0]), (0x100E, vec![4, 1])]);
}

#[test]
fn some_descriptors_say_by_their_name_what_they_would_do() {
    assert_eq!(named_readiness(Err(EBADF)), Some(Readiness::Invalid));
    assert_eq!(named_readiness(Ok(Descriptor::Console(1))), Some(Readiness::Console(1)));
    assert_eq!(named_readiness(Ok(Descriptor::Pipe)), None);
    assert_eq!(named_readiness(Ok(Descriptor::Socket)), None);
}
