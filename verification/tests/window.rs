//! Windows.
use nexus_kernel::compat::error::{EBADF, EFAULT, EINVAL, ENODEV, ENOSYS, ENOTTY, ENXIO, ETIMEDOUT};
use nexus_kernel::compat::linux_display::{
    absorb, acknowledged, close, fits, forget, frame_deadline, has_event, info, ioctl, is_device,
    is_window, mark_closed, next_event, not_offered, offer_deadline, offered, open, opened, present, read_u32,
    sent, statistics, surface_in, surface_of, Given, Message, Offer, Opening, Presenting, Request,
    State, Surface, unacknowledged,
};

fn message(bytes: &[u8], memory: Option<(u64, u64)>) -> Message {
    Message {
        bytes: bytes.to_vec(),
        handles: memory.is_some() as usize,
        memory: memory.map(|(object, size)| Surface { object, size }),
    }
}

fn sized(word: &[u8], width: u32, height: u32) -> Vec<u8> {
    let mut bytes = word.to_vec();
    bytes.extend_from_slice(&width.to_le_bytes());
    bytes.extend_from_slice(&height.to_le_bytes());
    bytes
}

fn window() -> State {
    let mut state = State::new();
    let given = Given { surface: Surface { object: 5, size: 4000 }, width: 10, height: 20 };
    assert_eq!(opened(&mut state, 7, given, Some(4)), 4);
    state
}

fn words(bytes: &[u8]) -> Vec<u32> {
    (0..bytes.len() / 4).map(|at| read_u32(bytes, at * 4)).collect()
}

fn event(state: &mut State) -> (u32, u32) {
    let reply = next_event(state, 7, 4, None, 0x40, true);
    let told = words(&reply.writes[0].bytes);
    (told[0], told[1])
}

#[test]
fn the_device_has_a_path() {
    assert!(is_device(b"/dev/nexus/display"));
    assert!(!is_device(b"/dev/nexus/displays"));
    assert!(!is_device(b""));
}

#[test]
fn a_surface_has_to_hold_its_pixels() {
    assert!(fits(10, 20, 800));
    assert!(!fits(10, 20, 799));
    assert!(!fits(u32::MAX, u32::MAX, u64::MAX));
    assert_eq!(read_u32(&[1, 2, 3, 4, 5], 1), 0x0504_0302);
    assert_eq!(read_u32(&[1, 2, 3], 0), 0);
}

#[test]
fn opening_waits_to_be_offered_a_surface() {
    assert!(matches!(open(true, true), Opening::Wait));
    assert!(matches!(open(true, false), Opening::Answer(ENXIO)));
    assert!(matches!(open(false, true), Opening::Answer(ENOSYS)));
    assert_eq!(offer_deadline(10), 2010);
    assert!(matches!(offered(true, true, false, 0, 10), Offer::Take));
    assert!(matches!(offered(false, true, false, 0, 10), Offer::Again));
    assert!(matches!(offered(false, false, false, 0, 10), Offer::GiveUp));
    assert!(matches!(offered(false, true, true, 0, 10), Offer::GiveUp));
    assert!(matches!(offered(false, true, false, 10, 10), Offer::GiveUp));
    let mut opening = sized(b"", 10, 20);
    opening.extend_from_slice(&[0; 8]);
    let given = surface_in(&message(&opening, Some((5, 800)))).ok().unwrap();
    assert_eq!((given.width, given.height, given.surface.object), (10, 20, 5));
    assert_eq!(surface_in(&message(&opening, Some((5, 799)))).err(), Some(ENODEV));
    assert_eq!(surface_in(&message(&opening, None)).err(), Some(ENODEV));
    assert_eq!(surface_in(&message(&opening[..8], Some((5, 800)))).err(), Some(ENODEV));
}

#[test]
fn a_window_is_known_by_its_descriptor() {
    let mut state = window();
    assert!(is_window(&state, 7, 4));
    assert!(!is_window(&state, 8, 4));
    assert!(!is_window(&state, 7, (1 << 32) + 4));
    assert_eq!(surface_of(&state, 7, 4).map(|surface| surface.object), Some(5));
    close(&mut state, 7, 4);
    assert!(!is_window(&state, 7, 4));
    let mut other = window();
    forget(&mut other, 7);
    assert!(!is_window(&other, 7, 4));
}

#[test]
fn requests() {
    assert!(matches!(ioctl(true, 4, 0x4E58_0001), Request::Info(4)));
    assert!(matches!(ioctl(true, 4, 0x4E58_0002), Request::Present(4)));
    assert!(matches!(ioctl(true, 4, 0x4E58_0003), Request::Event(4)));
    assert!(matches!(ioctl(true, 4, 0x4E58_0004), Request::Answer(ENOTTY)));
    assert!(matches!(ioctl(false, 4, 0x4E58_0001), Request::Answer(ENOSYS)));
    let state = window();
    let reply = info(&state, 7, 4, 0x40, true);
    assert_eq!(words(&reply.writes[0].bytes), vec![10, 20, 40, 0]);
    assert_eq!(info(&state, 7, 4, 0x40, false).answer, EFAULT);
    assert_eq!(info(&state, 7, 5, 0x40, true).answer, EBADF);
}

fn rectangle(x: u32, y: u32, width: u32, height: u32) -> Vec<u8> {
    [x, y, width, height].iter().flat_map(|word| word.to_le_bytes()).collect()
}

#[test]
fn a_frame_stays_in_its_window() {
    let state = window();
    match present(&state, 7, 4, Some(&rectangle(1, 2, 9, 18))) {
        Presenting::Send(bytes) => {
            assert_eq!(&bytes[0..7], b"damaged");
            assert_eq!(words(&bytes[7..]), vec![1, 2, 9, 18]);
        }
        Presenting::Answer(_) => panic!("refused"),
    }
    let wide = present(&state, 7, 4, Some(&rectangle(2, 0, 9, 1)));
    assert!(matches!(wide, Presenting::Answer(EINVAL)));
    let wrapped = present(&state, 7, 4, Some(&rectangle(u32::MAX, 0, 2, 1)));
    assert!(matches!(wrapped, Presenting::Answer(EINVAL)));
    assert!(matches!(present(&state, 7, 4, None), Presenting::Answer(EFAULT)));
    let nobody = present(&state, 7, 5, Some(&rectangle(0, 0, 1, 1)));
    assert!(matches!(nobody, Presenting::Answer(EBADF)));
}

#[test]
fn a_frame_is_waited_for() {
    let mut state = window();
    assert_eq!(frame_deadline(5), 10_005);
    assert_eq!(sent(&mut state, 7, 4, true), None);
    assert_eq!(statistics(&state), (1, 0));
    // A key that comes meanwhile is kept.
    let key = message(&[1, b'k', 0, 0, 0], None);
    assert_eq!(acknowledged(&mut state, 7, 4, Some(&key), 0, 10), None);
    let shown = message(b"shown", None);
    assert_eq!(acknowledged(&mut state, 7, 4, Some(&shown), 0, 10), Some(0));
    assert_eq!(has_event(&state, 7, 4), Ok(true));
    assert_eq!(event(&mut state), (1, b'k' as u32));
    assert_eq!(event(&mut state), (0, 0));
    assert_eq!(statistics(&state), (1, 1));
    assert_eq!(acknowledged(&mut state, 7, 4, Some(&key), 10, 10), Some(ETIMEDOUT));
    assert!(acknowledged(&mut state, 7, 4, None, 0, 10).is_some());
    assert!(sent(&mut state, 7, 4, false).is_some());
}

#[test]
fn events_keep_their_order_and_are_bounded() {
    let mut state = window();
    for value in 0..70u8 {
        absorb(&mut state, 7, 4, &message(&[1, value, 0, 0, 0], None));
    }
    // The six oldest are gone.
    for value in 6..70u32 {
        assert_eq!(event(&mut state), (1, value));
    }
    assert_eq!(event(&mut state), (0, 0));
    // A key that is no character is told by its number.
    absorb(&mut state, 7, 4, &message(&[9, 1, 0, 0, 0], None));
    assert_eq!(event(&mut state), (2, 9));
    absorb(&mut state, 7, 4, &message(&[2, 1], None));
    assert_eq!(has_event(&state, 7, 4), Ok(false));
    // Nor is an acknowledgement that came too late an event.
    absorb(&mut state, 7, 4, &message(b"shown", None));
    assert_eq!(has_event(&state, 7, 4), Ok(false));
    assert!(has_event(&state, 7, 5).is_err());
}

#[test]
fn a_new_size_brings_a_new_surface() {
    let mut state = window();
    absorb(&mut state, 7, 4, &message(&sized(b"size", 30, 10), Some((6, 1200))));
    assert_eq!(surface_of(&state, 7, 4).map(|surface| surface.object), Some(6));
    let reply = next_event(&mut state, 7, 4, None, 0x40, true);
    assert_eq!(words(&reply.writes[0].bytes), vec![3, 0, 30, 10]);
    // One that does not hold its pixels loses the window and keeps the surface.
    absorb(&mut state, 7, 4, &message(&sized(b"size", 30, 10), Some((8, 1199))));
    assert_eq!(surface_of(&state, 7, 4).map(|surface| surface.object), Some(6));
    assert_eq!(event(&mut state).0, 4);
}

#[test]
fn a_compositor_that_has_gone_is_told() {
    let mut state = window();
    mark_closed(&mut state, 7, 4);
    mark_closed(&mut state, 7, 4);
    assert_eq!(event(&mut state).0, 4);
    assert_eq!(event(&mut state).0, 4);
    assert_eq!(event(&mut state).0, 0);
    assert_eq!(next_event(&mut state, 7, 4, None, 0x40, false).answer, EFAULT);
    assert_eq!(next_event(&mut state, 7, 9, None, 0x40, true).answer, EBADF);
}

#[test]
fn a_silent_compositor_is_not_waited_for_for_ever() {
    let deadline = frame_deadline(500);
    assert_eq!(unacknowledged(500, deadline), None);
    assert_eq!(unacknowledged(10_499, deadline), None);
    assert_eq!(unacknowledged(10_500, deadline), Some(ETIMEDOUT));
    assert_eq!(unacknowledged(20_000, deadline), Some(ETIMEDOUT));
}

#[test]
fn without_an_offer_there_is_no_window() {
    assert!(matches!(offered(false, true, false, 10, 10), Offer::GiveUp));
    assert_eq!(not_offered(), ENXIO);
}
