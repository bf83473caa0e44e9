//! Sockets and the messages on them.
use nexus_kernel::compat::error::{
    EADDRINUSE, EAFNOSUPPORT, EAGAIN, EBADF, ECONNREFUSED, EFAULT, EINTR, EINVAL, EISCONN, ENOSYS,
    ENOTCONN, ENOTSOCK, EPIPE, EPROTONOSUPPORT,
};
use nexus_kernel::compat::linux_socket::message::{
    control_message, header_of, recvmsg, sendmsg, Receiving, Sending,
};
use nexus_kernel::compat::linux_socket::{
    accept, accepted, accepted_as, accepted_now, address_of, bind, bound, connect, connected,
    forget, listen, listened, paired, receive, received, received_now, send, sent, setsockopt,
    shutdown, socket, socketpair, statistics, Accepting, Connecting, Described, Listening, Socket,
    SocketError, State, Transfer, NONBLOCK,
};

fn idle() -> Result<Described, u64> {
    Ok(Described::Socket(Socket { untouched: true, bound: None, listening: false, connected: false }))
}

fn named(name: &[u8]) -> Result<Described, u64> {
    Ok(Described::Socket(Socket {
        untouched: false,
        bound: Some(name.to_vec()),
        listening: false,
        connected: false,
    }))
}

fn joined() -> Result<Described, u64> {
    Ok(Described::Socket(Socket { untouched: false, bound: None, listening: false, connected: true }))
}

fn listener() -> Result<Described, u64> {
    Ok(Described::Socket(Socket {
        untouched: false,
        bound: Some(b"/a".to_vec()),
        listening: true,
        connected: false,
    }))
}

fn unix(path: &[u8]) -> Vec<u8> {
    let mut bytes = vec![1, 0];
    bytes.extend_from_slice(path);
    bytes
}

#[test]
fn addresses_are_read() {
    let path = unix(b"/tmp/x\0junk");
    assert_eq!(address_of(path.len() as u64, Some(&path)), Ok(b"/tmp/x".to_vec()));
    let whole = unix(b"/tmp/x");
    assert_eq!(address_of(whole.len() as u64, Some(&whole)), Ok(b"/tmp/x".to_vec()));
    // An abstract name keeps its zero, and every byte after it.
    let hidden = unix(b"\0a\0b");
    assert_eq!(address_of(hidden.len() as u64, Some(&hidden)), Ok(b"\0a\0b".to_vec()));
    assert_eq!(address_of(2, Some(&[1, 0])), Err(EINVAL));
    assert_eq!(address_of(8, None), Err(EFAULT));
    let inet = [2, 0, 1, 2, 3, 4, 5, 6];
    assert_eq!(address_of(8, Some(&inet)), Err(EAFNOSUPPORT));
    let long = vec![1u8; 111];
    assert_eq!(address_of(111, Some(&long)), Err(EINVAL));
}

#[test]
fn only_streams_on_this_machine_are_made() {
    let mut state = State::new();
    assert_eq!(socket(&mut state, 1, 1, 0, true), Ok(()));
    assert_eq!(socket(&mut state, 1, 1 | 0o4000 | 0o2_000_000, 0, true), Ok(()));
    assert_eq!(socket(&mut state, 2, 1, 0, true), Err(EAFNOSUPPORT));
    assert_eq!(socket(&mut state, 10, 1, 0, true), Err(EAFNOSUPPORT));
    assert_eq!(socket(&mut state, 1, 2, 0, true), Err(EPROTONOSUPPORT));
    assert_eq!(socket(&mut state, 1, 1, 6, true), Err(EPROTONOSUPPORT));
    assert_eq!(socket(&mut state, 1, 1, 0, false), Err(ENOSYS));
    assert_eq!(statistics(&state), (2, 0));
    assert_eq!(socketpair(&mut state, 1, 1, 0, true, true), Ok(()));
    assert_eq!(socketpair(&mut state, 1, 1, 0, true, false), Err(EFAULT));
    assert_eq!(statistics(&state).0, 4);
    let reply = paired(0x100, 5, 6);
    assert_eq!(reply.answer, 0);
    assert_eq!(reply.writes[0].at, 0x100);
    assert_eq!(reply.writes[0].bytes, vec![5, 0, 0, 0, 6, 0, 0, 0]);
}

fn start(state: &mut State, name: &[u8], number: u64) -> Listening {
    listen(state, named(name), true, number)
}

#[test]
fn a_name_is_taken_once() {
    let mut state = State::new();
    let address = unix(b"/a");
    let length = address.len() as u64;
    assert_eq!(bind(&state, idle(), length, Some(&address)), Ok(b"/a".to_vec()));
    assert_eq!(bound(true), 0);
    assert!(matches!(start(&mut state, b"/a", 9), Listening::Start { .. }));
    assert_eq!(listened(&mut state, 7, b"/a".to_vec(), true), 0);
    assert_eq!(statistics(&state), (0, 1));
    assert_eq!(bind(&state, idle(), length, Some(&address)), Err(EADDRINUSE));
    assert!(matches!(start(&mut state, b"/a", 10), Listening::Answer(EADDRINUSE)));
    let next = connect(&state, idle(), length, Some(&address));
    assert!(matches!(next, Connecting::To(9)));
    assert_eq!(connected(Ok(true)), 0);
    assert_eq!(connected(Ok(false)), EISCONN);
    assert_eq!(connected(Err(SocketError::Backlog)), EAGAIN);
    assert_eq!(connected(Err(SocketError::Gone)), ECONNREFUSED);
}

#[test]
fn an_ended_process_leaves_no_names() {
    let mut state = State::new();
    for (process, name) in [(7u64, &b"/a"[..]), (8, b"/b")] {
        start(&mut state, name, process);
        listened(&mut state, process, name.to_vec(), true);
    }
    start(&mut state, b"/c", 7);
    listened(&mut state, 7, b"/c".to_vec(), true);
    assert_eq!(statistics(&state), (0, 3));
    forget(&mut state, 7);
    assert_eq!(statistics(&state), (0, 1));
    forget(&mut state, 7);
    assert_eq!(statistics(&state), (0, 1));
    let gone = unix(b"/a");
    let kept = unix(b"/b");
    let refused = connect(&state, idle(), gone.len() as u64, Some(&gone));
    assert!(matches!(refused, Connecting::Answer(ECONNREFUSED)));
    assert!(matches!(connect(&state, idle(), kept.len() as u64, Some(&kept)), Connecting::To(8)));
}

#[test]
fn abstract_names_are_not_paths() {
    let mut state = State::new();
    start(&mut state, b"\0a", 9);
    listened(&mut state, 7, b"\0a".to_vec(), true);
    let path = unix(b"a");
    let hidden = unix(b"\0a");
    let refused = connect(&state, idle(), path.len() as u64, Some(&path));
    assert!(matches!(refused, Connecting::Answer(ECONNREFUSED)));
    let found = connect(&state, idle(), hidden.len() as u64, Some(&hidden));
    assert!(matches!(found, Connecting::To(9)));
}

#[test]
fn what_is_not_a_socket_or_not_the_right_one() {
    let mut state = State::new();
    let address = unix(b"/a");
    let length = address.len() as u64;
    assert_eq!(bind(&state, Ok(Described::Other), length, Some(&address)), Err(ENOTSOCK));
    assert_eq!(bind(&state, Err(EBADF), length, Some(&address)), Err(EBADF));
    assert!(matches!(connect(&state, joined(), length, Some(&address)), Connecting::Answer(EISCONN)));
    assert!(matches!(listen(&mut state, idle(), true, 1), Listening::Answer(EINVAL)));
    assert!(matches!(accept(idle(), true, 0), Accepting::Answer(EINVAL)));
    assert!(matches!(accept(listener(), true, 0), Accepting::Wait));
    assert!(matches!(accept(listener(), true, NONBLOCK), Accepting::Now));
    assert_eq!(accepted_now(false), Err(EAGAIN));
    assert_eq!(accepted_now(true), Ok(()));
    assert_eq!(accepted(Err(SocketError::Cancelled)), Err(EINTR));
    assert_eq!(accepted(Ok(())), Ok(()));
}

#[test]
fn a_peer_has_no_address() {
    let reply = accepted_as(4, 0x100, 0x200, Some(16), true);
    assert_eq!(reply.answer, 4);
    assert_eq!(reply.writes.len(), 2);
    assert_eq!((reply.writes[0].at, reply.writes[0].bytes.clone()), (0x100, vec![1, 0]));
    assert_eq!((reply.writes[1].at, reply.writes[1].bytes.clone()), (0x200, vec![2, 0, 0, 0]));
    let without = accepted_as(4, 0, 0, None, false);
    assert!(without.writes.is_empty());
}

#[test]
fn bytes_go_both_ways() {
    assert!(matches!(receive(joined(), 10, true, 0), Transfer::Wait(10)));
    assert!(matches!(receive(joined(), 10, true, 0x40), Transfer::Now(10)));
    assert!(matches!(receive(joined(), 100_000, true, 0), Transfer::Wait(65536)));
    assert!(matches!(receive(joined(), 10, false, 0), Transfer::Answer(EFAULT)));
    assert!(matches!(receive(idle(), 10, true, 0), Transfer::Answer(ENOTCONN)));
    assert!(matches!(send(joined(), 10, true), Transfer::Wait(10)));
    assert!(matches!(send(idle(), 10, true), Transfer::Answer(ENOTCONN)));
    assert_eq!(sent(Ok(10)), 10);
    assert_eq!(sent(Err(SocketError::Gone)), EPIPE);
    assert_eq!(sent(Err(SocketError::Cancelled)), EINTR);
    let some = received_now(0x10, vec![1, 2], true);
    assert_eq!((some.answer, some.writes[0].bytes.clone()), (2, vec![1, 2]));
    assert_eq!(received_now(0x10, vec![], true).answer, EAGAIN);
    assert_eq!(received_now(0x10, vec![], false).answer, 0);
    assert_eq!(received(0x10, Ok(vec![])).answer, 0);
    assert_eq!(received(0x10, Err(SocketError::Cancelled)).answer, EINTR);
    assert_eq!(setsockopt(1, 17), ENOSYS);
    assert_eq!(setsockopt(1, 2), 0);
    assert_eq!(shutdown(), ENOSYS);
}

fn msghdr(vectors: u64, count: u64, control: u64, control_length: u64) -> Vec<u8> {
    let mut bytes = vec![0u8; 56];
    bytes[16..24].copy_from_slice(&vectors.to_le_bytes());
    bytes[24..32].copy_from_slice(&count.to_le_bytes());
    bytes[32..40].copy_from_slice(&control.to_le_bytes());
    bytes[40..48].copy_from_slice(&control_length.to_le_bytes());
    bytes
}

fn vectors(list: &[(u64, u64)]) -> Vec<u8> {
    let mut bytes = Vec::new();
    for (base, length) in list {
        bytes.extend_from_slice(&base.to_le_bytes());
        bytes.extend_from_slice(&length.to_le_bytes());
    }
    bytes
}

#[test]
fn a_message_header_is_read() {
    let header = header_of(Some(&msghdr(1, 2, 3, 4))).unwrap();
    assert_eq!(
        (header.vectors, header.vector_count, header.control, header.control_length),
        (1, 2, 3, 4)
    );
    assert_eq!(header_of(None).err(), Some(EFAULT));
}

#[test]
fn handles_go_out_before_bytes() {
    let bytes = msghdr(0x1000, 2, 0x2000, 20);
    let (mut message, first) = sendmsg(joined(), true, Some(&bytes)).ok().unwrap();
    assert!(matches!(first, Sending::Control { at: 0x2000, length: 20 }));
    let control = control_message(&[9]);
    assert_eq!(control.len(), 20);
    assert_eq!(&control[0..8], &20u64.to_le_bytes());
    assert_eq!(&control[8..16], &[1, 0, 0, 0, 1, 0, 0, 0]);
    assert_eq!(&control[16..20], &[9, 0, 0, 0]);
    assert!(matches!(message.control(Some(&control)), Sending::Take(9)));
    assert!(matches!(message.took(true), Sending::Vectors { at: 0x1000, length: 32 }));
    let list = vectors(&[(0x5000, 3), (0x6000, 2)]);
    assert!(matches!(message.gather(Some(&list)), Sending::Piece { at: 0x5000, length: 3 }));
    assert!(matches!(message.piece(Some(b"abc")), Sending::Piece { at: 0x6000, length: 2 }));
    assert!(matches!(message.piece(Some(b"de")), Sending::Handles));
    assert!(matches!(message.carried(true), Sending::Write));
    assert_eq!(message.payload(), b"abcde");
    assert!(matches!(message.carried(false), Sending::Answer(EPIPE)));
}

#[test]
fn a_bad_descriptor_puts_the_handles_back() {
    let bytes = msghdr(0x1000, 1, 0x2000, 24);
    let (mut message, _) = sendmsg(joined(), true, Some(&bytes)).ok().unwrap();
    let control = control_message(&[9, 10]);
    assert!(matches!(message.control(Some(&control)), Sending::Take(9)));
    assert!(matches!(message.took(true), Sending::Take(10)));
    assert!(matches!(message.took(false), Sending::Restore(EBADF)));
}

#[test]
fn a_control_message_is_believed_only_as_far_as_it_goes() {
    let bytes = msghdr(0x1000, 1, 0x2000, 20);
    let (mut message, _) = sendmsg(joined(), true, Some(&bytes)).ok().unwrap();
    let mut control = control_message(&[9]);
    control[0] = 40;
    assert!(matches!(message.control(Some(&control)), Sending::Take(9)));
    assert!(matches!(message.took(true), Sending::Vectors { .. }));
    let (mut many, _) = sendmsg(joined(), true, Some(&bytes)).ok().unwrap();
    control[0] = 200;
    assert!(matches!(many.control(Some(&control)), Sending::Answer(EINVAL)));
}

#[test]
fn messages_that_cannot_be_sent() {
    let bytes = msghdr(0x1000, 1, 0, 0);
    assert_eq!(sendmsg(idle(), true, Some(&bytes)).err(), Some(ENOTCONN));
    assert_eq!(sendmsg(joined(), false, Some(&bytes)).err(), Some(ENOSYS));
    assert_eq!(sendmsg(joined(), true, None).err(), Some(EFAULT));
    assert_eq!(sendmsg(Ok(Described::Other), true, Some(&bytes)).err(), Some(ENOTSOCK));
    let (mut message, first) = sendmsg(joined(), true, Some(&bytes)).ok().unwrap();
    assert!(matches!(first, Sending::Vectors { at: 0x1000, length: 16 }));
    assert!(matches!(message.gather(None), Sending::Answer(EFAULT)));
}

#[test]
fn a_message_is_scattered_in_order() {
    let bytes = msghdr(0x1000, 3, 0, 0);
    let (mut message, first) = recvmsg(joined(), true, Some(&bytes), 0).ok().unwrap();
    assert!(matches!(first, Receiving::Vectors { at: 0x1000, length: 48 }));
    let list = vectors(&[(0x5000, 3), (0x6000, 0), (0x7000, 4)]);
    assert!(matches!(message.scatter_over(Some(&list)), Receiving::Read(7)));
    let first = message.arrived(Ok(b"hello".to_vec()));
    assert_eq!(first, Receiving::Piece { at: 0x5000, length: 3 });
    let (piece, second) = message.place(true);
    let piece = piece.unwrap();
    assert_eq!((piece.at, piece.bytes), (0x5000, b"hel".to_vec()));
    assert_eq!(second, Receiving::Piece { at: 0x7000, length: 2 });
    let (piece, last) = message.place(true);
    let piece = piece.unwrap();
    assert_eq!((piece.at, piece.bytes), (0x7000, b"lo".to_vec()));
    assert_eq!(last, Receiving::Finish);
    assert_eq!(message.scattered(0x100, true).answer, 5);
}

#[test]
fn a_piece_that_is_not_the_programs_ends_the_scatter() {
    let bytes = msghdr(0x1000, 2, 0, 0);
    let (mut message, _) = recvmsg(joined(), true, Some(&bytes), 0).ok().unwrap();
    let list = vectors(&[(0x5000, 3), (0x7000, 4)]);
    message.scatter_over(Some(&list));
    message.arrived(Ok(b"hello".to_vec()));
    assert!(message.place(true).0.is_some());
    let (piece, next) = message.place(false);
    assert!(piece.is_none());
    assert_eq!(next, Receiving::Answer(EFAULT));
}

#[test]
fn handles_are_looked_for_before_and_after() {
    let bytes = msghdr(0x1000, 1, 0x2000, 20);
    let (mut message, _) = recvmsg(joined(), true, Some(&bytes), 0x40).ok().unwrap();
    let list = vectors(&[(0x5000, 8)]);
    assert_eq!(message.scatter_over(Some(&list)), Receiving::Take(1));
    assert_eq!(message.took(0), Receiving::ReadNow(8));
    assert_eq!(message.arrived(Ok(b"x".to_vec())), Receiving::Take(1));
    assert_eq!(message.took(1), Receiving::Room { at: 0x2000, length: 20, most: 20 });
    assert_eq!(message.room_for(true), Receiving::Tell);
    let (told, next) = message.tell(&[9]);
    assert_eq!((told.at, told.bytes), (0x2000, control_message(&[9])));
    assert_eq!(next, Receiving::Piece { at: 0x5000, length: 1 });
    assert_eq!(message.place(true).1, Receiving::Finish);
    let reply = message.scattered(0x100, true);
    assert_eq!(reply.answer, 1);
    // The program is told how much of its control buffer was used.
    assert_eq!(reply.writes.len(), 1);
    assert_eq!(reply.writes[0].at, 0x100 + 40);
    assert_eq!(reply.writes[0].bytes, 20u64.to_le_bytes().to_vec());
}

#[test]
fn handles_there_is_no_room_for_go_back() {
    let bytes = msghdr(0x1000, 1, 0x2000, 20);
    let (mut message, _) = recvmsg(joined(), true, Some(&bytes), 0).ok().unwrap();
    let list = vectors(&[(0x5000, 8)]);
    message.scatter_over(Some(&list));
    message.took(1);
    assert_eq!(message.room_for(false), Receiving::GiveBack(EFAULT));
}

#[test]
fn a_name_that_was_not_listened_at_is_free_again() {
    let mut state = State::new();
    assert!(matches!(start(&mut state, b"/a", 9), Listening::Start { .. }));
    assert_eq!(listened(&mut state, 7, b"/a".to_vec(), false), EINVAL);
    assert!(matches!(start(&mut state, b"/a", 10), Listening::Start { .. }));
}

#[test]
fn sent_handles_arrive_whoever_starts_first() {
    let bytes = msghdr(0x1000, 1, 0x2000, 24);
    let list = vectors(&[(0x5000, 8)]);
    // The handles are there at the first look.
    let (mut late, _) = recvmsg(joined(), true, Some(&bytes), 0).ok().unwrap();
    assert!(matches!(late.scatter_over(Some(&list)), Receiving::Take(2)));
    assert!(matches!(late.took(2), Receiving::Room { length: 24, .. }));
    assert_eq!(late.tell(&[3, 4]).1, Receiving::ReadNow(8));
    assert!(matches!(late.arrived(Ok(b"xy".to_vec())), Receiving::Piece { .. }));
    // Nothing is there yet, and the read waits.
    let (mut early, _) = recvmsg(joined(), true, Some(&bytes), 0).ok().unwrap();
    assert!(matches!(early.scatter_over(Some(&list)), Receiving::Take(2)));
    assert_eq!(early.took(0), Receiving::Read(8));
    assert_eq!(early.arrived(Ok(b"xy".to_vec())), Receiving::Take(2));
    assert!(matches!(early.took(2), Receiving::Room { length: 24, .. }));
    assert!(matches!(early.tell(&[3, 4]).1, Receiving::Piece { .. }));
    for message in [late, early] {
        let reply = message.scattered(0x100, true);
        assert_eq!(reply.answer, 2);
        assert_eq!(reply.writes[0].bytes, 24u64.to_le_bytes().to_vec());
    }
}
