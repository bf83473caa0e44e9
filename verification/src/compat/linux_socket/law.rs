//! What a program counts on when it uses sockets, in its own numbers: family 1,
//! kind 1, and an address of two bytes and up to 108 more.
use vstd::prelude::*;

#[allow(unused_imports)]
use super::message::{
    header_in, opened, rights_in, scattered, targets_in, told_of, total, vectors_in, IncomingModel,
    OutgoingModel, Receiving, Sending,
};
#[allow(unused_imports)]
use super::{
    address_name, addressed, before_zero, kind_refused, lemma_before_zero, lesser, unnamed,
    Described, Socket, CLOEXEC, DONTWAIT, IOVEC, MAX_HANDLES, MAX_TRANSFER, MAX_VECTORS, MSGHDR, NONBLOCK, PEERCRED,
    SCM_RIGHTS, SOL_SOCKET,
};
#[allow(unused_imports)]
use crate::bytes::{le16, le32, u16_at, u32_at, u64_at};
#[allow(unused_imports)]
use crate::compat::error::{
    EAFNOSUPPORT, EFAULT, EINVAL, ENAMETOOLONG, ENOSYS, ENOTCONN, ENOTSOCK, EPROTONOSUPPORT,
};

verus! {

/// The flags of a socket and of a transfer, the sizes of the structures, and how
/// much one transfer takes.
pub proof fn law_numbers_of_sockets()
    ensures
        NONBLOCK == 0x800,
        CLOEXEC == 0x8_0000,
        DONTWAIT == 0x40,
        MAX_TRANSFER == 65536,
        MAX_HANDLES == 8,
        MAX_VECTORS == 64,
        IOVEC == 16,
        MSGHDR == 56,
        SOL_SOCKET == 1,
        SCM_RIGHTS == 1,
        PEERCRED == 17,
{
}

/// Which sockets there are: local ones, family one, that are streams, kind one, with
/// no protocol named. Two flags may stand beside the kind.
pub proof fn law_which_sockets_there_are(family: u64, kind: u64, protocol: u64)
    ensures
        family != 1 <==> kind_refused(family, kind, protocol) == Some(EAFNOSUPPORT),
        kind_refused(family, kind, protocol) is None <==> family == 1 && protocol == 0 && (kind == 1
            || kind == 0x801 || kind == 0x8_0001 || kind == 0x8_0801),
        kind_refused(family, kind, protocol) matches Some(reason) ==> reason == EAFNOSUPPORT
            || reason == EPROTONOSUPPORT,
{
    assert(kind & !(0x800u64 | 0x8_0000u64) == 1 <==> kind == 1 || kind == 0x801 || kind == 0x8_0001
        || kind == 0x8_0801) by (bit_vector);
}

/// What an address names: what stands behind its first two bytes, up to a zero. One
/// that starts with a zero is a name of all its bytes.
pub proof fn law_what_an_address_names(bytes: Seq<u8>, end: int)
    requires
        2 < bytes.len() <= 110,
        u16_at(bytes, 0) == 1,
    ensures
        bytes[2] == 0 && vstd::utf8::valid_utf8(bytes.skip(2)) ==> address_name(bytes) == Ok::<
            Seq<u8>,
            u64,
        >(bytes.skip(2)),
        2 < end <= bytes.len() && (end < bytes.len() ==> bytes[end] == 0) && !bytes.subrange(
            2,
            end,
        ).contains(0) && vstd::utf8::valid_utf8(bytes.subrange(2, end)) ==> address_name(bytes)
            == Ok::<Seq<u8>, u64>(bytes.subrange(2, end)),
{
    if 2 < end <= bytes.len() && (end < bytes.len() ==> bytes[end] == 0) && !bytes.subrange(
        2,
        end,
    ).contains(0) {
        let path = bytes.skip(2);
        let name = bytes.subrange(2, end);
        assert forall|i: int| 0 <= i < end - 2 implies path[i] != 0 by {
            assert(path[i] == name[i]);
        }
        lemma_before_zero(path, end - 2);
        assert(path.take(end - 2) =~= name);
        assert(path[0] == name[0]);
    }
}

/// When an address is refused: for its length, where it cannot be read, for a
/// family that is not local, without a name, and for a name that is no text.
pub proof fn law_when_an_address_is_refused(length: u64, bytes: Seq<u8>)
    requires
        bytes.len() == length,
    ensures
        length < 2 || length > 110 ==> addressed(length, Some(bytes)) == Err::<Seq<u8>, u64>(EINVAL)
            && addressed(length, None) == Err::<Seq<u8>, u64>(EINVAL),
        2 <= length <= 110 ==> addressed(length, None) == Err::<Seq<u8>, u64>(EFAULT),
        2 <= length <= 110 && u16_at(bytes, 0) != 1 ==> addressed(length, Some(bytes)) == Err::<
            Seq<u8>,
            u64,
        >(EAFNOSUPPORT),
        length == 2 && u16_at(bytes, 0) == 1 ==> addressed(length, Some(bytes)) == Err::<
            Seq<u8>,
            u64,
        >(EINVAL),
        2 <= length <= 110 ==> addressed(length, Some(bytes)) == address_name(bytes),
        2 < length <= 110 && u16_at(bytes, 0) == 1 && bytes[2] == 0 && !vstd::utf8::valid_utf8(
            bytes.skip(2),
        ) ==> addressed(length, Some(bytes)) == Err::<Seq<u8>, u64>(EINVAL),
{
}

/// A socket without a name has an address of two bytes, the family one; that it is
/// two is always written, and the family only where there is room for it.
pub proof fn law_an_address_without_a_name(address: u64, length: u64, room: u32, in_range: bool)
    ensures
        room >= 2 && in_range ==> unnamed(address, length, room, in_range) == seq![
            (address, le16(1)),
            (length, le32(2)),
        ],
        !(room >= 2 && in_range) ==> unnamed(address, length, room, in_range) == seq![
            (length, le32(2)),
        ],
{
}

/// The smaller of two is one of them, and neither is smaller.
pub proof fn law_the_smaller_of_two(left: u64, right: u64)
    ensures
        lesser(left, right) <= left,
        lesser(left, right) <= right,
        lesser(left, right) == left || lesser(left, right) == right,
{
}

/// What stands where in a `struct msghdr` of 56 bytes: the list of pieces and how
/// many there are, and behind them the control message and its length.
pub proof fn law_message_header_fields(bytes: Seq<u8>)
    ensures
        header_in(bytes).vectors == u64_at(bytes, 16),
        header_in(bytes).vector_count == u64_at(bytes, 24),
        header_in(bytes).control == u64_at(bytes, 32),
        header_in(bytes).control_length == u64_at(bytes, 40),
{
}

/// A piece is sixteen bytes: where it starts, and then how long it is.
pub proof fn law_a_piece_is_sixteen_bytes(bytes: Seq<u8>, i: int)
    requires
        0 <= i,
        16 * i + 16 <= bytes.len(),
    ensures
        vectors_in(bytes).len() == bytes.len() / 16,
        vectors_in(bytes)[i].0 == u64_at(bytes, 16 * i),
        vectors_in(bytes)[i].1 == u64_at(bytes, 16 * i + 8),
{
}

/// Which sockets can carry a message: connected ones of a process.
pub proof fn law_which_sockets_carry_messages(socket: Socket, reason: u64, has_process: bool)
    ensures
        opened(Err(reason), has_process) == Some(reason),
        opened(Ok(Described::Other), has_process) == Some(ENOTSOCK),
        !socket.connected ==> opened(Ok(Described::Socket(socket)), has_process) == Some(ENOTCONN),
        socket.connected && !has_process ==> opened(Ok(Described::Socket(socket)), has_process)
            == Some(ENOSYS),
        socket.connected && has_process ==> opened(Ok(Described::Socket(socket)), has_process)
            is None,
{
}

/// A control message carries handles only where it says so, and no more than eight.
pub proof fn law_what_carries_no_handles(bytes: Seq<u8>)
    ensures
        u32_at(bytes, 8) != 1 || u32_at(bytes, 12) != 1 || u64_at(bytes, 0) < 16 ==> rights_in(bytes)
            == Ok::<Seq<u32>, u64>(Seq::empty()),
        u32_at(bytes, 8) == 1 && u32_at(bytes, 12) == 1 && u64_at(bytes, 0) >= 16 + 4 * 9
            ==> rights_in(bytes) == Err::<Seq<u32>, u64>(EINVAL),
        u32_at(bytes, 8) == 1 && u32_at(bytes, 12) == 1 && 16 <= u64_at(bytes, 0) < 16 + 4 * 9
            && 16 <= bytes.len() ==> {
            &&& rights_in(bytes) is Ok
            &&& rights_in(bytes)->Ok_0.len() <= 8
            &&& u64_at(bytes, 0) <= bytes.len() ==> rights_in(bytes)->Ok_0.len() == (u64_at(bytes, 0)
                - 16) / 4
            &&& forall|i: int|
                0 <= i < rights_in(bytes)->Ok_0.len() ==> #[trigger] rights_in(bytes)->Ok_0[i]
                    == u32_at(bytes, 16 + 4 * i)
        },
{
}

/// What sending a message asks for, in order: the control message where there is
/// one, 56 bytes of it at most; its handles, one by one; the list of pieces, 64 at
/// most; and only then anything goes out.
pub proof fn law_what_sending_asks_for(message: OutgoingModel)
    ensures
        message.first() is Control <==> message.header.control != 0 && message.header.control_length
            >= 16,
        message.first() matches Sending::Control { at, length } ==> at == message.header.control
            && length == if message.header.control_length <= 56 {
            message.header.control_length
        } else {
            56
        },
        !(message.first() is Control) ==> message.first() == message.take_next(),
        message.taken < message.rights.len() ==> message.take_next() == Sending::Take(
            message.rights[message.taken as int],
        ),
        message.taken >= message.rights.len() && message.header.vector_count > 0
            ==> message.take_next() == (Sending::Vectors {
            at: message.header.vectors,
            length: if message.header.vector_count <= 64 {
                (16 * message.header.vector_count) as u64
            } else {
                1024
            },
        }),
        message.taken >= message.rights.len() && message.header.vector_count == 0
            ==> message.take_next() == message.finish(),
        message.rights.len() > 0 ==> message.finish() == Sending::Handles,
        message.rights.len() == 0 ==> message.finish() == message.write(),
        message.payload.len() > 0 ==> message.write() == Sending::Write,
        message.payload.len() == 0 ==> message.write() == Sending::Answer(0),
{
}

/// Pieces are gathered in their order, one without bytes is passed over, and no more
/// is gathered than 65536 bytes in all.
pub proof fn law_pieces_are_gathered_in_order(message: OutgoingModel)
    requires
        message.next < message.vectors.len(),
        message.payload.len() < 65536,
    ensures
        ({
            let (at, length) = message.vectors[message.next as int];
            let room = 65536 - message.payload.len();
            &&& length > 0 ==> message.next_piece() == (Sending::Piece {
                at,
                length: if length <= room {
                    length
                } else {
                    room as u64
                },
            })
            &&& length == 0 ==> message.next_piece() == OutgoingModel {
                next: message.next + 1,
                ..message
            }.next_piece()
        }),
{
}

/// What a receiver has room for: the handles that fit behind the sixteen bytes of a
/// control message, eight at most, and none where it has no room for one.
pub proof fn law_room_for_handles(message: IncomingModel)
    ensures
        message.handles_wanted() is None <==> message.header.control == 0
            || message.header.control_length < 16,
        message.handles_wanted() matches Some(most) ==> {
            &&& most <= 8
            &&& 16 + 4 * most <= message.header.control_length
            &&& most < 8 ==> message.header.control_length < 16 + 4 * (most + 1)
        },
        message.taken <= 8 ==> message.room_wanted() == (Receiving::Room {
            at: message.header.control,
            length: (16 + 4 * message.taken) as u64,
            most: message.header.control_length,
        }),
        forall|taken: nat|
            1 <= taken <= 8 ==> (#[trigger] told_of(message, taken)).control_written == 16 + 4
                * taken,
        told_of(message, 0).control_written == 0,
{
}

/// What receiving a message does, step by step: the list of pieces first, 64 at
/// most; handles that are there before any byte; then the bytes, without waiting
/// where the program said so or already has something; and handles once more where
/// there were none.
pub proof fn law_what_receiving_does(message: IncomingModel)
    ensures
        message.header.vector_count > 0 ==> message.first() == (Receiving::Vectors {
            at: message.header.vectors,
            length: if message.header.vector_count <= 64 {
                (16 * message.header.vector_count) as u64
            } else {
                1024
            },
        }),
        message.header.vector_count == 0 ==> message.first() == message.look(),
        message.handles_wanted() matches Some(most) ==> message.look() == Receiving::Take(most),
        message.handles_wanted() is None ==> message.look() == message.looked(),
        !message.read && message.room > 0 ==> message.looked() == if message.dont_wait
            || message.control_written > 0 {
            Receiving::ReadNow(message.room)
        } else {
            Receiving::Read(message.room)
        },
        message.read ==> message.looked() == message.scatter(),
        message.control_written == 0 ==> (message.handles_wanted() matches Some(most)
            ==> message.after_read() == Receiving::Take(most)),
        message.control_written > 0 || message.handles_wanted() is None ==> message.after_read()
            == message.scatter(),
        message.settled() == if !message.read && message.room == 0 {
            IncomingModel { read: true, ..message }
        } else {
            message
        },
{
}

/// What arrived is put into the pieces in their order: each piece gets bytes at its
/// own address, no more than it has room for, and is full before the next gets any.
pub proof fn law_each_piece_gets_its_bytes(targets: Seq<(u64, u64)>, bytes: Seq<u8>, i: int)
    requires
        0 <= i < scattered(targets, bytes).len(),
    ensures
        i < targets.len(),
        scattered(targets, bytes)[i].0 == targets[i].0,
        scattered(targets, bytes)[i].1.len() <= targets[i].1,
        i + 1 < scattered(targets, bytes).len() ==> scattered(targets, bytes)[i].1.len()
            == targets[i].1,
    decreases targets.len(),
{
    let take = if targets[0].1 < bytes.len() {
        targets[0].1 as int
    } else {
        bytes.len() as int
    };
    let rest = scattered(targets.drop_first(), bytes.skip(take));
    if i > 0 {
        law_each_piece_gets_its_bytes(targets.drop_first(), bytes.skip(take), i - 1);
    } else if scattered(targets, bytes).len() > 1 {
        assert(rest.len() > 0);
        if take == bytes.len() {
            assert(bytes.skip(take).len() == 0);
        }
    }
}

/// The room there is, is the sum of what the pieces have, and pieces without any are
/// left out of it.
pub proof fn law_room_is_a_sum(targets: Seq<(u64, u64)>, last: (u64, u64))
    ensures
        total(Seq::empty()) == 0,
        total(targets.push(last)) == total(targets) + last.1,
        last.1 == 0 ==> targets_in(targets.push(last)) == targets_in(targets),
        last.1 != 0 ==> targets_in(targets.push(last)) == targets_in(targets).push(last),
{
    assert(targets.push(last).drop_last() =~= targets);
    reveal(Seq::filter);
}

/// A message that is just starting in has nothing done yet: no bytes and no handles
/// came, none of its vectors was looked at, and nothing was put anywhere.
pub proof fn law_nothing_has_arrived_yet(
    header: super::message::MessageHeader,
    dont_wait: bool,
)
    ensures
        ({
            let message = IncomingModel::fresh(header, dont_wait);
            &&& message.header == header
            &&& message.dont_wait == dont_wait
            &&& !message.read
            &&& message.bytes.len() == 0
            &&& message.targets.len() == 0
            &&& message.room == 0
            &&& message.taken == 0
            &&& message.control_written == 0
            &&& message.placed == 0
        }),
{
}

} // verus!
