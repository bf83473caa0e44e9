//! `sendmsg` and `recvmsg`: bytes in several pieces, and descriptors beside
//! them.
//!
//! Handles are a queue of their own beside the byte stream, and a sender puts
//! them in before the bytes. So a sender takes its handles first, and a
//! receiver looks for them twice: once before it reads and once after.
use vstd::prelude::*;

use crate::bytes::{
    get_u32, get_u64, le32, le64, put_bytes, put_u32, put_u64, u32_at, u64_at,
};
use crate::compat::error::{EBADF, EFAULT, EINTR, EINVAL, ENOSYS, ENOTCONN, ENOTSOCK, EPIPE};
use crate::compat::linux_socket::{
    lesser, socket_of, Described, SocketError, CMSGHDR, DONTWAIT, IOVEC, MAX_HANDLES, MAX_TRANSFER,
    MAX_VECTORS, MSGHDR, SCM_RIGHTS, SOL_SOCKET,
};
use crate::compat::reply::{Reply, Write};

verus! {

/// The most bytes of control buffer that are looked at.
pub const MAX_CONTROL: u64 = 56;

/// Where the control length stands in a `msghdr`.
pub const CONTROL_LENGTH: u64 = 40;

/// What is read of a `msghdr`.
#[derive(Clone, Copy, PartialEq, Eq, Structural, Debug)]
pub struct MessageHeader {
    pub vectors: u64,
    pub vector_count: u64,
    pub control: u64,
    pub control_length: u64,
}

/// The header in `bytes`.
pub open spec fn header_in(bytes: Seq<u8>) -> MessageHeader {
    MessageHeader {
        vectors: u64_at(bytes, 16),
        vector_count: u64_at(bytes, 24),
        control: u64_at(bytes, 32),
        control_length: u64_at(bytes, 40),
    }
}

/// Read a `msghdr`, if the program has one where it said.
pub fn header_of(bytes: Option<&[u8]>) -> (header: Result<MessageHeader, u64>)
    requires
        bytes matches Some(bytes) ==> bytes@.len() == MSGHDR,
    ensures
        header == match bytes {
            Some(bytes) => Ok::<MessageHeader, u64>(header_in(bytes@)),
            None => Err(EFAULT),
        },
{
    match bytes {
        Some(bytes) => Ok(
            MessageHeader {
                vectors: get_u64(bytes, 16),
                vector_count: get_u64(bytes, 24),
                control: get_u64(bytes, 32),
                control_length: get_u64(bytes, 40),
            },
        ),
        None => Err(EFAULT),
    }
}

/// What a message call refuses before it looks at the message.
pub open spec fn opened(described: Result<Described, u64>, has_process: bool) -> Option<u64> {
    match described {
        Err(reason) => Some(reason),
        Ok(Described::Other) => Some(ENOTSOCK),
        Ok(Described::Socket(socket)) => if !socket.connected {
            Some(ENOTCONN)
        } else if !has_process {
            Some(ENOSYS)
        } else {
            None
        },
    }
}

fn header_for(
    described: Result<Described, u64>,
    has_process: bool,
    bytes: Option<&[u8]>,
) -> (header: Result<MessageHeader, u64>)
    requires
        bytes matches Some(bytes) ==> bytes@.len() == MSGHDR,
    ensures
        header == match opened(described, has_process) {
            Some(reason) => Err::<MessageHeader, u64>(reason),
            None => match bytes {
                Some(bytes) => Ok(header_in(bytes@)),
                None => Err(EFAULT),
            },
        },
{
    let socket = match socket_of(described) {
        Ok(socket) => socket,
        Err(reason) => return Err(reason),
    };
    if !socket.connected {
        return Err(ENOTCONN);
    }
    if !has_process {
        return Err(ENOSYS);
    }
    header_of(bytes)
}

/// How many vectors of a message are looked at.
pub open spec fn looked_at(header: MessageHeader) -> u64 {
    lesser(header.vector_count, MAX_VECTORS)
}

/// The addresses and lengths in `bytes`.
pub open spec fn vectors_in(bytes: Seq<u8>) -> Seq<(u64, u64)> {
    Seq::new(
        bytes.len() / IOVEC as nat,
        |i: int| (u64_at(bytes, 16 * i), u64_at(bytes, 16 * i + 8)),
    )
}

fn read_vectors(bytes: &[u8]) -> (vectors: Vec<(u64, u64)>)
    requires
        bytes@.len() % 16 == 0,
    ensures
        vectors@ == vectors_in(bytes@),
{
    let mut vectors: Vec<(u64, u64)> = Vec::new();
    let mut at: usize = 0;
    while at < bytes.len()
        invariant
            at <= bytes@.len(),
            at % 16 == 0,
            bytes@.len() % 16 == 0,
            vectors@ == vectors_in(bytes@).take(at as int / 16),
        decreases bytes@.len() - at,
    {
        vectors.push((get_u64(bytes, at), get_u64(bytes, at + 8)));
        assert(vectors_in(bytes@)[at as int / 16] == vectors@.last());
        assert(vectors@ =~= vectors_in(bytes@).take(at as int / 16 + 1));
        at += 16;
    }
    assert(vectors_in(bytes@).take(at as int / 16) =~= vectors_in(bytes@));
    vectors
}

/// The descriptors a control buffer carries.
///
/// Anything but one message of rights carries none. What the message says of
/// its own length is believed only as far as the buffer goes.
pub open spec fn rights_in(bytes: Seq<u8>) -> Result<Seq<u32>, u64> {
    let length = u64_at(bytes, 0);
    let carried = (length - CMSGHDR) / 4;
    let fitting = (bytes.len() - CMSGHDR) / 4;
    if u32_at(bytes, 8) != SOL_SOCKET || u32_at(bytes, 12) != SCM_RIGHTS || length < CMSGHDR {
        Ok(Seq::empty())
    } else if carried > MAX_HANDLES {
        Err(EINVAL)
    } else {
        Ok(
            Seq::new(
                (if carried < fitting {
                    carried
                } else {
                    fitting
                }) as nat,
                |i: int| u32_at(bytes, CMSGHDR + 4 * i),
            ),
        )
    }
}

fn read_rights(bytes: &[u8]) -> (rights: Result<Vec<u32>, u64>)
    requires
        CMSGHDR <= bytes@.len() <= MAX_CONTROL,
    ensures
        match rights {
            Ok(rights) => rights_in(bytes@) == Ok::<Seq<u32>, u64>(rights@),
            Err(reason) => rights_in(bytes@) == Err::<Seq<u32>, u64>(reason),
        },
{
    let length: u64 = get_u64(bytes, 0);
    let mut rights: Vec<u32> = Vec::new();
    if get_u32(bytes, 8) != SOL_SOCKET || get_u32(bytes, 12) != SCM_RIGHTS || length < CMSGHDR {
        assert(rights@ =~= Seq::empty());
        return Ok(rights);
    }
    let carried: u64 = (length - CMSGHDR) / 4;
    if carried > MAX_HANDLES as u64 {
        return Err(EINVAL);
    }
    let fitting: u64 = (bytes.len() as u64 - CMSGHDR) / 4;
    let many: u64 = if carried < fitting {
        carried
    } else {
        fitting
    };
    let mut index: u64 = 0;
    while index < many
        invariant
            index <= many <= 8,
            CMSGHDR + 4 * many <= bytes@.len(),
            rights@ == Seq::new(index as nat, |i: int| u32_at(bytes@, CMSGHDR + 4 * i)),
        decreases many - index,
    {
        rights.push(get_u32(bytes, 16 + 4 * index as usize));
        index += 1;
        assert(rights@ =~= Seq::new(index as nat, |i: int| u32_at(bytes@, CMSGHDR + 4 * i)));
    }
    Ok(rights)
}

/// What a send is to do next.
#[derive(Clone, Copy, PartialEq, Eq, Structural, Debug)]
pub enum Sending {
    Answer(u64),
    /// Read this much control buffer, and go on with [`Outgoing::control`].
    Control { at: u64, length: u64 },
    /// Take this descriptor's handle, and go on with [`Outgoing::took`].
    Take(u32),
    /// Put back every handle taken, then answer this.
    Restore(u64),
    /// Read this much of the vectors, and go on with [`Outgoing::gather`].
    Vectors { at: u64, length: u64 },
    /// Read this piece, and go on with [`Outgoing::piece`].
    Piece { at: u64, length: u64 },
    /// Send the handles taken, and go on with [`Outgoing::carried`].
    Handles,
    /// Write the payload, and answer what `sent` says of it.
    Write,
}

/// A message on its way out, as a value.
#[verifier::ext_equal]
pub struct OutgoingModel {
    pub header: MessageHeader,
    /// The descriptors it carries.
    pub rights: Seq<u32>,
    /// How many of their handles have been taken.
    pub taken: nat,
    pub vectors: Seq<(u64, u64)>,
    /// How many vectors are done with.
    pub next: nat,
    /// What has been gathered.
    pub payload: Seq<u8>,
}

impl OutgoingModel {
    /// Nothing of the message has been looked at but its header.
    pub open spec fn fresh(header: MessageHeader) -> OutgoingModel {
        OutgoingModel {
            header,
            rights: Seq::empty(),
            taken: 0,
            vectors: Seq::empty(),
            next: 0,
            payload: Seq::empty(),
        }
    }

    /// The first step that needs the machine.
    pub open spec fn first(self) -> Sending {
        if self.header.control != 0 && self.header.control_length >= CMSGHDR {
            Sending::Control {
                at: self.header.control,
                length: lesser(self.header.control_length, MAX_CONTROL),
            }
        } else {
            self.take_next()
        }
    }

    /// Handles come before bytes.
    pub open spec fn take_next(self) -> Sending {
        if self.taken < self.rights.len() {
            Sending::Take(self.rights[self.taken as int])
        } else if self.header.vector_count > 0 {
            Sending::Vectors {
                at: self.header.vectors,
                length: (looked_at(self.header) * IOVEC) as u64,
            }
        } else {
            self.finish()
        }
    }

    /// How many vectors are done with once empty ones are passed over.
    pub open spec fn passed(self) -> nat
        decreases self.vectors.len() - self.next,
    {
        if self.next < self.vectors.len() && self.vectors[self.next as int].1 == 0 {
            OutgoingModel { next: self.next + 1, ..self }.passed()
        } else {
            self.next
        }
    }

    /// The next piece, or what follows the last.
    pub open spec fn next_piece(self) -> Sending {
        if self.passed() < self.vectors.len() {
            let (at, length) = self.vectors[self.passed() as int];
            Sending::Piece {
                at,
                length: lesser(length, (MAX_TRANSFER - self.payload.len()) as u64),
            }
        } else {
            self.finish()
        }
    }

    /// What follows the gather.
    pub open spec fn finish(self) -> Sending {
        if self.rights.len() > 0 {
            Sending::Handles
        } else {
            self.write()
        }
    }

    /// What follows the handles.
    pub open spec fn write(self) -> Sending {
        if self.payload.len() == 0 {
            Sending::Answer(0)
        } else {
            Sending::Write
        }
    }
}

/// A message on its way out.
pub struct Outgoing {
    header: MessageHeader,
    rights: Vec<u32>,
    taken: usize,
    vectors: Vec<(u64, u64)>,
    next: usize,
    payload: Vec<u8>,
}

impl View for Outgoing {
    type V = OutgoingModel;

    closed spec fn view(&self) -> OutgoingModel {
        OutgoingModel {
            header: self.header,
            rights: self.rights@,
            taken: self.taken as nat,
            vectors: self.vectors@,
            next: self.next as nat,
            payload: self.payload@,
        }
    }
}

impl Outgoing {
    /// No more taken than there is to take, and no more gathered than one
    /// transfer carries.
    pub open spec fn wf(&self) -> bool {
        &&& self@.taken <= self@.rights.len()
        &&& self@.next <= self@.vectors.len()
        &&& self@.payload.len() < MAX_TRANSFER || self@.next >= self@.vectors.len()
        &&& self@.payload.len() <= MAX_TRANSFER
    }

    fn finish(&self) -> (next: Sending)
        ensures
            next == self@.finish(),
    {
        if self.rights.len() > 0 {
            Sending::Handles
        } else {
            self.write()
        }
    }

    fn write(&self) -> (next: Sending)
        ensures
            next == self@.write(),
    {
        if self.payload.len() == 0 {
            Sending::Answer(0)
        } else {
            Sending::Write
        }
    }

    fn take_next(&self) -> (next: Sending)
        requires
            self.wf(),
        ensures
            next == self@.take_next(),
    {
        if self.taken < self.rights.len() {
            return Sending::Take(self.rights[self.taken]);
        }
        if self.header.vector_count > 0 {
            let many: u64 = if self.header.vector_count < MAX_VECTORS {
                self.header.vector_count
            } else {
                MAX_VECTORS
            };
            return Sending::Vectors { at: self.header.vectors, length: many * IOVEC };
        }
        self.finish()
    }

    fn next_piece(&mut self) -> (next: Sending)
        requires
            old(self).wf(),
            old(self)@.payload.len() < MAX_TRANSFER,
        ensures
            final(self).wf(),
            final(self)@ == (OutgoingModel { next: old(self)@.passed(), ..old(self)@ }),
            next == old(self)@.next_piece(),
    {
        let ghost before = self@;
        while self.next < self.vectors.len() && self.vectors[self.next].1 == 0
            invariant
                self.wf(),
                self@.payload.len() < MAX_TRANSFER,
                self@ == (OutgoingModel { next: self@.next, ..before }),
                self@.passed() == before.passed(),
            decreases self.vectors@.len() - self.next,
        {
            self.next += 1;
            assert(self@ =~= OutgoingModel { next: self@.next, ..before });
        }
        assert(self@.passed() == self@.next);
        if self.next < self.vectors.len() {
            let (at, length) = self.vectors[self.next];
            let room: u64 = MAX_TRANSFER - self.payload.len() as u64;
            return Sending::Piece {
                at,
                length: if length < room {
                    length
                } else {
                    room
                },
            };
        }
        self.finish()
    }

    /// Go on: the control buffer, if the program has it.
    pub fn control(&mut self, bytes: Option<&[u8]>) -> (next: Sending)
        requires
            old(self).wf(),
            old(self)@ == OutgoingModel::fresh(old(self)@.header),
            bytes matches Some(bytes) ==> CMSGHDR <= bytes@.len() <= MAX_CONTROL,
        ensures
            final(self).wf(),
            match bytes {
                None => next == Sending::Answer(EFAULT) && final(self)@ == old(self)@,
                Some(bytes) => match rights_in(bytes@) {
                    Err(reason) => next == Sending::Answer(reason) && final(self)@ == old(self)@,
                    Ok(rights) => {
                        &&& final(self)@ == OutgoingModel { rights, ..old(self)@ }
                        &&& next == final(self)@.take_next()
                    },
                },
            },
    {
        match bytes {
            None => Sending::Answer(EFAULT),
            Some(bytes) => match read_rights(bytes) {
                Err(reason) => Sending::Answer(reason),
                Ok(rights) => {
                    self.rights = rights;
                    self.take_next()
                },
            },
        }
    }

    /// Go on: the handle asked for was taken, or there was none to take.
    ///
    /// A bad descriptor halfway through is a refusal, and the handles already
    /// taken go back.
    pub fn took(&mut self, taken: bool) -> (next: Sending)
        requires
            old(self).wf(),
            old(self)@.taken < old(self)@.rights.len(),
        ensures
            final(self).wf(),
            !taken ==> next == Sending::Restore(EBADF) && final(self)@ == old(self)@,
            taken ==> {
                &&& final(self)@ == OutgoingModel { taken: old(self)@.taken + 1, ..old(self)@ }
                &&& next == final(self)@.take_next()
            },
    {
        if !taken {
            return Sending::Restore(EBADF);
        }
        assert(self.taken < self.rights.len());
        self.taken += 1;
        assert(self@ =~= OutgoingModel { taken: old(self)@.taken + 1, ..old(self)@ });
        self.take_next()
    }

    /// Go on: the vectors, if the program has them.
    pub fn gather(&mut self, bytes: Option<&[u8]>) -> (next: Sending)
        requires
            old(self).wf(),
            old(self)@.payload.len() == 0,
            bytes matches Some(bytes) ==> bytes@.len() % 16 == 0,
        ensures
            final(self).wf(),
            match bytes {
                None => next == Sending::Answer(EFAULT) && final(self)@ == old(self)@,
                Some(bytes) => {
                    let read = OutgoingModel {
                        vectors: vectors_in(bytes@),
                        next: 0,
                        ..old(self)@
                    };
                    &&& final(self)@ == OutgoingModel { next: read.passed(), ..read }
                    &&& next == read.next_piece()
                },
            },
    {
        match bytes {
            None => Sending::Answer(EFAULT),
            Some(bytes) => {
                self.vectors = read_vectors(bytes);
                self.next = 0;
                self.next_piece()
            },
        }
    }

    /// Go on: the piece asked for, if the program has it.
    pub fn piece(&mut self, bytes: Option<&[u8]>) -> (next: Sending)
        requires
            old(self).wf(),
            old(self)@.next < old(self)@.vectors.len(),
            bytes matches Some(bytes) ==> bytes@.len() == lesser(
                old(self)@.vectors[old(self)@.next as int].1,
                (MAX_TRANSFER - old(self)@.payload.len()) as u64,
            ),
        ensures
            final(self).wf(),
            match bytes {
                None => next == Sending::Answer(EFAULT) && final(self)@ == old(self)@,
                Some(bytes) => {
                    let added = OutgoingModel {
                        payload: old(self)@.payload + bytes@,
                        next: old(self)@.next + 1,
                        ..old(self)@
                    };
                    if added.payload.len() >= MAX_TRANSFER {
                        &&& final(self)@ == OutgoingModel { next: added.vectors.len(), ..added }
                        &&& next == added.finish()
                    } else {
                        &&& final(self)@ == OutgoingModel { next: added.passed(), ..added }
                        &&& next == added.next_piece()
                    }
                },
            },
    {
        match bytes {
            None => Sending::Answer(EFAULT),
            Some(bytes) => {
                put_bytes(&mut self.payload, bytes);
                if self.payload.len() as u64 >= MAX_TRANSFER {
                    self.next = self.vectors.len();
                    return self.finish();
                }
                assert(self.next < self.vectors.len());
                self.next += 1;
                assert(self@ =~= OutgoingModel {
                    payload: old(self)@.payload + bytes@,
                    next: old(self)@.next + 1,
                    ..old(self)@
                });
                self.next_piece()
            },
        }
    }

    /// Go on: the handles were sent, or the other end is gone.
    pub fn carried(&self, sent: bool) -> (next: Sending)
        ensures
            next == if sent {
                self@.write()
            } else {
                Sending::Answer(EPIPE)
            },
    {
        if sent {
            self.write()
        } else {
            Sending::Answer(EPIPE)
        }
    }

    /// What is to be written.
    pub fn payload(&self) -> (bytes: &[u8])
        ensures
            bytes@ == self@.payload,
    {
        self.payload.as_slice()
    }
}

/// `sendmsg(fd, message, flags)`: a refusal, or a message and its first step.
///
/// `bytes` holds the program's `msghdr`, if it has one where it said.
pub fn sendmsg(
    described: Result<Described, u64>,
    has_process: bool,
    bytes: Option<&[u8]>,
) -> (started: Result<(Outgoing, Sending), u64>)
    requires
        bytes matches Some(bytes) ==> bytes@.len() == MSGHDR,
    ensures
        match started {
            Err(reason) => Some(reason) == (match opened(described, has_process) {
                Some(reason) => Some(reason),
                None => if bytes is None {
                    Some(EFAULT)
                } else {
                    None
                },
            }),
            Ok((message, next)) => {
                &&& opened(described, has_process) is None
                &&& bytes is Some
                &&& message.wf()
                &&& message@ == OutgoingModel::fresh(header_in(bytes.unwrap()@))
                &&& next == message@.first()
            },
        },
{
    let header = match header_for(described, has_process, bytes) {
        Ok(header) => header,
        Err(reason) => return Err(reason),
    };
    let message = Outgoing {
        header,
        rights: Vec::new(),
        taken: 0,
        vectors: Vec::new(),
        next: 0,
        payload: Vec::new(),
    };
    assert(message@ =~= OutgoingModel::fresh(header));
    let next = if header.control != 0 && header.control_length >= CMSGHDR {
        Sending::Control {
            at: header.control,
            length: if header.control_length < MAX_CONTROL {
                header.control_length
            } else {
                MAX_CONTROL
            },
        }
    } else {
        message.take_next()
    };
    Ok((message, next))
}

/// The bytes there is room for in `targets`.
pub open spec fn total(targets: Seq<(u64, u64)>) -> nat
    decreases targets.len(),
{
    if targets.len() == 0 {
        0
    } else {
        total(targets.drop_last()) + targets.last().1 as nat
    }
}

/// The vectors with room in them.
pub open spec fn targets_in(vectors: Seq<(u64, u64)>) -> Seq<(u64, u64)> {
    vectors.filter(|vector: (u64, u64)| vector.1 != 0)
}

/// The pieces `bytes` are cut into to fill `targets` in order.
pub open spec fn scattered(targets: Seq<(u64, u64)>, bytes: Seq<u8>) -> Seq<(u64, Seq<u8>)>
    decreases targets.len(),
{
    if targets.len() == 0 || bytes.len() == 0 {
        Seq::empty()
    } else {
        let take = if targets[0].1 < bytes.len() {
            targets[0].1 as int
        } else {
            bytes.len() as int
        };
        seq![(targets[0].0, bytes.take(take))] + scattered(
            targets.drop_first(),
            bytes.skip(take),
        )
    }
}

/// The pieces put end to end.
pub open spec fn joined(pieces: Seq<(u64, Seq<u8>)>) -> Seq<u8>
    decreases pieces.len(),
{
    if pieces.len() == 0 {
        Seq::empty()
    } else {
        pieces[0].1 + joined(pieces.drop_first())
    }
}

/// The room in `targets`, counted from the front.
pub open spec fn total_forward(targets: Seq<(u64, u64)>) -> nat
    decreases targets.len(),
{
    if targets.len() == 0 {
        0
    } else {
        targets[0].1 as nat + total_forward(targets.drop_first())
    }
}

/// Counting the room from either end gives the same.
pub proof fn lemma_total_forward(targets: Seq<(u64, u64)>)
    ensures
        total(targets) == total_forward(targets),
    decreases targets.len(),
{
    if targets.len() == 0 {
    } else if targets.len() == 1 {
        assert(targets.drop_last() =~= Seq::<(u64, u64)>::empty());
        assert(targets.drop_first() =~= Seq::<(u64, u64)>::empty());
        assert(total(targets.drop_last()) == 0);
        assert(total_forward(targets.drop_first()) == 0);
    } else {
        let inner = targets.drop_first().drop_last();
        lemma_total_forward(targets.drop_last());
        lemma_total_forward(targets.drop_first());
        lemma_total_forward(inner);
        assert(targets.drop_last().drop_first() =~= inner);
        assert(targets.drop_first().last() == targets.last());
        assert(targets.drop_last()[0] == targets[0]);
    }
}

/// A scatter loses nothing and reorders nothing: where the vectors have room
/// for what arrived, the pieces put end to end are what arrived.
pub proof fn law_scatter_keeps_the_stream(targets: Seq<(u64, u64)>, bytes: Seq<u8>)
    requires
        total_forward(targets) >= bytes.len(),
    ensures
        joined(scattered(targets, bytes)) == bytes,
    decreases targets.len(),
{
    if targets.len() == 0 || bytes.len() == 0 {
        assert(bytes =~= Seq::empty());
    } else {
        let take = if targets[0].1 < bytes.len() {
            targets[0].1 as int
        } else {
            bytes.len() as int
        };
        let rest = scattered(targets.drop_first(), bytes.skip(take));
        law_scatter_keeps_the_stream(targets.drop_first(), bytes.skip(take));
        let all = scattered(targets, bytes);
        assert(all.drop_first() =~= rest);
        assert(all[0] == (targets[0].0, bytes.take(take)));
        assert(bytes.take(take) + bytes.skip(take) =~= bytes);
    }
}

/// What a receive is to do next.
#[derive(Clone, Copy, PartialEq, Eq, Structural, Debug)]
pub enum Receiving {
    Answer(u64),
    /// Read this much of the vectors, and go on with [`Incoming::scatter_over`].
    Vectors { at: u64, length: u64 },
    /// Take up to this many handles off the stream, and go on with
    /// [`Incoming::took`].
    Take(usize),
    /// See whether these bytes are the program's, of which it has so many at
    /// most, and go on with [`Incoming::room_for`].
    Room { at: u64, length: u64, most: u64 },
    /// Put the handles back at the front of the queue, then answer this.
    GiveBack(u64),
    /// Put the handles into the program's table in order, and go on with
    /// [`Incoming::tell`].
    Tell,
    /// Read up to this many bytes without waiting, and go on with
    /// [`Incoming::arrived`].
    ReadNow(u64),
    /// The same, waiting for the first.
    Read(u64),
    /// See whether these bytes are the program's, and go on with
    /// [`Incoming::place`].
    Piece { at: u64, length: u64 },
    /// See whether the program still has its header, and finish with
    /// [`Incoming::scattered`].
    Finish,
}

/// A message on its way in, as a value.
#[verifier::ext_equal]
pub struct IncomingModel {
    pub header: MessageHeader,
    /// Whether the program asked not to wait.
    pub dont_wait: bool,
    pub targets: Seq<(u64, u64)>,
    pub room: u64,
    /// Handles that were taken and that the program was not told of yet.
    pub taken: nat,
    /// Bytes of control message written, or zero.
    pub control_written: u64,
    /// Whether the bytes have arrived.
    pub read: bool,
    pub bytes: Seq<u8>,
    /// How many pieces of them were put where they go.
    pub placed: nat,
}

impl IncomingModel {
    /// Nothing of the message has been looked at but its header.
    pub open spec fn fresh(header: MessageHeader, dont_wait: bool) -> IncomingModel {
        IncomingModel {
            header,
            dont_wait,
            targets: Seq::empty(),
            room: 0,
            taken: 0,
            control_written: 0,
            read: false,
            bytes: Seq::empty(),
            placed: 0,
        }
    }

    /// As many bytes are wanted as the vectors have room for and one transfer
    /// carries.
    pub open spec fn aimed(self) -> bool {
        self.room == if total(self.targets) < MAX_TRANSFER {
            total(self.targets)
        } else {
            MAX_TRANSFER as nat
        }
    }

    /// The pieces the bytes are cut into.
    pub open spec fn pieces(self) -> Seq<(u64, Seq<u8>)> {
        scattered(self.targets, self.bytes)
    }

    /// The next piece, or what follows the last.
    pub open spec fn scatter(self) -> Receiving {
        if self.placed < self.pieces().len() {
            let (at, bytes) = self.pieces()[self.placed as int];
            Receiving::Piece { at, length: bytes.len() as u64 }
        } else {
            Receiving::Finish
        }
    }

    /// The first step that needs the machine.
    pub open spec fn first(self) -> Receiving {
        if self.header.vector_count > 0 {
            Receiving::Vectors {
                at: self.header.vectors,
                length: (looked_at(self.header) * IOVEC) as u64,
            }
        } else {
            self.look()
        }
    }

    /// How many handles the program has room for, if it asked for any.
    pub open spec fn handles_wanted(self) -> Option<usize> {
        if self.header.control == 0 || self.header.control_length < CMSGHDR {
            None
        } else {
            let fitting = (self.header.control_length - CMSGHDR) / 4;
            Some(
                (if fitting < MAX_HANDLES {
                    fitting
                } else {
                    MAX_HANDLES as int
                }) as usize,
            )
        }
    }

    /// Look for handles.
    pub open spec fn look(self) -> Receiving {
        match self.handles_wanted() {
            Some(most) => Receiving::Take(most),
            None => self.looked(),
        }
    }

    /// What follows the look: the read, and then the scatter.
    pub open spec fn looked(self) -> Receiving {
        if self.read {
            self.scatter()
        } else if self.room == 0 {
            IncomingModel { read: true, ..self }.after_read()
        } else if self.dont_wait || self.control_written > 0 {
            Receiving::ReadNow(self.room)
        } else {
            Receiving::Read(self.room)
        }
    }

    /// What follows the read: one more look, unless there were handles already.
    pub open spec fn after_read(self) -> Receiving {
        if self.control_written == 0 && self.handles_wanted() is Some {
            Receiving::Take(self.handles_wanted().unwrap())
        } else {
            self.scatter()
        }
    }

    /// Where a message about the handles in hand is to go.
    pub open spec fn room_wanted(self) -> Receiving {
        Receiving::Room {
            at: self.header.control,
            length: (CMSGHDR + 4 * self.taken) as u64,
            most: self.header.control_length,
        }
    }

    /// The same, once it is clear there is nothing to read for.
    pub open spec fn settled(self) -> IncomingModel {
        if !self.read && self.room == 0 {
            IncomingModel { read: true, ..self }
        } else {
            self
        }
    }
}

/// A message on its way in.
pub struct Incoming {
    header: MessageHeader,
    dont_wait: bool,
    targets: Vec<(u64, u64)>,
    room: u64,
    taken: usize,
    control_written: u64,
    read: bool,
    bytes: Vec<u8>,
    pieces: Vec<Write>,
    placed: usize,
}

impl View for Incoming {
    type V = IncomingModel;

    closed spec fn view(&self) -> IncomingModel {
        IncomingModel {
            header: self.header,
            dont_wait: self.dont_wait,
            targets: self.targets@,
            room: self.room,
            taken: self.taken as nat,
            control_written: self.control_written,
            read: self.read,
            bytes: self.bytes@,
            placed: self.placed as nat,
        }
    }
}

impl Incoming {
    /// The bytes were cut into the pieces they are cut into, and no more handles
    /// are in hand than a message carries.
    pub closed spec fn wf(&self) -> bool {
        &&& written_as(self.pieces@) == self@.pieces()
        &&& self.placed <= self.pieces@.len()
        &&& self.taken <= MAX_HANDLES
    }

    fn scatter(&self) -> (next: Receiving)
        requires
            self.wf(),
        ensures
            next == self@.scatter(),
    {
        assert(written_as(self.pieces@).len() == self.pieces@.len());
        if self.placed < self.pieces.len() {
            let piece: &Write = &self.pieces[self.placed];
            assert(written_as(self.pieces@)[self.placed as int] == piece@);
            Receiving::Piece { at: piece.at, length: piece.bytes.len() as u64 }
        } else {
            Receiving::Finish
        }
    }

    fn handles_wanted(&self) -> (most: Option<usize>)
        ensures
            most == self@.handles_wanted(),
    {
        if self.header.control == 0 || self.header.control_length < CMSGHDR {
            return None;
        }
        let fitting: u64 = (self.header.control_length - CMSGHDR) / 4;
        if fitting < MAX_HANDLES as u64 {
            Some(fitting as usize)
        } else {
            Some(MAX_HANDLES)
        }
    }

    fn looked(&mut self) -> (next: Receiving)
        requires
            old(self).wf(),
        ensures
            final(self).wf(),
            final(self)@ == old(self)@.settled(),
            next == old(self)@.looked(),
    {
        if self.read {
            return self.scatter();
        }
        if self.room == 0 {
            self.read = true;
            assert(self@ =~= IncomingModel { read: true, ..old(self)@ });
            return self.after_read();
        }
        if self.dont_wait || self.control_written > 0 {
            Receiving::ReadNow(self.room)
        } else {
            Receiving::Read(self.room)
        }
    }

    fn after_read(&self) -> (next: Receiving)
        requires
            self.wf(),
        ensures
            next == self@.after_read(),
    {
        if self.control_written == 0 {
            if let Some(most) = self.handles_wanted() {
                return Receiving::Take(most);
            }
        }
        self.scatter()
    }

    fn look(&mut self) -> (next: Receiving)
        requires
            old(self).wf(),
        ensures
            final(self).wf(),
            next == old(self)@.look(),
            final(self)@ == if old(self)@.handles_wanted() is Some {
                old(self)@
            } else {
                old(self)@.settled()
            },
    {
        match self.handles_wanted() {
            Some(most) => Receiving::Take(most),
            None => self.looked(),
        }
    }

    /// Go on: the vectors, if the program has them.
    pub fn scatter_over(&mut self, bytes: Option<&[u8]>) -> (next: Receiving)
        requires
            old(self).wf(),
            old(self)@ == IncomingModel::fresh(old(self)@.header, old(self)@.dont_wait),
            bytes matches Some(bytes) ==> bytes@.len() % 16 == 0,
        ensures
            final(self).wf(),
            match bytes {
                None => next == Receiving::Answer(EFAULT) && final(self)@ == old(self)@,
                Some(bytes) => {
                    let targets = targets_in(vectors_in(bytes@));
                    let aimed = IncomingModel {
                        targets,
                        room: if total(targets) < MAX_TRANSFER {
                            total(targets) as u64
                        } else {
                            MAX_TRANSFER
                        },
                        ..old(self)@
                    };
                    &&& next == aimed.look()
                    &&& final(self)@ == if aimed.handles_wanted() is Some {
                        aimed
                    } else {
                        aimed.settled()
                    }
                },
            },
    {
        let bytes: &[u8] = match bytes {
            None => return Receiving::Answer(EFAULT),
            Some(bytes) => bytes,
        };
        let vectors = read_vectors(bytes);
        let ghost wanted = |vector: (u64, u64)| vector.1 != 0;
        let mut targets: Vec<(u64, u64)> = Vec::new();
        let mut room: u64 = 0;
        let mut at: usize = 0;
        proof {
            assert(vectors@.take(0) =~= Seq::empty());
            reveal(Seq::filter);
        }
        while at < vectors.len()
            invariant
                at <= vectors@.len(),
                wanted == (|vector: (u64, u64)| vector.1 != 0),
                targets@ == vectors@.take(at as int).filter(wanted),
                room == if total(targets@) > u64::MAX {
                    u64::MAX as nat
                } else {
                    total(targets@)
                },
            decreases vectors@.len() - at,
        {
            let (address, length) = vectors[at];
            let ghost before = targets@;
            proof {
                assert(vectors@.take(at + 1).drop_last() =~= vectors@.take(at as int));
                assert(vectors@.take(at + 1).last() == vectors@[at as int]);
                reveal(Seq::filter);
            }
            if length != 0 {
                targets.push((address, length));
                assert(targets@.drop_last() =~= before);
                room = room.saturating_add(length);
            }
            at += 1;
        }
        assert(vectors@.take(at as int) =~= vectors@);
        self.targets = targets;
        self.room = if room < MAX_TRANSFER {
            room
        } else {
            MAX_TRANSFER
        };
        self.look()
    }

    /// Go on: how many handles came off the stream.
    pub fn took(&mut self, taken: usize) -> (next: Receiving)
        requires
            old(self).wf(),
            taken <= MAX_HANDLES,
            old(self)@.control_written == 0,
            old(self)@.taken == 0,
        ensures
            final(self).wf(),
            if taken > 0 {
                &&& final(self)@ == holding(old(self)@, taken as nat)
                &&& next == final(self)@.room_wanted()
            } else {
                &&& next == old(self)@.looked()
                &&& final(self)@ == old(self)@.settled()
            },
    {
        if taken == 0 {
            return self.looked();
        }
        self.taken = taken;
        assert(self@ =~= holding(old(self)@, taken as nat));
        Receiving::Room {
            at: self.header.control,
            length: CMSGHDR + 4 * taken as u64,
            most: self.header.control_length,
        }
    }

    /// Go on: whether the program has room for a message about the handles.
    ///
    /// Where it has none the handles go back: the other end sent them, and a bad
    /// control pointer is this end's mistake.
    pub fn room_for(&self, in_range: bool) -> (next: Receiving)
        ensures
            next == if in_range {
                Receiving::Tell
            } else {
                Receiving::GiveBack(EFAULT)
            },
    {
        if in_range {
            Receiving::Tell
        } else {
            Receiving::GiveBack(EFAULT)
        }
    }

    /// Go on: the descriptors the handles have in the program's table. What is to
    /// be written for it to know of them, and then the next step.
    pub fn tell(&mut self, fds: &[u32]) -> (next: (Write, Receiving))
        requires
            old(self).wf(),
            old(self)@.taken > 0,
            fds@.len() == old(self)@.taken,
        ensures
            final(self).wf(),
            next.0@ == (old(self)@.header.control, rights_message(fds@)),
            ({
                let told = told_of(old(self)@, fds@.len());
                &&& next.1 == told.looked()
                &&& final(self)@ == told.settled()
            }),
    {
        self.taken = 0;
        self.control_written = CMSGHDR + fds.len() as u64 * 4;
        assert(self@ =~= told_of(old(self)@, fds@.len()));
        let message = Write { at: self.header.control, bytes: control_message(fds) };
        let next = self.looked();
        (message, next)
    }

    /// Go on: the bytes that arrived, or why none will.
    pub fn arrived(&mut self, outcome: Result<Vec<u8>, SocketError>) -> (next: Receiving)
        requires
            old(self).wf(),
            !old(self)@.read,
            old(self)@.placed == 0,
        ensures
            final(self).wf(),
            match outcome {
                Err(SocketError::Cancelled) => next == Receiving::Answer(EINTR) && final(self)@
                    == old(self)@,
                Err(_) => next == Receiving::Answer(ENOTCONN) && final(self)@ == old(self)@,
                Ok(bytes) => {
                    let read = filled(old(self)@, bytes@);
                    final(self)@ == read && next == read.after_read()
                },
            },
    {
        match outcome {
            Err(SocketError::Cancelled) => Receiving::Answer(EINTR),
            Err(_) => Receiving::Answer(ENOTCONN),
            Ok(bytes) => {
                self.bytes = bytes;
                self.read = true;
                self.pieces = self.cut();
                assert(self@ =~= filled(old(self)@, self.bytes@));
                self.after_read()
            },
        }
    }

    /// Go on: whether the program has the bytes the next piece goes to. What is
    /// to be written there, and then the next step.
    pub fn place(&mut self, in_range: bool) -> (next: (Option<Write>, Receiving))
        requires
            old(self).wf(),
            old(self)@.scatter() is Piece,
        ensures
            final(self).wf(),
            if in_range {
                let after = IncomingModel { placed: old(self)@.placed + 1, ..old(self)@ };
                &&& final(self)@ == after
                &&& next.0 matches Some(piece) && piece@ == old(self)@.pieces()[old(
                    self,
                )@.placed as int]
                &&& next.1 == after.scatter()
            } else {
                &&& final(self)@ == old(self)@
                &&& next.0 is None
                &&& next.1 == Receiving::Answer(EFAULT)
            },
    {
        if !in_range {
            return (None, Receiving::Answer(EFAULT));
        }
        assert(written_as(self.pieces@).len() == self.pieces@.len());
        let piece: &Write = &self.pieces[self.placed];
        assert(written_as(self.pieces@)[self.placed as int] == piece@);
        let copy = Write {
            at: piece.at,
            bytes: crate::bytes::copy_range(piece.bytes.as_slice(), 0, piece.bytes.len()),
        };
        assert(copy.bytes@ =~= piece.bytes@);
        assert(self.placed < self.pieces.len());
        self.placed += 1;
        assert(self@ =~= IncomingModel { placed: old(self)@.placed + 1, ..old(self)@ });
        let next = self.scatter();
        (Some(copy), next)
    }

    /// Cut the bytes into pieces: what goes where, in order.
    fn cut(&self) -> (pieces: Vec<Write>)
        ensures
            written_as(pieces@) == self@.pieces(),
    {
        let mut pieces: Vec<Write> = Vec::new();
        let mut written: usize = 0;
        let mut at: usize = 0;
        proof {
            assert(self.targets@.skip(0) =~= self.targets@);
            assert(self.bytes@.skip(0) =~= self.bytes@);
            assert(written_as(pieces@) =~= Seq::empty());
            assert(Seq::<(u64, Seq<u8>)>::empty() + scattered(self.targets@, self.bytes@)
                =~= scattered(self.targets@, self.bytes@));
        }
        while at < self.targets.len() && written < self.bytes.len()
            invariant
                at <= self.targets@.len(),
                written <= self.bytes@.len(),
                written_as(pieces@) + scattered(
                    self.targets@.skip(at as int),
                    self.bytes@.skip(written as int),
                ) == scattered(self.targets@, self.bytes@),
            decreases self.targets@.len() - at,
        {
            let (address, length) = self.targets[at];
            let left: u64 = (self.bytes.len() - written) as u64;
            let take: usize = if length < left {
                length as usize
            } else {
                self.bytes.len() - written
            };
            let bytes = crate::bytes::copy_range(self.bytes.as_slice(), written, written + take);
            proof {
                let targets = self.targets@.skip(at as int);
                let rest = self.bytes@.skip(written as int);
                assert(targets.drop_first() =~= self.targets@.skip(at + 1));
                assert(rest.skip(take as int) =~= self.bytes@.skip(written + take));
                assert(rest.take(take as int) =~= bytes@);
                let before = written_as(pieces@);
                let after = before.push((address, bytes@));
                let tail = scattered(
                    self.targets@.skip(at + 1),
                    self.bytes@.skip(written + take),
                );
                assert(scattered(targets, rest) == seq![(address, bytes@)] + tail);
                assert(before + (seq![(address, bytes@)] + tail) =~= after + tail);
            }
            let ghost before = written_as(pieces@);
            pieces.push(Write { at: address, bytes });
            assert(written_as(pieces@) =~= before.push(
                (address, bytes@),
            ));
            written += take;
            at += 1;
        }
        proof {
            let rest = scattered(
                self.targets@.skip(at as int),
                self.bytes@.skip(written as int),
            );
            assert(rest =~= Seq::empty());
            assert(written_as(pieces@) + rest =~= written_as(pieces@));
        }
        pieces
    }

    /// Finish: every piece went where it was to go; whether the program still has
    /// its header.
    ///
    /// The answer is how many bytes went out to the vectors; a program with a
    /// control buffer is told how much of that was written.
    pub fn scattered(&self, message: u64, header_in_range: bool) -> (reply: Reply)
        requires
            header_in_range ==> message + MSGHDR <= u64::MAX,
        ensures
            ({
                let moved = if total_forward(self@.targets) < self@.bytes.len() {
                    total_forward(self@.targets) as u64
                } else {
                    self@.bytes.len() as u64
                };
                if self@.header.control != 0 && header_in_range {
                    reply.is_writing(
                        moved,
                        (message + CONTROL_LENGTH) as u64,
                        le64(self@.control_written),
                    )
                } else {
                    reply.is_plain(moved)
                }
            }),
    {
        let mut written: usize = 0;
        let mut at: usize = 0;
        assert(self.targets@.skip(0) =~= self.targets@);
        while at < self.targets.len() && written < self.bytes.len()
            invariant
                at <= self.targets@.len(),
                written <= self.bytes@.len(),
                written == self.bytes@.len() ==> total_forward(self.targets@) >= self.bytes@.len(),
                written < self.bytes@.len() ==> written + total_forward(
                    self.targets@.skip(at as int),
                ) == total_forward(self.targets@),
            decreases self.targets@.len() - at,
        {
            let (address, length) = self.targets[at];
            assert(self.targets@.skip(at as int).drop_first() =~= self.targets@.skip(at + 1));
            assert(self.targets@.skip(at as int)[0] == (address, length));
            let left: u64 = (self.bytes.len() - written) as u64;
            let take: usize = if length < left {
                length as usize
            } else {
                self.bytes.len() - written
            };
            written += take;
            at += 1;
        }
        if self.header.control != 0 && header_in_range {
            let mut bytes: Vec<u8> = Vec::new();
            put_u64(&mut bytes, self.control_written);
            assert(bytes@ =~= le64(self.control_written));
            Reply::writing(written as u64, message + CONTROL_LENGTH, bytes)
        } else {
            Reply::plain(written as u64)
        }
    }
}

/// `recvmsg(fd, message, flags)`: a refusal, or a message and its first step.
///
/// `bytes` holds the program's `msghdr`, if it has one where it said.
pub fn recvmsg(
    described: Result<Described, u64>,
    has_process: bool,
    bytes: Option<&[u8]>,
    flags: u64,
) -> (started: Result<(Incoming, Receiving), u64>)
    requires
        bytes matches Some(bytes) ==> bytes@.len() == MSGHDR,
    ensures
        match started {
            Err(reason) => Some(reason) == (match opened(described, has_process) {
                Some(reason) => Some(reason),
                None => if bytes is None {
                    Some(EFAULT)
                } else {
                    None
                },
            }),
            Ok((message, next)) => {
                let fresh = IncomingModel::fresh(
                    header_in(bytes.unwrap()@),
                    flags & DONTWAIT != 0,
                );
                &&& opened(described, has_process) is None
                &&& bytes is Some
                &&& message.wf()
                &&& next == fresh.first()
                &&& message@ == if fresh.header.vector_count > 0 || fresh.handles_wanted() is Some {
                    fresh
                } else {
                    fresh.settled()
                }
            },
        },
{
    let header = match header_for(described, has_process, bytes) {
        Ok(header) => header,
        Err(reason) => return Err(reason),
    };
    let mut message = Incoming {
        header,
        dont_wait: flags & DONTWAIT != 0,
        targets: Vec::new(),
        room: 0,
        taken: 0,
        control_written: 0,
        read: false,
        bytes: Vec::new(),
        pieces: Vec::new(),
        placed: 0,
    };
    assert(message@ =~= IncomingModel::fresh(header, flags & DONTWAIT != 0));
    assert(written_as(message.pieces@) =~= message@.pieces());
    let next = if header.vector_count > 0 {
        let many: u64 = if header.vector_count < MAX_VECTORS {
            header.vector_count
        } else {
            MAX_VECTORS
        };
        Receiving::Vectors { at: header.vectors, length: many * IOVEC }
    } else {
        message.look()
    };
    Ok((message, next))
}

/// A control message that carries `fds`.
pub open spec fn rights_message(fds: Seq<u32>) -> Seq<u8> {
    le64((CMSGHDR + 4 * fds.len()) as u64) + le32(SOL_SOCKET) + le32(SCM_RIGHTS) + fds_bytes(fds)
}

/// Descriptors one after the other.
pub open spec fn fds_bytes(fds: Seq<u32>) -> Seq<u8>
    decreases fds.len(),
{
    if fds.len() == 0 {
        Seq::empty()
    } else {
        fds_bytes(fds.drop_last()) + le32(fds.last())
    }
}

/// The control message that tells a program which descriptors it was sent.
pub fn control_message(fds: &[u32]) -> (bytes: Vec<u8>)
    requires
        fds@.len() <= MAX_HANDLES,
    ensures
        bytes@ == rights_message(fds@),
{
    let mut bytes: Vec<u8> = Vec::new();
    put_u64(&mut bytes, CMSGHDR + 4 * fds.len() as u64);
    put_u32(&mut bytes, SOL_SOCKET);
    put_u32(&mut bytes, SCM_RIGHTS);
    let ghost head = bytes@;
    assert(head =~= le64((CMSGHDR + 4 * fds@.len()) as u64) + le32(SOL_SOCKET) + le32(SCM_RIGHTS));
    let mut at: usize = 0;
    while at < fds.len()
        invariant
            at <= fds@.len(),
            bytes@ == head + fds_bytes(fds@.take(at as int)),
        decreases fds@.len() - at,
    {
        put_u32(&mut bytes, fds[at]);
        proof {
            let next = fds@.take(at + 1);
            assert(next.drop_last() =~= fds@.take(at as int));
            assert(bytes@ =~= head + fds_bytes(next));
        }
        at += 1;
    }
    assert(fds@.take(at as int) =~= fds@);
    bytes
}

proof fn lemma_fds_bytes(fds: Seq<u32>)
    ensures
        fds_bytes(fds).len() == 4 * fds.len(),
        forall|i: int| 0 <= i < fds.len() ==> u32_at(fds_bytes(fds), 4 * i) == #[trigger] fds[i],
    decreases fds.len(),
{
    if fds.len() > 0 {
        let fewer = fds.drop_last();
        lemma_fds_bytes(fewer);
        crate::bytes::lemma_u32_round_trip(fds.last());
        let bytes = fds_bytes(fds);
        assert(bytes == fds_bytes(fewer) + le32(fds.last()));
        assert forall|i: int| 0 <= i < fds.len() implies u32_at(bytes, 4 * i) == #[trigger] fds[i] by {
            if i < fewer.len() {
                assert(fds[i] == fewer[i]);
                assert(bytes[4 * i] == fds_bytes(fewer)[4 * i]);
                assert(bytes[4 * i + 1] == fds_bytes(fewer)[4 * i + 1]);
                assert(bytes[4 * i + 2] == fds_bytes(fewer)[4 * i + 2]);
                assert(bytes[4 * i + 3] == fds_bytes(fewer)[4 * i + 3]);
                assert(u32_at(bytes, 4 * i) == u32_at(fds_bytes(fewer), 4 * i));
            } else {
                let last = le32(fds.last());
                assert(bytes[4 * i] == last[0]);
                assert(bytes[4 * i + 1] == last[1]);
                assert(bytes[4 * i + 2] == last[2]);
                assert(bytes[4 * i + 3] == last[3]);
            }
        }
    }
}

/// A control message says how long it is and that it carries rights, and holds
/// the descriptors in order: who reads it finds the descriptors that were
/// written.
pub proof fn law_a_control_message_reads_back(fds: Seq<u32>)
    requires
        fds.len() <= MAX_HANDLES,
    ensures
        ({
            let bytes = rights_message(fds);
            &&& bytes.len() == CMSGHDR + 4 * fds.len()
            &&& u64_at(bytes, 0) == CMSGHDR + 4 * fds.len()
            &&& u32_at(bytes, 8) == SOL_SOCKET
            &&& u32_at(bytes, 12) == SCM_RIGHTS
            &&& forall|i: int|
                0 <= i < fds.len() ==> u32_at(bytes, CMSGHDR + 4 * i) == #[trigger] fds[i]
            &&& rights_in(bytes) == Ok::<Seq<u32>, u64>(fds)
        }),
{
    let bytes = rights_message(fds);
    let length = (CMSGHDR + 4 * fds.len()) as u64;
    let tail = fds_bytes(fds);
    lemma_fds_bytes(fds);
    crate::bytes::lemma_u64_round_trip(length);
    crate::bytes::lemma_u32_round_trip(SOL_SOCKET);
    crate::bytes::lemma_u32_round_trip(SCM_RIGHTS);
    assert(bytes.len() == 16 + tail.len());
    assert(bytes[0] == le64(length)[0] && bytes[1] == le64(length)[1] && bytes[2] == le64(length)[2]
        && bytes[3] == le64(length)[3] && bytes[4] == le64(length)[4] && bytes[5]
        == le64(length)[5] && bytes[6] == le64(length)[6] && bytes[7] == le64(length)[7]);
    assert(u64_at(bytes, 0) == u64_at(le64(length), 0));
    assert(bytes[8] == le32(SOL_SOCKET)[0] && bytes[9] == le32(SOL_SOCKET)[1] && bytes[10] == le32(
        SOL_SOCKET,
    )[2] && bytes[11] == le32(SOL_SOCKET)[3]);
    assert(u32_at(bytes, 8) == u32_at(le32(SOL_SOCKET), 0));
    assert(bytes[12] == le32(SCM_RIGHTS)[0] && bytes[13] == le32(SCM_RIGHTS)[1] && bytes[14]
        == le32(SCM_RIGHTS)[2] && bytes[15] == le32(SCM_RIGHTS)[3]);
    assert(u32_at(bytes, 12) == u32_at(le32(SCM_RIGHTS), 0));
    assert forall|i: int| 0 <= i < fds.len() implies u32_at(bytes, CMSGHDR + 4 * i)
        == #[trigger] fds[i] by {
        assert(bytes[16 + 4 * i] == tail[4 * i]);
        assert(bytes[16 + 4 * i + 1] == tail[4 * i + 1]);
        assert(bytes[16 + 4 * i + 2] == tail[4 * i + 2]);
        assert(bytes[16 + 4 * i + 3] == tail[4 * i + 3]);
        assert(u32_at(bytes, 16 + 4 * i) == u32_at(tail, 4 * i));
    }
    assert(Seq::new(fds.len(), |i: int| u32_at(bytes, CMSGHDR + 4 * i)) =~= fds);
}

/// Writes, as addresses and bytes.
pub open spec fn written_as(pieces: Seq<Write>) -> Seq<(u64, Seq<u8>)> {
    Seq::new(pieces.len(), |i: int| pieces[i]@)
}

/// A message on its way in once a look took so many handles.
pub open spec fn holding(message: IncomingModel, taken: nat) -> IncomingModel {
    IncomingModel { taken, ..message }
}

/// A message on its way in once the program was told of so many handles.
pub open spec fn told_of(message: IncomingModel, taken: nat) -> IncomingModel {
    IncomingModel {
        taken: 0,
        control_written: if taken > 0 {
            (CMSGHDR + taken * 4) as u64
        } else {
            0
        },
        ..message
    }
}

/// A message on its way in once its bytes have arrived.
pub open spec fn filled(message: IncomingModel, bytes: Seq<u8>) -> IncomingModel {
    IncomingModel { read: true, bytes, ..message }
}

/// What a look that may take so many takes of the handles that are queued.
pub open spec fn first_of(queued: Seq<u64>, most: nat) -> Seq<u64> {
    queued.take(
        if most < queued.len() {
            most as int
        } else {
            queued.len() as int
        },
    )
}

/// What is on its way from one program to another: handles, and beside them
/// bytes.
#[verifier::ext_equal]
pub struct Wire {
    pub handles: Seq<u64>,
    pub bytes: Seq<u8>,
}

/// The bytes at a place in a program's memory.
pub open spec fn memory_at(memory: spec_fn(int) -> u8, at: u64, length: nat) -> Seq<u8> {
    Seq::new(length, |i: int| memory(at + i))
}

/// What some vectors point at, put end to end.
pub open spec fn pointed_at(memory: spec_fn(int) -> u8, vectors: Seq<(u64, u64)>) -> Seq<u8>
    decreases vectors.len(),
{
    if vectors.len() == 0 {
        Seq::empty()
    } else {
        memory_at(memory, vectors[0].0, vectors[0].1 as nat) + pointed_at(
            memory,
            vectors.drop_first(),
        )
    }
}

/// As much of some bytes as one transfer carries.
pub open spec fn carried_of(bytes: Seq<u8>, most: u64) -> Seq<u8> {
    bytes.take(
        if most < bytes.len() {
            most as int
        } else {
            bytes.len() as int
        },
    )
}

/// The payload of a message once every piece that is asked for was read, for a
/// program all of whose vectors are its own.
pub open spec fn gathered(message: OutgoingModel, memory: spec_fn(int) -> u8) -> Seq<u8>
    decreases message.vectors.len() - message.next,
{
    match message.next_piece() {
        Sending::Piece { at, length } => {
            let added = OutgoingModel {
                payload: message.payload + memory_at(memory, at, length as nat),
                next: message.passed() + 1,
                ..message
            };
            if added.payload.len() >= MAX_TRANSFER || added.next <= message.next {
                added.payload
            } else {
                gathered(added, memory)
            }
        },
        _ => message.payload,
    }
}

proof fn lemma_passed(message: OutgoingModel)
    requires
        message.next <= message.vectors.len(),
    ensures
        message.next <= message.passed() <= message.vectors.len(),
    decreases message.vectors.len() - message.next,
{
    if message.next < message.vectors.len() && message.vectors[message.next as int].1 == 0 {
        lemma_passed(OutgoingModel { next: message.next + 1, ..message });
    }
}

/// The payload of a message is what its vectors point at, in their order, as far
/// as one transfer carries it.
pub proof fn law_a_message_is_what_its_vectors_point_at(
    message: OutgoingModel,
    memory: spec_fn(int) -> u8,
)
    requires
        message.next <= message.vectors.len(),
        message.payload.len() < MAX_TRANSFER,
    ensures
        gathered(message, memory) == carried_of(
            message.payload + pointed_at(memory, message.vectors.skip(message.next as int)),
            MAX_TRANSFER,
        ),
    decreases message.vectors.len() - message.next,
{
    let rest = message.vectors.skip(message.next as int);
    lemma_passed(message);
    if message.next == message.vectors.len() {
        assert(rest.len() == 0);
        assert(message.payload + Seq::<u8>::empty() =~= message.payload);
        assert(carried_of(message.payload, MAX_TRANSFER) =~= message.payload);
    } else {
        let (at, length) = message.vectors[message.next as int];
        let after = message.vectors.skip(message.next as int + 1);
        assert(rest[0] == (at, length));
        assert(rest.drop_first() =~= after);
        if length == 0 {
            let passed = OutgoingModel { next: message.next + 1, ..message };
            law_a_message_is_what_its_vectors_point_at(passed, memory);
            assert(message.passed() == passed.passed());
            lemma_passed(passed);
            assert(memory_at(memory, at, 0) =~= Seq::empty());
            assert(pointed_at(memory, rest) =~= pointed_at(memory, after));
            assert(gathered(message, memory) == gathered(passed, memory));
        } else {
            assert(message.passed() == message.next);
            let room = (MAX_TRANSFER - message.payload.len()) as u64;
            let take = lesser(length, room);
            let piece = memory_at(memory, at, take as nat);
            let whole = memory_at(memory, at, length as nat);
            let added = OutgoingModel {
                payload: message.payload + piece,
                next: message.next + 1,
                ..message
            };
            let all = message.payload + pointed_at(memory, rest);
            assert(piece =~= whole.take(take as int));
            if length >= room {
                assert(added.payload.len() >= MAX_TRANSFER);
                assert(carried_of(all, MAX_TRANSFER) =~= added.payload);
            } else {
                law_a_message_is_what_its_vectors_point_at(added, memory);
                assert(all =~= added.payload + pointed_at(memory, after));
            }
        }
    }
}

/// What comes of a receive: what the program was told of, and what it read.
#[verifier::ext_equal]
pub struct Delivery {
    pub message: IncomingModel,
    /// The handles that were put into its table, in order.
    pub handles: Seq<u64>,
    /// What is still on its way.
    pub left: Wire,
}

/// A receive from its first look for handles to the end of its read and of its
/// looks, where the program has every byte it points at. `first` is what is on
/// its way at the first look, and `more` what comes after it until the read is
/// over.
pub open spec fn delivered(receiver: IncomingModel, first: Wire, more: Wire) -> Delivery {
    let most = receiver.handles_wanted().unwrap() as nat;
    let taken = first_of(first.handles, most);
    let told = told_of(receiver, taken.len());
    let queued = first.handles.skip(taken.len() as int) + more.handles;
    let arrived = first.bytes + more.bytes;
    let bytes = carried_of(arrived, receiver.room);
    let read = filled(told, bytes);
    let left = arrived.skip(bytes.len() as int);
    if read.after_read() is Take {
        let again = first_of(queued, most);
        Delivery {
            message: told_of(read, again.len()),
            handles: again,
            left: Wire { handles: queued.skip(again.len() as int), bytes: left },
        }
    } else {
        Delivery { message: read, handles: taken, left: Wire { handles: queued, bytes: left } }
    }
}

/// Handles that are sent with a message reach the program that receives it,
/// whichever of the two starts first, and so do its bytes.
///
/// The sender hands its handles over before it writes, so that they are queued
/// before any byte is. Where they are queued at the receiver's first look, that
/// look takes them all, and the bytes that are there are read without waiting.
/// Where nothing is queued yet, the read waits for the first byte, which the
/// handles come before, and the look after the read takes them all. Either way
/// each handle is taken once, in the order sent, none is left, and the program is
/// told of as many as there were. What it reads is the start of what was sent,
/// as far as there is room, put where its vectors point one after the other; the
/// rest is still on its way.
///
/// `sender` has taken all the handles of a message that has bytes, and `sent` is
/// what its write has put on its way so far; `receiver` has looked at its
/// vectors, and has room for the handles and for bytes. `first` is on its way at
/// the receiver's first look, and `more` comes until its read is over.
pub proof fn law_sent_handles_arrive(
    sender: OutgoingModel,
    receiver: IncomingModel,
    handles: Seq<u64>,
    sent: Seq<u8>,
    first: Wire,
    more: Wire,
)
    requires
        1 <= handles.len() <= MAX_HANDLES,
        sender.rights.len() == handles.len(),
        sender.taken == handles.len(),
        sender.payload.len() > 0,
        sent.is_prefix_of(sender.payload),
        receiver.header.control != 0,
        receiver.header.control_length >= CMSGHDR + 4 * handles.len(),
        receiver.room > 0,
        receiver.aimed(),
        receiver.taken == 0,
        receiver.control_written == 0,
        receiver.placed == 0,
        !receiver.read,
        // The handles go at once, and before any byte.
        first.handles + more.handles == handles,
        first.handles.len() == 0 || more.handles.len() == 0,
        first.handles.len() == 0 ==> first.bytes.len() == 0,
        first.bytes + more.bytes == sent,
        // A read that waits ends with a byte.
        first.handles.len() == 0 ==> !receiver.dont_wait && sent.len() > 0,
    ensures
        sender.finish() == Sending::Handles,
        sender.write() == Sending::Write,
        receiver.look() == Receiving::Take(receiver.handles_wanted().unwrap()),
        ({
            let most = receiver.handles_wanted().unwrap();
            let taken = first_of(first.handles, most as nat);
            let told = told_of(receiver, taken.len());
            let done = delivered(receiver, first, more);
            &&& told.looked() == if first.handles.len() > 0 {
                Receiving::ReadNow(receiver.room)
            } else {
                Receiving::Read(receiver.room)
            }
            &&& filled(told, done.message.bytes).after_read() == if first.handles.len() > 0 {
                done.message.scatter()
            } else {
                Receiving::Take(most)
            }
            &&& done.handles == handles
            &&& done.left.handles == Seq::<u64>::empty()
            &&& done.message.control_written == CMSGHDR + 4 * handles.len()
            &&& done.message.looked() == done.message.scatter()
            &&& done.message.bytes + done.left.bytes == sent
            &&& done.message.bytes == carried_of(sent, receiver.room)
            &&& joined(done.message.pieces()) == done.message.bytes
        }),
{
    let most = receiver.handles_wanted().unwrap() as nat;
    let nothing = Seq::<u64>::empty();
    assert(most >= handles.len());
    assert(first_of(handles, most) =~= handles);
    assert(first_of(nothing, most) =~= nothing);
    let done = delivered(receiver, first, more);
    let bytes = carried_of(sent, receiver.room);
    if first.handles.len() > 0 {
        assert(more.handles =~= nothing);
        assert(first.handles =~= handles);
        assert(handles.skip(handles.len() as int) + more.handles =~= nothing);
    } else {
        assert(first.handles =~= nothing);
        assert(more.handles =~= handles);
        assert(nothing.skip(0) + handles =~= handles);
        assert(handles.skip(handles.len() as int) =~= nothing);
    }
    assert(done.message.bytes == bytes);
    assert(bytes + sent.skip(bytes.len() as int) =~= sent);
    lemma_total_forward(receiver.targets);
    law_scatter_keeps_the_stream(receiver.targets, bytes);
}

/// What one program sends, another that has room for it receives: the bytes its
/// vectors point at, as far as one transfer carries them, in the order of the
/// receiver's pieces. `sent` is what the write put on its way, which is all of
/// the payload or a start of it.
pub proof fn law_what_is_sent_is_received(
    sender: OutgoingModel,
    memory: spec_fn(int) -> u8,
    receiver: IncomingModel,
    sent: Seq<u8>,
)
    requires
        sender.next == 0,
        sender.payload.len() == 0,
        sent.is_prefix_of(gathered(sender, memory)),
        sent.len() <= receiver.room,
        receiver.aimed(),
    ensures
        sent.is_prefix_of(carried_of(pointed_at(memory, sender.vectors), MAX_TRANSFER)),
        joined(filled(receiver, carried_of(sent, receiver.room)).pieces()) == sent,
{
    law_a_message_is_what_its_vectors_point_at(sender, memory);
    assert(sender.vectors.skip(0) =~= sender.vectors);
    let all = pointed_at(memory, sender.vectors);
    assert(sender.payload + all =~= all);
    assert(carried_of(sent, receiver.room) =~= sent);
    lemma_total_forward(receiver.targets);
    law_scatter_keeps_the_stream(receiver.targets, sent);
}

} // verus!
