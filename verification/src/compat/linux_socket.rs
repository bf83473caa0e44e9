//! Sockets, for a program built for Linux.
//!
//! One family: a connection between two programs on one machine, reached by a
//! name. The connections themselves belong to the kernel underneath; what is
//! here is which call may do what to which of them, what a message's vectors
//! and control buffer mean, and which names are taken.
//!
//! A call that has to wait for the kernel underneath is cut where it waits: one
//! function says what to ask for, and the next takes the outcome.
use vstd::prelude::*;

use crate::bytes::{
    copy_bytes, copy_range, get_u16, le16, le32, put_u16, put_u32, u16_at,
};
use crate::compat::error::{
    EADDRINUSE, EAFNOSUPPORT, EAGAIN, ECONNREFUSED, EFAULT, EINTR, EINVAL, EISCONN,
    ENAMETOOLONG, ENOSYS, ENOTCONN, ENOTSOCK, EPIPE, EPROTONOSUPPORT,
};
use crate::compat::reply::Reply;
use crate::count::{count, counted};
use crate::names::Names;
use crate::table::Table;
use crate::text::is_utf8;

pub mod law;
pub mod message;

verus! {

/// A family: a connection between two programs on this machine.
pub const UNIX: u64 = 1;

/// A family: the internet. Refused.
pub const INET: u64 = 2;

/// A family: the internet, with longer addresses. Refused.
pub const INET6: u64 = 10;

/// A kind: a byte stream. The only kind there is.
pub const STREAM: u64 = 1;

/// A kind: a datagram. Refused.
pub const DGRAM: u64 = 2;

/// A kind: whole messages. Refused.
pub const SEQPACKET: u64 = 5;

/// A bit that may stand beside the kind: do not wait.
pub const NONBLOCK: u64 = 0o4000;

/// A bit that may stand beside the kind: close when another program is started.
pub const CLOEXEC: u64 = 0o2_000_000;

/// Do not wait, whatever the socket was opened as.
pub const DONTWAIT: u64 = 0x40;

/// Bytes of path in a `sockaddr_un`.
pub const SUN_PATH: usize = 108;

/// Bytes in a `sockaddr_un`: a two-byte family and the path.
pub const SOCKADDR_UN: u64 = 110;

/// The most bytes one send or receive moves.
pub const MAX_TRANSFER: u64 = 65536;

/// The most handles one message may carry.
pub const MAX_HANDLES: usize = 8;

/// The most vectors one message may have; more are not looked at.
pub const MAX_VECTORS: u64 = 64;

/// Bytes in an `iovec`: an address and a length.
pub const IOVEC: u64 = 16;

/// Bytes in a `msghdr`.
pub const MSGHDR: u64 = 56;

/// Bytes in a `cmsghdr`: a length, a level and a type.
pub const CMSGHDR: u64 = 16;

/// The level of the one control message there is.
pub const SOL_SOCKET: u32 = 1;

/// Its type: descriptors.
pub const SCM_RIGHTS: u32 = 1;

/// The option that asks who is at the other end.
pub const PEERCRED: u64 = 17;

/// What is known of the socket a descriptor names.
#[derive(Debug)]
pub struct Socket {
    /// Neither bound nor listening nor connected.
    pub untouched: bool,
    /// The name it was bound to.
    pub bound: Option<Vec<u8>>,
    pub listening: bool,
    pub connected: bool,
}

/// What a descriptor names.
#[derive(Debug)]
pub enum Described {
    Socket(Socket),
    Other,
}

/// Why the kernel underneath refused something.
#[derive(Clone, Copy, PartialEq, Eq, Structural, Debug)]
pub enum SocketError {
    /// The caller is being asked to stop.
    Cancelled,
    /// The listener has as many waiting as it holds.
    Backlog,
    /// The connection or the listener is gone.
    Gone,
}

/// Every name something listens at, and the counts.
pub struct State {
    bound: Names,
    owned: Table<Vec<Vec<u8>>>,
    made: u64,
    listening: u64,
}

/// The same, as a value.
#[verifier::ext_equal]
pub struct Model {
    /// The listener at each name.
    pub bound: Map<Seq<u8>, u64>,
    /// The names each process listens at, in the order it started to.
    pub owned: Map<u64, Seq<Seq<u8>>>,
    /// Sockets made.
    pub made: u64,
    /// Names bound.
    pub listening: u64,
}

impl Model {
    /// Whether a process listens at a name.
    pub open spec fn owns(self, process: u64, name: Seq<u8>) -> bool {
        self.owned.dom().contains(process) && self.owned[process].contains(name)
    }

    /// The names that processes listen at.
    pub open spec fn listened_at(self) -> Set<Seq<u8>> {
        Set::new(|name: Seq<u8>| exists|process: u64| self.owns(process, name))
    }

    /// Every name a process listens at is bound, is that process's alone and
    /// stands once among its names; and the count is of these names.
    pub open spec fn sound(self) -> bool {
        &&& forall|process: u64, name: Seq<u8>| #[trigger]
            self.owns(process, name) ==> self.bound.dom().contains(name)
        &&& forall|process: u64| #[trigger]
            self.owned.dom().contains(process) ==> self.owned[process].no_duplicates()
        &&& forall|one: u64, other: u64, name: Seq<u8>| #[trigger]
            self.owns(one, name) && #[trigger] self.owns(other, name) ==> one == other
        &&& self.listened_at().finite()
        &&& self.listening == self.listened_at().len()
    }

    /// A name is bound, and no process listens at it yet.
    pub open spec fn unclaimed(self, name: Seq<u8>) -> bool {
        self.bound.dom().contains(name) && forall|process: u64| !#[trigger] self.owns(process, name)
    }

    /// What is left of it once a process has ended.
    pub open spec fn forgotten(self, process: u64) -> Model {
        if self.owned.dom().contains(process) {
            Model {
                bound: unbound(self.bound, self.owned[process]),
                owned: self.owned.remove(process),
                listening: (self.listening - self.owned[process].len()) as u64,
                ..self
            }
        } else {
            self
        }
    }
}

/// The names in `names`, as values.
pub open spec fn spelled(names: Seq<Vec<u8>>) -> Seq<Seq<u8>> {
    Seq::new(names.len(), |i: int| names[i]@)
}

impl View for State {
    type V = Model;

    closed spec fn view(&self) -> Model {
        Model {
            bound: self.bound@,
            owned: Map::new(
                |process: u64| self.owned@.dom().contains(process),
                |process: u64| spelled(self.owned@[process]@),
            ),
            made: self.made,
            listening: self.listening,
        }
    }
}

impl State {
    /// The tables are in order, and say the same.
    pub closed spec fn wf(&self) -> bool {
        self.bound.wf() && self.owned.wf() && self@.sound()
    }

    /// Nothing listens anywhere.
    pub fn new() -> (state: Self)
        ensures
            state.wf(),
            state@ == (Model { bound: Map::empty(), owned: Map::empty(), made: 0, listening: 0 }),
    {
        let state = State { bound: Names::new(), owned: Table::new(), made: 0, listening: 0 };
        assert(state@.owned =~= Map::empty());
        assert(state@.listened_at() =~= Set::empty());
        state
    }
}

/// Sockets made, and names currently bound.
pub fn statistics(state: &State) -> (counts: (u64, u64))
    ensures
        counts == (state@.made, state@.listening),
{
    (state.made, state.listening)
}

/// The names left once `names` are taken away.
pub open spec fn unbound(bound: Map<Seq<u8>, u64>, names: Seq<Seq<u8>>) -> Map<Seq<u8>, u64>
    decreases names.len(),
{
    if names.len() == 0 {
        bound
    } else {
        unbound(bound.remove(names[0]), names.drop_first())
    }
}

/// What is sound stays sound while who listens where does not change and the
/// names stay bound.
proof fn lemma_still_sound(before: Model, after: Model)
    requires
        before.sound(),
        after.owned == before.owned,
        after.listening == before.listening,
        forall|process: u64, name: Seq<u8>| #[trigger]
            before.owns(process, name) ==> after.bound.dom().contains(name),
    ensures
        after.sound(),
        forall|process: u64, name: Seq<u8>| #[trigger]
            after.owns(process, name) == before.owns(process, name),
{
    assert forall|process: u64, name: Seq<u8>| #[trigger]
        after.owns(process, name) == before.owns(process, name) by {}
    assert(after.listened_at() =~= before.listened_at()) by {
        assert forall|name: Seq<u8>|
            after.listened_at().contains(name) == before.listened_at().contains(name) by {
            if after.listened_at().contains(name) {
                let process = choose|process: u64| after.owns(process, name);
                assert(before.owns(process, name));
            }
            if before.listened_at().contains(name) {
                let process = choose|process: u64| before.owns(process, name);
                assert(after.owns(process, name));
            }
        }
    }
}

/// Names that are bound and differ are all there to be taken away, one by one.
proof fn lemma_forgotten(before: Model, process: u64)
    requires
        before.sound(),
        before.owned.dom().contains(process),
    ensures
        before.owned[process].len() <= before.listening,
        before.forgotten(process).sound(),
{
    let names = before.owned[process];
    let after = before.forgotten(process);
    let all = before.listened_at();
    assert forall|name: Seq<u8>| names.contains(name) implies all.contains(name) by {
        assert(before.owns(process, name));
    }
    names.unique_seq_to_set();
    assert(names.to_set().subset_of(all));
    vstd::set_lib::lemma_len_subset(names.to_set(), all);
    assert(after.listened_at() =~= all.difference(names.to_set())) by {
        assert forall|name: Seq<u8>|
            after.listened_at().contains(name) == (all.contains(name) && !names.contains(name)) by {
            if after.listened_at().contains(name) {
                let other = choose|other: u64| after.owns(other, name);
                assert(before.owns(other, name));
                if names.contains(name) {
                    assert(before.owns(process, name));
                }
            }
            if all.contains(name) && !names.contains(name) {
                let other = choose|other: u64| before.owns(other, name);
                assert(after.owns(other, name));
            }
        }
    }
    assert(names.to_set().intersect(all) =~= names.to_set());
    vstd::set_lib::lemma_set_disjoint_lens(all.difference(names.to_set()), names.to_set());
    assert(all.difference(names.to_set()) + names.to_set() =~= all);
    assert forall|other: u64, name: Seq<u8>| #[trigger] after.owns(other, name) implies after.bound.dom().contains(
        name,
    ) by {
        assert(before.owns(other, name));
        if names.contains(name) {
            assert(before.owns(process, name));
        }
        lemma_unbound(before.bound, names, name);
    }
    assert forall|one: u64, other: u64, name: Seq<u8>| #[trigger]
        after.owns(one, name) && #[trigger] after.owns(other, name) implies one == other by {
        assert(before.owns(one, name));
        assert(before.owns(other, name));
    }
}

/// Take away every name a process bound. Called when it ends.
pub fn forget(state: &mut State, process: u64)
    requires
        old(state).wf(),
    ensures
        final(state).wf(),
        final(state)@ == old(state)@.forgotten(process),
{
    let ghost before = state@;
    let names = match state.owned.remove(process) {
        Some(names) => names,
        None => {
            assert(state@.owned =~= before.owned);
            return;
        },
    };
    assert(before.owned.dom().contains(process));
    assert(state@.owned =~= before.owned.remove(process));
    let ghost all = spelled(names@);
    assert(all == before.owned[process]);
    proof {
        lemma_forgotten(before, process);
        assert(all.skip(0) =~= all);
        assert forall|i: int| 0 <= i < all.len() implies state@.bound.dom().contains(
            #[trigger] all[i],
        ) by {
            assert(all.contains(all[i]));
            assert(before.owns(process, all[i]));
        }
    }
    let mut at: usize = 0;
    while at < names.len()
        invariant
            state.bound.wf(),
            state.owned.wf(),
            before.sound(),
            before.owned.dom().contains(process),
            at <= names@.len(),
            all == spelled(names@),
            all == before.owned[process],
            all.no_duplicates(),
            all.len() <= before.listening,
            state@.owned == before.owned.remove(process),
            state@.made == before.made,
            state@.listening == before.listening - at,
            unbound(state@.bound, all.skip(at as int)) == unbound(before.bound, all),
            forall|i: int| at <= i < all.len() ==> state@.bound.dom().contains(#[trigger] all[i]),
        decreases names@.len() - at,
    {
        let ghost rest = all.skip(at as int);
        assert(rest[0] == names@[at as int]@);
        assert(rest.drop_first() =~= all.skip(at + 1));
        assert(state@.bound.dom().contains(all[at as int]));
        state.bound.remove(names[at].as_slice());
        state.listening = state.listening - 1;
        at += 1;
    }
    assert(all.skip(at as int) =~= Seq::<Seq<u8>>::empty());
    assert(state@ =~= before.forgotten(process));
}

/// The socket a descriptor names.
pub fn socket_of(described: Result<Described, u64>) -> (socket: Result<Socket, u64>)
    ensures
        socket == match described {
            Ok(Described::Socket(socket)) => Ok::<Socket, u64>(socket),
            Ok(Described::Other) => Err(ENOTSOCK),
            Err(reason) => Err(reason),
        },
{
    match described {
        Ok(Described::Socket(socket)) => Ok(socket),
        Ok(Described::Other) => Err(ENOTSOCK),
        Err(reason) => Err(reason),
    }
}

/// The bytes of `path` before its first zero, or all of them.
pub open spec fn before_zero(path: Seq<u8>) -> Seq<u8>
    decreases path.len(),
{
    if path.len() == 0 || path[0] == 0 {
        Seq::empty()
    } else {
        seq![path[0]] + before_zero(path.drop_first())
    }
}

/// The name in a `sockaddr_un` of `bytes`.
///
/// A path that starts with a zero byte is an abstract name: the whole of the
/// rest, the zero first, so that it can never be mistaken for a path.
pub open spec fn address_name(bytes: Seq<u8>) -> Result<Seq<u8>, u64> {
    let path = bytes.skip(2);
    let name = if path[0] == 0 {
        path
    } else {
        before_zero(path)
    };
    if u16_at(bytes, 0) as u64 != UNIX {
        Err(EAFNOSUPPORT)
    } else if path.len() == 0 {
        Err(EINVAL)
    } else if name.len() > SUN_PATH {
        Err(ENAMETOOLONG)
    } else if !vstd::utf8::valid_utf8(name) {
        Err(EINVAL)
    } else {
        Ok(name)
    }
}

/// What an address argument means, given the bytes the program has there.
pub open spec fn addressed(length: u64, bytes: Option<Seq<u8>>) -> Result<Seq<u8>, u64> {
    if length < 2 || length > SOCKADDR_UN {
        Err(EINVAL)
    } else if bytes is None {
        Err(EFAULT)
    } else {
        address_name(bytes.unwrap())
    }
}

/// The view of an optional run of bytes.
pub open spec fn seen(bytes: Option<&[u8]>) -> Option<Seq<u8>> {
    match bytes {
        Some(bytes) => Some(bytes@),
        None => None,
    }
}

/// The view of a name or a refusal.
pub open spec fn spelled_out(name: Result<Vec<u8>, u64>) -> Result<Seq<u8>, u64> {
    match name {
        Ok(name) => Ok(name@),
        Err(reason) => Err(reason),
    }
}

proof fn lemma_before_zero(path: Seq<u8>, end: int)
    requires
        0 <= end <= path.len(),
        forall|i: int| 0 <= i < end ==> path[i] != 0,
        end == path.len() || path[end] == 0,
    ensures
        before_zero(path) == path.take(end),
    decreases path.len(),
{
    if path.len() == 0 || path[0] == 0 {
        assert(path.take(end) =~= Seq::empty());
    } else {
        let rest = path.drop_first();
        lemma_before_zero(rest, end - 1);
        assert(path.take(end) =~= seq![path[0]] + rest.take(end - 1));
    }
}

/// Read a `sockaddr_un`.
///
/// `bytes` holds the `length` bytes the program has at the address, if it has
/// them.
pub fn address_of(length: u64, bytes: Option<&[u8]>) -> (name: Result<Vec<u8>, u64>)
    requires
        bytes matches Some(bytes) ==> bytes@.len() == length,
    ensures
        spelled_out(name) == addressed(length, seen(bytes)),
{
    if length < 2 || length > SOCKADDR_UN {
        return Err(EINVAL);
    }
    let bytes: &[u8] = match bytes {
        Some(bytes) => bytes,
        None => return Err(EFAULT),
    };
    if get_u16(bytes, 0) as u64 != UNIX {
        return Err(EAFNOSUPPORT);
    }
    if bytes.len() == 2 {
        return Err(EINVAL);
    }
    let ghost path = bytes@.skip(2);
    let mut end: usize = bytes.len();
    if bytes[2] != 0 {
        end = 2;
        while end < bytes.len() && bytes[end] != 0
            invariant
                2 <= end <= bytes@.len(),
                path == bytes@.skip(2),
                forall|i: int| 0 <= i < end - 2 ==> path[i] != 0,
            decreases bytes@.len() - end,
        {
            assert(path[end - 2] == bytes@[end as int]);
            end += 1;
        }
        proof {
            if end < bytes.len() {
                assert(path[end - 2] == bytes@[end as int]);
            }
            lemma_before_zero(path, end - 2);
            assert(path.take(end - 2) =~= bytes@.subrange(2, end as int));
            assert(path[0] == bytes@[2]);
        }
    } else {
        assert(path[0] == bytes@[2]);
        assert(path =~= bytes@.subrange(2, end as int));
    }
    let name: Vec<u8> = copy_range(bytes, 2, end);
    if name.len() > SUN_PATH {
        return Err(ENAMETOOLONG);
    }
    if !is_utf8(name.as_slice()) {
        return Err(EINVAL);
    }
    Ok(name)
}

/// What `socket` says before anything is made, if it refuses.
pub open spec fn kind_refused(family: u64, kind: u64, protocol: u64) -> Option<u64> {
    if family != UNIX {
        Some(EAFNOSUPPORT)
    } else if kind & !(NONBLOCK | CLOEXEC) != STREAM || protocol != 0 {
        Some(EPROTONOSUPPORT)
    } else {
        None
    }
}

fn refuse_kind(family: u64, kind: u64, protocol: u64) -> (refused: Option<u64>)
    ensures
        refused == kind_refused(family, kind, protocol),
{
    if family != UNIX {
        return Some(EAFNOSUPPORT);
    }
    let bare: u64 = kind & !(NONBLOCK | CLOEXEC);
    if bare != STREAM || protocol != 0 {
        return Some(EPROTONOSUPPORT);
    }
    None
}

/// `socket(family, kind, protocol)`: a refusal, or leave to make one socket and
/// answer its handle.
pub fn socket(
    state: &mut State,
    family: u64,
    kind: u64,
    protocol: u64,
    has_process: bool,
) -> (made: Result<(), u64>)
    requires
        old(state).wf(),
    ensures
        final(state).wf(),
        match kind_refused(family, kind, protocol) {
            Some(reason) => made == Err::<(), u64>(reason) && final(state)@ == old(state)@,
            None => if has_process {
                &&& made == Ok::<(), u64>(())
                &&& final(state)@ == Model { made: counted(old(state)@.made, 1), ..old(state)@ }
            } else {
                made == Err::<(), u64>(ENOSYS) && final(state)@ == old(state)@
            },
        },
{
    match refuse_kind(family, kind, protocol) {
        Some(reason) => return Err(reason),
        None => {},
    }
    if !has_process {
        return Err(ENOSYS);
    }
    state.made = count(state.made, 1);
    proof {
        assert(state@.owned =~= old(state)@.owned);
        lemma_still_sound(old(state)@, state@);
    }
    Ok(())
}

/// `socketpair(family, kind, protocol, fds)`: a refusal, or leave to make two
/// sockets already connected.
pub fn socketpair(
    state: &mut State,
    family: u64,
    kind: u64,
    protocol: u64,
    has_process: bool,
    fds_in_range: bool,
) -> (made: Result<(), u64>)
    requires
        old(state).wf(),
    ensures
        final(state).wf(),
        match kind_refused(family, kind, protocol) {
            Some(reason) => made == Err::<(), u64>(reason) && final(state)@ == old(state)@,
            None => if !has_process {
                made == Err::<(), u64>(ENOSYS) && final(state)@ == old(state)@
            } else if !fds_in_range {
                made == Err::<(), u64>(EFAULT) && final(state)@ == old(state)@
            } else {
                &&& made == Ok::<(), u64>(())
                &&& final(state)@ == Model { made: counted(old(state)@.made, 2), ..old(state)@ }
            },
        },
{
    match refuse_kind(family, kind, protocol) {
        Some(reason) => return Err(reason),
        None => {},
    }
    if !has_process {
        return Err(ENOSYS);
    }
    if !fds_in_range {
        return Err(EFAULT);
    }
    state.made = count(state.made, 2);
    proof {
        assert(state@.owned =~= old(state)@.owned);
        lemma_still_sound(old(state)@, state@);
    }
    Ok(())
}

/// What `socketpair` and `pipe2` leave at `fds`: the two handles, in order.
pub fn paired(fds: u64, left: u32, right: u32) -> (reply: Reply)
    ensures
        reply.is_writing(0, fds, le32(left) + le32(right)),
{
    let mut bytes: Vec<u8> = Vec::new();
    put_u32(&mut bytes, left);
    put_u32(&mut bytes, right);
    assert(bytes@ =~= le32(left) + le32(right));
    Reply::writing(0, fds, bytes)
}

/// `bind(fd, address, length)`: a refusal, or the name to give the socket.
///
/// Follow it with [`bound`].
pub fn bind(
    state: &State,
    described: Result<Described, u64>,
    length: u64,
    bytes: Option<&[u8]>,
) -> (name: Result<Vec<u8>, u64>)
    requires
        state.wf(),
        bytes matches Some(bytes) ==> bytes@.len() == length,
    ensures
        spelled_out(name) == match described {
            Err(reason) => Err(reason),
            Ok(Described::Other) => Err(ENOTSOCK),
            Ok(Described::Socket(socket)) => match addressed(length, seen(bytes)) {
                Err(reason) => Err(reason),
                Ok(wanted) => if !socket.untouched {
                    Err(EISCONN)
                } else if state@.bound.dom().contains(wanted) {
                    Err(EADDRINUSE)
                } else {
                    Ok(wanted)
                },
            },
        },
{
    let socket = match socket_of(described) {
        Ok(socket) => socket,
        Err(reason) => return Err(reason),
    };
    let name = match address_of(length, bytes) {
        Ok(name) => name,
        Err(reason) => return Err(reason),
    };
    if !socket.untouched {
        return Err(EISCONN);
    }
    if state.bound.get(name.as_slice()).is_some() {
        return Err(EADDRINUSE);
    }
    Ok(name)
}

/// What `bind` answers once the socket has taken the name, or would not.
pub fn bound(taken: bool) -> (answer: u64)
    ensures
        answer == if taken {
            0
        } else {
            EISCONN
        },
{
    if taken {
        0
    } else {
        EISCONN
    }
}

/// A process that starts to listen at a name nobody listens at keeps it sound.
proof fn lemma_claimed(before: Model, after: Model, process: u64, name: Seq<u8>)
    requires
        before.sound(),
        before.unclaimed(name),
        before.listening < u64::MAX,
        after.bound == before.bound,
        after.listening == before.listening + 1,
        after.owned == before.owned.insert(
            process,
            (if before.owned.dom().contains(process) {
                before.owned[process]
            } else {
                Seq::empty()
            }).push(name),
        ),
    ensures
        after.sound(),
{
    let past = if before.owned.dom().contains(process) {
        before.owned[process]
    } else {
        Seq::empty()
    };
    assert forall|other: u64, wanted: Seq<u8>| #[trigger]
        after.owns(other, wanted) == (before.owns(other, wanted) || (other == process && wanted
            == name)) by {
        if other == process {
            let names = past.push(name);
            if names.contains(wanted) {
                let at = choose|at: int| 0 <= at < names.len() && names[at] == wanted;
                if at < past.len() {
                    assert(past[at] == wanted);
                    assert(past.contains(wanted));
                }
            }
            if past.contains(wanted) {
                let at = choose|at: int| 0 <= at < past.len() && past[at] == wanted;
                assert(names[at] == wanted);
            }
            assert(names[past.len() as int] == name);
        }
    }
    assert(!past.contains(name)) by {
        assert(!before.owns(process, name));
    }
    assert(past.no_duplicates());
    assert(past.push(name).no_duplicates()) by {
        assert forall|i: int, j: int|
            0 <= i < past.len() + 1 && 0 <= j < past.len() + 1 && i != j implies past.push(name)[i]
            != past.push(name)[j] by {
            if i == past.len() {
                assert(past.contains(past[j]));
            } else if j == past.len() {
                assert(past.contains(past[i]));
            }
        }
    }
    assert(after.listened_at() =~= before.listened_at().insert(name)) by {
        assert forall|wanted: Seq<u8>|
            after.listened_at().contains(wanted) == before.listened_at().insert(name).contains(
                wanted,
            ) by {
            if after.listened_at().contains(wanted) {
                let other = choose|other: u64| after.owns(other, wanted);
                assert(after.owns(other, wanted));
            }
            if before.listened_at().contains(wanted) {
                let other = choose|other: u64| before.owns(other, wanted);
                assert(after.owns(other, wanted));
            }
            assert(after.owns(process, name));
        }
    }
    assert(!before.listened_at().contains(name));
}

/// What `listen` is to do next.
#[derive(Debug)]
pub enum Listening {
    Answer(u64),
    /// Hand the new listener to the socket, and go on with [`listened`].
    Start { name: Vec<u8> },
}

/// `listen(fd, backlog)`.
///
/// `listener` is what the listener made for this call is known by. The name is
/// taken here, so that a second program asking for it meanwhile is refused.
pub fn listen(
    state: &mut State,
    described: Result<Described, u64>,
    has_process: bool,
    listener: u64,
) -> (next: Listening)
    requires
        old(state).wf(),
    ensures
        final(state).wf(),
        match described {
            Err(reason) => next == Listening::Answer(reason) && final(state)@ == old(state)@,
            Ok(Described::Other) => next == Listening::Answer(ENOTSOCK) && final(state)@ == old(
                state,
            )@,
            Ok(Described::Socket(socket)) => match socket.bound {
                None => next == Listening::Answer(EINVAL) && final(state)@ == old(state)@,
                Some(name) => if socket.listening {
                    next == Listening::Answer(0) && final(state)@ == old(state)@
                } else if !has_process {
                    next == Listening::Answer(ENOSYS) && final(state)@ == old(state)@
                } else if old(state)@.bound.dom().contains(name@) {
                    next == Listening::Answer(EADDRINUSE) && final(state)@ == old(state)@
                } else {
                    &&& next matches Listening::Start { name: taken } && taken@ == name@
                    &&& final(state)@.unclaimed(name@)
                    &&& final(state)@ == Model {
                        bound: old(state)@.bound.insert(name@, listener),
                        ..old(state)@
                    }
                },
            },
        },
{
    let socket = match socket_of(described) {
        Ok(socket) => socket,
        Err(reason) => return Listening::Answer(reason),
    };
    let name = match socket.bound {
        Some(name) => name,
        None => return Listening::Answer(EINVAL),
    };
    if socket.listening {
        return Listening::Answer(0);
    }
    if !has_process {
        return Listening::Answer(ENOSYS);
    }
    if state.bound.get(name.as_slice()).is_some() {
        return Listening::Answer(EADDRINUSE);
    }
    let ghost before = state@;
    let held = copy_bytes(name.as_slice());
    state.bound.insert(held, listener);
    proof {
        assert(state@.owned =~= before.owned);
        lemma_still_sound(before, state@);
    }
    Listening::Start { name }
}

/// Go on with `listen`: the socket is listening, or would not. The name is the
/// one [`listen`] took.
pub fn listened(state: &mut State, process: u64, name: Vec<u8>, started: bool) -> (answer: u64)
    requires
        old(state).wf(),
        old(state)@.unclaimed(name@),
    ensures
        final(state).wf(),
        !started ==> {
            &&& answer == EINVAL
            &&& final(state)@ == Model { bound: old(state)@.bound.remove(name@), ..old(state)@ }
        },
        started ==> {
            let names = if old(state)@.owned.dom().contains(process) {
                old(state)@.owned[process]
            } else {
                Seq::empty()
            };
            &&& answer == 0
            &&& final(state)@ == Model {
                owned: old(state)@.owned.insert(process, names.push(name@)),
                listening: (old(state)@.listening + 1) as u64,
                ..old(state)@
            }
            &&& old(state)@.listening < u64::MAX
        },
{
    let ghost before = state@;
    if !started {
        state.bound.remove(name.as_slice());
        proof {
            assert(state@.owned =~= before.owned);
            lemma_still_sound(before, state@);
        }
        return EINVAL;
    }
    proof {
        state.bound.lemma_finite();
        assert forall|wanted: Seq<u8>| before.listened_at().contains(wanted) implies before.bound.dom().contains(
            wanted,
        ) by {
            let other = choose|other: u64| before.owns(other, wanted);
            assert(before.owns(other, wanted));
        }
        assert(before.listened_at().subset_of(before.bound.dom().remove(name@)));
        vstd::set_lib::lemma_len_subset(before.listened_at(), before.bound.dom().remove(name@));
    }
    let ghost wanted = name@;
    let mut names: Vec<Vec<u8>> = match state.owned.remove(process) {
        Some(names) => names,
        None => Vec::new(),
    };
    let ghost held = spelled(names@);
    names.push(name);
    assert(spelled(names@) =~= held.push(wanted));
    state.owned.insert(process, names);
    state.listening = state.listening + 1;
    proof {
        let past = if before.owned.dom().contains(process) {
            before.owned[process]
        } else {
            Seq::empty()
        };
        assert(held =~= past);
        assert(state@.owned =~= before.owned.insert(process, past.push(wanted)));
        lemma_claimed(before, state@, process, wanted);
    }
    0
}

/// What `connect` is to do next.
#[derive(Clone, Copy, PartialEq, Eq, Structural, Debug)]
pub enum Connecting {
    Answer(u64),
    /// Connect to this listener, and go on with [`connected`].
    To(u64),
}

/// `connect(fd, address, length)`.
pub fn connect(
    state: &State,
    described: Result<Described, u64>,
    length: u64,
    bytes: Option<&[u8]>,
) -> (next: Connecting)
    requires
        state.wf(),
        bytes matches Some(bytes) ==> bytes@.len() == length,
    ensures
        next == match described {
            Err(reason) => Connecting::Answer(reason),
            Ok(Described::Other) => Connecting::Answer(ENOTSOCK),
            Ok(Described::Socket(socket)) => if socket.connected {
                Connecting::Answer(EISCONN)
            } else {
                match addressed(length, seen(bytes)) {
                    Err(reason) => Connecting::Answer(reason),
                    Ok(name) => if state@.bound.dom().contains(name) {
                        Connecting::To(state@.bound[name])
                    } else {
                        Connecting::Answer(ECONNREFUSED)
                    },
                }
            },
        },
{
    let socket = match socket_of(described) {
        Ok(socket) => socket,
        Err(reason) => return Connecting::Answer(reason),
    };
    if socket.connected {
        return Connecting::Answer(EISCONN);
    }
    let name = match address_of(length, bytes) {
        Ok(name) => name,
        Err(reason) => return Connecting::Answer(reason),
    };
    match state.bound.get(name.as_slice()) {
        Some(listener) => Connecting::To(listener),
        None => Connecting::Answer(ECONNREFUSED),
    }
}

/// What `connect` answers: the listener's outcome, and whether the socket took
/// the connection.
pub fn connected(outcome: Result<bool, SocketError>) -> (answer: u64)
    ensures
        answer == match outcome {
            Ok(true) => 0,
            Ok(false) => EISCONN,
            Err(SocketError::Backlog) => EAGAIN,
            Err(_) => ECONNREFUSED,
        },
{
    match outcome {
        Ok(true) => 0,
        Ok(false) => EISCONN,
        Err(SocketError::Backlog) => EAGAIN,
        Err(_) => ECONNREFUSED,
    }
}

/// What `accept` is to do next.
#[derive(Clone, Copy, PartialEq, Eq, Structural, Debug)]
pub enum Accepting {
    Answer(u64),
    /// Take a connection if one is waiting, and go on with [`accepted_now`].
    Now,
    /// Wait for one, and go on with [`accepted`].
    Wait,
}

/// `accept4(fd, address, length, flags)`.
pub fn accept(
    described: Result<Described, u64>,
    has_process: bool,
    flags: u64,
) -> (next: Accepting)
    ensures
        next == match described {
            Err(reason) => Accepting::Answer(reason),
            Ok(Described::Other) => Accepting::Answer(ENOTSOCK),
            Ok(Described::Socket(socket)) => if !socket.listening {
                Accepting::Answer(EINVAL)
            } else if !has_process {
                Accepting::Answer(ENOSYS)
            } else if flags & NONBLOCK != 0 {
                Accepting::Now
            } else {
                Accepting::Wait
            },
        },
{
    let socket = match socket_of(described) {
        Ok(socket) => socket,
        Err(reason) => return Accepting::Answer(reason),
    };
    if !socket.listening {
        return Accepting::Answer(EINVAL);
    }
    if !has_process {
        return Accepting::Answer(ENOSYS);
    }
    if flags & NONBLOCK != 0 {
        Accepting::Now
    } else {
        Accepting::Wait
    }
}

/// Whether a call that did not wait has a connection, or what it answers.
pub fn accepted_now(arrived: bool) -> (outcome: Result<(), u64>)
    ensures
        outcome == if arrived {
            Ok::<(), u64>(())
        } else {
            Err(EAGAIN)
        },
{
    if arrived {
        Ok(())
    } else {
        Err(EAGAIN)
    }
}

/// Whether a call that waited has a connection, or what it answers.
pub fn accepted(outcome: Result<(), SocketError>) -> (out: Result<(), u64>)
    ensures
        out == match outcome {
            Ok(()) => Ok::<(), u64>(()),
            Err(SocketError::Cancelled) => Err(EINTR),
            Err(_) => Err(ECONNREFUSED),
        },
{
    match outcome {
        Ok(()) => Ok(()),
        Err(SocketError::Cancelled) => Err(EINTR),
        Err(_) => Err(ECONNREFUSED),
    }
}

/// The writes that tell a program its peer has no address: the family where
/// there is room for it, then the length.
pub open spec fn unnamed(address: u64, length: u64, room: u32, in_range: bool) -> Seq<
    (u64, Seq<u8>),
> {
    if room >= 2 && in_range {
        seq![(address, le16(UNIX as u16)), (length, le32(2))]
    } else {
        seq![(length, le32(2))]
    }
}

/// Answer `handle` and say that the peer has no address.
///
/// `room` is the number the program has at `length`, if it has one there, and
/// `address_in_range` whether it has two bytes at `address`.
pub fn accepted_as(
    handle: u32,
    address: u64,
    length: u64,
    room: Option<u32>,
    address_in_range: bool,
) -> (reply: Reply)
    ensures
        if address == 0 || length == 0 || room is None {
            reply.is_plain(handle as u64)
        } else {
            &&& reply.answer == handle as u64
            &&& reply.written() == unnamed(address, length, room.unwrap(), address_in_range)
        },
{
    let mut reply = Reply::plain(handle as u64);
    if address != 0 && length != 0 {
        if let Some(room) = room {
            write_unnamed(&mut reply, address, length, room, address_in_range);
        }
    }
    reply
}

/// Add the writes that say a peer has no address.
pub(crate) fn write_unnamed(
    reply: &mut Reply,
    address: u64,
    length: u64,
    room: u32,
    in_range: bool,
)
    requires
        old(reply).written() == Seq::<(u64, Seq<u8>)>::empty(),
    ensures
        final(reply).answer == old(reply).answer,
        final(reply).written() == unnamed(address, length, room, in_range),
{
    if room >= 2 && in_range {
        let mut family: Vec<u8> = Vec::new();
        put_u16(&mut family, UNIX as u16);
        assert(family@ =~= le16(UNIX as u16));
        reply.and_write(address, family);
    }
    let mut size: Vec<u8> = Vec::new();
    put_u32(&mut size, 2);
    assert(size@ =~= le32(2));
    reply.and_write(length, size);
    assert(reply.written() =~= unnamed(address, length, room, in_range));
}

/// What a transfer is to do next.
#[derive(Clone, Copy, PartialEq, Eq, Structural, Debug)]
pub enum Transfer {
    Answer(u64),
    /// Move this many bytes, without waiting.
    Now(u64),
    /// Move this many bytes, waiting for the first.
    Wait(u64),
}

/// The lesser of two.
pub open spec fn lesser(left: u64, right: u64) -> u64 {
    if left < right {
        left
    } else {
        right
    }
}

fn least(left: u64, right: u64) -> (smaller: u64)
    ensures
        smaller == lesser(left, right),
{
    if left < right {
        left
    } else {
        right
    }
}

/// `read`, `recv` and `recvfrom` on a connected socket.
///
/// `in_range` says whether the program has as many bytes as are to be moved.
pub fn receive(
    described: Result<Described, u64>,
    wanted: u64,
    in_range: bool,
    flags: u64,
) -> (next: Transfer)
    ensures
        next == match described {
            Err(reason) => Transfer::Answer(reason),
            Ok(Described::Other) => Transfer::Answer(ENOTSOCK),
            Ok(Described::Socket(socket)) => if !socket.connected {
                Transfer::Answer(ENOTCONN)
            } else if wanted == 0 {
                Transfer::Answer(0)
            } else if !in_range {
                Transfer::Answer(EFAULT)
            } else if flags & DONTWAIT != 0 {
                Transfer::Now(lesser(wanted, MAX_TRANSFER))
            } else {
                Transfer::Wait(lesser(wanted, MAX_TRANSFER))
            },
        },
{
    let socket = match socket_of(described) {
        Ok(socket) => socket,
        Err(reason) => return Transfer::Answer(reason),
    };
    if !socket.connected {
        return Transfer::Answer(ENOTCONN);
    }
    let length: u64 = least(wanted, MAX_TRANSFER);
    if length == 0 {
        return Transfer::Answer(0);
    }
    if !in_range {
        return Transfer::Answer(EFAULT);
    }
    if flags & DONTWAIT != 0 {
        Transfer::Now(length)
    } else {
        Transfer::Wait(length)
    }
}

/// Finish a receive that did not wait: what came, and whether the other end is
/// still there.
pub fn received_now(buffer: u64, taken: Vec<u8>, still_connected: bool) -> (reply: Reply)
    ensures
        if taken@.len() == 0 && still_connected {
            reply.is_plain(EAGAIN)
        } else {
            reply.is_writing(taken@.len() as u64, buffer, taken@)
        },
{
    if taken.len() == 0 && still_connected {
        return Reply::plain(EAGAIN);
    }
    Reply::writing(taken.len() as u64, buffer, taken)
}

/// Finish a receive that waited.
pub fn received(buffer: u64, outcome: Result<Vec<u8>, SocketError>) -> (reply: Reply)
    ensures
        match outcome {
            Ok(taken) => reply.is_writing(taken@.len() as u64, buffer, taken@),
            Err(SocketError::Cancelled) => reply.is_plain(EINTR),
            Err(_) => reply.is_plain(ENOTCONN),
        },
{
    match outcome {
        Ok(taken) => Reply::writing(taken.len() as u64, buffer, taken),
        Err(SocketError::Cancelled) => Reply::plain(EINTR),
        Err(_) => Reply::plain(ENOTCONN),
    }
}

/// `write`, `send` and `sendto` on a connected socket.
pub fn send(described: Result<Described, u64>, wanted: u64, in_range: bool) -> (next: Transfer)
    ensures
        next == match described {
            Err(reason) => Transfer::Answer(reason),
            Ok(Described::Other) => Transfer::Answer(ENOTSOCK),
            Ok(Described::Socket(socket)) => if !socket.connected {
                Transfer::Answer(ENOTCONN)
            } else if wanted == 0 {
                Transfer::Answer(0)
            } else if !in_range {
                Transfer::Answer(EFAULT)
            } else {
                Transfer::Wait(lesser(wanted, MAX_TRANSFER))
            },
        },
{
    let socket = match socket_of(described) {
        Ok(socket) => socket,
        Err(reason) => return Transfer::Answer(reason),
    };
    if !socket.connected {
        return Transfer::Answer(ENOTCONN);
    }
    let length: u64 = least(wanted, MAX_TRANSFER);
    if length == 0 {
        return Transfer::Answer(0);
    }
    if !in_range {
        return Transfer::Answer(EFAULT);
    }
    Transfer::Wait(length)
}

/// What a send answers.
pub fn sent(outcome: Result<u64, SocketError>) -> (answer: u64)
    ensures
        answer == match outcome {
            Ok(written) => written,
            Err(SocketError::Cancelled) => EINTR,
            Err(_) => EPIPE,
        },
{
    match outcome {
        Ok(written) => written,
        Err(SocketError::Cancelled) => EINTR,
        Err(_) => EPIPE,
    }
}

/// `shutdown(fd, how)`, which is refused: one direction of a connection cannot
/// be closed by itself.
pub fn shutdown() -> (answer: u64)
    ensures
        answer == ENOSYS,
{
    ENOSYS
}

/// `getsockopt` and `setsockopt`.
///
/// Every option is accepted but the one that asks who is at the other end: an
/// invented answer to that would be worse than none.
pub fn setsockopt(level: u64, option: u64) -> (answer: u64)
    ensures
        answer == if level == SOL_SOCKET && option == PEERCRED {
            ENOSYS
        } else {
            0
        },
{
    if level == SOL_SOCKET as u64 && option == PEERCRED {
        return ENOSYS;
    }
    0
}

/// A name taken away is not bound, whichever others go with it.
proof fn lemma_unbound(bound: Map<Seq<u8>, u64>, names: Seq<Seq<u8>>, name: Seq<u8>)
    ensures
        unbound(bound, names).dom().contains(name) <==> bound.dom().contains(name)
            && !names.contains(name),
    decreases names.len(),
{
    if names.len() > 0 {
        let rest = names.drop_first();
        lemma_unbound(bound.remove(names[0]), rest, name);
        if names.contains(name) && name != names[0] {
            let i = choose|i: int| 0 <= i < names.len() && names[i] == name;
            assert(rest[i - 1] == name);
        }
        if rest.contains(name) {
            let i = choose|i: int| 0 <= i < rest.len() && rest[i] == name;
            assert(names[i + 1] == name);
        }
    }
}

/// In every state there is, a name a process listens at is bound and is that
/// process's alone, and the count of names is of just these.
pub proof fn law_every_name_has_one_owner(state: State)
    requires
        state.wf(),
    ensures
        state@.sound(),
{
}

/// A process that has ended leaves none of its names behind, takes away nobody
/// else's, and lowers the count of names by exactly its own; ending twice does no
/// more.
pub proof fn law_ended_process_frees_its_names(before: Model, process: u64, name: Seq<u8>)
    requires
        before.sound(),
    ensures
        ({
            let after = before.forgotten(process);
            &&& after.sound()
            &&& before.owns(process, name) ==> !after.bound.dom().contains(name)
            &&& !before.owns(process, name) ==> after.bound.dom().contains(name)
                == before.bound.dom().contains(name)
            &&& forall|other: u64| other != process ==> #[trigger] after.owns(other, name)
                == before.owns(other, name)
            &&& after.listening == before.listening - (if before.owned.dom().contains(process) {
                before.owned[process].len() as int
            } else {
                0
            })
            &&& after.made == before.made
            &&& after.forgotten(process) == after
        }),
{
    if before.owned.dom().contains(process) {
        lemma_forgotten(before, process);
        lemma_unbound(before.bound, before.owned[process], name);
    }
}

/// An abstract name is never a path: it keeps its leading zero, which no path
/// has.
pub proof fn law_abstract_names_are_apart(first: Seq<u8>, second: Seq<u8>)
    requires
        2 < first.len() <= SOCKADDR_UN,
        2 < second.len() <= SOCKADDR_UN,
        first[2] == 0,
        second[2] != 0,
        address_name(first) is Ok,
        address_name(second) is Ok,
    ensures
        address_name(first) != address_name(second),
{
    let path = second.skip(2);
    assert(path[0] == second[2]);
    assert(first.skip(2)[0] == first[2]);
    assert(before_zero(path)[0] == path[0]);
}

} // verus!
