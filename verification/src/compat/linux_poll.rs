//! Waiting for a descriptor to be ready.
//!
//! Both `poll` and `epoll` are answered by asking each descriptor whether it is
//! ready now, rather than by remembering that something happened to it: an edge
//! delivered while nobody was waiting is lost, and a level cannot be. A program
//! that asks for edges is refused.
//!
//! A wait is a round of looking, a decision, and a sleep, repeated. The looking
//! and the sleeping are the machine's; the decision is [`looked`] for `poll` and
//! [`reported`] for `epoll`.
use vstd::prelude::*;

#[allow(unused_imports)]
use crate::bytes::le16;
use crate::bytes::{
    get_u16, get_u32, get_u64, le32, le64, put_u16, put_u32, put_u64, u16_at, u32_at, u64_at,
};
use crate::compat::error::{EBADF, EEXIST, EFAULT, EINTR, EINVAL, ENOENT, ENOSYS};
use crate::compat::linux_files::{Descriptor, CLOEXEC, MAX_HANDLE};
use crate::compat::reply::Write;
use crate::count::{count, counted};
use crate::table::Table;

pub mod epoll;
pub mod event;
pub mod law;

verus! {

/// The most descriptors one wait walks.
pub const MAX_WATCHED: u64 = 64;

/// Bytes in a `struct pollfd`: an `int` and two `short`.
pub const POLLFD_BYTES: u64 = 8;

/// Where in a `struct pollfd` what it came to stands.
pub const REVENTS: u64 = 6;

/// Bytes in a `struct epoll_event`, which is packed.
pub const EPOLL_EVENT_BYTES: u64 = 12;

/// What one descriptor in a set is watched for.
#[derive(Clone, Copy, PartialEq, Eq, Structural, Debug)]
pub struct Interest {
    /// The bits the program asked for.
    pub events: u32,
    /// What it gave to be told by.
    pub data: u64,
}

/// The sets one process has, as a value.
pub open spec fn sets_view(sets: Table<Table<Interest>>) -> Map<u64, Map<u64, Interest>> {
    Map::new(|set: u64| sets@.dom().contains(set), |set: u64| sets@[set]@)
}

/// Every set is in order.
pub open spec fn sets_wf(sets: Table<Table<Interest>>) -> bool {
    &&& sets.wf()
    &&& forall|set: u64| #[trigger] sets@.dom().contains(set) ==> sets@[set].wf()
}

/// Every process's sets, and the counts.
pub struct State {
    processes: Table<Table<Table<Interest>>>,
    waited: u64,
    immediate: u64,
}

/// The same, as a value.
#[verifier::ext_equal]
pub struct Model {
    /// By process, by the descriptor that names the set, by the descriptor
    /// watched.
    pub sets: Map<u64, Map<u64, Map<u64, Interest>>>,
    /// Waits that blocked, however often each did.
    pub waited: u64,
    /// Waits that found something ready without blocking.
    pub immediate: u64,
}

impl Model {
    /// The sets of a process.
    pub open spec fn owned(self, process: u64) -> Map<u64, Map<u64, Interest>> {
        if self.sets.dom().contains(process) {
            self.sets[process]
        } else {
            Map::empty()
        }
    }

    /// Whether there is such a set.
    pub open spec fn has(self, process: u64, set: u64) -> bool {
        self.owned(process).dom().contains(set)
    }

    /// The same with a set holding `interests`.
    pub open spec fn with(self, process: u64, set: u64, interests: Map<u64, Interest>) -> Model {
        Model {
            sets: self.sets.insert(process, self.owned(process).insert(set, interests)),
            ..self
        }
    }
}

impl View for State {
    type V = Model;

    closed spec fn view(&self) -> Model {
        Model {
            sets: Map::new(
                |process: u64| self.processes@.dom().contains(process),
                |process: u64| sets_view(self.processes@[process]),
            ),
            waited: self.waited,
            immediate: self.immediate,
        }
    }
}

impl State {
    /// Every table is in order.
    pub closed spec fn wf(&self) -> bool {
        &&& self.processes.wf()
        &&& forall|process: u64| #[trigger]
            self.processes@.dom().contains(process) ==> sets_wf(self.processes@[process])
    }

    /// No sets.
    pub fn new() -> (state: Self)
        ensures
            state.wf(),
            state@ == (Model { sets: Map::empty(), waited: 0, immediate: 0 }),
    {
        let state = State { processes: Table::new(), waited: 0, immediate: 0 };
        assert(state@.sets =~= Map::empty());
        state
    }

    fn take(&mut self, process: u64) -> (sets: Table<Table<Interest>>)
        requires
            old(self).wf(),
        ensures
            final(self).wf(),
            sets_wf(sets),
            sets_view(sets) == old(self)@.owned(process),
            final(self)@ == (Model { sets: old(self)@.sets.remove(process), ..old(self)@ }),
    {
        let taken = self.processes.remove(process);
        assert(self@.sets =~= old(self)@.sets.remove(process));
        match taken {
            Some(sets) => sets,
            None => {
                let sets: Table<Table<Interest>> = Table::new();
                assert(sets_view(sets) =~= Map::empty());
                sets
            },
        }
    }

    fn put(&mut self, process: u64, sets: Table<Table<Interest>>)
        requires
            old(self).wf(),
            sets_wf(sets),
        ensures
            final(self).wf(),
            final(self)@ == (Model {
                sets: old(self)@.sets.insert(process, sets_view(sets)),
                ..old(self)@
            }),
    {
        self.processes.insert(process, sets);
        assert(self@.sets =~= old(self)@.sets.insert(process, sets_view(sets)));
    }
}

/// Waits that blocked, and waits that found something ready without blocking.
pub fn statistics(state: &State) -> (counts: (u64, u64))
    ensures
        counts == (state@.waited, state@.immediate),
{
    (state.waited, state.immediate)
}

/// Forget a process's sets. Called when it ends.
pub fn forget(state: &mut State, process: u64)
    requires
        old(state).wf(),
    ensures
        final(state).wf(),
        final(state)@ == (Model { sets: old(state)@.sets.remove(process), ..old(state)@ }),
{
    state.processes.remove(process);
    assert(state@.sets =~= old(state)@.sets.remove(process));
}

/// What a process's sets are once a descriptor is closed: the set it names is
/// gone, and so is every watch on it.
pub open spec fn without(sets: Map<u64, Map<u64, Interest>>, descriptor: u64) -> Map<
    u64,
    Map<u64, Interest>,
> {
    Map::new(
        |set: u64| sets.dom().contains(set) && set != descriptor,
        |set: u64| sets[set].remove(descriptor),
    )
}

/// Forget one descriptor: it has been closed.
///
/// A set still holding it would report a number that may by then name something
/// else.
pub fn forget_descriptor(state: &mut State, process: u64, descriptor: u32)
    requires
        old(state).wf(),
    ensures
        final(state).wf(),
        final(state)@ == (Model {
            sets: if old(state)@.sets.dom().contains(process) {
                old(state)@.sets.insert(
                    process,
                    without(old(state)@.sets[process], descriptor as u64),
                )
            } else {
                old(state)@.sets
            },
            ..old(state)@
        }),
{
    if !state.processes.contains(process) {
        assert(!state@.sets.dom().contains(process));
        return;
    }
    assert(state@.sets.dom().contains(process));
    let ghost before = state@;
    let closed: u64 = descriptor as u64;
    let mut sets = state.take(process);
    let ghost all = sets_view(sets);
    sets.remove(closed);
    let ghost kept = sets@;
    assert(sets_view(sets) =~= all.remove(closed));
    let ghost keys = sets.listed();
    proof {
        sets.lemma_listed();
    }
    let mut at: usize = 0;
    while at < sets.len()
        invariant
            at <= sets.listed().len(),
            sets_wf(sets),
            sets.listed().len() == keys.len(),
            forall|i: int| 0 <= i < keys.len() ==> (#[trigger] sets.listed()[i]).0 == keys[i].0,
            sets@.dom() == kept.dom(),
            forall|i: int|
                0 <= i < at ==> sets@[(#[trigger] keys[i]).0]@ == kept[keys[i].0]@.remove(closed),
            forall|i: int| at <= i < keys.len() ==> sets@[(#[trigger] keys[i]).0] == kept[keys[i].0],
            forall|i: int, j: int|
                0 <= i < j < keys.len() ==> (#[trigger] keys[i]).0 < (#[trigger] keys[j]).0,
        decreases keys.len() - at,
    {
        let ghost now = sets@;
        let ghost then = sets.listed();
        proof {
            sets.lemma_listed();
        }
        let (set, _) = sets.entry(at);
        assert(set == keys[at as int].0);
        let taken = sets.remove(set);
        match taken {
            Some(mut interests) => {
                interests.remove(closed);
                sets.insert(set, interests);
                proof {
                    assert(sets@ =~= now.insert(set, interests));
                    assert(sets@.dom() =~= kept.dom());
                    sets.lemma_listed();
                    crate::table::lemma_same_keys(then, sets.listed());
                }
            },
            None => {},
        }
        at += 1;
    }
    proof {
        sets.lemma_listed();
        assert(sets_view(sets) =~= without(all, closed)) by {
            assert forall|set: u64| sets@.dom().contains(set) implies (#[trigger] sets@[set])@
                == all[set].remove(closed) by {
                assert(crate::table::listed_key(sets.listed(), set));
                let i = choose|i: int| crate::table::stands(sets.listed(), set, i);
                assert(crate::table::stands(sets.listed(), set, i));
                assert(keys[i].0 == set);
            }
        }
    }
    state.put(process, sets);
    assert(state@.sets =~= before.sets.insert(process, without(all, closed)));
}

/// What a descriptor is, and what can be done with it now.
#[derive(Clone, Copy, PartialEq, Eq, Structural, Debug)]
pub enum Readiness {
    Console(u8),
    File,
    WritingEnd { room: bool, readers_open: bool },
    ReadingEnd { queued: bool, writers_open: bool },
    Channel { queued: bool, peer_open: bool },
    Listener { ready: bool },
    Stream { readable: bool, writable: bool, connected: bool },
    /// A socket neither connected nor listening.
    Idle,
    Other,
    /// It names nothing.
    Invalid,
}

/// A bit, where it applies.
pub open spec fn when(applies: bool, bits: u16) -> u16 {
    if applies {
        bits
    } else {
        0
    }
}

fn if_so(applies: bool, bits: u16) -> (out: u16)
    ensures
        out == when(applies, bits),
{
    if applies {
        bits
    } else {
        0
    }
}

/// The bits a descriptor shows.
pub open spec fn shown(readiness: Readiness) -> u16 {
    match readiness {
        Readiness::Console(stream) => if stream == 0 {
            event::IN
        } else {
            event::OUT
        },
        Readiness::File => event::IN | event::OUT,
        Readiness::WritingEnd { room, readers_open } => when(room, event::OUT) | when(
            !readers_open,
            event::ERR,
        ),
        Readiness::ReadingEnd { queued, writers_open } => when(queued, event::IN) | when(
            !writers_open,
            event::HUP | event::IN,
        ),
        Readiness::Channel { queued, peer_open } => event::OUT | when(queued, event::IN) | when(
            !peer_open,
            event::HUP,
        ),
        Readiness::Listener { ready } => when(ready, event::IN),
        Readiness::Stream { readable, writable, connected } => when(readable, event::IN) | when(
            writable,
            event::OUT,
        ) | when(!connected, event::HUP | event::IN),
        Readiness::Idle => 0,
        Readiness::Other => event::OUT,
        Readiness::Invalid => event::NVAL,
    }
}

/// What a descriptor can do right now, as bits.
///
/// A reader whose writers are gone is told that there is something to read as
/// well: there may be bytes left, and then the end.
pub fn ready_now(readiness: Readiness) -> (bits: u16)
    ensures
        bits == shown(readiness),
{
    match readiness {
        Readiness::Console(stream) => if stream == 0 {
            event::IN
        } else {
            event::OUT
        },
        Readiness::File => event::IN | event::OUT,
        Readiness::WritingEnd { room, readers_open } => if_so(room, event::OUT) | if_so(
            !readers_open,
            event::ERR,
        ),
        Readiness::ReadingEnd { queued, writers_open } => if_so(queued, event::IN) | if_so(
            !writers_open,
            event::HUP | event::IN,
        ),
        Readiness::Channel { queued, peer_open } => event::OUT | if_so(queued, event::IN) | if_so(
            !peer_open,
            event::HUP,
        ),
        Readiness::Listener { ready } => if_so(ready, event::IN),
        Readiness::Stream { readable, writable, connected } => if_so(readable, event::IN) | if_so(
            writable,
            event::OUT,
        ) | if_so(!connected, event::HUP | event::IN),
        Readiness::Idle => 0,
        Readiness::Other => event::OUT,
        Readiness::Invalid => event::NVAL,
    }
}

/// Whether a descriptor can be waited on.
pub open spec fn can_be_watched(readiness: Readiness) -> bool {
    match readiness {
        Readiness::WritingEnd { .. } | Readiness::ReadingEnd { .. } | Readiness::Channel { .. }
        | Readiness::Listener { .. } | Readiness::Stream { .. } => true,
        _ => false,
    }
}

/// What a descriptor would do now, as far as what it names says so. The rest is
/// for the object behind it to say.
pub fn named_readiness(found: Result<Descriptor, u64>) -> (readiness: Option<Readiness>)
    ensures
        readiness == match found {
            Err(_) => Some(Readiness::Invalid),
            Ok(Descriptor::Console(stream)) => Some(Readiness::Console(stream)),
            Ok(Descriptor::File { .. }) => Some(Readiness::File),
            Ok(_) => None,
        },
{
    match found {
        Err(_) => Some(Readiness::Invalid),
        Ok(Descriptor::Console(stream)) => Some(Readiness::Console(stream)),
        Ok(Descriptor::File { .. }) => Some(Readiness::File),
        Ok(_) => None,
    }
}

/// Whether a descriptor can be waited on.
pub fn watchable(readiness: Readiness) -> (watched: bool)
    ensures
        watched == can_be_watched(readiness),
{
    match readiness {
        Readiness::WritingEnd { .. } => true,
        Readiness::ReadingEnd { .. } => true,
        Readiness::Channel { .. } => true,
        Readiness::Listener { .. } => true,
        Readiness::Stream { .. } => true,
        _ => false,
    }
}

/// When a wait ends.
///
/// A negative timeout waits for ever, and so does one on a machine whose timer
/// has no rate: a deadline computed from none would already have passed.
pub open spec fn deadline(milliseconds: i64, rate: u64, ticks: u64) -> Option<u64> {
    if milliseconds < 0 || rate == 0 {
        None
    } else {
        let product = milliseconds * rate;
        let wait = (if product > u64::MAX {
            u64::MAX as int
        } else {
            product
        }) / 1000;
        Some(
            if ticks + wait > u64::MAX {
                u64::MAX
            } else {
                (ticks + wait) as u64
            },
        )
    }
}

/// Turn a timeout in milliseconds into a tick deadline.
pub fn deadline_of(milliseconds: i64, rate: u64, ticks: u64) -> (end: Option<u64>)
    ensures
        end == deadline(milliseconds, rate, ticks),
{
    if milliseconds < 0 {
        return None;
    }
    if rate == 0 {
        return None;
    }
    assert(0 <= milliseconds * rate <= 0x7FFF_FFFF_FFFF_FFFF * 0xFFFF_FFFF_FFFF_FFFF)
        by (nonlinear_arith)
        requires
            0 <= milliseconds <= 0x7FFF_FFFF_FFFF_FFFF,
            0 <= rate <= 0xFFFF_FFFF_FFFF_FFFF,
    ;
    let product: u128 = milliseconds as u128 * rate as u128;
    let wait: u64 = if product > u64::MAX as u128 {
        u64::MAX / 1000
    } else {
        product as u64 / 1000
    };
    Some(ticks.saturating_add(wait))
}

/// What is counted for a wait that is to sleep on so many things: that it blocked,
/// where it does and had not before.
pub open spec fn slept(before: Model, members: nat, blocked: bool) -> Model {
    if members > 0 && !blocked {
        Model { waited: counted(before.waited, 1), ..before }
    } else {
        before
    }
}

/// A descriptor, and what it would do now.
#[derive(Clone, Copy, PartialEq, Eq, Structural, Debug)]
pub struct Seen {
    pub descriptor: u64,
    pub readiness: Readiness,
}

/// The descriptors that can be waited on, in order.
pub open spec fn waited_on(seen: Seq<Seen>) -> Seq<u64>
    decreases seen.len(),
{
    if seen.len() == 0 {
        Seq::empty()
    } else {
        let before = waited_on(seen.drop_last());
        if can_be_watched(seen.last().readiness) {
            before.push(seen.last().descriptor)
        } else {
            before
        }
    }
}

/// Sleep on what can be waited on: the descriptors that are to wake the wait, or
/// what is answered at once where there is none, since nothing would wake it.
/// `blocked` is whether it has slept already.
pub fn sleep_on(state: &mut State, seen: &[Seen], blocked: bool) -> (members: Result<
    Vec<u64>,
    u64,
>)
    requires
        old(state).wf(),
    ensures
        final(state).wf(),
        match members {
            Ok(members) => members@ == waited_on(seen@) && members@.len() > 0,
            Err(answer) => waited_on(seen@).len() == 0 && answer == 0,
        },
        final(state)@ == slept(old(state)@, waited_on(seen@).len(), blocked),
{
    let mut members: Vec<u64> = Vec::new();
    let mut at: usize = 0;
    assert(seen@.take(0) =~= Seq::empty());
    while at < seen.len()
        invariant
            at <= seen@.len(),
            members@ == waited_on(seen@.take(at as int)),
        decreases seen@.len() - at,
    {
        proof {
            assert(seen@.take(at + 1).drop_last() =~= seen@.take(at as int));
            assert(seen@.take(at + 1).last() == seen@[at as int]);
        }
        if watchable(seen[at].readiness) {
            members.push(seen[at].descriptor);
        }
        at += 1;
    }
    assert(seen@.take(at as int) =~= seen@);
    if members.len() == 0 {
        return Err(0);
    }
    if !blocked {
        state.waited = count(state.waited, 1);
    }
    Ok(members)
}

/// What a `poll` writes: what each descriptor came to, in the last two bytes of
/// its `struct pollfd`.
pub open spec fn answers_at(at: u64, bits: Seq<u16>) -> Seq<(u64, Seq<u8>)> {
    Seq::new(
        bits.len(),
        |i: int| ((at + i * POLLFD_BYTES + REVENTS) as u64, le16(bits[i])),
    )
}

/// What a `poll` writes, given where its array is.
pub fn write_answers(at: u64, bits: &[u16]) -> (writes: Vec<Write>)
    requires
        at + bits@.len() * POLLFD_BYTES <= u64::MAX,
    ensures
        Seq::new(writes@.len(), |i: int| writes@[i]@) == answers_at(at, bits@),
{
    let mut writes: Vec<Write> = Vec::new();
    let mut index: usize = 0;
    let mut entry: u64 = at;
    while index < bits.len()
        invariant
            index <= bits@.len(),
            writes@.len() == index,
            entry == at + index * POLLFD_BYTES,
            at + bits@.len() * POLLFD_BYTES <= u64::MAX,
            forall|i: int| 0 <= i < index ==> (#[trigger] writes@[i])@ == answers_at(at, bits@)[i],
        decreases bits@.len() - index,
    {
        let mut bytes: Vec<u8> = Vec::new();
        put_u16(&mut bytes, bits[index]);
        assert(bytes@ =~= le16(bits@[index as int]));
        writes.push(Write { at: entry + REVENTS, bytes });
        entry = entry + POLLFD_BYTES;
        index += 1;
    }
    assert(Seq::new(writes@.len(), |i: int| writes@[i]@) =~= answers_at(at, bits@));
    writes
}

/// One descriptor of a `poll`.
#[derive(Clone, Copy, PartialEq, Eq, Structural, Debug)]
pub struct Watching {
    /// The descriptor, or `None` for one the program said to skip.
    pub descriptor: Option<u64>,
    /// The bits it asked for.
    pub asked: u16,
}

/// The descriptors in an array of `struct pollfd`. A negative one is skipped.
pub open spec fn watching_in(bytes: Seq<u8>) -> Seq<Watching> {
    Seq::new(
        bytes.len() / POLLFD_BYTES as nat,
        |i: int|
            Watching {
                descriptor: if u32_at(bytes, 8 * i) > 0x7FFF_FFFF {
                    None
                } else {
                    Some(u32_at(bytes, 8 * i) as u64)
                },
                asked: u16_at(bytes, 8 * i + 4),
            },
    )
}

/// What `poll` is to do first.
#[derive(Debug)]
pub enum Polling {
    Answer(u64),
    /// Sleep this many milliseconds, then answer zero.
    Sleep(u64),
    /// Look at these, and go on with [`looked`].
    Watch(Vec<Watching>),
}

/// `poll(fds, count, timeout)`.
///
/// `bytes` is the array, if the program has it. It is read once, so that the
/// program cannot change it under the wait.
pub fn poll(many: u64, timeout: i64, bytes: Option<&[u8]>) -> (next: Polling)
    requires
        bytes matches Some(bytes) ==> bytes@.len() == many * POLLFD_BYTES,
    ensures
        if many > MAX_WATCHED {
            next == Polling::Answer(EINVAL)
        } else if many == 0 {
            next == if timeout > 0 {
                Polling::Sleep(timeout as u64)
            } else {
                Polling::Answer(0)
            }
        } else {
            match bytes {
                None => next == Polling::Answer(EFAULT),
                Some(bytes) => next matches Polling::Watch(watching) && watching@ == watching_in(
                    bytes@,
                ),
            }
        },
{
    if many > MAX_WATCHED {
        return Polling::Answer(EINVAL);
    }
    if many == 0 {
        if timeout > 0 {
            return Polling::Sleep(timeout as u64);
        }
        return Polling::Answer(0);
    }
    let bytes: &[u8] = match bytes {
        Some(bytes) => bytes,
        None => return Polling::Answer(EFAULT),
    };
    let mut watching: Vec<Watching> = Vec::new();
    let mut at: usize = 0;
    while at < many as usize
        invariant
            at <= many <= MAX_WATCHED,
            bytes@.len() == many * POLLFD_BYTES,
            watching@ == watching_in(bytes@).take(at as int),
        decreases many - at,
    {
        let descriptor: u32 = get_u32(bytes, 8 * at);
        let asked: u16 = get_u16(bytes, 8 * at + 4);
        watching.push(
            Watching {
                descriptor: if descriptor > 0x7FFF_FFFF {
                    None
                } else {
                    Some(descriptor as u64)
                },
                asked,
            },
        );
        assert(watching_in(bytes@)[at as int] == watching@.last());
        assert(watching@ =~= watching_in(bytes@).take(at + 1));
        at += 1;
    }
    assert(watching_in(bytes@).take(at as int) =~= watching_in(bytes@));
    Polling::Watch(watching)
}

/// What a wait does after a look.
#[derive(Clone, Copy, PartialEq, Eq, Structural, Debug)]
pub enum Verdict {
    Answer(u64),
    /// Sleep on what can be watched, and look again; or answer zero where there
    /// is nothing to sleep on: [`sleep_on`].
    Sleep,
}

/// What a wait knows about itself after a look.
#[derive(Clone, Copy, PartialEq, Eq, Structural, Debug)]
pub struct Patience {
    pub timeout: i64,
    /// Whether the thread is being asked to stop.
    pub cancelled: bool,
    /// Whether it has slept already.
    pub blocked: bool,
    pub deadline: Option<u64>,
    pub ticks: u64,
}

/// What a wait does after a look that found so many.
pub open spec fn verdict(found: u64, patience: Patience) -> Verdict {
    if found > 0 {
        Verdict::Answer(found)
    } else if patience.timeout == 0 {
        Verdict::Answer(0)
    } else if patience.cancelled {
        Verdict::Answer(EINTR)
    } else if patience.deadline matches Some(end) && patience.ticks >= end {
        Verdict::Answer(0)
    } else {
        Verdict::Sleep
    }
}

/// What is counted for a look: that it found something, where nothing was waited
/// for.
pub open spec fn counts(before: Model, found: u64, patience: Patience) -> Model {
    if found > 0 && !patience.blocked {
        Model { immediate: counted(before.immediate, 1), ..before }
    } else {
        before
    }
}

fn decide(state: &mut State, found: u64, patience: Patience) -> (next: Verdict)
    requires
        old(state).wf(),
    ensures
        final(state).wf(),
        next == verdict(found, patience),
        final(state)@ == counts(old(state)@, found, patience),
{
    if found > 0 {
        if !patience.blocked {
            state.immediate = count(state.immediate, 1);
        }
        return Verdict::Answer(found);
    }
    if patience.timeout == 0 {
        return Verdict::Answer(0);
    }
    if patience.cancelled {
        return Verdict::Answer(EINTR);
    }
    if let Some(end) = patience.deadline {
        if patience.ticks >= end {
            return Verdict::Answer(0);
        }
    }
    Verdict::Sleep
}

/// The bits reported for one descriptor: what was asked for, and three that are
/// always.
pub open spec fn revents(watching: Watching, now: u16) -> u16 {
    if watching.descriptor is None {
        0
    } else {
        now & (watching.asked | event::ERR | event::HUP | event::NVAL)
    }
}

/// The bits reported for each.
pub open spec fn all_revents(watching: Seq<Watching>, now: Seq<u16>) -> Seq<u16> {
    Seq::new(watching.len(), |i: int| revents(watching[i], now[i]))
}

/// How many are not zero.
pub open spec fn nonzero(bits: Seq<u16>) -> nat
    decreases bits.len(),
{
    if bits.len() == 0 {
        0
    } else {
        nonzero(bits.drop_last()) + if bits.last() != 0 {
            1nat
        } else {
            0nat
        }
    }
}

/// One round of `poll`: what each descriptor shows `now`, and so what goes into
/// each `revents` and what happens next.
pub fn looked(state: &mut State, watching: &[Watching], now: &[u16], patience: Patience) -> (round:
    (Vec<u16>, Verdict))
    requires
        old(state).wf(),
        watching@.len() == now@.len(),
        watching@.len() <= MAX_WATCHED,
    ensures
        final(state).wf(),
        round.0@ == all_revents(watching@, now@),
        round.1 == verdict(nonzero(round.0@) as u64, patience),
        final(state)@ == counts(old(state)@, nonzero(round.0@) as u64, patience),
{
    let mut out: Vec<u16> = Vec::new();
    let mut ready: u64 = 0;
    let mut at: usize = 0;
    while at < watching.len()
        invariant
            at <= watching@.len() <= MAX_WATCHED,
            watching@.len() == now@.len(),
            out@ == all_revents(watching@, now@).take(at as int),
            ready == nonzero(out@),
            ready <= at,
        decreases watching@.len() - at,
    {
        let bits: u16 = if watching[at].descriptor.is_none() {
            0
        } else {
            now[at] & (watching[at].asked | event::ERR | event::HUP | event::NVAL)
        };
        let ghost before = out@;
        out.push(bits);
        assert(out@.drop_last() =~= before);
        assert(out@ =~= all_revents(watching@, now@).take(at + 1));
        if bits != 0 {
            ready += 1;
        }
        at += 1;
    }
    assert(out@ =~= all_revents(watching@, now@));
    let next = decide(state, ready, patience);
    (out, next)
}

/// `epoll_create1(flags)`: a refusal, or leave to make a set; [`created`]
/// finishes.
pub fn create(flags: u64, has_process: bool) -> (made: Result<(), u64>)
    ensures
        made == if flags & !CLOEXEC != 0 {
            Err::<(), u64>(EINVAL)
        } else if !has_process {
            Err(ENOSYS)
        } else {
            Ok(())
        },
{
    if flags & !CLOEXEC != 0 {
        return Err(EINVAL);
    }
    if !has_process {
        return Err(ENOSYS);
    }
    Ok(())
}

/// Finish `epoll_create1`: the set is empty.
pub fn created(state: &mut State, process: u64, descriptor: u32) -> (answer: u64)
    requires
        old(state).wf(),
    ensures
        final(state).wf(),
        answer == descriptor as u64,
        final(state)@ == old(state)@.with(process, descriptor as u64, Map::empty()),
{
    let ghost before = state@;
    let mut sets = state.take(process);
    let ghost owned = sets_view(sets);
    sets.insert(descriptor as u64, Table::new());
    assert(sets_view(sets) =~= owned.insert(descriptor as u64, Map::empty()));
    state.put(process, sets);
    assert(state@ =~= before.with(process, descriptor as u64, Map::empty()));
    descriptor as u64
}

/// The interest in an `epoll_event`.
pub open spec fn interest_in(bytes: Seq<u8>) -> Interest {
    Interest { events: u32_at(bytes, 0), data: u64_at(bytes, 4) }
}

/// What `epoll_ctl` refuses before it looks at the set.
pub open spec fn control_refused(
    process: Option<u64>,
    set: u64,
    operation: u64,
    descriptor: u64,
    now: u16,
    bytes: Option<Seq<u8>>,
) -> Option<u64> {
    if process is None {
        Some(ENOSYS)
    } else if set > MAX_HANDLE || descriptor > MAX_HANDLE {
        Some(EBADF)
    } else if descriptor == set {
        Some(EINVAL)
    } else if (operation == epoll::CTL_ADD || operation == epoll::CTL_MOD) && now & event::NVAL
        != 0 {
        Some(EBADF)
    } else if operation == epoll::CTL_DEL {
        None
    } else if bytes is None {
        Some(EFAULT)
    } else if interest_in(bytes.unwrap()).events & epoll::ET != 0 {
        Some(EINVAL)
    } else {
        None
    }
}

/// `epoll_ctl(epfd, operation, fd, event)`.
///
/// `now` is what the descriptor shows, and `bytes` the event, if the program has
/// it. A set cannot watch itself.
pub fn control(
    state: &mut State,
    process: Option<u64>,
    set: u64,
    operation: u64,
    descriptor: u64,
    now: u16,
    bytes: Option<&[u8]>,
) -> (answer: u64)
    requires
        old(state).wf(),
        bytes matches Some(bytes) ==> bytes@.len() == EPOLL_EVENT_BYTES,
    ensures
        final(state).wf(),
        match control_refused(
            process,
            set,
            operation,
            descriptor,
            now,
            crate::compat::linux_socket::seen(bytes),
        ) {
            Some(reason) => answer == reason && final(state)@ == old(state)@,
            None => {
                let owner = process.unwrap();
                let interests = old(state)@.owned(owner)[set];
                let wanted = interest_in(bytes.unwrap()@);
                let watched = interests.dom().contains(descriptor);
                if !old(state)@.has(owner, set) {
                    answer == EBADF && final(state)@ == old(state)@
                } else if operation == epoll::CTL_ADD && watched {
                    answer == EEXIST && final(state)@ == old(state)@
                } else if (operation == epoll::CTL_MOD || operation == epoll::CTL_DEL) && !watched {
                    answer == ENOENT && final(state)@ == old(state)@
                } else if operation == epoll::CTL_ADD || operation == epoll::CTL_MOD {
                    &&& answer == 0
                    &&& final(state)@ == old(state)@.with(
                        owner,
                        set,
                        interests.insert(descriptor, wanted),
                    )
                } else if operation == epoll::CTL_DEL {
                    &&& answer == 0
                    &&& final(state)@ == old(state)@.with(owner, set, interests.remove(descriptor))
                } else {
                    answer == EINVAL && final(state)@ == old(state)@
                }
            },
        },
{
    let process: u64 = match process {
        Some(process) => process,
        None => return ENOSYS,
    };
    if set > MAX_HANDLE || descriptor > MAX_HANDLE {
        return EBADF;
    }
    if descriptor == set {
        return EINVAL;
    }
    if (operation == epoll::CTL_ADD || operation == epoll::CTL_MOD) && now & event::NVAL != 0 {
        return EBADF;
    }
    let wanted: Interest = if operation == epoll::CTL_DEL {
        Interest { events: 0, data: 0 }
    } else {
        let bytes: &[u8] = match bytes {
            Some(bytes) => bytes,
            None => return EFAULT,
        };
        let events: u32 = get_u32(bytes, 0);
        if events & epoll::ET != 0 {
            return EINVAL;
        }
        Interest { events, data: get_u64(bytes, 4) }
    };
    let ghost before = state@;
    if !state.processes.contains(process) {
        assert(!before.sets.dom().contains(process));
        return EBADF;
    }
    assert(before.sets.dom().contains(process));
    let mut sets = state.take(process);
    let ghost owned = sets_view(sets);
    let mut interests = match sets.remove(set) {
        Some(interests) => interests,
        None => {
            assert(sets_view(sets) =~= owned);
            state.put(process, sets);
            assert(state@.sets =~= before.sets);
            return EBADF;
        },
    };
    assert(owned.dom().contains(set));
    let ghost held = interests@;
    assert(owned[set] == held);
    let watched: bool = interests.contains(descriptor);
    let answer: u64 = if operation == epoll::CTL_ADD {
        if watched {
            EEXIST
        } else {
            interests.insert(descriptor, wanted);
            0
        }
    } else if operation == epoll::CTL_MOD {
        if !watched {
            ENOENT
        } else {
            interests.insert(descriptor, wanted);
            0
        }
    } else if operation == epoll::CTL_DEL {
        if interests.remove(descriptor).is_none() {
            ENOENT
        } else {
            0
        }
    } else {
        EINVAL
    };
    sets.insert(set, interests);
    assert(sets_view(sets) =~= owned.insert(set, interests@));
    state.put(process, sets);
    proof {
        assert(state@ =~= before.with(process, set, interests@));
        if answer != 0 {
            assert(interests@ =~= held);
            assert(owned.insert(set, held) =~= owned);
            assert(before.sets.insert(process, owned) =~= before.sets);
        }
    }
    answer
}

/// What one watch reports.
#[derive(Clone, Copy, PartialEq, Eq, Structural, Debug)]
pub struct Event {
    pub bits: u32,
    pub data: u64,
}

/// A bit, where it applies.
pub open spec fn when_wide(applies: bool, bits: u32) -> u32 {
    if applies {
        bits
    } else {
        0
    }
}

/// The bits one watch reports: what is asked for, and a hangup or an error
/// always. A descriptor that names nothing any more is an error.
pub open spec fn event_bits(want: Interest, now: u16) -> u32 {
    if now & event::NVAL != 0 {
        epoll::ERR
    } else {
        when_wide(now & event::IN != 0 && want.events & epoll::IN != 0, epoll::IN) | when_wide(
            now & event::OUT != 0 && want.events & epoll::OUT != 0,
            epoll::OUT,
        ) | when_wide(now & event::HUP != 0, epoll::HUP) | when_wide(
            now & event::ERR != 0,
            epoll::ERR,
        )
    }
}

fn bits_for(want: Interest, now: u16) -> (bits: u32)
    ensures
        bits == event_bits(want, now),
{
    if now & event::NVAL != 0 {
        return epoll::ERR;
    }
    let readable: u32 = if now & event::IN != 0 && want.events & epoll::IN != 0 {
        epoll::IN
    } else {
        0
    };
    let writable: u32 = if now & event::OUT != 0 && want.events & epoll::OUT != 0 {
        epoll::OUT
    } else {
        0
    };
    let gone: u32 = if now & event::HUP != 0 {
        epoll::HUP
    } else {
        0
    };
    let failed: u32 = if now & event::ERR != 0 {
        epoll::ERR
    } else {
        0
    };
    readable | writable | gone | failed
}

/// What the first `upto` watches report, up to `most` of them.
pub open spec fn events_of(
    interests: Seq<(u64, Interest)>,
    now: Seq<u16>,
    upto: nat,
    most: nat,
) -> Seq<Event>
    decreases upto,
{
    if upto == 0 {
        Seq::empty()
    } else {
        let before = events_of(interests, now, (upto - 1) as nat, most);
        let want = interests[upto - 1].1;
        let bits = event_bits(want, now[upto - 1]);
        if before.len() < most && bits != 0 {
            before.push(Event { bits, data: want.data })
        } else {
            before
        }
    }
}

/// What `epoll_wait` refuses before it looks.
pub open spec fn wait_refused(set: u64, most: u64, process: Option<u64>, in_range: bool) -> Option<
    u64,
> {
    if most == 0 || most > MAX_WATCHED {
        Some(EINVAL)
    } else if process is None {
        Some(ENOSYS)
    } else if set > MAX_HANDLE {
        Some(EBADF)
    } else if !in_range {
        Some(EFAULT)
    } else {
        None
    }
}

/// `epoll_wait(epfd, events, maxevents, timeout)`: a refusal, or the descriptors
/// to look at, in ascending order; [`reported`] goes on.
///
/// Called at the start of every round, because the set may change between two.
pub fn wait(state: &State, set: u64, most: u64, process: Option<u64>, in_range: bool) -> (watched:
    Result<Vec<(u64, Interest)>, u64>)
    requires
        state.wf(),
    ensures
        match wait_refused(set, most, process, in_range) {
            Some(reason) => watched == Err::<Vec<(u64, Interest)>, u64>(reason),
            None => if !state@.has(process.unwrap(), set) {
                watched == Err::<Vec<(u64, Interest)>, u64>(EBADF)
            } else {
                &&& watched is Ok
                &&& crate::table::ascending(watched.unwrap()@)
                &&& forall|fd: u64| #[trigger]
                    crate::table::listed_key(watched.unwrap()@, fd) == state@.owned(
                        process.unwrap(),
                    )[set].dom().contains(fd)
                &&& forall|i: int|
                    0 <= i < watched.unwrap()@.len() ==> state@.owned(
                        process.unwrap(),
                    )[set][(#[trigger] watched.unwrap()@[i]).0] == watched.unwrap()@[i].1
            },
        },
{
    if most == 0 || most > MAX_WATCHED {
        return Err(EINVAL);
    }
    let process: u64 = match process {
        Some(process) => process,
        None => return Err(ENOSYS),
    };
    if set > MAX_HANDLE {
        return Err(EBADF);
    }
    if !in_range {
        return Err(EFAULT);
    }
    let sets = match state.processes.get(process) {
        Some(sets) => sets,
        None => {
            assert(!state@.sets.dom().contains(process));
            return Err(EBADF);
        },
    };
    assert(state@.sets.dom().contains(process));
    assert(state@.sets[process] == sets_view(*sets));
    let interests = match sets.get(set) {
        Some(interests) => interests,
        None => return Err(EBADF),
    };
    assert(state@.owned(process)[set] == interests@);
    proof {
        interests.lemma_listed();
    }
    let mut watched: Vec<(u64, Interest)> = Vec::new();
    let mut at: usize = 0;
    while at < interests.len()
        invariant
            at <= interests.listed().len(),
            watched@ == interests.listed().take(at as int),
        decreases interests.listed().len() - at,
    {
        let (fd, want) = interests.entry(at);
        watched.push((fd, *want));
        assert(watched@ =~= interests.listed().take(at + 1));
        at += 1;
    }
    assert(watched@ =~= interests.listed());
    Ok(watched)
}

/// One round of `epoll_wait`: what each descriptor shows `now`, and so what is
/// reported and what happens next.
pub fn reported(
    state: &mut State,
    interests: &[(u64, Interest)],
    now: &[u16],
    most: u64,
    patience: Patience,
) -> (round: (Vec<Event>, Verdict))
    requires
        old(state).wf(),
        interests@.len() == now@.len(),
        most <= MAX_WATCHED,
    ensures
        final(state).wf(),
        round.0@ == events_of(interests@, now@, interests@.len(), most as nat),
        round.0@.len() <= most,
        round.1 == verdict(round.0@.len() as u64, patience),
        final(state)@ == counts(old(state)@, round.0@.len() as u64, patience),
{
    let mut out: Vec<Event> = Vec::new();
    let mut at: usize = 0;
    while at < interests.len()
        invariant
            at <= interests@.len(),
            interests@.len() == now@.len(),
            out@ == events_of(interests@, now@, at as nat, most as nat),
            out@.len() <= most,
        decreases interests@.len() - at,
    {
        if (out.len() as u64) < most {
            let want: Interest = interests[at].1;
            let bits: u32 = bits_for(want, now[at]);
            if bits != 0 {
                out.push(Event { bits, data: want.data });
            }
        }
        at += 1;
    }
    let next = decide(state, out.len() as u64, patience);
    (out, next)
}

/// The events one after the other.
pub open spec fn events_bytes(events: Seq<Event>) -> Seq<u8>
    decreases events.len(),
{
    if events.len() == 0 {
        Seq::empty()
    } else {
        events_bytes(events.drop_last()) + le32(events.last().bits) + le64(events.last().data)
    }
}

/// The bytes that tell a program of `events`.
pub fn write_event(events: &[Event]) -> (bytes: Vec<u8>)
    ensures
        bytes@ == events_bytes(events@),
{
    let mut bytes: Vec<u8> = Vec::new();
    let mut at: usize = 0;
    assert(events@.take(0) =~= Seq::empty());
    while at < events.len()
        invariant
            at <= events@.len(),
            bytes@ == events_bytes(events@.take(at as int)),
        decreases events@.len() - at,
    {
        put_u32(&mut bytes, events[at].bits);
        put_u64(&mut bytes, events[at].data);
        proof {
            let next = events@.take(at + 1);
            assert(next.drop_last() =~= events@.take(at as int));
            assert(bytes@ =~= events_bytes(next));
        }
        at += 1;
    }
    assert(events@.take(at as int) =~= events@);
    bytes
}

/// A wait is counted once: as one that blocked the first time it sleeps, or as one
/// that found something ready, which then nothing follows. Once it has slept,
/// neither another sleep nor what it finds is counted.
pub proof fn law_a_wait_is_counted_once(
    before: Model,
    found: u64,
    members: nat,
    patience: Patience,
)
    ensures
        patience.blocked ==> counts(before, found, patience) == before,
        patience.blocked ==> slept(before, members, patience.blocked) == before,
        found > 0 ==> verdict(found, patience) == Verdict::Answer(found),
        counts(before, found, patience).waited == before.waited,
        slept(before, members, patience.blocked).immediate == before.immediate,
{
}

/// A descriptor that cannot be waited on shows something already, so that no
/// wait needs a wake-up it cannot get. A socket that is neither connected nor
/// listening is the one that shows nothing and cannot be waited on.
pub proof fn law_unwatchable_is_ready(readiness: Readiness)
    requires
        readiness != Readiness::Idle,
    ensures
        can_be_watched(readiness) || shown(readiness) != 0,
{
    assert(1u16 | 4u16 != 0) by (bit_vector);
}

/// A hangup, an error and a descriptor that names nothing are reported whether
/// or not they were asked for.
pub proof fn law_always_reported(watching: Watching, now: u16)
    requires
        watching.descriptor is Some,
    ensures
        now & (event::ERR | event::HUP | event::NVAL) == revents(watching, now) & (event::ERR
            | event::HUP | event::NVAL),
{
    let asked = watching.asked;
    assert(now & (8u16 | 0x10 | 0x20) == (now & (asked | 8 | 0x10 | 0x20)) & (8u16 | 0x10 | 0x20))
        by (bit_vector);
}

/// Closing a descriptor takes it out of every set of its process.
pub proof fn law_closed_descriptor_is_watched_nowhere(
    sets: Map<u64, Map<u64, Interest>>,
    descriptor: u64,
    set: u64,
)
    ensures
        !without(sets, descriptor).dom().contains(descriptor),
        without(sets, descriptor).dom().contains(set) ==> !without(sets, descriptor)[set].dom().contains(
            descriptor,
        ),
{
}

/// No more is reported than there is room for, and nothing that shows something
/// asked for is passed over while there is room.
pub proof fn law_reports_in_order(
    interests: Seq<(u64, Interest)>,
    now: Seq<u16>,
    upto: nat,
    most: nat,
)
    requires
        upto <= interests.len(),
        interests.len() == now.len(),
    ensures
        events_of(interests, now, upto, most).len() <= most,
        events_of(interests, now, upto, most).len() < most ==> (forall|i: int|
            0 <= i < upto && event_bits((#[trigger] interests[i]).1, now[i]) != 0
                ==> events_of(interests, now, upto, most).contains(
                Event { bits: event_bits(interests[i].1, now[i]), data: interests[i].1.data },
            )),
    decreases upto,
{
    if upto > 0 {
        law_reports_in_order(interests, now, (upto - 1) as nat, most);
        let before = events_of(interests, now, (upto - 1) as nat, most);
        let after = events_of(interests, now, upto, most);
        if after.len() < most {
            assert forall|i: int|
                0 <= i < upto && event_bits((#[trigger] interests[i]).1, now[i])
                    != 0 implies after.contains(
                Event { bits: event_bits(interests[i].1, now[i]), data: interests[i].1.data },
            ) by {
                let told = Event {
                    bits: event_bits(interests[i].1, now[i]),
                    data: interests[i].1.data,
                };
                if i < upto - 1 {
                    let k = choose|k: int| 0 <= k < before.len() && before[k] == told;
                    assert(after[k] == told);
                } else {
                    assert(after[after.len() - 1] == told);
                }
            }
        }
    }
}

} // verus!
