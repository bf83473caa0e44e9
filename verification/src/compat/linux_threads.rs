//! Threads, for a program built for Linux, and the one call every lock is built
//! out of.
//!
//! `clone` makes a thread and never a process. `futex` waits for a word to
//! change and wakes whoever is waiting, inside one process: a wait on a shared
//! one is refused, because a lock that looks taken to one side and free to the
//! other is worse than one that fails.
use vstd::prelude::*;

use crate::bytes::{le64, put_u64};
use crate::compat::error::{
    EAGAIN, EFAULT, EINTR, EINVAL, ENOMEM, ENOSYS, EOPNOTSUPP, ETIMEDOUT,
};
use crate::compat::frame::Frame;
use crate::compat::reply::Reply;
use crate::count::{count, counted};
use crate::pairs::Pairs;
use crate::table::Table;

pub mod flag;
pub mod law;
pub mod op;

verus! {

/// The most threads one process may have at once.
pub const MAX_THREADS: u64 = 64;

/// Bytes in the head of a robust list, and the only length accepted.
pub const HEAD_SIZE: u64 = 24;

/// What is kept of threads and futexes, and the counts.
pub struct State {
    counts: Table<u64>,
    cleared: Table<u64>,
    robust: Table<u64>,
    futexes: Pairs,
    created: u64,
    waits: u64,
    wakes: u64,
}

/// The same, as a value.
#[verifier::ext_equal]
pub struct Model {
    /// How many threads each process has.
    pub counts: Map<u64, u64>,
    /// The word each thread clears when it exits.
    pub cleared: Map<u64, u64>,
    /// Where each thread said its robust list is.
    pub robust: Map<u64, u64>,
    /// The futexes something has waited on, by process and address.
    pub futexes: Set<(u64, u64)>,
    /// Threads created.
    pub created: u64,
    /// Futex waits.
    pub waits: u64,
    /// Futex wakes.
    pub wakes: u64,
}

impl Model {
    /// How many threads a process has. The first was never counted in.
    pub open spec fn threads(self, process: u64) -> u64 {
        if self.counts.dom().contains(process) {
            self.counts[process]
        } else {
            1
        }
    }

    /// The counts with one thread of a process fewer, where any are counted.
    pub open spec fn one_fewer(self, process: u64) -> Map<u64, u64> {
        if self.counts.dom().contains(process) {
            self.counts.insert(
                process,
                if self.counts[process] == 0 {
                    0
                } else {
                    (self.counts[process] - 1) as u64
                },
            )
        } else {
            self.counts
        }
    }
}

impl View for State {
    type V = Model;

    closed spec fn view(&self) -> Model {
        Model {
            counts: self.counts@,
            cleared: self.cleared@,
            robust: self.robust@,
            futexes: self.futexes@.dom(),
            created: self.created,
            waits: self.waits,
            wakes: self.wakes,
        }
    }
}

impl State {
    /// The tables are in order.
    pub closed spec fn wf(&self) -> bool {
        self.counts.wf() && self.cleared.wf() && self.robust.wf() && self.futexes.wf()
    }

    /// No threads.
    pub fn new() -> (state: Self)
        ensures
            state.wf(),
            state@ == (Model {
                counts: Map::empty(),
                cleared: Map::empty(),
                robust: Map::empty(),
                futexes: Set::empty(),
                created: 0,
                waits: 0,
                wakes: 0,
            }),
    {
        let state = State {
            counts: Table::new(),
            cleared: Table::new(),
            robust: Table::new(),
            futexes: Pairs::new(),
            created: 0,
            waits: 0,
            wakes: 0,
        };
        assert(state@.futexes =~= Set::empty());
        state
    }

    fn drop_one(&mut self, process: u64)
        requires
            old(self).wf(),
        ensures
            final(self).wf(),
            final(self)@ == (Model { counts: old(self)@.one_fewer(process), ..old(self)@ }),
    {
        let many: Option<u64> = match self.counts.get(process) {
            Some(many) => Some(*many),
            None => None,
        };
        if let Some(many) = many {
            self.counts.insert(process, many.saturating_sub(1));
        }
    }
}

/// Threads created, futex waits, and futex wakes.
pub fn statistics(state: &State) -> (counts: (u64, u64, u64))
    ensures
        counts == (state@.created, state@.waits, state@.wakes),
{
    (state.created, state.waits, state.wakes)
}

/// Forget what a process held. Called when it ends.
pub fn forget(state: &mut State, process: u64)
    requires
        old(state).wf(),
    ensures
        final(state).wf(),
        final(state)@ == (Model {
            counts: old(state)@.counts.remove(process),
            futexes: old(state)@.futexes.difference(Set::new(|key: (u64, u64)| key.0 == process)),
            ..old(state)@
        }),
{
    state.counts.remove(process);
    state.futexes.forget(process);
    assert(state@.futexes =~= old(state)@.futexes.difference(
        Set::new(|key: (u64, u64)| key.0 == process),
    ));
}

/// What a new thread starts with.
#[derive(Clone, Copy, PartialEq, Eq, Structural, Debug)]
pub struct Child {
    pub frame: Frame,
    pub thread_pointer: Option<u64>,
}

/// What `clone` refuses whatever the process.
pub open spec fn clone_refused(flags: u64, stack: u64, user_space_end: u64) -> Option<u64> {
    if flags & flag::VM == 0 || flags & flag::THREAD == 0 {
        Some(ENOSYS)
    } else if flags & flag::SIGHAND == 0 || flags & flag::FILES == 0 || stack == 0 || stack
        >= user_space_end {
        Some(EINVAL)
    } else {
        None
    }
}

/// `clone(flags, stack, parent_tid, child_tid, tls)`: a refusal, or a thread to
/// start; [`cloned`] finishes.
///
/// The child has its parent's registers, with a stack of its own and zero in the
/// return register. A refused call leaves the number of threads as it was.
pub fn clone(
    state: &mut State,
    process: Option<u64>,
    flags: u64,
    stack: u64,
    tls: u64,
    frame: &Frame,
    user_space_end: u64,
) -> (child: Result<Child, u64>)
    requires
        old(state).wf(),
    ensures
        final(state).wf(),
        match clone_refused(flags, stack, user_space_end) {
            Some(reason) => child == Err::<Child, u64>(reason) && final(state)@ == old(state)@,
            None => if process is None {
                child == Err::<Child, u64>(ENOSYS) && final(state)@ == old(state)@
            } else if old(state)@.threads(process.unwrap()) >= MAX_THREADS {
                child == Err::<Child, u64>(EAGAIN) && final(state)@ == old(state)@
            } else if flags & flag::SETTLS != 0 && tls >= user_space_end {
                child == Err::<Child, u64>(EFAULT) && final(state)@ == old(state)@
            } else {
                &&& child == Ok::<Child, u64>(
                    Child {
                        frame: Frame { rax: 0, rsp: stack, ..*frame },
                        thread_pointer: if flags & flag::SETTLS != 0 {
                            Some(tls)
                        } else {
                            None
                        },
                    },
                )
                &&& final(state)@ == Model {
                    counts: old(state)@.counts.insert(
                        process.unwrap(),
                        (old(state)@.threads(process.unwrap()) + 1) as u64,
                    ),
                    ..old(state)@
                }
            },
        },
{
    if flags & flag::VM == 0 {
        return Err(ENOSYS);
    }
    if flags & flag::THREAD == 0 {
        return Err(ENOSYS);
    }
    if flags & flag::SIGHAND == 0 || flags & flag::FILES == 0 {
        return Err(EINVAL);
    }
    if stack == 0 || stack >= user_space_end {
        return Err(EINVAL);
    }
    let process: u64 = match process {
        Some(process) => process,
        None => return Err(ENOSYS),
    };
    let many: u64 = match state.counts.get(process) {
        Some(many) => *many,
        None => 1,
    };
    if many >= MAX_THREADS {
        return Err(EAGAIN);
    }
    let thread_pointer: Option<u64> = if flags & flag::SETTLS != 0 {
        if tls >= user_space_end {
            return Err(EFAULT);
        }
        Some(tls)
    } else {
        None
    };
    state.counts.insert(process, many + 1);
    let mut frame: Frame = *frame;
    frame.rax = 0;
    frame.rsp = stack;
    Ok(Child { frame, thread_pointer })
}

/// What `clone` answers, and where the identifier is to be written.
#[derive(Clone, Copy, PartialEq, Eq, Structural, Debug)]
pub struct Cloned {
    pub answer: u64,
    /// For the parent; an address that is out of bounds is passed over.
    pub parent: Option<u64>,
    /// For the child, in the same way.
    pub child: Option<u64>,
}

/// Finish `clone`: the thread's identifier, or that none could be started.
pub fn cloned(
    state: &mut State,
    process: u64,
    flags: u64,
    parent_tid: u64,
    child_tid: u64,
    started: Option<u64>,
) -> (cloned: Cloned)
    requires
        old(state).wf(),
    ensures
        final(state).wf(),
        match started {
            None => {
                &&& cloned == (Cloned { answer: ENOMEM, parent: None, child: None })
                &&& final(state)@ == Model {
                    counts: old(state)@.one_fewer(process),
                    ..old(state)@
                }
            },
            Some(thread) => {
                &&& cloned == Cloned {
                    answer: thread,
                    parent: if flags & flag::PARENT_SETTID != 0 {
                        Some(parent_tid)
                    } else {
                        None
                    },
                    child: if flags & flag::CHILD_SETTID != 0 {
                        Some(child_tid)
                    } else {
                        None
                    },
                }
                &&& final(state)@ == Model {
                    cleared: if flags & flag::CHILD_CLEARTID != 0 && child_tid != 0 {
                        old(state)@.cleared.insert(thread, child_tid)
                    } else {
                        old(state)@.cleared
                    },
                    created: counted(old(state)@.created, 1),
                    ..old(state)@
                }
            },
        },
{
    match started {
        None => {
            state.drop_one(process);
            Cloned { answer: ENOMEM, parent: None, child: None }
        },
        Some(thread) => {
            if flags & flag::CHILD_CLEARTID != 0 && child_tid != 0 {
                state.cleared.insert(thread, child_tid);
            }
            state.created = count(state.created, 1);
            Cloned {
                answer: thread,
                parent: if flags & flag::PARENT_SETTID != 0 {
                    Some(parent_tid)
                } else {
                    None
                },
                child: if flags & flag::CHILD_SETTID != 0 {
                    Some(child_tid)
                } else {
                    None
                },
            }
        },
    }
}

/// A thread is ending: the word it was asked to clear, if any.
///
/// Once it has been cleared, everything waiting on it is woken; that is what
/// makes a join return.
pub fn ending(state: &mut State, thread: u64) -> (address: Option<u64>)
    requires
        old(state).wf(),
    ensures
        final(state).wf(),
        address == if old(state)@.cleared.dom().contains(thread) {
            Some(old(state)@.cleared[thread])
        } else {
            None
        },
        final(state)@ == (Model { cleared: old(state)@.cleared.remove(thread), ..old(state)@ }),
{
    state.cleared.remove(thread)
}

/// What `futex` is to do.
#[derive(Clone, Copy, PartialEq, Eq, Structural, Debug)]
pub enum Futex {
    Answer(u64),
    /// Wait on the word: [`wait`], and then a round of [`before_sleep`] and
    /// [`after_sleep`].
    Wait,
    /// Wake what waits on it: [`wake`].
    Wake,
}

/// `futex(address, operation, expected, timeout, ...)`.
pub fn futex(process: Option<u64>, address: u64, operation: u64, user_space_end: u64) -> (next:
    Futex)
    ensures
        ({
            let bare = operation & !(op::PRIVATE | op::CLOCK_REALTIME);
            let waits = bare == op::WAIT || bare == op::WAIT_BITSET;
            next == if operation & op::PRIVATE == 0 && waits {
                Futex::Answer(EOPNOTSUPP)
            } else if process is None {
                Futex::Answer(ENOSYS)
            } else if address % 4 != 0 || address >= user_space_end {
                Futex::Answer(EINVAL)
            } else if waits {
                Futex::Wait
            } else if bare == op::WAKE || bare == op::WAKE_BITSET {
                Futex::Wake
            } else {
                Futex::Answer(ENOSYS)
            }
        }),
{
    let bare: u64 = operation & !(op::PRIVATE | op::CLOCK_REALTIME);
    let waits: bool = bare == op::WAIT || bare == op::WAIT_BITSET;
    if operation & op::PRIVATE == 0 && waits {
        return Futex::Answer(EOPNOTSUPP);
    }
    if process.is_none() {
        return Futex::Answer(ENOSYS);
    }
    if address % 4 != 0 || address >= user_space_end {
        return Futex::Answer(EINVAL);
    }
    if waits {
        Futex::Wait
    } else if bare == op::WAKE || bare == op::WAKE_BITSET {
        Futex::Wake
    } else {
        Futex::Answer(ENOSYS)
    }
}

/// Start a wait: the futex has a queue from here on.
pub fn wait(state: &mut State, process: u64, address: u64)
    requires
        old(state).wf(),
    ensures
        final(state).wf(),
        final(state)@ == (Model {
            futexes: old(state)@.futexes.insert((process, address)),
            waits: counted(old(state)@.waits, 1),
            ..old(state)@
        }),
{
    state.futexes.set(process, address, 0);
    state.waits = count(state.waits, 1);
    assert(state@.futexes =~= old(state)@.futexes.insert((process, address)));
}

/// No more than the largest number there is.
pub open spec fn at_most(value: int) -> int {
    if value > u64::MAX {
        u64::MAX as int
    } else {
        value
    }
}

/// When a wait ends that was given a timeout.
pub open spec fn futex_end(seconds: u64, nanoseconds: u64, rate: u64, ticks: u64) -> u64 {
    let milliseconds = at_most(at_most(seconds * 1000) + nanoseconds / 1_000_000);
    at_most(ticks + at_most(milliseconds * rate) / 1000) as u64
}

/// When a wait ends: the two words of the program's `timespec`, where it gave
/// one.
///
/// On a machine whose timer has no rate it never ends by itself.
pub fn futex_deadline(
    timeout: u64,
    seconds: Option<u64>,
    nanoseconds: Option<u64>,
    rate: u64,
    ticks: u64,
) -> (end: Result<Option<u64>, u64>)
    ensures
        end == if timeout == 0 {
            Ok::<Option<u64>, u64>(None)
        } else if seconds is None || nanoseconds is None {
            Err(EFAULT)
        } else if rate == 0 {
            Ok(None)
        } else {
            Ok(Some(futex_end(seconds.unwrap(), nanoseconds.unwrap(), rate, ticks)))
        },
{
    if timeout == 0 {
        return Ok(None);
    }
    let (seconds, nanoseconds) = match (seconds, nanoseconds) {
        (Some(seconds), Some(nanoseconds)) => (seconds, nanoseconds),
        _ => return Err(EFAULT),
    };
    if rate == 0 {
        return Ok(None);
    }
    let most: u128 = 0xFFFF_FFFF_FFFF_FFFF;
    let scaled: u128 = seconds as u128 * 1000u128;
    let whole: u128 = if scaled > most {
        most
    } else {
        scaled
    };
    let summed: u128 = whole + (nanoseconds / 1_000_000) as u128;
    let milliseconds: u128 = if summed > most {
        most
    } else {
        summed
    };
    assert(0 <= milliseconds * rate <= 0xFFFF_FFFF_FFFF_FFFF * 0xFFFF_FFFF_FFFF_FFFF)
        by (nonlinear_arith)
        requires
            0 <= milliseconds <= 0xFFFF_FFFF_FFFF_FFFF,
            0 <= rate <= 0xFFFF_FFFF_FFFF_FFFF,
    ;
    let product: u128 = milliseconds * rate as u128;
    let wait: u64 = if product > most {
        u64::MAX / 1000
    } else {
        product as u64 / 1000
    };
    Ok(Some(ticks.saturating_add(wait)))
}

/// What a waiter does next.
#[derive(Clone, Copy, PartialEq, Eq, Structural, Debug)]
pub enum Waiting {
    Answer(u64),
    /// Sleep unless the queue has moved since it was looked at, until the
    /// deadline where there is one.
    Sleep,
    /// Look again.
    Again,
}

/// Whether a word is what a waiter expects.
pub open spec fn as_expected(current: u32, expected: u64) -> bool {
    current == expected % 0x1_0000_0000
}

/// The decision before a sleep.
///
/// The queue's generation is taken before the word is read, so that a wake in
/// between is seen rather than slept through.
pub fn before_sleep(
    current: Option<u32>,
    expected: u64,
    cancelled: bool,
    deadline: Option<u64>,
    ticks: u64,
) -> (next: Waiting)
    ensures
        next == match current {
            None => Waiting::Answer(EFAULT),
            Some(current) => if !as_expected(current, expected) {
                Waiting::Answer(EAGAIN)
            } else if cancelled {
                Waiting::Answer(EINTR)
            } else if deadline matches Some(end) && ticks >= end {
                Waiting::Answer(ETIMEDOUT)
            } else {
                Waiting::Sleep
            },
        },
{
    let current: u32 = match current {
        None => return Waiting::Answer(EFAULT),
        Some(current) => current,
    };
    if current as u64 != expected % 0x1_0000_0000 {
        return Waiting::Answer(EAGAIN);
    }
    if cancelled {
        return Waiting::Answer(EINTR);
    }
    if let Some(end) = deadline {
        if ticks >= end {
            return Waiting::Answer(ETIMEDOUT);
        }
    }
    Waiting::Sleep
}

/// The decision after one: a wake is permission to look, not a promise.
pub fn after_sleep(current: Option<u32>, expected: u64) -> (next: Waiting)
    ensures
        next == match current {
            None => Waiting::Answer(EFAULT),
            Some(current) => if !as_expected(current, expected) {
                Waiting::Answer(0)
            } else {
                Waiting::Again
            },
        },
{
    match current {
        None => Waiting::Answer(EFAULT),
        Some(current) => if current as u64 != expected % 0x1_0000_0000 {
            Waiting::Answer(0)
        } else {
            Waiting::Again
        },
    }
}

/// `FUTEX_WAKE`: whether anything ever waited there, and so whether there is a
/// queue to wake. If there is not the answer is zero; if there is, [`woken`]
/// finishes.
pub fn wake(state: &State, process: u64, address: u64) -> (has_queue: bool)
    requires
        state.wf(),
    ensures
        has_queue == state@.futexes.contains((process, address)),
{
    state.futexes.get(process, address).is_some()
}

/// Finish a wake: how many were woken.
///
/// Everything on the queue is woken, however few were asked for, and every waiter
/// looks at the word again.
pub fn woken(state: &mut State, many: u64) -> (answer: u64)
    requires
        old(state).wf(),
    ensures
        final(state).wf(),
        answer == many,
        final(state)@ == (Model { wakes: counted(old(state)@.wakes, 1), ..old(state)@ }),
{
    state.wakes = count(state.wakes, 1);
    many
}

/// `set_robust_list(head, length)`.
pub fn set_robust_list(state: &mut State, thread: u64, head: u64, length: u64) -> (answer: u64)
    requires
        old(state).wf(),
    ensures
        final(state).wf(),
        if length != HEAD_SIZE {
            answer == EINVAL && final(state)@ == old(state)@
        } else {
            &&& answer == 0
            &&& final(state)@ == Model {
                robust: old(state)@.robust.insert(thread, head),
                ..old(state)@
            }
        },
{
    if length != HEAD_SIZE {
        return EINVAL;
    }
    state.robust.insert(thread, head);
    0
}

/// `get_robust_list`: what was set, and how long a head is.
pub fn get_robust_list(
    state: &State,
    thread: u64,
    out_head: u64,
    head_in_range: bool,
    out_length: u64,
    length_in_range: bool,
) -> (reply: Reply)
    requires
        state.wf(),
    ensures
        if !head_in_range || !length_in_range {
            reply.is_plain(EFAULT)
        } else {
            &&& reply.answer == 0
            &&& reply.written() == seq![
                (
                    out_head,
                    le64(
                        if state@.robust.dom().contains(thread) {
                            state@.robust[thread]
                        } else {
                            0
                        },
                    ),
                ),
                (out_length, le64(HEAD_SIZE)),
            ]
        },
{
    if !head_in_range || !length_in_range {
        return Reply::plain(EFAULT);
    }
    let head: u64 = match state.robust.get(thread) {
        Some(head) => *head,
        None => 0,
    };
    let mut first: Vec<u8> = Vec::new();
    put_u64(&mut first, head);
    assert(first@ =~= le64(head));
    let mut second: Vec<u8> = Vec::new();
    put_u64(&mut second, HEAD_SIZE);
    assert(second@ =~= le64(HEAD_SIZE));
    let mut reply = Reply::writing(0, out_head, first);
    reply.and_write(out_length, second);
    assert(reply.written() =~= seq![(out_head, le64(head)), (out_length, le64(HEAD_SIZE))]);
    reply
}

/// Forget a thread's robust list and the word it was to clear, and count one
/// thread of its process fewer.
///
/// Without the count a program that makes and joins threads in a loop would be
/// refused one having at no point had more than two.
pub fn forget_thread(state: &mut State, process: u64, thread: u64)
    requires
        old(state).wf(),
    ensures
        final(state).wf(),
        final(state)@ == (Model {
            robust: old(state)@.robust.remove(thread),
            cleared: old(state)@.cleared.remove(thread),
            counts: old(state)@.one_fewer(process),
            ..old(state)@
        }),
{
    state.robust.remove(thread);
    state.cleared.remove(thread);
    state.drop_one(process);
}

/// Every live thread of a process other than the calling one.
pub fn siblings(live: &[u64], here: u64) -> (others: Vec<u64>)
    ensures
        others@ == live@.filter(|thread: u64| thread != here),
{
    let ghost other = |thread: u64| thread != here;
    let mut others: Vec<u64> = Vec::new();
    let mut at: usize = 0;
    proof {
        assert(live@.take(0) =~= Seq::empty());
        reveal(Seq::filter);
    }
    while at < live.len()
        invariant
            at <= live@.len(),
            other == (|thread: u64| thread != here),
            others@ == live@.take(at as int).filter(other),
        decreases live@.len() - at,
    {
        proof {
            assert(live@.take(at + 1).drop_last() =~= live@.take(at as int));
            assert(live@.take(at + 1).last() == live@[at as int]);
            reveal(Seq::filter);
        }
        if live[at] != here {
            others.push(live[at]);
        }
        at += 1;
    }
    assert(live@.take(at as int) =~= live@);
    others
}

/// Making a thread and forgetting it leaves the process with as many as it had,
/// so that a program that joins what it makes is never refused for having made
/// too many.
pub proof fn law_joined_threads_are_not_counted(before: Model, process: u64)
    requires
        before.threads(process) < MAX_THREADS,
    ensures
        ({
            let made = Model {
                counts: before.counts.insert(process, (before.threads(process) + 1) as u64),
                ..before
            };
            let joined = Model { counts: made.one_fewer(process), ..made };
            joined.threads(process) == before.threads(process)
        }),
{
}

/// A thread that could not be started is not counted.
pub proof fn law_failed_thread_is_not_counted(before: Model, process: u64)
    requires
        before.threads(process) < MAX_THREADS,
    ensures
        ({
            let made = Model {
                counts: before.counts.insert(process, (before.threads(process) + 1) as u64),
                ..before
            };
            made.one_fewer(process)[process] == before.threads(process)
        }),
{
}

} // verus!
