//! Signals, for a program built for Linux.
//!
//! A signal is the one thing in the Unix interface that runs a program's code
//! at a moment the program did not choose. The whole register state is written
//! onto the program's own stack below the red zone, with a return address under
//! it, and the program resumes in the handler. `rt_sigreturn` reads the state
//! back and the program carries on where it was.
//!
//! Delivery happens on the way back to the program from a call. It is made of
//! decisions with work for the machine between them: [`deliver`] chooses the
//! signal, [`returned_through`] takes a trampoline into use where the program
//! brought no return path of its own, and [`enter`] moves the frame to the
//! handler once both writes are known to land in the program's half.
use vstd::prelude::*;

use crate::bytes::{get_u64, le64, put_u64, u64_at, words_bytes, words_to_bytes};
use crate::compat::error::{EFAULT, EINVAL, ENOSYS, EPERM};
use crate::compat::frame::{Frame, FRAME_BYTES};
use crate::compat::reply::Reply;
use crate::count::{count, counted};
use crate::table::Table;

pub mod law;
pub mod number;

verus! {

/// How many signals there are.
pub const COUNT: usize = 64;

/// A disposition: whatever the signal does by default.
pub const DEFAULT: u64 = 0;

/// A disposition: nothing at all.
pub const IGNORE: u64 = 1;

/// The handler takes three arguments rather than one.
pub const SIGINFO: u64 = 0x0000_0004;

/// The handler runs once and the disposition goes back to default.
pub const RESETHAND: u64 = 0x8000_0000;

/// The structure holds a return path of the program's own.
pub const RESTORER: u64 = 0x0400_0000;

/// Bytes of a `struct sigaction`: handler, flags, restorer, mask.
pub const SIGACTION_BYTES: u64 = 32;

/// What a leaf function may use below the stack pointer without asking.
pub const RED_ZONE: u64 = 128;

/// The lowest address a handler's stack may start at.
pub const LOWEST_STACK: u64 = 0x1000;

/// The flag bits a program may set for itself: the arithmetic results and the
/// string direction.
pub const USER_FLAGS_MASK: u64 = 0x0000_08D5;

/// The flag bits that are always set: the reserved one, and interrupts.
pub const ALWAYS_SET: u64 = 0x0000_0202;

/// Where the return trampoline goes in a program's address space.
pub const TRAMPOLINE: u64 = 0x0000_1000_0000_0000;

/// What a process ends with when it returns from a handler to no frame.
pub const NO_FRAME: u64 = 139;

/// What one process has arranged for one signal.
#[derive(Clone, Copy, PartialEq, Eq, Structural, Debug)]
pub struct Action {
    /// The handler, or [`DEFAULT`] or [`IGNORE`].
    pub handler: u64,
    pub flags: u64,
    pub restorer: u64,
    pub mask: u64,
}

impl Action {
    /// What every signal starts with.
    pub open spec fn defaulted() -> Action {
        Action { handler: DEFAULT, flags: 0, restorer: 0, mask: 0 }
    }

    /// The action in memory.
    pub open spec fn encoded(self) -> Seq<u8> {
        words_bytes(seq![self.handler, self.flags, self.restorer, self.mask])
    }

    /// The action that `bytes` hold.
    pub open spec fn decoded(bytes: Seq<u8>) -> Action {
        Action {
            handler: u64_at(bytes, 0),
            flags: u64_at(bytes, 8),
            restorer: u64_at(bytes, 16),
            mask: u64_at(bytes, 24),
        }
    }

    /// What every signal starts with.
    pub fn default_action() -> (action: Self)
        ensures
            action == Action::defaulted(),
    {
        Action { handler: DEFAULT, flags: 0, restorer: 0, mask: 0 }
    }

    fn to_bytes(&self) -> (bytes: Vec<u8>)
        ensures
            bytes@ == self.encoded(),
    {
        let words: [u64; 4] = [self.handler, self.flags, self.restorer, self.mask];
        assert(words@ =~= seq![self.handler, self.flags, self.restorer, self.mask]);
        words_to_bytes(&words)
    }

    fn from_bytes(bytes: &[u8]) -> (action: Action)
        requires
            bytes@.len() == SIGACTION_BYTES,
        ensures
            action == Action::decoded(bytes@),
    {
        Action {
            handler: get_u64(bytes, 0),
            flags: get_u64(bytes, 8),
            restorer: get_u64(bytes, 16),
            mask: get_u64(bytes, 24),
        }
    }
}

/// What one process has arranged, and what is waiting for it, as a value.
#[verifier::ext_equal]
pub struct Arranged {
    /// By signal, the first one's first.
    pub actions: Seq<Action>,
    pub pending: u64,
    pub blocked: u64,
    pub trampoline: u64,
    pub handling: Seq<u64>,
}

impl Arranged {
    /// A process that has never touched a signal.
    pub open spec fn fresh() -> Arranged {
        Arranged {
            actions: Seq::new(COUNT as nat, |i: int| Action::defaulted()),
            pending: 0,
            blocked: 0,
            trampoline: 0,
            handling: Seq::empty(),
        }
    }

    /// Waiting, and not asked to wait longer.
    pub open spec fn ready(self) -> u64 {
        self.pending & !self.blocked
    }
}

/// What each process has arranged, and what is waiting to be delivered.
pub struct Signals {
    actions: Vec<Action>,
    /// Signals raised and not yet delivered, as a bitmask from one.
    pending: u64,
    /// Signals the program has asked not to receive yet.
    blocked: u64,
    /// Where the return trampoline is, or zero.
    trampoline: u64,
    /// The signals whose handlers are running, innermost last.
    handling: Vec<u64>,
}

impl View for Signals {
    type V = Arranged;

    closed spec fn view(&self) -> Arranged {
        Arranged {
            actions: self.actions@,
            pending: self.pending,
            blocked: self.blocked,
            trampoline: self.trampoline,
            handling: self.handling@,
        }
    }
}

impl Signals {
    /// One action for each signal, and only signals being handled. The two that
    /// stop a program are neither handled nor blocked.
    pub open spec fn wf(&self) -> bool {
        &&& self@.actions.len() == COUNT
        &&& self@.actions[number::KILL - 1] == Action::defaulted()
        &&& self@.actions[number::STOP - 1] == Action::defaulted()
        &&& self@.blocked & unblockable() == 0
        &&& forall|i: int|
            0 <= i < self@.handling.len() ==> is_signal(#[trigger] self@.handling[i])
    }

    fn new() -> (signals: Self)
        ensures
            signals.wf(),
            signals@ == Arranged::fresh(),
    {
        let mut actions: Vec<Action> = Vec::new();
        while actions.len() < COUNT
            invariant
                actions@.len() <= COUNT,
                actions@ == Seq::new(actions@.len(), |i: int| Action::defaulted()),
            decreases COUNT - actions@.len(),
        {
            actions.push(Action::default_action());
        }
        assert(0u64 & unblockable() == 0) by {
            let cannot = unblockable();
            assert(0u64 & cannot == 0) by (bit_vector);
        }
        let signals = Signals {
            actions,
            pending: 0,
            blocked: 0,
            trampoline: 0,
            handling: Vec::new(),
        };
        assert(signals@ =~= Arranged::fresh());
        signals
    }
}

/// Every translated process's signals, and the counts.
pub struct State {
    processes: Table<Signals>,
    installed: u64,
    delivered: u64,
}

/// The same, as a value.
#[verifier::ext_equal]
pub struct Model {
    pub processes: Map<u64, Arranged>,
    /// Handlers installed.
    pub installed: u64,
    /// Signals delivered to one.
    pub delivered: u64,
}

impl Model {
    /// What `process` has arranged; a process never seen has arranged nothing.
    pub open spec fn arranged(self, process: u64) -> Arranged {
        if self.processes.dom().contains(process) {
            self.processes[process]
        } else {
            Arranged::fresh()
        }
    }

    /// The same with `process` having arranged `signals`.
    pub open spec fn with(self, process: u64, signals: Arranged) -> Model {
        Model { processes: self.processes.insert(process, signals), ..self }
    }
}

impl View for State {
    type V = Model;

    closed spec fn view(&self) -> Model {
        Model {
            processes: Map::new(
                |process: u64| self.processes@.dom().contains(process),
                |process: u64| self.processes@[process]@,
            ),
            installed: self.installed,
            delivered: self.delivered,
        }
    }
}

impl State {
    /// Every process's signals are in order.
    pub closed spec fn wf(&self) -> bool {
        &&& self.processes.wf()
        &&& forall|process: u64| #[trigger]
            self.processes@.dom().contains(process) ==> self.processes@[process].wf()
    }

    /// No process has arranged anything.
    pub fn new() -> (state: Self)
        ensures
            state.wf(),
            state@ == (Model { processes: Map::empty(), installed: 0, delivered: 0 }),
    {
        let state = State { processes: Table::new(), installed: 0, delivered: 0 };
        assert(state@.processes =~= Map::empty());
        state
    }

    /// Take out what `process` has arranged.
    fn take(&mut self, process: u64) -> (signals: Signals)
        requires
            old(self).wf(),
        ensures
            final(self).wf(),
            signals.wf(),
            signals@ == old(self)@.arranged(process),
            final(self)@.processes == old(self)@.processes.remove(process),
            final(self)@.installed == old(self)@.installed,
            final(self)@.delivered == old(self)@.delivered,
    {
        let taken = self.processes.remove(process);
        assert(self@.processes =~= old(self)@.processes.remove(process));
        match taken {
            Some(signals) => signals,
            None => Signals::new(),
        }
    }

    /// Put it back.
    fn put(&mut self, process: u64, signals: Signals)
        requires
            old(self).wf(),
            signals.wf(),
        ensures
            final(self).wf(),
            final(self)@ == old(self)@.with(process, signals@),
    {
        self.processes.insert(process, signals);
        assert(self@ =~= old(self)@.with(process, signals@));
    }
}

/// Whether there is such a signal.
pub open spec fn is_signal(signal: u64) -> bool {
    1 <= signal <= COUNT
}

/// The bit that stands for `signal` in a mask.
pub open spec fn mask_bit(signal: u64) -> u64 {
    1u64 << ((signal - 1) as u64)
}

/// `signal` is in `set` and no lower one is.
pub open spec fn is_lowest(set: u64, signal: u64) -> bool {
    &&& is_signal(signal)
    &&& set & mask_bit(signal) != 0
    &&& forall|lower: u64| is_signal(lower) && lower < signal ==> set & #[trigger] mask_bit(lower) == 0
}

/// The lowest-numbered signal in `set`.
pub open spec fn lowest(set: u64) -> u64 {
    choose|signal: u64| is_lowest(set, signal)
}

/// No set but the empty one lacks a lowest signal, and none has two.
pub proof fn lemma_lowest(set: u64)
    requires
        set != 0,
    ensures
        is_lowest(set, lowest(set)),
        forall|signal: u64| is_lowest(set, signal) ==> signal == lowest(set),
{
    let zeros = vstd::std_specs::bits::u64_trailing_zeros(set);
    vstd::std_specs::bits::axiom_u64_trailing_zeros(set);
    let at = zeros as u64;
    let signal = (at + 1) as u64;
    assert(at < 64 && (set >> at) & 1 == 1 ==> set & (1u64 << at) != 0) by (bit_vector);
    assert forall|lower: u64| is_signal(lower) && lower < signal implies set & #[trigger] mask_bit(
        lower,
    ) == 0 by {
        let j = (lower - 1) as u64;
        assert((set >> j) & 1u64 == 0u64);
        assert(j < 64 && (set >> j) & 1 == 0 ==> set & (1u64 << j) == 0) by (bit_vector);
    }
    assert(is_lowest(set, signal));
    assert forall|other: u64| is_lowest(set, other) implies other == lowest(set) by {
        let found = lowest(set);
        assert(is_lowest(set, found));
        if other < found {
            assert(set & mask_bit(other) == 0);
        }
        if found < other {
            assert(set & mask_bit(found) == 0);
        }
    }
}

/// What a signal is called, for the log.
pub open spec fn called(signal: u64) -> Seq<char> {
    if signal == number::HUP {
        "SIGHUP"@
    } else if signal == number::INT {
        "SIGINT"@
    } else if signal == number::QUIT {
        "SIGQUIT"@
    } else if signal == number::ILL {
        "SIGILL"@
    } else if signal == number::ABRT {
        "SIGABRT"@
    } else if signal == number::FPE {
        "SIGFPE"@
    } else if signal == number::KILL {
        "SIGKILL"@
    } else if signal == number::USR1 {
        "SIGUSR1"@
    } else if signal == number::SEGV {
        "SIGSEGV"@
    } else if signal == number::USR2 {
        "SIGUSR2"@
    } else if signal == number::PIPE {
        "SIGPIPE"@
    } else if signal == number::ALRM {
        "SIGALRM"@
    } else if signal == number::TERM {
        "SIGTERM"@
    } else if signal == number::CHLD {
        "SIGCHLD"@
    } else if signal == number::STOP {
        "SIGSTOP"@
    } else {
        "a signal"@
    }
}

/// What a signal is called, for the log.
///
/// The ones without a name are the real-time signals, which mean whatever the
/// program using them decided.
pub fn name(signal: u64) -> (text: &'static str)
    ensures
        text@ == called(signal),
{
    match signal {
        number::HUP => "SIGHUP",
        number::INT => "SIGINT",
        number::QUIT => "SIGQUIT",
        number::ILL => "SIGILL",
        number::ABRT => "SIGABRT",
        number::FPE => "SIGFPE",
        number::KILL => "SIGKILL",
        number::USR1 => "SIGUSR1",
        number::SEGV => "SIGSEGV",
        number::USR2 => "SIGUSR2",
        number::PIPE => "SIGPIPE",
        number::ALRM => "SIGALRM",
        number::TERM => "SIGTERM",
        number::CHLD => "SIGCHLD",
        number::STOP => "SIGSTOP",
        _ => "a signal",
    }
}

/// Handlers installed, and signals delivered to one.
pub fn statistics(state: &State) -> (counts: (u64, u64))
    ensures
        counts == (state@.installed, state@.delivered),
{
    (state.installed, state.delivered)
}

/// Forget a process's signal state. Called when it ends.
pub fn forget(state: &mut State, process: u64)
    requires
        old(state).wf(),
    ensures
        final(state).wf(),
        final(state)@ == (Model {
            processes: old(state)@.processes.remove(process),
            ..old(state)@
        }),
{
    state.processes.remove(process);
    assert(state@.processes =~= old(state)@.processes.remove(process));
}

/// The bit for a signal, or `None` if there is no such signal.
pub fn bit(signal: u64) -> (found: Option<u64>)
    ensures
        found == (if is_signal(signal) {
            Some(mask_bit(signal))
        } else {
            None
        }),
{
    if signal == 0 || signal > COUNT as u64 {
        None
    } else {
        Some(1u64 << (signal - 1))
    }
}

/// Whether a program may ask for `handler`.
pub open spec fn handler_allowed(handler: u64, user_space_end: u64) -> bool {
    handler == DEFAULT || handler == IGNORE || handler < user_space_end
}

/// `rt_sigaction(signal, new, past, sigsetsize)`.
///
/// `past_in_range` says whether the program has thirty-two bytes at `past`, and
/// `new_bytes` holds the thirty-two at `new` if it has those; each is looked at
/// only where the pointer is not null.
pub fn sigaction(
    state: &mut State,
    process: Option<u64>,
    signal: u64,
    new: u64,
    new_bytes: Option<&[u8]>,
    past: u64,
    past_in_range: bool,
    set_size: u64,
    user_space_end: u64,
) -> (reply: Reply)
    requires
        old(state).wf(),
        new_bytes matches Some(bytes) ==> bytes@.len() == SIGACTION_BYTES,
    ensures
        final(state).wf(),
        ({
            let refused = set_size != 8 || !is_signal(signal) || signal == number::KILL || signal
                == number::STOP;
            let known = old(state)@.with(
                process.unwrap(),
                old(state)@.arranged(process.unwrap()),
            );
            let was = known.processes[process.unwrap()];
            let wanted = Action::decoded(new_bytes.unwrap()@);
            let reported = |answer: u64|
                if past == 0 {
                    reply.is_plain(answer)
                } else {
                    reply.is_writing(answer, past, was.actions[signal - 1].encoded())
                };
            if refused {
                reply.is_plain(EINVAL) && final(state)@ == old(state)@
            } else if process is None {
                reply.is_plain(ENOSYS) && final(state)@ == old(state)@
            } else if past != 0 && !past_in_range {
                reply.is_plain(EFAULT) && final(state)@ == known
            } else if new == 0 {
                reported(0) && final(state)@ == known
            } else if new_bytes is None || !handler_allowed(wanted.handler, user_space_end) {
                reported(EFAULT) && final(state)@ == known
            } else {
                &&& reported(0)
                &&& final(state)@ == Model {
                    installed: if wanted.handler > IGNORE {
                        counted(old(state)@.installed, 1)
                    } else {
                        old(state)@.installed
                    },
                    ..known.with(
                        process.unwrap(),
                        Arranged { actions: was.actions.update(signal - 1, wanted), ..was },
                    )
                }
            }
        }),
{
    if set_size != 8 {
        return Reply::plain(EINVAL);
    }
    if bit(signal).is_none() {
        return Reply::plain(EINVAL);
    }
    if signal == number::KILL || signal == number::STOP {
        return Reply::plain(EINVAL);
    }
    let process: u64 = match process {
        Some(process) => process,
        None => return Reply::plain(ENOSYS),
    };
    let index: usize = (signal - 1) as usize;
    let ghost before = state@;
    let mut signals = state.take(process);
    let was: Action = signals.actions[index];
    let ghost arranged = signals@;
    if past != 0 && !past_in_range {
        state.put(process, signals);
        assert(state@ =~= before.with(process, arranged));
        return Reply::plain(EFAULT);
    }
    let mut reply = if past != 0 {
        Reply::writing(0, past, was.to_bytes())
    } else {
        Reply::plain(0)
    };
    if new == 0 {
        state.put(process, signals);
        assert(state@ =~= before.with(process, arranged));
        return reply;
    }
    let action: Action = match new_bytes {
        Some(bytes) => Action::from_bytes(bytes),
        None => {
            state.put(process, signals);
            assert(state@ =~= before.with(process, arranged));
            reply.answer = EFAULT;
            return reply;
        },
    };
    if action.handler != DEFAULT && action.handler != IGNORE && action.handler >= user_space_end {
        state.put(process, signals);
        assert(state@ =~= before.with(process, arranged));
        reply.answer = EFAULT;
        return reply;
    }
    signals.actions.set(index, action);
    assert(signals@ =~= Arranged { actions: arranged.actions.update(signal - 1, action), ..arranged
    });
    state.put(process, signals);
    if action.handler > IGNORE {
        state.installed = count(state.installed, 1);
    }
    assert(state@.processes =~= before.with(process, arranged).with(process, signals@).processes);
    reply
}

/// Add to the mask.
pub const BLOCK: u64 = 0;

/// Take away from it.
pub const UNBLOCK: u64 = 1;

/// Replace it.
pub const SETMASK: u64 = 2;

/// The two signals that cannot be blocked.
pub open spec fn unblockable() -> u64 {
    mask_bit(number::KILL) | mask_bit(number::STOP)
}

/// Masking keeps the two out that are out, and takes them out of what is asked
/// for.
proof fn lemma_masking(blocked: u64, wanted: u64)
    ensures
        (wanted & !unblockable()) & unblockable() == 0,
        blocked & unblockable() == 0 ==> {
            &&& (blocked | (wanted & !unblockable())) & unblockable() == 0
            &&& (blocked & !wanted) & unblockable() == 0
        },
{
    let cannot = unblockable();
    assert((wanted & !cannot) & cannot == 0 && (blocked & cannot == 0 ==> (blocked | (wanted
        & !cannot)) & cannot == 0 && (blocked & !wanted) & cannot == 0)) by (bit_vector);
}

/// Blocking what an action asks for and the signal itself keeps the two out too.
proof fn lemma_blocking(blocked: u64, mask: u64, signal: u64)
    requires
        is_signal(signal),
        signal != number::KILL,
        signal != number::STOP,
    ensures
        blocked & unblockable() == 0 ==> (blocked | ((mask & !unblockable()) | mask_bit(signal)))
            & unblockable() == 0,
{
    let shift: u64 = (signal - 1) as u64;
    assert(shift < 64 && shift != 8 && shift != 18 ==> (1u64 << shift) & ((1u64 << 8u64) | (1u64
        << 18u64)) == 0) by (bit_vector);
    let cannot = unblockable();
    let bit = mask_bit(signal);
    assert(bit & cannot == 0 && blocked & cannot == 0 ==> (blocked | ((mask & !cannot) | bit))
        & cannot == 0) by (bit_vector);
}

/// The mask after `rt_sigprocmask`, if `how` means anything.
pub open spec fn masked(blocked: u64, how: u64, wanted: u64) -> Option<u64> {
    if how == BLOCK {
        Some(blocked | (wanted & !unblockable()))
    } else if how == UNBLOCK {
        Some(blocked & !wanted)
    } else if how == SETMASK {
        Some(wanted & !unblockable())
    } else {
        None
    }
}

/// `rt_sigprocmask(how, new, past, sigsetsize)`.
///
/// `new_word` holds the eight bytes at `new` as a number, if the program has
/// them, and `past_in_range` says whether it has eight at `past`.
pub fn sigprocmask(
    state: &mut State,
    process: Option<u64>,
    how: u64,
    new: u64,
    new_word: Option<u64>,
    past: u64,
    past_in_range: bool,
    set_size: u64,
) -> (reply: Reply)
    requires
        old(state).wf(),
    ensures
        final(state).wf(),
        ({
            let was = old(state)@.arranged(process.unwrap());
            let known = old(state)@.with(process.unwrap(), was);
            let reported = |answer: u64|
                if past == 0 {
                    reply.is_plain(answer)
                } else {
                    reply.is_writing(answer, past, le64(was.blocked))
                };
            if set_size != 8 {
                reply.is_plain(EINVAL) && final(state)@ == old(state)@
            } else if process is None {
                reply.is_plain(ENOSYS) && final(state)@ == old(state)@
            } else if past != 0 && !past_in_range {
                reply.is_plain(EFAULT) && final(state)@ == known
            } else if new == 0 {
                reported(0) && final(state)@ == known
            } else if new_word is None {
                reported(EFAULT) && final(state)@ == known
            } else {
                match masked(was.blocked, how, new_word.unwrap()) {
                    Some(blocked) => reported(0) && final(state)@ == old(state)@.with(
                        process.unwrap(),
                        Arranged { blocked, ..was },
                    ),
                    None => reported(EINVAL) && final(state)@ == known,
                }
            }
        }),
{
    if set_size != 8 {
        return Reply::plain(EINVAL);
    }
    let process: u64 = match process {
        Some(process) => process,
        None => return Reply::plain(ENOSYS),
    };
    let ghost before = state@;
    let mut signals = state.take(process);
    let ghost arranged = signals@;
    if past != 0 && !past_in_range {
        state.put(process, signals);
        assert(state@ =~= before.with(process, arranged));
        return Reply::plain(EFAULT);
    }
    let mut reply = if past != 0 {
        let mut bytes: Vec<u8> = Vec::new();
        put_u64(&mut bytes, signals.blocked);
        assert(bytes@ =~= le64(signals.blocked));
        Reply::writing(0, past, bytes)
    } else {
        Reply::plain(0)
    };
    if new != 0 {
        match new_word {
            None => {
                reply.answer = EFAULT;
            },
            Some(wanted) => {
                let kill: u64 = 1u64 << (number::KILL - 1);
                let stop: u64 = 1u64 << (number::STOP - 1);
                let cannot: u64 = kill | stop;
                proof {
                    lemma_masking(signals.blocked, wanted);
                }
                if how == BLOCK {
                    signals.blocked = signals.blocked | (wanted & !cannot);
                } else if how == UNBLOCK {
                    signals.blocked = signals.blocked & !wanted;
                } else if how == SETMASK {
                    signals.blocked = wanted & !cannot;
                } else {
                    reply.answer = EINVAL;
                }
            },
        }
    }
    state.put(process, signals);
    assert(state@ =~= before.with(process, signals@));
    reply
}

/// What `kill` answers, and whether the program asked to stop.
#[derive(Clone, Copy, PartialEq, Eq, Structural, Debug)]
pub struct Raised {
    pub answer: u64,
    /// Cancel the process and wake its threads.
    pub stop: bool,
}

/// `kill(pid, signal)` and `tgkill(tgid, tid, signal)`.
///
/// Only this process: a program signalling itself works, and naming another one
/// is refused.
pub fn kill(state: &mut State, process: Option<u64>, target: u64, signal: u64) -> (raised: Raised)
    requires
        old(state).wf(),
    ensures
        final(state).wf(),
        ({
            let was = old(state)@.arranged(process.unwrap());
            if process is None {
                raised == (Raised { answer: ENOSYS, stop: false }) && final(state)@ == old(state)@
            } else if signal == 0 {
                raised == (Raised { answer: 0, stop: false }) && final(state)@ == old(state)@
            } else if !is_signal(signal) {
                raised == (Raised { answer: EINVAL, stop: false }) && final(state)@ == old(state)@
            } else if target != process.unwrap() && target != 0 {
                raised == (Raised { answer: EPERM, stop: false }) && final(state)@ == old(state)@
            } else if signal == number::KILL {
                raised == (Raised { answer: 0, stop: true }) && final(state)@ == old(state)@
            } else {
                &&& raised == (Raised { answer: 0, stop: false })
                &&& final(state)@ == old(state)@.with(
                    process.unwrap(),
                    Arranged { pending: was.pending | mask_bit(signal), ..was },
                )
            }
        }),
{
    let process: u64 = match process {
        Some(process) => process,
        None => return Raised { answer: ENOSYS, stop: false },
    };
    if signal == 0 {
        return Raised { answer: 0, stop: false };
    }
    let raised: u64 = match bit(signal) {
        Some(raised) => raised,
        None => return Raised { answer: EINVAL, stop: false },
    };
    if target != process && target != 0 {
        return Raised { answer: EPERM, stop: false };
    }
    if signal == number::KILL {
        return Raised { answer: 0, stop: true };
    }
    let ghost before = state@;
    let mut signals = state.take(process);
    signals.pending = signals.pending | raised;
    state.put(process, signals);
    assert(state@ =~= before.with(process, signals@));
    Raised { answer: 0, stop: false }
}

/// Whether anything is waiting to be delivered to `process`.
pub fn pending(state: &State, process: u64) -> (waiting: bool)
    requires
        state.wf(),
    ensures
        waiting == (state@.processes.dom().contains(process) && state@.processes[process].ready()
            != 0),
{
    match state.processes.get(process) {
        Some(signals) => signals.pending & !signals.blocked != 0,
        None => false,
    }
}

/// A signal that is to be handled, once it is known what it returns through.
#[derive(Clone, Copy, PartialEq, Eq, Structural, Debug)]
pub struct Chosen {
    pub process: u64,
    pub signal: u64,
    pub action: Action,
}

/// A signal whose frame has a place on the program's stack.
#[derive(Clone, Copy, PartialEq, Eq, Structural, Debug)]
pub struct Placed {
    pub process: u64,
    pub signal: u64,
    pub handler: u64,
    /// Where the handler returns to.
    pub restorer: u64,
    /// Where the frame goes.
    pub at: u64,
    /// Where the return address goes, immediately below it.
    pub stack: u64,
}

/// How far a delivery got.
#[derive(Clone, Copy, PartialEq, Eq, Structural, Debug)]
pub enum Delivery {
    /// The frame stays as it was.
    Unchanged,
    /// The process ends with this status.
    Ended(u64),
    /// The program brought no return path: map a trampoline and go on with
    /// [`returned_through`].
    Trampoline(Chosen),
    /// Check the two ranges and go on with [`enter`].
    Place(Placed),
}

/// What is left arranged once `signal` has been taken to a handler: an action's
/// mask blocks what a program can block.
pub open spec fn taken(was: Arranged, signal: u64) -> Arranged {
    let action = was.actions[signal - 1];
    Arranged {
        pending: was.pending & !mask_bit(signal),
        blocked: was.blocked | ((action.mask & !unblockable()) | mask_bit(signal)),
        actions: if action.flags & RESETHAND != 0 {
            was.actions.update(signal - 1, Action::defaulted())
        } else {
            was.actions
        },
        ..was
    }
}

/// Where a frame goes on a stack that stands at `rsp`: below the red zone, on a
/// sixteen-byte boundary.
pub open spec fn frame_place(rsp: u64) -> u64 {
    (if rsp >= RED_ZONE + FRAME_BYTES {
        (rsp - (RED_ZONE + FRAME_BYTES)) as u64
    } else {
        0u64
    }) & !15u64
}

/// Where the handler's stack starts.
pub open spec fn stack_place(rsp: u64) -> u64 {
    if frame_place(rsp) >= 8 {
        (frame_place(rsp) - 8) as u64
    } else {
        0
    }
}

/// A chosen signal with a place for its frame, or the end of the process.
pub open spec fn placed(chosen: Chosen, restorer: u64, rsp: u64, user_space_end: u64) -> Delivery {
    if stack_place(rsp) < LOWEST_STACK || frame_place(rsp) >= user_space_end {
        Delivery::Ended((128 + chosen.signal) as u64)
    } else {
        Delivery::Place(
            Placed {
                process: chosen.process,
                signal: chosen.signal,
                handler: chosen.action.handler,
                restorer,
                at: frame_place(rsp),
                stack: stack_place(rsp),
            },
        )
    }
}

fn place(chosen: Chosen, restorer: u64, frame: &Frame, user_space_end: u64) -> (delivery: Delivery)
    requires
        is_signal(chosen.signal),
    ensures
        delivery == placed(chosen, restorer, frame.rsp, user_space_end),
{
    let below: u64 = frame.rsp.saturating_sub(RED_ZONE + FRAME_BYTES);
    let at: u64 = below & !15u64;
    let stack: u64 = at.saturating_sub(8);
    if stack < LOWEST_STACK || at >= user_space_end {
        return Delivery::Ended(128 + chosen.signal);
    }
    Delivery::Place(
        Placed {
            process: chosen.process,
            signal: chosen.signal,
            handler: chosen.action.handler,
            restorer,
            at,
            stack,
        },
    )
}

/// The return path an action brings, if it brings one.
pub open spec fn own_restorer(action: Action) -> Option<u64> {
    if action.flags & RESTORER != 0 && action.restorer != 0 {
        Some(action.restorer)
    } else {
        None
    }
}

/// Choose what is to be delivered, on the way back to the program.
///
/// The lowest-numbered signal that is waiting and not blocked. One that is
/// ignored goes away, one with no handler ends the process, and one with a
/// handler is taken to it: what the handler runs under is what was blocked,
/// what the action asked for, as far as that can be blocked, and the signal
/// itself.
pub fn deliver(
    state: &mut State,
    process: Option<u64>,
    frame: &Frame,
    user_space_end: u64,
) -> (delivery: Delivery)
    requires
        old(state).wf(),
    ensures
        final(state).wf(),
        ({
            let was = old(state)@.processes[process.unwrap()];
            let signal = lowest(was.ready());
            let action = was.actions[signal - 1];
            let chosen = Chosen { process: process.unwrap(), signal, action };
            if process is None || !old(state)@.processes.dom().contains(process.unwrap())
                || was.ready() == 0 {
                delivery == Delivery::Unchanged && final(state)@ == old(state)@
            } else if action.handler == IGNORE || action.handler == DEFAULT {
                &&& delivery == if action.handler == IGNORE {
                    Delivery::Unchanged
                } else {
                    Delivery::Ended((128 + signal) as u64)
                }
                &&& final(state)@ == old(state)@.with(
                    process.unwrap(),
                    Arranged { pending: was.pending & !mask_bit(signal), ..was },
                )
            } else {
                &&& final(state)@ == old(state)@.with(process.unwrap(), taken(was, signal))
                &&& delivery == match own_restorer(action) {
                    Some(restorer) => placed(chosen, restorer, frame.rsp, user_space_end),
                    None => if was.trampoline != 0 {
                        placed(chosen, was.trampoline, frame.rsp, user_space_end)
                    } else {
                        Delivery::Trampoline(chosen)
                    },
                }
            }
        }),
{
    let process: u64 = match process {
        Some(process) => process,
        None => return Delivery::Unchanged,
    };
    if !pending(state, process) {
        return Delivery::Unchanged;
    }
    let ghost before = state@;
    let mut signals = state.take(process);
    let ghost was = signals@;
    let ready: u64 = signals.pending & !signals.blocked;
    let mut signal: u64 = 1;
    proof {
        lemma_lowest(ready);
    }
    while ready & (1u64 << (signal - 1)) == 0
        invariant
            is_signal(signal),
            ready != 0,
            is_lowest(ready, lowest(ready)),
            signal <= lowest(ready),
            forall|lower: u64|
                is_signal(lower) && lower < signal ==> ready & #[trigger] mask_bit(lower) == 0,
        decreases 64 - signal,
    {
        assert(ready & mask_bit(signal) == 0);
        signal += 1;
    }
    assert(ready & mask_bit(signal) != 0);
    assert(is_lowest(ready, signal));
    let raised: u64 = 1u64 << (signal - 1);
    let index: usize = (signal - 1) as usize;
    signals.pending = signals.pending & !raised;
    let action: Action = signals.actions[index];
    if action.handler == IGNORE {
        state.put(process, signals);
        assert(state@ =~= before.with(process, signals@));
        return Delivery::Unchanged;
    }
    if action.handler == DEFAULT {
        state.put(process, signals);
        assert(state@ =~= before.with(process, signals@));
        return Delivery::Ended(128 + signal);
    }
    let kill: u64 = 1u64 << (number::KILL - 1);
    let stop: u64 = 1u64 << (number::STOP - 1);
    proof {
        lemma_blocking(signals.blocked, action.mask, signal);
    }
    signals.blocked = signals.blocked | ((action.mask & !(kill | stop)) | raised);
    if action.flags & RESETHAND != 0 {
        signals.actions.set(index, Action::default_action());
    }
    assert(signals@ =~= taken(was, signal));
    let trampoline: u64 = signals.trampoline;
    state.put(process, signals);
    assert(state@ =~= before.with(process, signals@));
    let chosen = Chosen { process, signal, action };
    if action.flags & RESTORER != 0 && action.restorer != 0 {
        place(chosen, action.restorer, frame, user_space_end)
    } else if trampoline != 0 {
        place(chosen, trampoline, frame, user_space_end)
    } else {
        Delivery::Trampoline(chosen)
    }
}

/// The code of the trampoline: `mov eax, 15` and `syscall`.
pub open spec fn trampoline_code() -> Seq<u8> {
    seq![0xB8u8, 0x0F, 0x00, 0x00, 0x00, 0x0F, 0x05]
}

/// The bytes to put at the start of the trampoline's page.
///
/// The page is mapped for the program to read and execute, and not to write.
pub fn ensure_trampoline() -> (code: Vec<u8>)
    ensures
        code@ == trampoline_code(),
{
    let mut code: Vec<u8> = Vec::new();
    code.push(0xB8);
    code.push(0x0F);
    code.push(0x00);
    code.push(0x00);
    code.push(0x00);
    code.push(0x0F);
    code.push(0x05);
    assert(code@ =~= trampoline_code());
    code
}

/// Go on with a delivery once the trampoline is mapped, or could not be.
pub fn returned_through(
    state: &mut State,
    chosen: Chosen,
    mapped: bool,
    frame: &Frame,
    user_space_end: u64,
) -> (delivery: Delivery)
    requires
        old(state).wf(),
        is_signal(chosen.signal),
    ensures
        final(state).wf(),
        !mapped ==> delivery == Delivery::Ended((128 + chosen.signal) as u64) && final(state)@
            == old(state)@,
        mapped ==> {
            &&& delivery == placed(chosen, TRAMPOLINE, frame.rsp, user_space_end)
            &&& final(state)@ == old(state)@.with(
                chosen.process,
                Arranged { trampoline: TRAMPOLINE, ..old(state)@.arranged(chosen.process) },
            )
        },
{
    if !mapped {
        return Delivery::Ended(128 + chosen.signal);
    }
    let ghost before = state@;
    let mut signals = state.take(chosen.process);
    signals.trampoline = TRAMPOLINE;
    state.put(chosen.process, signals);
    assert(state@ =~= before.with(chosen.process, signals@));
    place(chosen, TRAMPOLINE, frame, user_space_end)
}

/// What the program is resumed with, and what is written to its stack.
#[derive(Debug)]
pub enum Entry {
    /// The process ends with this status.
    Ended(u64),
    /// The saved frame and the return address, in that order.
    Entered { frame: Vec<u8>, restorer: Vec<u8> },
}

/// The state a handler is entered in.
pub open spec fn entered(frame: Frame, placed: Placed) -> Frame {
    Frame {
        rip: placed.handler,
        rsp: placed.stack,
        rdi: placed.signal,
        rsi: 0,
        rdx: 0,
        rax: 0,
        ..frame
    }
}

/// Move the frame to the handler, once it is known whether the program has
/// bytes for the frame and for the return address.
pub fn enter(
    state: &mut State,
    placed: Placed,
    frame: &mut Frame,
    frame_in_range: bool,
    return_in_range: bool,
) -> (entry: Entry)
    requires
        old(state).wf(),
        is_signal(placed.signal),
    ensures
        final(state).wf(),
        ({
            let was = old(state)@.arranged(placed.process);
            if !frame_in_range || !return_in_range {
                &&& entry == Entry::Ended((128 + placed.signal) as u64)
                &&& *final(frame) == *old(frame)
                &&& final(state)@ == old(state)@
            } else {
                &&& entry matches Entry::Entered { frame: saved, restorer }
                &&& saved@ == old(frame).encoded()
                &&& restorer@ == le64(placed.restorer)
                &&& *final(frame) == entered(*old(frame), placed)
                &&& final(state)@ == Model {
                    delivered: counted(old(state)@.delivered, 1),
                    ..old(state)@.with(
                        placed.process,
                        Arranged { handling: was.handling.push(placed.signal), ..was },
                    )
                }
            }
        }),
{
    if !frame_in_range || !return_in_range {
        return Entry::Ended(128 + placed.signal);
    }
    let saved: Vec<u8> = frame.to_bytes();
    let mut restorer: Vec<u8> = Vec::new();
    put_u64(&mut restorer, placed.restorer);
    assert(restorer@ =~= le64(placed.restorer));
    frame.rip = placed.handler;
    frame.rsp = placed.stack;
    frame.rdi = placed.signal;
    frame.rsi = 0;
    frame.rdx = 0;
    frame.rax = 0;
    let ghost before = state@;
    let mut signals = state.take(placed.process);
    let ghost was = signals@;
    signals.handling.push(placed.signal);
    assert(signals@ =~= Arranged { handling: was.handling.push(placed.signal), ..was });
    state.put(placed.process, signals);
    state.delivered = count(state.delivered, 1);
    assert(state@.processes =~= before.with(placed.process, signals@).processes);
    Entry::Entered { frame: saved, restorer }
}

/// How `rt_sigreturn` leaves the program.
#[derive(Clone, Copy, PartialEq, Eq, Structural, Debug)]
pub enum Returned {
    /// The process ends with this status.
    Ended(u64),
    /// The program carries on with this in its return register.
    Answer(u64),
}

/// The frame a program is put back to: what it saved, with the flag bits that
/// are not its own to change forced back.
pub open spec fn restored(saved: Frame) -> Frame {
    Frame { rflags: (saved.rflags & USER_FLAGS_MASK) | ALWAYS_SET, ..saved }
}

/// What is left arranged once the innermost handler has returned.
pub open spec fn returned(was: Arranged) -> Arranged {
    if was.handling.len() == 0 {
        was
    } else {
        Arranged {
            blocked: was.blocked & !mask_bit(was.handling.last()),
            handling: was.handling.drop_last(),
            ..was
        }
    }
}

/// `rt_sigreturn()`: put the frame back and carry on.
///
/// `saved` holds the bytes the program has at its stack pointer, if it has a
/// frame's worth of them there.
pub fn sigreturn(
    state: &mut State,
    process: Option<u64>,
    frame: &mut Frame,
    saved: Option<&[u8]>,
) -> (returned_: Returned)
    requires
        old(state).wf(),
        saved matches Some(bytes) ==> bytes@.len() == FRAME_BYTES,
    ensures
        final(state).wf(),
        if process is None {
            &&& returned_ == Returned::Answer(ENOSYS)
            &&& *final(frame) == *old(frame)
            &&& final(state)@ == old(state)@
        } else if saved is None {
            &&& returned_ == Returned::Ended(NO_FRAME)
            &&& *final(frame) == *old(frame)
            &&& final(state)@ == old(state)@
        } else {
            let frame_saved = Frame::decoded(saved.unwrap()@);
            &&& returned_ == Returned::Answer(frame_saved.rax)
            &&& *final(frame) == restored(frame_saved)
            &&& final(state)@ == if old(state)@.processes.dom().contains(process.unwrap()) {
                old(state)@.with(process.unwrap(), returned(old(state)@.arranged(process.unwrap())))
            } else {
                old(state)@
            }
        },
{
    let process: u64 = match process {
        Some(process) => process,
        None => return Returned::Answer(ENOSYS),
    };
    let bytes: &[u8] = match saved {
        Some(bytes) => bytes,
        None => return Returned::Ended(NO_FRAME),
    };
    let restored: Frame = Frame::from_bytes(bytes);
    *frame = restored;
    frame.rflags = (restored.rflags & USER_FLAGS_MASK) | ALWAYS_SET;
    if state.processes.contains(process) {
        let ghost before = state@;
        assert(before.processes.dom().contains(process));
        let mut signals = state.take(process);
        let ghost was = signals@;
        if signals.handling.len() > 0 {
            assert(is_signal(was.handling[was.handling.len() - 1]));
            let signal: u64 = signals.handling[signals.handling.len() - 1];
            signals.handling.pop();
            let raised: u64 = 1u64 << (signal - 1);
            proof {
                lemma_masking(signals.blocked, raised);
            }
            signals.blocked = signals.blocked & !raised;
            assert(signals.handling@ =~= was.handling.drop_last());
        }
        assert(signals@ =~= returned(was));
        state.put(process, signals);
        assert(state@ =~= before.with(process, signals@));
    } else {
        assert(!state@.processes.dom().contains(process));
    }
    Returned::Answer(frame.rax)
}

/// `sigaltstack`, `rt_sigsuspend` and the rest of the family, which are refused.
pub fn not_translated() -> (answer: u64)
    ensures
        answer == ENOSYS,
{
    ENOSYS
}

/// A program cannot block the two signals that stop it: neither
/// `rt_sigprocmask` nor a handler's mask adds either, no return from a handler
/// does, and replacing the mask takes both out of it.
pub proof fn law_unblockable_stay_unblocked(was: Arranged, how: u64, wanted: u64, signal: u64)
    requires
        is_signal(signal),
        signal != number::KILL,
        signal != number::STOP,
    ensures
        how == SETMASK ==> masked(was.blocked, how, wanted).unwrap() & unblockable() == 0,
        was.blocked & unblockable() == 0 ==> {
            &&& masked(was.blocked, how, wanted) matches Some(mask) ==> mask & unblockable() == 0
            &&& taken(was, signal).blocked & unblockable() == 0
            &&& returned(was).blocked & unblockable() == 0
        },
{
    lemma_masking(was.blocked, wanted);
    lemma_blocking(was.blocked, was.actions[signal - 1].mask, signal);
    lemma_masking(was.blocked, mask_bit(was.handling.last()));
}

/// In every state there is, the two signals that stop a program are blocked for
/// no process and handled by none.
pub proof fn law_nothing_shields_from_the_two(state: State, process: u64)
    requires
        state.wf(),
    ensures
        ({
            let arranged = state@.arranged(process);
            &&& arranged.blocked & unblockable() == 0
            &&& arranged.actions[number::KILL - 1] == Action::defaulted()
            &&& arranged.actions[number::STOP - 1] == Action::defaulted()
        }),
{
    if state@.processes.dom().contains(process) {
        assert(state.processes@.dom().contains(process));
    } else {
        let cannot = unblockable();
        assert(0u64 & cannot == 0) by (bit_vector);
    }
}

/// A handler cannot be entered again by its own signal while it runs: raising
/// the signal once more leaves it waiting and not ready.
pub proof fn law_handler_is_not_reentered(was: Arranged, signal: u64)
    requires
        is_signal(signal),
        was.actions.len() == COUNT,
    ensures
        ({
            let running = taken(was, signal);
            let raised = Arranged { pending: running.pending | mask_bit(signal), ..running };
            raised.ready() & mask_bit(signal) == 0
        }),
{
    let bit = mask_bit(signal);
    let pending = was.pending;
    let blocked = was.blocked;
    let mask = was.actions[signal - 1].mask;
    let cannot = unblockable();
    assert((((pending & !bit) | bit) & !(blocked | ((mask & !cannot) | bit))) & bit == 0)
        by (bit_vector);
}

/// The frame lies below the red zone on a sixteen-byte boundary, and the return
/// address lies immediately below it.
pub proof fn law_frame_clears_the_red_zone(rsp: u64)
    ensures
        frame_place(rsp) % 16 == 0,
        rsp >= RED_ZONE + FRAME_BYTES ==> frame_place(rsp) + FRAME_BYTES + RED_ZONE <= rsp,
        stack_place(rsp) >= LOWEST_STACK ==> stack_place(rsp) + 8 == frame_place(rsp),
{
    let below: u64 = if rsp >= RED_ZONE + FRAME_BYTES {
        (rsp - (RED_ZONE + FRAME_BYTES)) as u64
    } else {
        0
    };
    assert((below & !15u64) % 16 == 0 && (below & !15u64) <= below) by (bit_vector);
}

/// A handler that returns puts the program back where it was.
///
/// The frame written on the way in, read back on the way out, is the frame the
/// program had, with only the flag bits a program may not choose forced back;
/// what it finds in its return register is what its interrupted call answered;
/// and of the mask only the signal's own bit is taken away.
pub proof fn law_return_undoes_entry(frame: Frame, placed: Placed, was: Arranged)
    requires
        is_signal(placed.signal),
    ensures
        ({
            let saved = Frame::decoded(frame.encoded());
            let running = Arranged { handling: was.handling.push(placed.signal), ..was };
            &&& restored(saved) == Frame {
                rflags: (frame.rflags & USER_FLAGS_MASK) | ALWAYS_SET,
                ..frame
            }
            &&& restored(saved).rax == frame.rax
            &&& returned(running) == Arranged {
                blocked: was.blocked & !mask_bit(placed.signal),
                ..was
            }
        }),
{
    frame.lemma_round_trip();
    let running = Arranged { handling: was.handling.push(placed.signal), ..was };
    assert(running.handling.drop_last() =~= was.handling);
    assert(returned(running) =~= Arranged {
        blocked: was.blocked & !mask_bit(placed.signal),
        ..was
    });
}

/// Taking a signal to its handler and coming back leaves blocked what was
/// blocked and what the action asked for, as far as that can be blocked, and
/// never the signal itself.
pub proof fn law_mask_after_handling(was: Arranged, signal: u64)
    requires
        is_signal(signal),
        was.actions.len() == COUNT,
    ensures
        ({
            let running = taken(was, signal);
            let entered_ = Arranged { handling: running.handling.push(signal), ..running };
            returned(entered_).blocked == (was.blocked | (was.actions[signal - 1].mask
                & !unblockable())) & !mask_bit(signal)
        }),
{
    let bit = mask_bit(signal);
    let blocked = was.blocked;
    let mask = was.actions[signal - 1].mask;
    let allowed = mask & !unblockable();
    assert((blocked | (allowed | bit)) & !bit == (blocked | allowed) & !bit) by (bit_vector);
}

} // verus!
