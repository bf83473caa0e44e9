//! Becoming a different program.
//!
//! Everything is read out of the old address space before any of it is taken
//! away, so whatever can fail has failed while there is still a program to
//! answer. A program with more than one thread is refused.
use vstd::prelude::*;

use crate::bytes::copy_range;
use crate::compat::error::{E2BIG, EAGAIN, EFAULT, EINVAL, ENOSYS};
use crate::compat::frame::Frame;
use crate::compat::linux_files::path::first_zero;
use crate::compat::{linux_display, linux_memory, linux_signal};
use crate::count::{count, counted};
use crate::text::is_utf8;

verus! {

/// The most arguments or environment variables one call carries.
pub const MAX_STRINGS: usize = 256;

/// The most bytes in one of them.
pub const MAX_STRING: usize = 4096;

/// What a process ends with when the new program will not load.
pub const NOT_LOADED: u64 = 127;

/// The flags a program starts with: interrupts on, and the reserved bit.
pub const START_FLAGS: u64 = 0x202;

/// Programs replaced.
pub struct State {
    replaced: u64,
}

impl View for State {
    type V = u64;

    closed spec fn view(&self) -> u64 {
        self.replaced
    }
}

impl State {
    /// None yet.
    pub fn new() -> (state: Self)
        ensures
            state@ == 0,
    {
        State { replaced: 0 }
    }
}

/// How many times a program has replaced itself.
pub fn statistics(state: &State) -> (many: u64)
    ensures
        many == state@,
{
    state.replaced
}

/// The string in what a program has at a pointer: the bytes up to a terminator,
/// where there is one within bounds.
pub open spec fn string_in(bytes: Seq<u8>) -> Result<Seq<u8>, u64> {
    if exists|at: int| first_zero(bytes, at) {
        let text = bytes.take(choose|at: int| first_zero(bytes, at));
        if vstd::utf8::valid_utf8(text) {
            Ok(text)
        } else {
            Err(EINVAL)
        }
    } else if bytes.len() >= MAX_STRING {
        Err(E2BIG)
    } else {
        Err(EFAULT)
    }
}

/// A string or a refusal, as values.
pub open spec fn string_view(text: Result<Vec<u8>, u64>) -> Result<Seq<u8>, u64> {
    match text {
        Ok(text) => Ok(text@),
        Err(reason) => Err(reason),
    }
}

/// Read one string out of the bytes a program has at a pointer.
pub fn string_at(bytes: &[u8]) -> (text: Result<Vec<u8>, u64>)
    requires
        bytes@.len() <= MAX_STRING,
    ensures
        string_view(text) == string_in(bytes@),
{
    let mut at: usize = 0;
    while at < bytes.len()
        invariant
            at <= bytes@.len(),
            forall|i: int| 0 <= i < at ==> #[trigger] bytes@[i] != 0,
        decreases bytes@.len() - at,
    {
        if bytes[at] == 0 {
            let text = copy_range(bytes, 0, at);
            proof {
                assert(first_zero(bytes@, at as int));
                let found = choose|i: int| first_zero(bytes@, i);
                assert(first_zero(bytes@, found));
                if found < at {
                    assert(bytes@[found] != 0);
                }
                if at < found {
                    assert(bytes@[at as int] != 0);
                }
                assert(text@ =~= bytes@.take(at as int));
            }
            if is_utf8(text.as_slice()) {
                return Ok(text);
            }
            return Err(EINVAL);
        }
        at += 1;
    }
    assert(!(exists|i: int| first_zero(bytes@, i))) by {
        if exists|i: int| first_zero(bytes@, i) {
            let i = choose|i: int| first_zero(bytes@, i);
            assert(bytes@[i] != 0);
        }
    }
    if bytes.len() >= MAX_STRING {
        Err(E2BIG)
    } else {
        Err(EFAULT)
    }
}

/// One place of an array of strings.
#[derive(Debug)]
pub struct Slot {
    /// The pointer there, if the program has one.
    pub pointer: Option<u64>,
    /// The bytes at the pointer, up to a terminator or as far as a string may
    /// go.
    pub bytes: Vec<u8>,
}

/// The strings in an array, read in order, or what stops the reading.
pub open spec fn strings_in(slots: Seq<Slot>, at: nat) -> Result<Seq<Seq<u8>>, u64>
    decreases slots.len() - at,
{
    if at >= MAX_STRINGS || at >= slots.len() {
        Err(E2BIG)
    } else {
        let slot = slots[at as int];
        if slot.pointer is None {
            Err(EFAULT)
        } else if slot.pointer == Some(0u64) {
            Ok(Seq::empty())
        } else {
            match string_in(slot.bytes@) {
                Err(reason) => Err(reason),
                Ok(text) => match strings_in(slots, at + 1) {
                    Err(reason) => Err(reason),
                    Ok(rest) => Ok(seq![text] + rest),
                },
            }
        }
    }
}

/// Strings or a refusal, as values.
pub open spec fn strings_view(texts: Result<Vec<Vec<u8>>, u64>) -> Result<Seq<Seq<u8>>, u64> {
    match texts {
        Ok(texts) => Ok(Seq::new(texts@.len(), |i: int| texts@[i]@)),
        Err(reason) => Err(reason),
    }
}

/// Read a null-terminated array of strings.
///
/// `slots` are the places of the array up to its end, to one the program does
/// not have, or to as many as are looked at.
pub fn strings_at(array: u64, slots: &[Slot]) -> (texts: Result<Vec<Vec<u8>>, u64>)
    requires
        slots@.len() <= MAX_STRINGS,
        forall|i: int| 0 <= i < slots@.len() ==> (#[trigger] slots@[i]).bytes@.len() <= MAX_STRING,
    ensures
        strings_view(texts) == if array == 0 {
            Ok(Seq::empty())
        } else {
            strings_in(slots@, 0)
        },
{
    let mut out: Vec<Vec<u8>> = Vec::new();
    if array == 0 {
        assert(Seq::new(out@.len(), |i: int| out@[i]@) =~= Seq::empty());
        return Ok(out);
    }
    let mut at: usize = 0;
    proof {
        assert(Seq::new(out@.len(), |i: int| out@[i]@) =~= Seq::<Seq<u8>>::empty());
        if strings_in(slots@, 0) is Ok {
            assert(Seq::<Seq<u8>>::empty() + strings_in(slots@, 0).unwrap() =~= strings_in(
                slots@,
                0,
            ).unwrap());
        }
    }
    while at < slots.len()
        invariant
            array != 0,
            at <= slots@.len() <= MAX_STRINGS,
            forall|i: int|
                0 <= i < slots@.len() ==> (#[trigger] slots@[i]).bytes@.len() <= MAX_STRING,
            strings_in(slots@, 0) == (match strings_in(slots@, at as nat) {
                Ok(rest) => Ok::<Seq<Seq<u8>>, u64>(
                    Seq::new(out@.len(), |i: int| out@[i]@) + rest,
                ),
                Err(reason) => Err(reason),
            }),
        decreases slots@.len() - at,
    {
        let ghost read = Seq::new(out@.len(), |i: int| out@[i]@);
        match slots[at].pointer {
            None => return Err(EFAULT),
            Some(pointer) => if pointer == 0 {
                assert(read + Seq::<Seq<u8>>::empty() =~= read);
                return Ok(out);
            },
        }
        match string_at(slots[at].bytes.as_slice()) {
            Err(reason) => return Err(reason),
            Ok(text) => {
                let ghost wanted = text@;
                out.push(text);
                proof {
                    let now = Seq::new(out@.len(), |i: int| out@[i]@);
                    assert(now =~= read.push(wanted));
                    if strings_in(slots@, (at + 1) as nat) is Ok {
                        let rest = strings_in(slots@, (at + 1) as nat).unwrap();
                        assert(read + (seq![wanted] + rest) =~= now + rest);
                    }
                }
            },
        }
        at += 1;
    }
    Err(E2BIG)
}

/// `execve(path, argv, envp)`: a refusal, or leave to take the old program's
/// memory and arrangements away and load the new one.
///
/// `image` is what reading the file came to, and `others` how many other threads
/// the process has. [`replaced`] finishes.
pub fn execve(
    has_process: bool,
    path: Result<(), u64>,
    arguments: Result<(), u64>,
    environment: Result<(), u64>,
    image: Result<(), u64>,
    others: usize,
) -> (go: Result<(), u64>)
    ensures
        go == if !has_process {
            Err::<(), u64>(ENOSYS)
        } else if path is Err {
            path
        } else if arguments is Err {
            arguments
        } else if environment is Err {
            environment
        } else if image is Err {
            image
        } else if others > 0 {
            Err(EAGAIN)
        } else {
            Ok(())
        },
{
    if !has_process {
        return Err(ENOSYS);
    }
    match path {
        Ok(()) => {},
        Err(reason) => return Err(reason),
    }
    match arguments {
        Ok(()) => {},
        Err(reason) => return Err(reason),
    }
    match environment {
        Ok(()) => {},
        Err(reason) => return Err(reason),
    }
    match image {
        Ok(()) => {},
        Err(reason) => return Err(reason),
    }
    if others > 0 {
        return Err(EAGAIN);
    }
    Ok(())
}

/// The signals once a process has become another program.
pub open spec fn signals_after(before: linux_signal::Model, process: u64) -> linux_signal::Model {
    linux_signal::Model { processes: before.processes.remove(process), ..before }
}

/// The mappings once a process has become another program.
pub open spec fn mappings_after(before: linux_memory::Model, process: u64) -> linux_memory::Model {
    linux_memory::Model {
        next: before.next.remove(process),
        shared: before.shared.remove(process),
        ..before
    }
}

/// The windows once a process has become another program.
pub open spec fn windows_after(
    before: linux_display::Model,
    process: u64,
) -> linux_display::Model {
    linux_display::Model {
        windows: before.windows.remove_keys(Set::new(|key: (u64, u32)| key.0 == process)),
        ..before
    }
}

/// Take the old program's arrangements away, once [`execve`] gave leave to and
/// its memory is gone: its signals, where it mapped and its windows. What comes
/// back are the memory objects it held, to be let go of.
pub fn forget_program(
    signals: &mut linux_signal::State,
    mappings: &mut linux_memory::State,
    windows: &mut linux_display::State,
    process: u64,
) -> (released: Vec<linux_memory::Mapped>)
    requires
        old(signals).wf(),
        old(mappings).wf(),
        old(windows).wf(),
    ensures
        final(signals).wf(),
        final(mappings).wf(),
        final(windows).wf(),
        released@ == old(mappings)@.held(process),
        final(signals)@ == signals_after(old(signals)@, process),
        final(mappings)@ == mappings_after(old(mappings)@, process),
        final(windows)@ == windows_after(old(windows)@, process),
{
    linux_signal::forget(signals, process);
    let released = linux_memory::forget(mappings, process);
    linux_display::forget(windows, process);
    released
}

/// The registers a program starts with: where to start, where its stack is, and
/// nothing of the program before it.
pub open spec fn started(entry: u64, stack: u64) -> Frame {
    Frame {
        r15: 0,
        r14: 0,
        r13: 0,
        r12: 0,
        rbp: 0,
        rbx: 0,
        r9: 0,
        r8: 0,
        r10: 0,
        rdx: 0,
        rsi: 0,
        rdi: 0,
        rax: 0,
        rflags: START_FLAGS,
        rip: entry,
        rsp: stack,
    }
}

/// Finish `execve`: the new program's entry and stack, or that it would not
/// load.
///
/// There is nothing left to answer a failure to, so the process ends with the
/// status that comes back; otherwise the program starts with a thread pointer
/// of zero.
pub fn replaced(state: &mut State, frame: &mut Frame, loaded: Option<(u64, u64)>) -> (ended: Option<
    u64,
>)
    ensures
        match loaded {
            None => {
                &&& ended == Some(NOT_LOADED)
                &&& *final(frame) == *old(frame)
                &&& final(state)@ == old(state)@
            },
            Some((entry, stack)) => {
                &&& ended is None
                &&& *final(frame) == started(entry, stack)
                &&& final(state)@ == counted(old(state)@, 1)
            },
        },
{
    match loaded {
        None => Some(NOT_LOADED),
        Some((entry, stack)) => {
            *frame = Frame {
                r15: 0,
                r14: 0,
                r13: 0,
                r12: 0,
                rbp: 0,
                rbx: 0,
                r9: 0,
                r8: 0,
                r10: 0,
                rdx: 0,
                rsi: 0,
                rdi: 0,
                rax: 0,
                rflags: START_FLAGS,
                rip: entry,
                rsp: stack,
            };
            state.replaced = count(state.replaced, 1);
            None
        },
    }
}

/// Nothing a program arranged survives its becoming another: no handler, no
/// blocked or waiting signal, no mapping and no window. What other processes have
/// stays.
pub proof fn law_arrangements_do_not_survive(
    signals: linux_signal::Model,
    mappings: linux_memory::Model,
    windows: linux_display::Model,
    process: u64,
    other: u64,
    descriptor: u32,
)
    requires
        other != process,
    ensures
        signals_after(signals, process).arranged(process) == linux_signal::Arranged::fresh(),
        forall|signal: int|
            0 <= signal < linux_signal::COUNT ==> #[trigger] signals_after(
                signals,
                process,
            ).arranged(process).actions[signal] == linux_signal::Action::defaulted(),
        !mappings_after(mappings, process).next.dom().contains(process),
        mappings_after(mappings, process).held(process).len() == 0,
        !windows_after(windows, process).windows.dom().contains((process, descriptor)),
        signals_after(signals, process).arranged(other) == signals.arranged(other),
        mappings_after(mappings, process).held(other) == mappings.held(other),
        mappings_after(mappings, process).next.dom().contains(other)
            == mappings.next.dom().contains(other),
        mappings.next.dom().contains(other) ==> mappings_after(mappings, process).next[other]
            == mappings.next[other],
        windows_after(windows, process).windows.dom().contains((other, descriptor))
            == windows.windows.dom().contains((other, descriptor)),
        windows.windows.dom().contains((other, descriptor)) ==> windows_after(
            windows,
            process,
        ).windows[(other, descriptor)] == windows.windows[(other, descriptor)],
{
}

/// A program starts with nothing of the one before it: whatever the old
/// registers were, the new ones are the same.
pub proof fn law_nothing_is_inherited(entry: u64, stack: u64)
    ensures
        started(entry, stack).words() == Seq::new(13, |i: int| 0u64) + seq![
            START_FLAGS,
            entry,
            stack,
        ],
{
    assert(started(entry, stack).words() =~= Seq::new(13, |i: int| 0u64) + seq![
        START_FLAGS,
        entry,
        stack,
    ]);
}

/// A text is what stands before the first zero, and is too long without one in 4096
/// bytes.
pub proof fn law_a_text_ends_at_the_first_zero(bytes: Seq<u8>, at: int)
    ensures
        0 <= at < bytes.len() && bytes[at] == 0 && !bytes.take(at).contains(0) ==> string_in(bytes)
            == if vstd::utf8::valid_utf8(bytes.take(at)) {
            Ok::<Seq<u8>, u64>(bytes.take(at))
        } else {
            Err(EINVAL)
        },
        !bytes.contains(0) && bytes.len() >= 4096 ==> string_in(bytes) == Err::<Seq<u8>, u64>(E2BIG),
        !bytes.contains(0) && bytes.len() < 4096 ==> string_in(bytes) == Err::<Seq<u8>, u64>(EFAULT),
{
    if 0 <= at < bytes.len() && bytes[at] == 0 && !bytes.take(at).contains(0) {
        assert forall|i: int| 0 <= i < at implies #[trigger] bytes[i] != 0 by {
            assert(bytes.take(at)[i] == bytes[i]);
        }
        assert(first_zero(bytes, at));
        let found = choose|at: int| first_zero(bytes, at);
        assert(first_zero(bytes, found));
        assert(found == at);
    }
    if !bytes.contains(0) {
        assert forall|other: int| !first_zero(bytes, other) by {
            if first_zero(bytes, other) {
                assert(bytes[other] == 0);
            }
        }
    }
}

/// A list of texts ends at the first pointer that is zero, which is no text, and has
/// fewer than 256. The first pointer that is not there or that leads to no text is
/// the reason it is refused for.
pub proof fn law_a_list_of_texts(slots: Seq<Slot>, at: nat)
    ensures
        at >= 256 ==> strings_in(slots, at) == Err::<Seq<Seq<u8>>, u64>(E2BIG),
        at < 256 && at < slots.len() ==> {
            let slot = slots[at as int];
            &&& slot.pointer == Some(0u64) ==> strings_in(slots, at) == Ok::<Seq<Seq<u8>>, u64>(
                Seq::empty(),
            )
            &&& slot.pointer is None ==> strings_in(slots, at) == Err::<Seq<Seq<u8>>, u64>(EFAULT)
            &&& slot.pointer is Some && slot.pointer != Some(0u64) ==> {
                &&& string_in(slot.bytes@) matches Err(reason) ==> strings_in(slots, at) == Err::<
                    Seq<Seq<u8>>,
                    u64,
                >(reason)
                &&& string_in(slot.bytes@) matches Ok(text) ==> (strings_in(slots, at + 1)
                    matches Ok(rest) ==> strings_in(slots, at) == Ok::<Seq<Seq<u8>>, u64>(
                    seq![text] + rest,
                ))
                &&& string_in(slot.bytes@) is Ok ==> (strings_in(slots, at + 1) matches Err(reason)
                    ==> strings_in(slots, at) == Err::<Seq<Seq<u8>>, u64>(reason))
            }
        },
{
}

/// A new program starts at its entry, on its stack, with the flags every program
/// starts with and zero everywhere else.
pub proof fn law_where_a_program_starts(entry: u64, stack: u64)
    ensures
        started(entry, stack).rip == entry,
        started(entry, stack).rsp == stack,
        started(entry, stack).rflags == 0x202,
        started(entry, stack).rdi == 0 && started(entry, stack).rsi == 0 && started(entry, stack).rdx
            == 0 && started(entry, stack).rax == 0 && started(entry, stack).rbp == 0,
        NOT_LOADED == 127,
{
}

} // verus!
