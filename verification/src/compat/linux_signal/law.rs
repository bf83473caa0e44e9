//! What a program counts on when it arranges for signals, in its own numbers:
//! signal `n` is bit `n - 1` of a set, 9 and 19 cannot be held off, and a handler
//! finds its number in `rdi`.
use vstd::prelude::*;

#[allow(unused_imports)]
use super::{
    called, entered, frame_place, handler_allowed, is_lowest, is_signal, lemma_lowest, lowest,
    mask_bit, masked, own_restorer, placed, restored, returned, stack_place, taken,
    trampoline_code, unblockable, Action, Arranged, Chosen, Delivery, Model, Placed, NO_FRAME,
    TRAMPOLINE,
};
#[allow(unused_imports)]
use crate::bytes::{lemma_words_at, u32_at, u64_at};
#[allow(unused_imports)]
use crate::compat::frame::Frame;
#[allow(unused_imports)]
use crate::compat::linux;

verus! {

/// What the bits of sets come to: `a` and `b` are any two, and `low` and `next` the
/// places of two bits.
proof fn lemma_bits(a: u64, b: u64, low: u64, next: u64)
    by (bit_vector)
    requires
        low < 64,
        next < 64,
    ensures
        1u64 << 0u64 == 1,
        1u64 << 8u64 == 0x100,
        1u64 << 18u64 == 0x4_0000,
        0x100u64 | 0x4_0000u64 == 0x4_0100,
        low < 63 ==> 1u64 << ((low + 1) as u64) == 2 * (1u64 << low),
        (a & !b) & (1u64 << low) != 0 <==> a & (1u64 << low) != 0 && b & (1u64 << low) == 0,
        low != 8 && low != 18 ==> {
            &&& (a | (b & !0x4_0100u64)) & (1u64 << low) != 0 <==> a & (1u64 << low) != 0 || b & (1u64
                << low) != 0
            &&& (b & !0x4_0100u64) & (1u64 << low) != 0 <==> b & (1u64 << low) != 0
        },
        (b & !0x4_0100u64) & 0x4_0100u64 == 0,
        a & 0x4_0100u64 == 0 ==> (a | (b & !0x4_0100u64)) & 0x4_0100u64 == 0,
        (a & !(1u64 << low)) & (1u64 << low) == 0,
        low != next ==> (a & !(1u64 << low)) & (1u64 << next) == a & (1u64 << next),
        (a | ((b & !0x4_0100u64) | (1u64 << low))) & (1u64 << low) != 0,
        low != next && next != 8 && next != 18 ==> ((a | ((b & !0x4_0100u64) | (1u64 << low))) & (1u64
            << next) != 0 <==> a & (1u64 << next) != 0 || b & (1u64 << next) != 0),
        (a & !15u64) % 16 == 0,
        (a & !15u64) <= a,
        a - (a & !15u64) < 16,
        ((a & 0x8D5u64) | 0x202u64) & 0x8D5 == a & 0x8D5,
        ((a & 0x8D5u64) | 0x202u64) & 0x202 == 0x202,
        ((a & 0x8D5u64) | 0x202u64) & !0xAD7u64 == 0,
{
}

/// There are 64 signals, each with a bit of its own: the first has the lowest, and
/// each has the one above the bit of the signal before it.
pub proof fn law_each_signal_has_its_bit(signal: u64)
    ensures
        is_signal(signal) <==> 1 <= signal <= 64,
        mask_bit(1) == 1,
        1 <= signal < 64 ==> mask_bit((signal + 1) as u64) == 2 * mask_bit(signal),
{
    lemma_bits(0, 0, 0, 0);
    if 1 <= signal < 64 {
        let low = (signal - 1) as u64;
        lemma_bits(0, 0, low, low);
        assert((low + 1) as u64 == signal);
    }
}

/// The two signals that nothing holds off are 9 and 19.
pub proof fn law_the_two_are_nine_and_nineteen()
    ensures
        unblockable() == 0x4_0100,
        mask_bit(9) == 0x100,
        mask_bit(19) == 0x4_0000,
{
    lemma_bits(0, 0, 0, 0);
}

/// What changing the mask does to each signal that can be held off: 0 adds those
/// that are named, 1 takes them out, 2 holds off those and no other. Anything else
/// is no change. The two that cannot be held off never are, whatever is named.
pub proof fn law_what_a_change_of_the_mask_does(blocked: u64, how: u64, wanted: u64, signal: u64)
    requires
        is_signal(signal),
    ensures
        masked(blocked, how, wanted) is Some <==> how <= 2,
        signal != 9 && signal != 19 ==> {
            let bit = mask_bit(signal);
            &&& masked(blocked, 0, wanted)->Some_0 & bit != 0 <==> blocked & bit != 0 || wanted & bit
                != 0
            &&& masked(blocked, 1, wanted)->Some_0 & bit != 0 <==> blocked & bit != 0 && wanted & bit
                == 0
            &&& masked(blocked, 2, wanted)->Some_0 & bit != 0 <==> wanted & bit != 0
        },
        masked(blocked, 2, wanted)->Some_0 & 0x4_0100 == 0,
        blocked & 0x4_0100 == 0 ==> masked(blocked, 0, wanted)->Some_0 & 0x4_0100 == 0,
{
    law_the_two_are_nine_and_nineteen();
    let low = (signal - 1) as u64;
    lemma_bits(blocked, wanted, low, low);
}

/// What is ready to be delivered is what is waiting and not held off, and the
/// lowest of it goes first.
pub proof fn law_the_lowest_that_is_not_held_off(was: Arranged, signal: u64)
    requires
        is_signal(signal),
    ensures
        was.ready() & mask_bit(signal) != 0 <==> was.pending & mask_bit(signal) != 0 && was.blocked
            & mask_bit(signal) == 0,
        was.ready() != 0 ==> {
            &&& is_signal(lowest(was.ready()))
            &&& was.ready() & mask_bit(lowest(was.ready())) != 0
            &&& was.ready() & mask_bit(signal) != 0 ==> lowest(was.ready()) <= signal
        },
{
    let low = (signal - 1) as u64;
    lemma_bits(was.pending, was.blocked, low, low);
    if was.ready() != 0 {
        lemma_lowest(was.ready());
    }
}

/// What taking a signal changes: it is not waiting any more and is held off while
/// its handler runs, as is what the handler asked for, but for the two. The
/// handler is forgotten exactly where bit 31 of its flags says so. Nothing else
/// changes.
pub proof fn law_what_taking_a_signal_changes(was: Arranged, signal: u64, other: u64)
    requires
        is_signal(signal),
        is_signal(other),
        was.actions.len() == 64,
    ensures
        ({
            let after = taken(was, signal);
            let action = was.actions[signal - 1];
            &&& after.pending & mask_bit(signal) == 0
            &&& other != signal ==> after.pending & mask_bit(other) == was.pending & mask_bit(other)
            &&& after.blocked & mask_bit(signal) != 0
            &&& other != signal && other != 9 && other != 19 ==> (after.blocked & mask_bit(other) != 0
                <==> was.blocked & mask_bit(other) != 0 || action.mask & mask_bit(other) != 0)
            &&& action.flags & 0x8000_0000 != 0 ==> after.actions[signal - 1] == (Action {
                handler: 0,
                flags: 0,
                restorer: 0,
                mask: 0,
            })
            &&& action.flags & 0x8000_0000 == 0 ==> after.actions == was.actions
            &&& other != signal ==> after.actions[other - 1] == was.actions[other - 1]
            &&& after.actions.len() == 64
            &&& after.handling == was.handling
            &&& after.trampoline == was.trampoline
        }),
{
    law_the_two_are_nine_and_nineteen();
    let low = (signal - 1) as u64;
    let next = (other - 1) as u64;
    lemma_bits(was.pending, 0, low, next);
    lemma_bits(was.blocked, was.actions[signal - 1].mask, low, next);
}

/// A handler that returns lets its own signal through again, and the handler before
/// it is the one that runs; without one nothing changes.
pub proof fn law_what_a_return_changes(was: Arranged, signal: u64, other: u64)
    requires
        is_signal(signal),
        is_signal(other),
        other != signal,
    ensures
        ({
            let running = Arranged { handling: was.handling.push(signal), ..was };
            let after = returned(running);
            &&& after.handling == was.handling
            &&& after.blocked & mask_bit(signal) == 0
            &&& after.blocked & mask_bit(other) == was.blocked & mask_bit(other)
            &&& after.pending == was.pending && after.actions == was.actions && after.trampoline
                == was.trampoline
        }),
        was.handling.len() == 0 ==> returned(was) == was,
{
    let low = (signal - 1) as u64;
    let next = (other - 1) as u64;
    lemma_bits(was.blocked, 0, low, next);
    assert(was.handling.push(signal).drop_last() =~= was.handling);
}

/// Where a handler's frame goes: below the 128 bytes a program keeps under its
/// stack pointer and the 128 of the frame itself, at the first multiple of sixteen
/// there; the address to return to is right below it.
pub proof fn law_where_a_frame_goes(rsp: u64)
    requires
        rsp >= 0x2000,
    ensures
        frame_place(rsp) % 16 == 0,
        frame_place(rsp) <= rsp - 256,
        rsp - 256 < frame_place(rsp) + 16,
        stack_place(rsp) == frame_place(rsp) - 8,
{
    lemma_bits((rsp - 256) as u64, 0, 0, 0);
}

/// A handler is entered where there is room for its frame in the program's own half
/// and above its first page; otherwise the program ends with 128 and the signal's
/// number.
pub proof fn law_when_a_handler_is_entered(
    chosen: Chosen,
    restorer: u64,
    rsp: u64,
    user_space_end: u64,
)
    requires
        is_signal(chosen.signal),
    ensures
        ({
            let fits = stack_place(rsp) >= 0x1000 && frame_place(rsp) < user_space_end;
            let delivery = placed(chosen, restorer, rsp, user_space_end);
            &&& !fits ==> delivery == Delivery::Ended((128 + chosen.signal) as u64)
            &&& fits ==> delivery == Delivery::Place(
                Placed {
                    process: chosen.process,
                    signal: chosen.signal,
                    handler: chosen.action.handler,
                    restorer,
                    at: frame_place(rsp),
                    stack: stack_place(rsp),
                },
            )
        }),
{
}

/// What a handler finds: it runs on the stack that was made for it, with its
/// signal's number as its first argument and nothing in the next two. Every other
/// register is the program's.
pub proof fn law_what_a_handler_finds(frame: Frame, placed: Placed)
    ensures
        ({
            let after = entered(frame, placed);
            &&& after.rip == placed.handler
            &&& after.rsp == placed.stack
            &&& after.rdi == placed.signal
            &&& after.rsi == 0 && after.rdx == 0 && after.rax == 0
            &&& after.rbp == frame.rbp && after.rbx == frame.rbx && after.r8 == frame.r8 && after.r9
                == frame.r9 && after.r10 == frame.r10 && after.r12 == frame.r12 && after.r13
                == frame.r13 && after.r14 == frame.r14 && after.r15 == frame.r15 && after.rflags
                == frame.rflags
        }),
{
}

/// A program gets back what was saved, but for the flags: of those it has only its
/// own, and the two that are always set are.
pub proof fn law_what_a_program_gets_back(saved: Frame)
    ensures
        ({
            let after = restored(saved);
            &&& after == (Frame { rflags: after.rflags, ..saved })
            &&& after.rflags & 0x8D5 == saved.rflags & 0x8D5
            &&& after.rflags & 0x202 == 0x202
            &&& after.rflags & !0xAD7u64 == 0
        }),
{
    lemma_bits(saved.rflags, 0, 0, 0);
}

/// A handler has its own way back only where bit 26 of its flags says so and there
/// is one.
pub proof fn law_a_handler_s_own_way_back(action: Action)
    ensures
        own_restorer(action) == if action.flags & 0x0400_0000 != 0 && action.restorer != 0 {
            Some(action.restorer)
        } else {
            None
        },
{
}

/// The way back that every handler else has: it puts the number of the call that
/// returns from a handler into `eax` and makes the call.
pub proof fn law_the_way_back_makes_the_right_call(frame: Frame)
    ensures
        trampoline_code().len() == 7,
        trampoline_code()[0] == 0xB8,
        trampoline_code().subrange(1, 5) == seq![15u8, 0, 0, 0],
        trampoline_code().subrange(5, 7) == seq![0x0Fu8, 0x05],
        linux::routed(15, frame) == linux::Call::Sigreturn,
        TRAMPOLINE == 0x1000_0000_0000,
        NO_FRAME == 128 + 11,
{
    assert(trampoline_code().subrange(1, 5) =~= seq![15u8, 0, 0, 0]);
    assert(trampoline_code().subrange(5, 7) =~= seq![0x0Fu8, 0x05]);
}

/// What a program writes and reads of a handler: 32 bytes, with the handler first,
/// then the flags, the way back and the mask. What was written is read back.
pub proof fn law_a_handler_in_memory(action: Action)
    ensures
        action.encoded().len() == 32,
        u64_at(action.encoded(), 0) == action.handler,
        u64_at(action.encoded(), 8) == action.flags,
        u64_at(action.encoded(), 16) == action.restorer,
        u64_at(action.encoded(), 24) == action.mask,
        Action::decoded(action.encoded()) == action,
{
    let words = seq![action.handler, action.flags, action.restorer, action.mask];
    lemma_words_at(words, 0);
    lemma_words_at(words, 1);
    lemma_words_at(words, 2);
    lemma_words_at(words, 3);
}

/// A handler is an address in the program's own half, or 0 for what happens without
/// one, or 1 to ignore the signal.
pub proof fn law_what_can_be_a_handler(handler: u64, user_space_end: u64)
    ensures
        handler_allowed(handler, user_space_end) <==> handler == 0 || handler == 1 || handler
            < user_space_end,
        Action::defaulted() == (Action { handler: 0, flags: 0, restorer: 0, mask: 0 }),
{
}

/// A process that arranged for nothing has 64 signals without a handler, none
/// waiting and none held off; arranging for one process leaves the others.
pub proof fn law_processes_are_apart(before: Model, process: u64, other: u64, signals: Arranged)
    ensures
        before.with(process, signals).arranged(process) == signals,
        other != process ==> before.with(process, signals).arranged(other) == before.arranged(other),
        !before.processes.dom().contains(process) ==> {
            let fresh = before.arranged(process);
            &&& fresh.actions.len() == 64
            &&& forall|i: int|
                0 <= i < 64 ==> (#[trigger] fresh.actions[i]).handler == 0
            &&& fresh.pending == 0 && fresh.blocked == 0 && fresh.trampoline == 0
            &&& fresh.handling.len() == 0
        },
{
}

/// What the signals are called, by their numbers.
pub proof fn law_what_signals_are_called()
    ensures
        called(1) == "SIGHUP"@,
        called(2) == "SIGINT"@,
        called(3) == "SIGQUIT"@,
        called(4) == "SIGILL"@,
        called(6) == "SIGABRT"@,
        called(8) == "SIGFPE"@,
        called(9) == "SIGKILL"@,
        called(10) == "SIGUSR1"@,
        called(11) == "SIGSEGV"@,
        called(12) == "SIGUSR2"@,
        called(13) == "SIGPIPE"@,
        called(14) == "SIGALRM"@,
        called(15) == "SIGTERM"@,
        called(17) == "SIGCHLD"@,
        called(19) == "SIGSTOP"@,
        forall|signal: u64|
            signal == 0 || signal == 5 || signal == 7 || signal == 16 || signal == 18 || signal > 19
                ==> #[trigger] called(signal) == "a signal"@,
{
}

} // verus!
