//! The calls of a thirty-two bit program built for Linux.
//!
//! It is a different list of numbers, entered by another door, with the
//! arguments in other registers. What takes integers and pointers is translated
//! to the same calls as at sixty-four bits; what takes a structure is refused,
//! because the structures are different.
use vstd::prelude::*;

use crate::compat::error::{ENOMEM, ENOSYS, ENOTTY};
use crate::compat::frame::Frame;
use crate::compat::linux::Call;
use crate::compat::linux_files::AT_FDCWD;
use crate::count::{count, counted};

pub mod call;

verus! {

/// Calls translated, and calls refused.
pub struct State {
    translated: u64,
    refused: u64,
}

/// The same, as a value.
pub struct Model {
    pub translated: u64,
    pub refused: u64,
}

impl View for State {
    type V = Model;

    closed spec fn view(&self) -> Model {
        Model { translated: self.translated, refused: self.refused }
    }
}

impl State {
    /// None of either.
    pub fn new() -> (state: Self)
        ensures
            state@ == (Model { translated: 0, refused: 0 }),
    {
        State { translated: 0, refused: 0 }
    }
}

/// How many thirty-two bit calls have been translated and refused.
pub fn statistics(state: &State) -> (counts: (u64, u64))
    ensures
        counts == (state@.translated, state@.refused),
{
    (state.translated, state.refused)
}

/// The half of a register a thirty-two bit program has.
pub open spec fn low(register: u64) -> u64 {
    register % 0x1_0000_0000
}

/// The number of a call and its arguments.
#[derive(Clone, Copy, PartialEq, Eq, Structural, Debug)]
pub struct Arguments {
    pub number: u64,
    pub ebx: u64,
    pub ecx: u64,
    pub edx: u64,
    pub esi: u64,
    pub edi: u64,
    pub ebp: u64,
}

/// What a frame holds for a thirty-two bit program. `ecx` arrives in the slot of
/// `r10`, because a frame has none for it.
pub open spec fn arguments_of(frame: Frame) -> Arguments {
    Arguments {
        number: low(frame.rax),
        ebx: low(frame.rbx),
        ecx: low(frame.r10),
        edx: low(frame.rdx),
        esi: low(frame.rsi),
        edi: low(frame.rdi),
        ebp: low(frame.rbp),
    }
}

/// The number of a call and its arguments, each narrowed to thirty-two bits: the
/// top half of a register is whatever it happened to hold.
pub fn narrowed(frame: &Frame) -> (arguments: Arguments)
    ensures
        arguments == arguments_of(*frame),
{
    Arguments {
        number: frame.rax % 0x1_0000_0000,
        ebx: frame.rbx % 0x1_0000_0000,
        ecx: frame.r10 % 0x1_0000_0000,
        edx: frame.rdx % 0x1_0000_0000,
        esi: frame.rsi % 0x1_0000_0000,
        edi: frame.rdi % 0x1_0000_0000,
        ebp: frame.rbp % 0x1_0000_0000,
    }
}

/// What a call comes to.
#[derive(Clone, Copy, PartialEq, Eq, Structural, Debug)]
pub enum Found {
    /// The same call as at sixty-four bits.
    Call(Call),
    /// Thread-local storage in a segment, which there is no table for here.
    ThreadArea,
    /// No call that is translated.
    Unknown,
}

/// Which call it is.
pub open spec fn routed(arguments: Arguments) -> Found {
    let a = arguments;
    match a.number {
        call::WRITE => Found::Call(
            Call::Write { descriptor: a.ebx, buffer: a.ecx, length: a.edx },
        ),
        call::READ => Found::Call(Call::Read { descriptor: a.ebx, buffer: a.ecx, length: a.edx }),
        call::CLOSE => Found::Call(Call::Close { descriptor: a.ebx }),
        call::OPEN => Found::Call(
            Call::Openat { directory: AT_FDCWD as u64, path: a.ebx, flags: a.ecx },
        ),
        call::OPENAT => Found::Call(Call::Openat { directory: a.ebx, path: a.ecx, flags: a.edx }),
        call::LSEEK => Found::Call(
            Call::Lseek { descriptor: a.ebx, offset: a.ecx, whence: a.edx },
        ),
        call::ACCESS => Found::Call(Call::Faccessat { directory: AT_FDCWD as u64, path: a.ebx }),
        call::MKDIR => Found::Call(Call::Mkdirat { directory: AT_FDCWD as u64, path: a.ebx }),
        call::UNLINK => Found::Call(Call::Unlinkat { directory: AT_FDCWD as u64, path: a.ebx }),
        call::RMDIR => Found::Call(Call::Unlinkat { directory: AT_FDCWD as u64, path: a.ebx }),
        call::GETCWD => Found::Call(Call::Getcwd { buffer: a.ebx, size: a.ecx }),
        call::GETRANDOM => Found::Call(Call::Getrandom { buffer: a.ebx, length: a.ecx }),
        call::DUP => Found::Call(Call::Dup { descriptor: a.ebx }),
        call::DUP2 => Found::Call(Call::Dup2 { from: a.ebx, to: a.ecx }),
        call::PIPE => Found::Call(Call::Pipe2 { ends: a.ebx, flags: 0 }),
        call::PIPE2 => Found::Call(Call::Pipe2 { ends: a.ebx, flags: a.ecx }),
        call::MMAP2 => Found::Call(
            Call::Mmap {
                address: a.ebx,
                length: a.ecx,
                protection: a.edx,
                flags: a.esi,
                descriptor: a.edi,
                offset: (a.ebp * 4096) as u64,
            },
        ),
        call::MUNMAP => Found::Call(Call::Munmap { address: a.ebx, length: a.ecx }),
        call::MPROTECT => Found::Call(
            Call::Mprotect { address: a.ebx, length: a.ecx, protection: a.edx },
        ),
        call::BRK => Found::Call(Call::Answer(ENOMEM)),
        call::UNAME => Found::Call(Call::Uname { buffer: a.ebx }),
        call::GETPID => Found::Call(Call::Getpid),
        call::GETTID => Found::Call(Call::Gettid),
        call::SET_TID_ADDRESS => Found::Call(Call::Gettid),
        call::GETUID => Found::Call(Call::Answer(0)),
        call::GETGID => Found::Call(Call::Answer(0)),
        call::GETEUID => Found::Call(Call::Answer(0)),
        call::GETEGID => Found::Call(Call::Answer(0)),
        call::SCHED_YIELD => Found::Call(Call::SchedYield),
        call::IOCTL => Found::Call(Call::Answer(ENOTTY)),
        call::EXIT => Found::Call(Call::Exit { status: a.ebx }),
        call::EXIT_GROUP => Found::Call(Call::Exit { status: a.ebx }),
        call::SET_THREAD_AREA => Found::ThreadArea,
        _ => Found::Unknown,
    }
}

/// Which call an interrupt from a thirty-two bit program is, counted as
/// translated or refused.
pub fn dispatch(state: &mut State, frame: &Frame) -> (found: Found)
    ensures
        found == routed(arguments_of(*frame)),
        final(state)@ == if found is Call {
            Model { translated: counted(old(state)@.translated, 1), ..old(state)@ }
        } else {
            Model { refused: counted(old(state)@.refused, 1), ..old(state)@ }
        },
{
    let found: Found = route(narrowed(frame));
    match found {
        Found::Call(_) => {
            state.translated = count(state.translated, 1);
        },
        _ => {
            state.refused = count(state.refused, 1);
        },
    }
    found
}

fn route(arguments: Arguments) -> (found: Found)
    requires
        arguments.ebp < 0x1_0000_0000,
    ensures
        found == routed(arguments),
{
    let a = arguments;
    match a.number {
        call::WRITE => Found::Call(
            Call::Write { descriptor: a.ebx, buffer: a.ecx, length: a.edx },
        ),
        call::READ => Found::Call(Call::Read { descriptor: a.ebx, buffer: a.ecx, length: a.edx }),
        call::CLOSE => Found::Call(Call::Close { descriptor: a.ebx }),
        call::OPEN => Found::Call(
            Call::Openat { directory: AT_FDCWD as u64, path: a.ebx, flags: a.ecx },
        ),
        call::OPENAT => Found::Call(Call::Openat { directory: a.ebx, path: a.ecx, flags: a.edx }),
        call::LSEEK => Found::Call(
            Call::Lseek { descriptor: a.ebx, offset: a.ecx, whence: a.edx },
        ),
        call::ACCESS => Found::Call(Call::Faccessat { directory: AT_FDCWD as u64, path: a.ebx }),
        call::MKDIR => Found::Call(Call::Mkdirat { directory: AT_FDCWD as u64, path: a.ebx }),
        call::UNLINK => Found::Call(Call::Unlinkat { directory: AT_FDCWD as u64, path: a.ebx }),
        call::RMDIR => Found::Call(Call::Unlinkat { directory: AT_FDCWD as u64, path: a.ebx }),
        call::GETCWD => Found::Call(Call::Getcwd { buffer: a.ebx, size: a.ecx }),
        call::GETRANDOM => Found::Call(Call::Getrandom { buffer: a.ebx, length: a.ecx }),
        call::DUP => Found::Call(Call::Dup { descriptor: a.ebx }),
        call::DUP2 => Found::Call(Call::Dup2 { from: a.ebx, to: a.ecx }),
        call::PIPE => Found::Call(Call::Pipe2 { ends: a.ebx, flags: 0 }),
        call::PIPE2 => Found::Call(Call::Pipe2 { ends: a.ebx, flags: a.ecx }),
        call::MMAP2 => Found::Call(
            Call::Mmap {
                address: a.ebx,
                length: a.ecx,
                protection: a.edx,
                flags: a.esi,
                descriptor: a.edi,
                offset: a.ebp * 4096,
            },
        ),
        call::MUNMAP => Found::Call(Call::Munmap { address: a.ebx, length: a.ecx }),
        call::MPROTECT => Found::Call(
            Call::Mprotect { address: a.ebx, length: a.ecx, protection: a.edx },
        ),
        call::BRK => Found::Call(Call::Answer(ENOMEM)),
        call::UNAME => Found::Call(Call::Uname { buffer: a.ebx }),
        call::GETPID => Found::Call(Call::Getpid),
        call::GETTID => Found::Call(Call::Gettid),
        call::SET_TID_ADDRESS => Found::Call(Call::Gettid),
        call::GETUID => Found::Call(Call::Answer(0)),
        call::GETGID => Found::Call(Call::Answer(0)),
        call::GETEUID => Found::Call(Call::Answer(0)),
        call::GETEGID => Found::Call(Call::Answer(0)),
        call::SCHED_YIELD => Found::Call(Call::SchedYield),
        call::IOCTL => Found::Call(Call::Answer(ENOTTY)),
        call::EXIT => Found::Call(Call::Exit { status: a.ebx }),
        call::EXIT_GROUP => Found::Call(Call::Exit { status: a.ebx }),
        call::SET_THREAD_AREA => Found::ThreadArea,
        _ => Found::Unknown,
    }
}

/// The answer to a call that is refused.
pub fn refused() -> (answer: u64)
    ensures
        answer == ENOSYS,
{
    ENOSYS
}

/// What stands in the top half of a register makes no difference to a
/// thirty-two bit program.
pub proof fn law_top_halves_are_ignored(left: Frame, right: Frame)
    requires
        low(left.rax) == low(right.rax),
        low(left.rbx) == low(right.rbx),
        low(left.r10) == low(right.r10),
        low(left.rdx) == low(right.rdx),
        low(left.rsi) == low(right.rsi),
        low(left.rdi) == low(right.rdi),
        low(left.rbp) == low(right.rbp),
    ensures
        routed(arguments_of(left)) == routed(arguments_of(right)),
{
}

/// Where a thirty-two bit program puts a call: the number in `eax`, and the
/// arguments in `ebx`, `ecx`, `edx`, `esi`, `edi` and `ebp`, of which `ecx` comes
/// in through `r10`. Of each register only the low half is read.
pub proof fn law_narrow_registers(frame: Frame)
    ensures
        arguments_of(frame).number == frame.rax % 0x1_0000_0000,
        arguments_of(frame).ebx == frame.rbx % 0x1_0000_0000,
        arguments_of(frame).ecx == frame.r10 % 0x1_0000_0000,
        arguments_of(frame).edx == frame.rdx % 0x1_0000_0000,
        arguments_of(frame).esi == frame.rsi % 0x1_0000_0000,
        arguments_of(frame).edi == frame.rdi % 0x1_0000_0000,
        arguments_of(frame).ebp == frame.rbp % 0x1_0000_0000,
{
}

/// Each number of a thirty-two bit program is one call, and takes its arguments
/// in the order of the call's prototype. A mapping counts its place in the file
/// in pages. Whether a thread or the program is to end, the program does.
pub proof fn law_narrow_numbers(arguments: Arguments)
    requires
        arguments.ebp < 0x1_0000_0000,
    ensures
        ({
            let a = arguments;
            let found = routed(a);
            &&& a.number == 1 ==> found == Found::Call(Call::Exit { status: a.ebx })
            &&& a.number == 3 ==> found == Found::Call(
                Call::Read { descriptor: a.ebx, buffer: a.ecx, length: a.edx },
            )
            &&& a.number == 4 ==> found == Found::Call(
                Call::Write { descriptor: a.ebx, buffer: a.ecx, length: a.edx },
            )
            &&& a.number == 5 ==> found == Found::Call(
                Call::Openat { directory: 0xFFFF_FF9C, path: a.ebx, flags: a.ecx },
            )
            &&& a.number == 6 ==> found == Found::Call(Call::Close { descriptor: a.ebx })
            &&& a.number == 10 ==> found == Found::Call(
                Call::Unlinkat { directory: 0xFFFF_FF9C, path: a.ebx },
            )
            &&& a.number == 19 ==> found == Found::Call(
                Call::Lseek { descriptor: a.ebx, offset: a.ecx, whence: a.edx },
            )
            &&& a.number == 20 ==> found == Found::Call(Call::Getpid)
            &&& a.number == 24 ==> found == Found::Call(Call::Answer(0))
            &&& a.number == 33 ==> found == Found::Call(
                Call::Faccessat { directory: 0xFFFF_FF9C, path: a.ebx },
            )
            &&& a.number == 39 ==> found == Found::Call(
                Call::Mkdirat { directory: 0xFFFF_FF9C, path: a.ebx },
            )
            &&& a.number == 40 ==> found == Found::Call(
                Call::Unlinkat { directory: 0xFFFF_FF9C, path: a.ebx },
            )
            &&& a.number == 41 ==> found == Found::Call(Call::Dup { descriptor: a.ebx })
            &&& a.number == 42 ==> found == Found::Call(Call::Pipe2 { ends: a.ebx, flags: 0 })
            &&& a.number == 45 ==> found == Found::Call(Call::Answer(ENOMEM))
            &&& a.number == 47 ==> found == Found::Call(Call::Answer(0))
            &&& a.number == 49 ==> found == Found::Call(Call::Answer(0))
            &&& a.number == 50 ==> found == Found::Call(Call::Answer(0))
            &&& a.number == 54 ==> found == Found::Call(Call::Answer(ENOTTY))
            &&& a.number == 63 ==> found == Found::Call(Call::Dup2 { from: a.ebx, to: a.ecx })
            &&& a.number == 91 ==> found == Found::Call(
                Call::Munmap { address: a.ebx, length: a.ecx },
            )
            &&& a.number == 122 ==> found == Found::Call(Call::Uname { buffer: a.ebx })
            &&& a.number == 125 ==> found == Found::Call(
                Call::Mprotect { address: a.ebx, length: a.ecx, protection: a.edx },
            )
            &&& a.number == 158 ==> found == Found::Call(Call::SchedYield)
            &&& a.number == 183 ==> found == Found::Call(
                Call::Getcwd { buffer: a.ebx, size: a.ecx },
            )
            &&& a.number == 192 ==> found == Found::Call(
                Call::Mmap {
                    address: a.ebx,
                    length: a.ecx,
                    protection: a.edx,
                    flags: a.esi,
                    descriptor: a.edi,
                    offset: (4096 * a.ebp) as u64,
                },
            )
            &&& a.number == 224 ==> found == Found::Call(Call::Gettid)
            &&& a.number == 243 ==> found == Found::ThreadArea
            &&& a.number == 252 ==> found == Found::Call(Call::Exit { status: a.ebx })
            &&& a.number == 258 ==> found == Found::Call(Call::Gettid)
            &&& a.number == 295 ==> found == Found::Call(
                Call::Openat { directory: a.ebx, path: a.ecx, flags: a.edx },
            )
            &&& a.number == 331 ==> found == Found::Call(
                Call::Pipe2 { ends: a.ebx, flags: a.ecx },
            )
            &&& a.number == 355 ==> found == Found::Call(
                Call::Getrandom { buffer: a.ebx, length: a.ecx },
            )
        }),
{
}

/// No other number is a call of a thirty-two bit program.
pub proof fn law_no_other_narrow_number_is_a_call(arguments: Arguments)
    ensures
        routed(arguments) == Found::Unknown <==> {
            &&& arguments.number != 1
            &&& arguments.number != 3
            &&& arguments.number != 4
            &&& arguments.number != 5
            &&& arguments.number != 6
            &&& arguments.number != 10
            &&& arguments.number != 19
            &&& arguments.number != 20
            &&& arguments.number != 24
            &&& arguments.number != 33
            &&& arguments.number != 39
            &&& arguments.number != 40
            &&& arguments.number != 41
            &&& arguments.number != 42
            &&& arguments.number != 45
            &&& arguments.number != 47
            &&& arguments.number != 49
            &&& arguments.number != 50
            &&& arguments.number != 54
            &&& arguments.number != 63
            &&& arguments.number != 91
            &&& arguments.number != 122
            &&& arguments.number != 125
            &&& arguments.number != 158
            &&& arguments.number != 183
            &&& arguments.number != 192
            &&& arguments.number != 224
            &&& arguments.number != 243
            &&& arguments.number != 252
            &&& arguments.number != 258
            &&& arguments.number != 295
            &&& arguments.number != 331
            &&& arguments.number != 355
        },
        routed(arguments) is Call <==> routed(arguments) != Found::Unknown && arguments.number
            != 243,
{
}

} // verus!
