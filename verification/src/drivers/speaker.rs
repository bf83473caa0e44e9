//! The speaker: a square wave at one frequency.
//!
//! Two bytes of a divisor start a tone, and two bits of a latch let it out. The
//! other six bits of the latch belong to other hardware and are kept.
use vstd::prelude::*;

use crate::count::{count, counted};
use crate::drivers::port::Out;

verus! {

/// The timer's channel-two data port.
pub const CHANNEL_2: u16 = 0x42;

/// The timer's command port.
pub const COMMAND: u16 = 0x43;

/// The port whose low two bits latch the speaker.
pub const LATCH: u16 = 0x61;

/// Channel two, both bytes, square wave, binary.
pub const SQUARE_WAVE: u8 = 0xB6;

/// The frequency the timer counts at.
pub const TIMER_HZ: u32 = 1_193_182;

/// The lowest tone.
pub const LOWEST_HZ: u32 = 20;

/// The highest tone.
pub const HIGHEST_HZ: u32 = 20_000;

/// The longest tone, in milliseconds.
pub const LONGEST_MS: u64 = 5_000;

/// What was played.
pub struct State {
    played: u64,
    present: bool,
}

/// The same, as a value.
pub struct Model {
    /// Tones played.
    pub played: u64,
    /// Whether the speaker has been used at all.
    pub present: bool,
}

impl View for State {
    type V = Model;

    closed spec fn view(&self) -> Model {
        Model { played: self.played, present: self.present }
    }
}

impl State {
    /// Silence.
    pub fn new() -> (state: Self)
        ensures
            state@ == (Model { played: 0, present: false }),
    {
        State { played: 0, present: false }
    }
}

/// Tones played, and whether the speaker has been used at all.
pub fn statistics(state: &State) -> (counts: (u64, bool))
    ensures
        counts == (state@.played, state@.present),
{
    (state.played, state.present)
}

/// The tone that is played for one that was asked for.
pub open spec fn audible(hertz: u32) -> u32 {
    if hertz < LOWEST_HZ {
        LOWEST_HZ
    } else if hertz > HIGHEST_HZ {
        HIGHEST_HZ
    } else {
        hertz
    }
}

/// What the timer divides by for a tone: sixteen bits, and never zero, which
/// would mean the lowest there is.
pub open spec fn divisor_of(hertz: u32) -> u32 {
    let divisor = TIMER_HZ / audible(hertz);
    if divisor > 0xFFFF {
        0xFFFF
    } else if divisor == 0 {
        1
    } else {
        divisor
    }
}

/// Start a tone: what to write, in order, before the latch is opened with
/// [`latch_open`]. The caller stops it.
pub fn start(state: &mut State, hertz: u32) -> (writes: Vec<Out>)
    ensures
        writes@ == seq![
            Out { port: COMMAND, value: SQUARE_WAVE },
            Out { port: CHANNEL_2, value: (divisor_of(hertz) % 256) as u8 },
            Out { port: CHANNEL_2, value: (divisor_of(hertz) / 256) as u8 },
        ],
        final(state)@ == (Model { played: counted(old(state)@.played, 1), present: true }),
{
    let tone: u32 = if hertz < LOWEST_HZ {
        LOWEST_HZ
    } else if hertz > HIGHEST_HZ {
        HIGHEST_HZ
    } else {
        hertz
    };
    let exact: u32 = TIMER_HZ / tone;
    let divisor: u32 = if exact > 0xFFFF {
        0xFFFF
    } else if exact == 0 {
        1
    } else {
        exact
    };
    let mut writes: Vec<Out> = Vec::new();
    writes.push(Out { port: COMMAND, value: SQUARE_WAVE });
    writes.push(Out { port: CHANNEL_2, value: (divisor % 256) as u8 });
    writes.push(Out { port: CHANNEL_2, value: (divisor / 256) as u8 });
    state.present = true;
    state.played = count(state.played, 1);
    assert(writes@ =~= seq![
        Out { port: COMMAND, value: SQUARE_WAVE },
        Out { port: CHANNEL_2, value: (divisor_of(hertz) % 256) as u8 },
        Out { port: CHANNEL_2, value: (divisor_of(hertz) / 256) as u8 },
    ]);
    writes
}

/// Open the latch, given what it reads as: what to write, unless it is open.
pub fn latch_open(latch: u8) -> (write: Option<Out>)
    ensures
        write == if latch % 4 == 3 {
            None
        } else {
            Some(Out { port: LATCH, value: (latch - latch % 4 + 3) as u8 })
        },
{
    if latch % 4 == 3 {
        None
    } else {
        Some(Out { port: LATCH, value: latch - latch % 4 + 3 })
    }
}

/// Stop whatever is playing, given what the latch reads as.
pub fn stop(latch: u8) -> (write: Out)
    ensures
        write == (Out { port: LATCH, value: (latch - latch % 4) as u8 }),
{
    Out { port: LATCH, value: latch - latch % 4 }
}

/// Play one tone for a while: how long to wait between starting it and stopping
/// it.
pub fn tone(milliseconds: u64) -> (wait: u64)
    ensures
        wait == if milliseconds < LONGEST_MS {
            milliseconds
        } else {
            LONGEST_MS
        },
{
    if milliseconds < LONGEST_MS {
        milliseconds
    } else {
        LONGEST_MS
    }
}

/// Opening and closing the latch changes its two bits and no other.
pub proof fn law_the_latch_keeps_the_other_bits(latch: u8)
    ensures
        ((latch - latch % 4 + 3) as u8) / 4 == latch / 4,
        ((latch - latch % 4) as u8) / 4 == latch / 4,
{
}

/// Every tone that is asked for has a divisor of sixteen bits that is not zero,
/// and the tone it gives is the nearest one at or above the one wanted: one
/// step lower would be below it, but where the divisor is at its largest.
pub proof fn law_divisors_are_of_sixteen_bits(hertz: u32)
    ensures
        1 <= divisor_of(hertz) <= 0xFFFF,
        divisor_of(hertz) * audible(hertz) <= TIMER_HZ,
        divisor_of(hertz) < 0xFFFF ==> (divisor_of(hertz) + 1) * audible(hertz) > TIMER_HZ,
{
    let tone = audible(hertz) as int;
    let whole = TIMER_HZ as int / tone;
    vstd::arithmetic::div_mod::lemma_fundamental_div_mod(TIMER_HZ as int, tone);
    assert(tone * whole == whole * tone) by (nonlinear_arith);
    assert((whole + 1) * tone == whole * tone + tone) by (nonlinear_arith);
    assert(whole >= 1) by (nonlinear_arith)
        requires
            tone * whole + (TIMER_HZ as int) % tone == TIMER_HZ,
            (TIMER_HZ as int) % tone < tone,
            1 <= tone <= 20_000,
            TIMER_HZ == 1_193_182,
    ;
    if whole > 0xFFFF {
        assert(0xFFFF * tone <= whole * tone) by (nonlinear_arith)
            requires
                0xFFFF <= whole,
                tone >= 1,
        ;
    }
}

/// The ports and the command of the speaker, and the bounds of what it plays.
pub proof fn law_ports_of_the_speaker()
    ensures
        CHANNEL_2 == 0x42,
        COMMAND == 0x43,
        LATCH == 0x61,
        SQUARE_WAVE == 0xB6,
        LONGEST_MS == 5000,
{
}

/// A pitch that can be heard is played as it is; one outside of 20 to 20000 hertz as
/// the nearest of the two.
pub proof fn law_what_can_be_heard(hertz: u32)
    ensures
        20 <= hertz <= 20_000 ==> audible(hertz) == hertz,
        hertz < 20 ==> audible(hertz) == 20,
        hertz > 20_000 ==> audible(hertz) == 20_000,
{
}

/// The timer is divided by the whole number that comes closest from below to its own
/// 1193182 hertz over the pitch.
pub proof fn law_what_the_timer_is_divided_by(hertz: u32)
    requires
        20 <= hertz <= 20_000,
    ensures
        divisor_of(hertz) * hertz <= 1_193_182 < (divisor_of(hertz) + 1) * hertz,
{
    law_divisors_are_of_sixteen_bits(hertz);
    let whole = 1_193_182u32 / hertz;
    assert(whole < 0xFFFF) by (nonlinear_arith)
        requires
            whole == 1_193_182u32 / hertz,
            hertz >= 20,
    ;
}

} // verus!
