//! What the sound card is told, in its own numbers: 48000 frames a second, two
//! samples a frame, and which port is for what.
use vstd::prelude::*;

#[allow(unused_imports)]
use super::{
    configuring, deadline_of, described, frames_of, half_period, is_controller, level, linking,
    reachable, says_ready, started, wave, Card, Descriptor, Event, Progress, Stage, Turn,
};
#[allow(unused_imports)]
use crate::drivers::pci::Device;
#[allow(unused_imports)]
use crate::drivers::port::{Heard, PortWrite, Want};

verus! {

/// A millisecond is 48 frames, and a tone is 32768 at most.
pub proof fn law_frames_in_a_tone(milliseconds: u64)
    ensures
        milliseconds <= 682 ==> frames_of(milliseconds) == 48 * milliseconds,
        milliseconds >= 683 ==> frames_of(milliseconds) == 32_768,
{
}

/// Half a period of a pitch is the frames that fit twice as often as its hertz into a
/// second, and at least one.
pub proof fn law_half_a_period(hertz: u32)
    requires
        hertz > 0,
    ensures
        half_period(hertz) >= 1,
        half_period(hertz) > 1 ==> half_period(hertz) * (hertz * 2) <= 48_000,
        48_000 < (half_period(hertz) + 1) * (hertz * 2),
{
    let twice = hertz * 2;
    let half = 48_000int / twice;
    vstd::arithmetic::div_mod::lemma_fundamental_div_mod(48_000, twice);
    vstd::arithmetic::div_mod::lemma_mod_bound(48_000, twice);
    assert((half + 1) * twice == half * twice + twice) by (nonlinear_arith);
    assert(twice * half == half * twice) by (nonlinear_arith);
    if half < 1 {
        assert((1 + 1) * twice >= (half + 1) * twice) by (nonlinear_arith)
            requires
                half < 1,
                twice > 0,
        ;
    }
}

/// The wave is a square one: it starts at 8192, is turned over after every half
/// period, and has no other level.
pub proof fn law_a_square_wave(frame: int, hertz: u32)
    requires
        hertz > 0,
        frame >= 0,
    ensures
        level(frame, hertz) == 8192 || level(frame, hertz) == -8192,
        frame < half_period(hertz) ==> level(frame, hertz) == 8192,
        level(frame + half_period(hertz), hertz) == -level(frame, hertz),
{
    law_half_a_period(hertz);
    let half = half_period(hertz);
    vstd::arithmetic::div_mod::lemma_div_plus_one(frame, half);
    assert(half + frame == frame + half);
    if frame < half {
        vstd::arithmetic::div_mod::lemma_basic_div(frame, half);
    }
}

/// Both channels have the same sample, frame after frame.
pub proof fn law_both_channels_are_the_same(frames: u64, hertz: u32, frame: int)
    requires
        0 <= frame < frames,
    ensures
        wave(frames, hertz).len() == 2 * frames,
        wave(frames, hertz)[2 * frame] == level(frame, hertz),
        wave(frames, hertz)[2 * frame + 1] == level(frame, hertz),
{
}

/// The list of a tone starts at the buffer, each entry goes on where the one before
/// it ended, at two bytes a sample, and each says that the card is to tell when it is
/// done.
pub proof fn law_the_list_goes_on(buffer: u64, frames: u64, done: u64, room: nat, i: int)
    requires
        buffer + 131_072 < 0x1_0000_0000,
        done <= frames <= 32_768,
        0 <= i < described(buffer, frames, done, room).len(),
    ensures
        ({
            let list = described(buffer, frames, done, room);
            &&& list[0].address == buffer + 4 * done
            &&& list[i].samples % 2 == 0
            &&& 0 < list[i].samples <= 65_534
            &&& list[i].flags == 0x8000
            &&& i + 1 < list.len() ==> list[i + 1].address == list[i].address + 2 * list[i].samples
        }),
    decreases room,
{
    let take = if frames - done < 32_767 {
        frames - done
    } else {
        32_767
    };
    let rest = described(buffer, frames, (done + take) as u64, (room - 1) as nat);
    if i > 0 {
        law_the_list_goes_on(buffer, frames, (done + take) as u64, (room - 1) as nat, i - 1);
    } else if rest.len() > 0 {
        law_the_list_goes_on(buffer, frames, (done + take) as u64, (room - 1) as nat, 0);
    }
}

/// What starts a tone: what was left over is cleared, the card is told where the list
/// is and which entry is the last, and then to run and to tell.
pub proof fn law_what_starts_a_tone(card: Card, entries: int)
    requires
        card.wf(),
        1 <= entries <= 32,
    ensures
        started(card, entries).len() == 4,
        started(card, entries)[0] == (PortWrite::Word { port: (card.bus + 0x16) as u16, word: 0x0D }),
        started(card, entries)[1] == (PortWrite::Long {
            port: (card.bus + 0x10) as u16,
            long: card.list as u32,
        }),
        started(card, entries)[2] == (PortWrite::Byte {
            port: (card.bus + 0x15) as u16,
            byte: (entries - 1) as u8,
        }),
        started(card, entries)[3] == (PortWrite::Byte { port: (card.bus + 0x1B) as u16, byte: 0x15 }),
{
}

/// What brings the card up: the link, then the codec at full volume with nothing
/// muted, and the stream is reset.
pub proof fn law_what_is_written_to_bring_it_up(mixer: u16, bus: u16, status: u32)
    requires
        mixer <= 0xFFC0,
        bus <= 0xFFC0,
    ensures
        linking(bus) == (PortWrite::Long { port: (bus + 0x2C) as u16, long: 2 }),
        configuring(mixer, bus) == seq![
            PortWrite::Word { port: mixer, word: 0 },
            PortWrite::Word { port: (mixer + 2) as u16, word: 0 },
            PortWrite::Word { port: (mixer + 0x18) as u16, word: 0 },
            PortWrite::Byte { port: (bus + 0x1B) as u16, byte: 2 },
        ],
        says_ready(status) <==> status & 0x100 != 0,
{
    assert((status / 0x100) % 2 == 1 <==> status & 0x100 != 0) by (bit_vector);
}

/// What bringing the card up asks for, and how often it looks at a register before it
/// gives up.
pub proof fn law_what_bringing_up_asks(card: Progress)
    requires
        card.sound(),
    ensures
        card.stage is List ==> card.turn() == Turn::Want(Want::Block(0)),
        card.stage is Buffer ==> card.turn() == Turn::Want(Want::Block(5)),
        card.stage == Stage::Link(0) ==> card.turn() == Turn::Want(
            Want::Read32((card.bus + 0x30) as u16),
        ),
        card.stage is Link && card.stage != Stage::Link(0) ==> card.turn() == Turn::Again(
            Want::Read32((card.bus + 0x30) as u16),
        ),
        card.stage == Stage::Stream(0) ==> card.turn() == Turn::Want(
            Want::Read8((card.bus + 0x1B) as u16),
        ),
        card.stage is Stream && card.stage != Stage::Stream(0) ==> card.turn() == Turn::Again(
            Want::Read8((card.bus + 0x1B) as u16),
        ),
        card.stage is Up ==> card.turn() == Turn::Up,
        card.stage is Down ==> card.turn() == Turn::Down,
{
}

/// What is made of each answer: memory is kept where the card can reach it, a codec
/// that never says that it is ready is given up, and a stream that stays in its reset
/// is used all the same.
pub proof fn law_what_is_made_of_an_answer(card: Progress, value: u32, block: u64)
    requires
        card.sound(),
    ensures
        ({
            let given = card.told(Heard::Block(Some(block)));
            let none = card.told(Heard::Block(None));
            &&& card.stage is List ==> given.stage is Buffer && given.list == block && none.stage
                is Down
            &&& card.stage is Buffer ==> none.stage is Down && given.buffer == block && given.list
                == card.list
            &&& card.stage is Buffer && reachable(card.list, block) ==> given.stage == Stage::Link(0)
                && card.writes(Heard::Block(Some(block))) == seq![linking(card.bus)]
            &&& card.stage is Buffer && !reachable(card.list, block) ==> given.stage is Down
                && card.writes(Heard::Block(Some(block))).len() == 0
        }),
        ({
            let read = card.told(Heard::Read(value));
            &&& card.stage matches Stage::Link(looks) ==> {
                &&& says_ready(value) ==> read.stage == Stage::Stream(0) && card.writes(
                    Heard::Read(value),
                ) == configuring(card.mixer, card.bus)
                &&& !says_ready(value) && looks < 99_999 ==> read.stage == Stage::Link(
                    (looks + 1) as u32,
                )
                &&& !says_ready(value) && looks == 99_999 ==> read.stage is Down
                &&& !says_ready(value) ==> card.writes(Heard::Read(value)).len() == 0
            }
            &&& card.stage matches Stage::Stream(looks) ==> {
                &&& (value / 2) % 2 == 1 && looks < 99_999 ==> read.stage == Stage::Stream(
                    (looks + 1) as u32,
                )
                &&& (value / 2) % 2 == 0 || looks == 99_999 ==> read.stage is Up
                &&& card.writes(Heard::Read(value)).len() == 0
            }
            &&& read.bus == card.bus && read.mixer == card.mixer
        }),
        reachable(card.list, block) <==> card.list < 0x1_0000_0000 && block + 131_072
            < 0x1_0000_0000,
{
}

/// Which devices are such cards, and how long a tone is waited for: twice as long as
/// it is, and a fifth of a second.
pub proof fn law_which_devices_and_how_long(device: Device, now: u64, milliseconds: u64)
    ensures
        is_controller(device) <==> device.vendor == 0x8086 && (device.device == 0x2415
            || device.device == 0x2425 || device.device == 0x2445),
        now + 2 * milliseconds + 200 <= u64::MAX ==> deadline_of(now, milliseconds) == now + 2
            * milliseconds + 200,
        now + 2 * milliseconds + 200 > u64::MAX ==> deadline_of(now, milliseconds) == u64::MAX,
{
}

/// A card that is up was written to five times and no more: its link first, and the
/// other four one after the other, right after it was read to be ready.
pub proof fn law_what_a_card_that_is_up_was_told(card: Progress, i: int)
    requires
        card.sound(),
        card.stage is Up,
        0 <= i < card.history.len(),
    ensures
        ({
            let ready = card.heard_ready;
            &&& 0 < ready < card.history.len()
            &&& card.history[ready] matches Event::Read { port, value } && port == card.bus + 0x30
                && (value / 0x100) % 2 == 1
            &&& card.history[i] is Wrote <==> i == 0 || ready < i <= ready + 4
            &&& i == 0 ==> card.history[i] == Event::Wrote(
                PortWrite::Long { port: (card.bus + 0x2C) as u16, long: 2 },
            )
            &&& ready < i <= ready + 4 ==> card.history[i] == Event::Wrote(
                configuring(card.mixer, card.bus)[i - ready - 1],
            )
        }),
{
}

} // verus!
