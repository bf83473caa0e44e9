//! The PS/2 mouse.
//!
//! It sends packets of three bytes without any framing: a byte of flags, and how
//! far it moved each way as nine-bit numbers whose top bits are among the flags.
//! One bit of the first byte is always set, and that is all there is to find the
//! start of a packet by.
use vstd::prelude::*;

use crate::bytes::{le32, put_u32};
#[allow(unused_imports)]
use crate::bytes::{lemma_numbers_among_bytes, u32_at};
use crate::count::{count, counted};
use crate::drivers::port::Out;

verus! {

/// The data port, shared with the keyboard.
pub const DATA_PORT: u16 = 0x60;

/// The status and command port.
pub const COMMAND_PORT: u16 = 0x64;

/// The interrupt the mouse is wired to.
pub const MOUSE_IRQ: u8 = 12;

/// Turn the mouse's port on.
pub const ENABLE_AUXILIARY: u8 = 0xA8;

/// Read the controller's configuration.
pub const READ_CONFIGURATION: u8 = 0x20;

/// Write it back.
pub const WRITE_CONFIGURATION: u8 = 0x60;

/// The next byte of data is for the mouse.
pub const TO_MOUSE: u8 = 0xD4;

/// Back to a known state.
pub const SET_DEFAULTS: u8 = 0xF6;

/// Start sending packets.
pub const ENABLE_REPORTING: u8 = 0xF4;

/// What the mouse answers a command with.
pub const ACKNOWLEDGE: u8 = 0xFA;

/// How often the controller is looked at before it is given up.
pub const PATIENCE: u32 = 100_000;

/// Bytes a movement takes on a channel.
pub const SIZE: usize = 12;

/// One bit of a byte.
pub open spec fn bit(byte: u8, index: int) -> bool {
    if index == 0 {
        byte % 2 == 1
    } else if index == 1 {
        (byte / 2) % 2 == 1
    } else if index == 2 {
        (byte / 4) % 2 == 1
    } else if index == 3 {
        (byte / 8) % 2 == 1
    } else if index == 4 {
        (byte / 16) % 2 == 1
    } else if index == 5 {
        (byte / 32) % 2 == 1
    } else if index == 6 {
        (byte / 64) % 2 == 1
    } else {
        byte >= 128
    }
}

/// Whether the controller has a byte to be read.
pub open spec fn has_byte(status: u8) -> bool {
    bit(status, 0)
}

/// Whether the controller is ready to be told something.
pub open spec fn is_ready(status: u8) -> bool {
    !bit(status, 1)
}

/// Whether the byte to be read is the mouse's: the only thing that tells it from
/// the keyboard's.
pub open spec fn from_mouse(status: u8) -> bool {
    bit(status, 5)
}

/// One thing the mouse did.
#[derive(Debug, Clone, Copy, PartialEq, Eq, Structural)]
pub struct Movement {
    /// How far it moved, in its own units.
    pub dx: i32,
    /// The same, with up positive.
    pub dy: i32,
    pub left: bool,
    pub right: bool,
    pub middle: bool,
}

/// The number that a byte and its sign are together.
pub open spec fn extended(value: u8, negative: bool) -> i32 {
    if negative {
        (value - 256) as i32
    } else {
        value as i32
    }
}

fn sign_extend(value: u8, negative: bool) -> (number: i32)
    ensures
        number == extended(value, negative),
{
    if negative {
        value as i32 - 256
    } else {
        value as i32
    }
}

/// A packet being put together, where movements go, and the counts.
pub struct State {
    first: u8,
    second: u8,
    have: u8,
    route: Option<u64>,
    present: bool,
    bytes: u64,
    packets: u64,
    desynchronised: u64,
    overflows: u64,
}

/// The same, as a value.
#[verifier::ext_equal]
pub struct Model {
    /// The bytes of the packet so far.
    pub packet: Seq<u8>,
    /// Where movements go, once something has asked.
    pub route: Option<u64>,
    /// Whether a mouse answered.
    pub present: bool,
    /// Bytes taken.
    pub bytes: u64,
    /// Whole packets.
    pub packets: u64,
    /// First bytes that were not first bytes.
    pub desynchronised: u64,
    /// Packets whose movement did not fit.
    pub overflows: u64,
}

impl View for State {
    type V = Model;

    closed spec fn view(&self) -> Model {
        Model {
            packet: if self.have == 0 {
                Seq::empty()
            } else if self.have == 1 {
                seq![self.first]
            } else {
                seq![self.first, self.second]
            },
            route: self.route,
            present: self.present,
            bytes: self.bytes,
            packets: self.packets,
            desynchronised: self.desynchronised,
            overflows: self.overflows,
        }
    }
}

/// The movement that three bytes are.
pub open spec fn movement_of(first: u8, second: u8, third: u8) -> Movement {
    Movement {
        dx: extended(second, bit(first, 4)),
        dy: extended(third, bit(first, 5)),
        left: bit(first, 0),
        right: bit(first, 1),
        middle: bit(first, 2),
    }
}

/// What a byte makes of the packet, and the movement it completes.
pub open spec fn pushed(before: Model, byte: u8) -> (Model, Option<Movement>) {
    if before.packet.len() == 0 && !bit(byte, 3) {
        (Model { desynchronised: counted(before.desynchronised, 1), ..before }, None)
    } else if before.packet.len() < 2 {
        (Model { packet: before.packet.push(byte), ..before }, None)
    } else if bit(before.packet[0], 6) || bit(before.packet[0], 7) {
        (
            Model {
                packet: Seq::empty(),
                overflows: counted(before.overflows, 1),
                ..before
            },
            None,
        )
    } else {
        (
            Model { packet: Seq::empty(), ..before },
            Some(movement_of(before.packet[0], before.packet[1], byte)),
        )
    }
}

impl State {
    /// A packet is never whole.
    pub closed spec fn wf(&self) -> bool {
        self.have <= 2
    }

    /// No mouse yet.
    pub fn new() -> (state: Self)
        ensures
            state.wf(),
            state@ == (Model {
                packet: Seq::empty(),
                route: None,
                present: false,
                bytes: 0,
                packets: 0,
                desynchronised: 0,
                overflows: 0,
            }),
    {
        State {
            first: 0,
            second: 0,
            have: 0,
            route: None,
            present: false,
            bytes: 0,
            packets: 0,
            desynchronised: 0,
            overflows: 0,
        }
    }

    /// Add a byte to the packet, and give the movement it completes.
    ///
    /// A byte that cannot be the first of a packet is thrown away, which is how
    /// the stream finds its feet again after losing one. A movement too large to
    /// be told is dropped rather than believed.
    pub fn push(&mut self, byte: u8) -> (movement: Option<Movement>)
        requires
            old(self).wf(),
        ensures
            final(self).wf(),
            (final(self)@, movement) == pushed(old(self)@, byte),
    {
        if self.have == 0 && (byte / 8) % 2 == 0 {
            self.desynchronised = count(self.desynchronised, 1);
            return None;
        }
        if self.have == 0 {
            self.first = byte;
            self.have = 1;
            assert(self@.packet =~= old(self)@.packet.push(byte));
            return None;
        }
        if self.have == 1 {
            self.second = byte;
            self.have = 2;
            assert(self@.packet =~= old(self)@.packet.push(byte));
            return None;
        }
        self.have = 0;
        let first: u8 = self.first;
        if (first / 64) % 2 == 1 || first >= 128 {
            self.overflows = count(self.overflows, 1);
            return None;
        }
        Some(
            Movement {
                dx: sign_extend(self.second, (first / 16) % 2 == 1),
                dy: sign_extend(byte, (first / 32) % 2 == 1),
                left: first % 2 == 1,
                right: (first / 2) % 2 == 1,
                middle: (first / 4) % 2 == 1,
            },
        )
    }
}

/// Send movements to this endpoint from now on.
pub fn route_to(state: &mut State, endpoint: u64)
    requires
        old(state).wf(),
    ensures
        final(state).wf(),
        final(state)@ == (Model { route: Some(endpoint), ..old(state)@ }),
{
    state.route = Some(endpoint);
}

/// Whether a byte is to be taken on this interrupt: there is one, and it is the
/// mouse's.
pub fn accepts(status: u8) -> (take: bool)
    ensures
        take == (has_byte(status) && from_mouse(status)),
{
    status % 2 == 1 && (status / 32) % 2 == 1
}

/// A number of thirty-two bits, as the bits of a signed one.
pub open spec fn unsigned(value: i32) -> u32 {
    if value < 0 {
        (value + 0x1_0000_0000) as u32
    } else {
        value as u32
    }
}

/// The buttons of a movement.
pub open spec fn buttons(movement: Movement) -> u32 {
    (if movement.left {
        1u32
    } else {
        0
    } + if movement.right {
        2u32
    } else {
        0
    } + if movement.middle {
        4u32
    } else {
        0
    }) as u32
}

/// What a movement looks like on a channel: how far each way, and the buttons.
pub open spec fn message(movement: Movement) -> Seq<u8> {
    le32(unsigned(movement.dx)) + le32(unsigned(movement.dy)) + le32(buttons(movement))
}

fn unsign(value: i32) -> (bits: u32)
    ensures
        bits == unsigned(value),
{
    if value < 0 {
        (value as i64 + 0x1_0000_0000) as u32
    } else {
        value as u32
    }
}

/// A byte arrived: what to send and to which endpoint, where it completes a
/// movement and something has asked for them.
pub fn on_interrupt(state: &mut State, byte: u8) -> (sent: Option<(u64, Vec<u8>)>)
    requires
        old(state).wf(),
    ensures
        final(state).wf(),
        ({
            let (after, movement) = pushed(
                Model { bytes: counted(old(state)@.bytes, 1), ..old(state)@ },
                byte,
            );
            match movement {
                None => sent is None && final(state)@ == after,
                Some(movement) => {
                    &&& final(state)@ == Model { packets: counted(after.packets, 1), ..after }
                    &&& match after.route {
                        None => sent is None,
                        Some(endpoint) => sent matches Some((to, bytes)) && to == endpoint
                            && bytes@ == message(movement),
                    }
                },
            }
        }),
{
    state.bytes = count(state.bytes, 1);
    let movement: Movement = match state.push(byte) {
        None => return None,
        Some(movement) => movement,
    };
    state.packets = count(state.packets, 1);
    let endpoint: u64 = match state.route {
        None => return None,
        Some(endpoint) => endpoint,
    };
    let mut held: u32 = 0;
    if movement.left {
        held = held + 1;
    }
    if movement.right {
        held = held + 2;
    }
    if movement.middle {
        held = held + 4;
    }
    let mut bytes: Vec<u8> = Vec::new();
    put_u32(&mut bytes, unsign(movement.dx));
    put_u32(&mut bytes, unsign(movement.dy));
    put_u32(&mut bytes, held);
    assert(bytes@ =~= message(movement));
    Some((endpoint, bytes))
}

/// Something to do with the controller while the mouse is brought up.
#[derive(Debug, Clone, Copy, PartialEq, Eq, Structural)]
pub enum Action {
    /// Look at the status for as long as [`wait_to_write`] says.
    WaitToWrite,
    /// Write this.
    Out(Out),
    /// Look at the status for as long as [`read_byte`] says, and take the byte.
    Read,
    /// There is a mouse.
    Present,
    /// There is none.
    Absent,
}

/// What came of an action.
#[derive(Debug, Clone, Copy, PartialEq, Eq, Structural)]
pub enum Outcome {
    Done,
    /// The controller did not become ready, or had nothing.
    Nothing,
    Byte(u8),
}

/// The configuration that lets the mouse interrupt: the two bits that are the
/// mouse's, and the rest as they were.
pub open spec fn configured(existing: u8) -> u8 {
    let on = if bit(existing, 1) {
        existing as int
    } else {
        existing + 2
    };
    if bit(existing, 5) {
        (on - 32) as u8
    } else {
        on as u8
    }
}

/// What bringing the mouse up does, in order, where everything succeeds.
pub open spec fn script(existing: u8) -> Seq<Action> {
    seq![
        Action::WaitToWrite,
        Action::Out(Out { port: COMMAND_PORT, value: ENABLE_AUXILIARY }),
        Action::WaitToWrite,
        Action::Out(Out { port: COMMAND_PORT, value: READ_CONFIGURATION }),
        Action::Read,
        Action::WaitToWrite,
        Action::Out(Out { port: COMMAND_PORT, value: WRITE_CONFIGURATION }),
        Action::WaitToWrite,
        Action::Out(Out { port: DATA_PORT, value: configured(existing) }),
        Action::WaitToWrite,
        Action::Out(Out { port: COMMAND_PORT, value: TO_MOUSE }),
        Action::WaitToWrite,
        Action::Out(Out { port: DATA_PORT, value: SET_DEFAULTS }),
        Action::Read,
        Action::WaitToWrite,
        Action::Out(Out { port: COMMAND_PORT, value: TO_MOUSE }),
        Action::WaitToWrite,
        Action::Out(Out { port: DATA_PORT, value: ENABLE_REPORTING }),
        Action::Read,
        Action::Present,
    ]
}

/// How far the mouse has been brought up.
pub struct Bringup {
    at: usize,
    existing: u8,
}

/// The same, as a value.
pub struct BringupModel {
    /// How many actions are behind.
    pub at: nat,
    /// How the controller was configured.
    pub existing: u8,
}

impl View for Bringup {
    type V = BringupModel;

    closed spec fn view(&self) -> BringupModel {
        BringupModel { at: self.at as nat, existing: self.existing }
    }
}

fn act(at: usize, existing: u8) -> (action: Action)
    requires
        at < 20,
    ensures
        action == script(existing)[at as int],
{
    let configuration: u8 = {
        let on: u8 = if (existing / 2) % 2 == 1 {
            existing
        } else {
            existing + 2
        };
        if (existing / 32) % 2 == 1 {
            on - 32
        } else {
            on
        }
    };
    match at {
        0 | 2 | 5 | 7 | 9 | 11 | 14 | 16 => Action::WaitToWrite,
        1 => Action::Out(Out { port: COMMAND_PORT, value: ENABLE_AUXILIARY }),
        3 => Action::Out(Out { port: COMMAND_PORT, value: READ_CONFIGURATION }),
        4 | 13 | 18 => Action::Read,
        6 => Action::Out(Out { port: COMMAND_PORT, value: WRITE_CONFIGURATION }),
        8 => Action::Out(Out { port: DATA_PORT, value: configuration }),
        10 | 15 => Action::Out(Out { port: COMMAND_PORT, value: TO_MOUSE }),
        12 => Action::Out(Out { port: DATA_PORT, value: SET_DEFAULTS }),
        17 => Action::Out(Out { port: DATA_PORT, value: ENABLE_REPORTING }),
        _ => Action::Present,
    }
}

/// Whether an action's outcome lets the next one follow: a command to the mouse
/// has to be acknowledged.
pub open spec fn follows(at: nat, outcome: Outcome) -> bool {
    if at == 4 {
        outcome is Byte
    } else if at == 13 || at == 18 {
        outcome == Outcome::Byte(ACKNOWLEDGE)
    } else {
        outcome != Outcome::Nothing
    }
}

/// Start bringing the mouse up: the first action.
pub fn init() -> (start: (Bringup, Action))
    ensures
        start.0@.at == 0,
        start.1 == script(0)[0],
{
    (Bringup { at: 0, existing: 0 }, Action::WaitToWrite)
}

/// The next action, given what came of the last; with the last one it is known
/// whether there is a mouse.
pub fn proceed(state: &mut State, bringup: &mut Bringup, outcome: Outcome) -> (action: Action)
    requires
        old(state).wf(),
        old(bringup)@.at < 19,
    ensures
        final(state).wf(),
        ({
            let at = old(bringup)@.at;
            if !follows(at, outcome) {
                &&& action == Action::Absent
                &&& *final(bringup) == *old(bringup)
                &&& final(state)@ == old(state)@
            } else {
                &&& final(bringup)@.at == at + 1
                &&& final(bringup)@.existing == if at == 4 {
                    outcome->Byte_0
                } else {
                    old(bringup)@.existing
                }
                &&& action == script(final(bringup)@.existing)[(at + 1) as int]
                &&& final(state)@ == if at == 18 {
                    Model { present: true, ..old(state)@ }
                } else {
                    old(state)@
                }
            }
        }),
{
    let at: usize = bringup.at;
    match outcome {
        Outcome::Nothing => {
            return Action::Absent;
        },
        Outcome::Done => {
            if at == 4 || at == 13 || at == 18 {
                return Action::Absent;
            }
        },
        Outcome::Byte(byte) => {
            if (at == 13 || at == 18) && byte != ACKNOWLEDGE {
                return Action::Absent;
            }
            if at == 4 {
                bringup.existing = byte;
            }
        },
    }
    bringup.at = at + 1;
    if at == 18 {
        state.present = true;
    }
    act(at + 1, bringup.existing)
}

/// Whether the controller is ready to be told something.
pub fn can_write(status: u8) -> (ready: bool)
    ensures
        ready == is_ready(status),
{
    (status / 2) % 2 == 0
}

/// Whether the controller has a byte to be read.
pub fn can_read(status: u8) -> (ready: bool)
    ensures
        ready == has_byte(status),
{
    status % 2 == 1
}

/// What a look at the status comes to.
#[derive(Debug, Clone, Copy, PartialEq, Eq, Structural)]
pub enum Look {
    /// It is so.
    Ready,
    /// Look again.
    Again,
    /// There were enough looks.
    Never,
}

/// What a look comes to, where it may be the last.
pub open spec fn looked(ready: bool, looks: u32) -> Look {
    if ready {
        Look::Ready
    } else if looks < PATIENCE {
        Look::Again
    } else {
        Look::Never
    }
}

/// Wait until the controller can be told something, after so many looks, this one
/// among them.
pub fn wait_to_write(status: u8, looks: u32) -> (look: Look)
    ensures
        look == looked(is_ready(status), looks),
{
    if can_write(status) {
        Look::Ready
    } else if looks < PATIENCE {
        Look::Again
    } else {
        Look::Never
    }
}

/// Wait until the controller has a byte, after so many looks, this one among
/// them.
pub fn read_byte(status: u8, looks: u32) -> (look: Look)
    ensures
        look == looked(has_byte(status), looks),
{
    if can_read(status) {
        Look::Ready
    } else if looks < PATIENCE {
        Look::Again
    } else {
        Look::Never
    }
}

/// Whether a mouse answered.
pub fn is_present(state: &State) -> (present: bool)
    ensures
        present == state@.present,
{
    state.present
}

/// Bytes, packets, resynchronisations and overflows.
pub fn statistics(state: &State) -> (counts: (u64, u64, u64, u64))
    ensures
        counts == (
            state@.bytes,
            state@.packets,
            state@.desynchronised,
            state@.overflows,
        ),
{
    (state.bytes, state.packets, state.desynchronised, state.overflows)
}

/// A movement is what the mouse said it was: a nine-bit number each way.
pub proof fn law_movements_are_nine_bits(first: u8, second: u8, third: u8)
    ensures
        -256 <= movement_of(first, second, third).dx <= 255,
        -256 <= movement_of(first, second, third).dy <= 255,
{
}

/// From the start of a packet, three bytes that make one give exactly its
/// movement, and leave the stream at the start of the next.
pub proof fn law_packets_come_through(before: Model, first: u8, second: u8, third: u8)
    requires
        before.packet.len() == 0,
        bit(first, 3),
        !bit(first, 6),
        !bit(first, 7),
    ensures
        ({
            let one = pushed(before, first);
            let two = pushed(one.0, second);
            let three = pushed(two.0, third);
            &&& one.1 is None
            &&& two.1 is None
            &&& three.1 == Some(movement_of(first, second, third))
            &&& three.0.packet.len() == 0
        }),
{
}

/// However many bytes that cannot start a packet come, the next one that can
/// starts one: the stream finds its feet again.
pub proof fn law_the_stream_resynchronises(before: Model, byte: u8)
    requires
        before.packet.len() == 0,
        !bit(byte, 3),
    ensures
        pushed(before, byte).1 is None,
        pushed(before, byte).0.packet == before.packet,
{
}

/// Letting the mouse interrupt leaves what is the keyboard's in the
/// configuration as it was.
pub proof fn law_the_keyboard_stays_configured(existing: u8)
    ensures
        bit(configured(existing), 1),
        !bit(configured(existing), 5),
        bit(configured(existing), 0) == bit(existing, 0),
        bit(configured(existing), 2) == bit(existing, 2),
        bit(configured(existing), 3) == bit(existing, 3),
        bit(configured(existing), 4) == bit(existing, 4),
        bit(configured(existing), 6) == bit(existing, 6),
        bit(configured(existing), 7) == bit(existing, 7),
{
}

/// The bits of a byte, from the lowest up, and those of the controller's status: 0
/// that there is a byte, 1 that it takes none, 5 that the byte is the mouse's.
pub proof fn law_the_bits_of_a_byte(byte: u8)
    ensures
        bit(byte, 0) <==> byte & 0x01 != 0,
        bit(byte, 1) <==> byte & 0x02 != 0,
        bit(byte, 2) <==> byte & 0x04 != 0,
        bit(byte, 3) <==> byte & 0x08 != 0,
        bit(byte, 4) <==> byte & 0x10 != 0,
        bit(byte, 5) <==> byte & 0x20 != 0,
        bit(byte, 6) <==> byte & 0x40 != 0,
        bit(byte, 7) <==> byte & 0x80 != 0,
        has_byte(byte) <==> byte & 0x01 != 0,
        is_ready(byte) <==> byte & 0x02 == 0,
        from_mouse(byte) <==> byte & 0x20 != 0,
{
    assert((byte % 2 == 1 <==> byte & 0x01 != 0) && ((byte / 2) % 2 == 1 <==> byte & 0x02 != 0) && ((
    byte / 4) % 2 == 1 <==> byte & 0x04 != 0) && ((byte / 8) % 2 == 1 <==> byte & 0x08 != 0) && ((byte
        / 16) % 2 == 1 <==> byte & 0x10 != 0) && ((byte / 32) % 2 == 1 <==> byte & 0x20 != 0) && ((byte
        / 64) % 2 == 1 <==> byte & 0x40 != 0) && (byte >= 128 <==> byte & 0x80 != 0)) by (bit_vector);
}

/// What three bytes of a mouse say: the buttons left, right and middle in the lowest
/// bits of the first, how far it went across in the second and how far up in the
/// third, each with its sign in the first.
pub proof fn law_what_three_bytes_say(first: u8, second: u8, third: u8)
    ensures
        ({
            let movement = movement_of(first, second, third);
            &&& movement.left <==> first & 0x01 != 0
            &&& movement.right <==> first & 0x02 != 0
            &&& movement.middle <==> first & 0x04 != 0
            &&& first & 0x10 == 0 ==> movement.dx == second
            &&& first & 0x10 != 0 ==> movement.dx == second - 256
            &&& first & 0x20 == 0 ==> movement.dy == third
            &&& first & 0x20 != 0 ==> movement.dy == third - 256
        }),
{
    law_the_bits_of_a_byte(first);
}

/// What becomes of a byte: a first one without bit three is none; two are kept; the
/// third makes a movement, unless the mouse says that it went too far to count, and
/// the next one is a first one again.
pub proof fn law_what_becomes_of_a_byte(before: Model, byte: u8)
    requires
        before.packet.len() <= 2,
        before.desynchronised < u64::MAX,
        before.overflows < u64::MAX,
    ensures
        ({
            let (after, movement) = pushed(before, byte);
            &&& before.packet.len() == 0 && byte & 0x08 == 0 ==> movement is None && after == (Model {
                desynchronised: (before.desynchronised + 1) as u64,
                ..before
            })
            &&& before.packet.len() == 0 && byte & 0x08 != 0 || before.packet.len() == 1
                ==> movement is None && after == (Model { packet: before.packet.push(byte), ..before })
            &&& before.packet.len() == 2 && before.packet[0] & 0xC0 != 0 ==> movement is None && after
                == (Model {
                packet: Seq::empty(),
                overflows: (before.overflows + 1) as u64,
                ..before
            })
            &&& before.packet.len() == 2 && before.packet[0] & 0xC0 == 0 ==> movement == Some(
                movement_of(before.packet[0], before.packet[1], byte),
            ) && after == (Model { packet: Seq::empty(), ..before })
        }),
{
    law_the_bits_of_a_byte(byte);
    if before.packet.len() == 2 {
        let first = before.packet[0];
        law_the_bits_of_a_byte(first);
        assert(first & 0xC0 != 0 <==> first & 0x40 != 0 || first & 0x80 != 0) by (bit_vector);
    }
}

/// What is sent of a movement: twelve bytes, with how far across, how far up and the
/// buttons, 1 for left, 2 for right and 4 for middle; a distance below zero in two's
/// complement.
pub proof fn law_what_is_sent_of_a_movement(movement: Movement)
    ensures
        message(movement).len() == 12,
        u32_at(message(movement), 0) == unsigned(movement.dx),
        u32_at(message(movement), 4) == unsigned(movement.dy),
        u32_at(message(movement), 8) == buttons(movement),
        buttons(movement) % 2 == 1 <==> movement.left,
        (buttons(movement) / 2) % 2 == 1 <==> movement.right,
        (buttons(movement) / 4) % 2 == 1 <==> movement.middle,
        buttons(movement) < 8,
        movement.dx >= 0 ==> unsigned(movement.dx) == movement.dx,
        movement.dx < 0 ==> unsigned(movement.dx) == 0x1_0000_0000 + movement.dx,
{
    let bytes = message(movement);
    lemma_numbers_among_bytes(bytes, 0);
    lemma_numbers_among_bytes(bytes, 4);
    lemma_numbers_among_bytes(bytes, 8);
    assert(bytes.subrange(0, 4) =~= le32(unsigned(movement.dx)));
    assert(bytes.subrange(4, 8) =~= le32(unsigned(movement.dy)));
    assert(bytes.subrange(8, 12) =~= le32(buttons(movement)));
}

/// How the mouse is brought up, write by write: its port is enabled, the
/// configuration is read and written back with its interrupt on, and it is told to
/// take its defaults and to report, to each of which it answers 0xFA.
pub proof fn law_how_the_mouse_is_brought_up(existing: u8, outcome: Outcome)
    ensures
        ({
            let steps = script(existing);
            &&& steps.len() == 20
            &&& steps[1] == Action::Out(Out { port: 0x64, value: 0xA8 })
            &&& steps[3] == Action::Out(Out { port: 0x64, value: 0x20 })
            &&& steps[4] == Action::Read
            &&& steps[6] == Action::Out(Out { port: 0x64, value: 0x60 })
            &&& steps[8] == Action::Out(Out { port: 0x60, value: configured(existing) })
            &&& steps[10] == Action::Out(Out { port: 0x64, value: 0xD4 })
            &&& steps[12] == Action::Out(Out { port: 0x60, value: 0xF6 })
            &&& steps[13] == Action::Read
            &&& steps[15] == Action::Out(Out { port: 0x64, value: 0xD4 })
            &&& steps[17] == Action::Out(Out { port: 0x60, value: 0xF4 })
            &&& steps[18] == Action::Read
            &&& steps[19] == Action::Present
            &&& forall|i: int|
                0 <= i < 20 && #[trigger] steps[i] is Out ==> steps[i - 1] == Action::WaitToWrite
        }),
        follows(4, outcome) <==> outcome is Byte,
        follows(13, outcome) <==> outcome == Outcome::Byte(0xFA),
        follows(18, outcome) <==> outcome == Outcome::Byte(0xFA),
        forall|at: nat|
            at != 4 && at != 13 && at != 18 ==> (#[trigger] follows(at, outcome) <==> outcome
                != Outcome::Nothing),
{
}

/// How often the controller is looked at: a hundred thousand times.
pub proof fn law_how_often_it_is_looked_at(looks: u32)
    ensures
        looked(true, looks) == Look::Ready,
        looks < 100_000 ==> looked(false, looks) == Look::Again,
        looks >= 100_000 ==> looked(false, looks) == Look::Never,
        MOUSE_IRQ == 12,
{
}

} // verus!
