//! A sound card: Intel's AC'97 controller, and the codec behind it.
//!
//! The controller reads a list of descriptors, each an address and a count of
//! samples, and hands the samples to the codec. It says how far it has got, and
//! that only changes because it is reading memory: that is how it is known to
//! have played.
use vstd::prelude::*;

use crate::count::{count, counted};
use crate::drivers::pci::{BaseAddress, Device};
use crate::drivers::port::{Heard, PortWrite, Want};

pub mod law;
pub mod register;

verus! {

/// Who makes the controllers.
pub const INTEL: u16 = 0x8086;

/// Samples a second.
pub const RATE: u32 = 48_000;

/// Channels of a frame of sound.
pub const CHANNELS: usize = 2;

/// Descriptors the list holds.
pub const DESCRIPTORS: usize = 32;

/// Bytes of the buffer.
pub const BUFFER_BYTES: u64 = 131_072;

/// The order of the buffer's block.
pub const BUFFER_ORDER: u32 = 5;

/// Frames of sound the buffer holds.
pub const FRAMES: u64 = 32_768;

/// Frames one descriptor can carry: its count of samples is of sixteen bits.
pub const PER_DESCRIPTOR: u64 = 32_767;

/// How loud a tone is.
pub const AMPLITUDE: i16 = 8192;

/// How often a register is looked at before it is given up.
pub const PATIENCE: u32 = 100_000;

/// The card, once it has been found.
#[derive(Debug, Clone, Copy, PartialEq, Eq, Structural)]
pub struct Card {
    /// The controller's ports.
    pub bus: u16,
    /// Where the list of descriptors is in memory.
    pub list: u64,
    /// Where the sound is in memory.
    pub buffer: u64,
}

impl Card {
    /// The ports are there, and the memory is where the card can reach it.
    pub open spec fn wf(self) -> bool {
        self.bus <= 0xFFC0 && reachable(self.list, self.buffer)
    }
}

/// Whether the card can reach both: it holds their addresses in thirty-two bits.
pub open spec fn reachable(list: u64, buffer: u64) -> bool {
    list < 0x1_0000_0000 && buffer + BUFFER_BYTES < 0x1_0000_0000
}

/// The card, whether it is playing, and the counts.
pub struct State {
    card: Option<Card>,
    playing: bool,
    played: u64,
    samples: u64,
}

/// The same, as a value.
pub struct Model {
    pub card: Option<Card>,
    pub playing: bool,
    /// Tones played.
    pub played: u64,
    /// Samples handed over.
    pub samples: u64,
}

impl View for State {
    type V = Model;

    closed spec fn view(&self) -> Model {
        Model {
            card: self.card,
            playing: self.playing,
            played: self.played,
            samples: self.samples,
        }
    }
}

impl State {
    /// The card can be driven.
    pub open spec fn wf(&self) -> bool {
        self@.card matches Some(card) ==> card.wf()
    }

    /// No card.
    pub fn new() -> (state: Self)
        ensures
            state.wf(),
            state@ == (Model { card: None, playing: false, played: 0, samples: 0 }),
    {
        State { card: None, playing: false, played: 0, samples: 0 }
    }
}

/// Whether a real card is present.
pub fn is_present(state: &State) -> (present: bool)
    ensures
        present == (state@.card is Some),
{
    state.card.is_some()
}

/// Tones played, and samples handed over.
pub fn statistics(state: &State) -> (counts: (u64, u64))
    ensures
        counts == (state@.played, state@.samples),
{
    (state.played, state.samples)
}

/// Whether a device is one of the controllers.
pub open spec fn is_controller(device: Device) -> bool {
    device.vendor == INTEL && (device.device == 0x2415 || device.device == 0x2425 || device.device
        == 0x2445)
}

/// The first of some devices that is one of the controllers.
pub fn find(devices: &[Device]) -> (found: Option<usize>)
    ensures
        match found {
            Some(at) => at < devices@.len() && is_controller(devices@[at as int]) && forall|i: int|
                0 <= i < at ==> !is_controller(#[trigger] devices@[i]),
            None => forall|i: int| 0 <= i < devices@.len() ==> !is_controller(#[trigger] devices@[i]),
        },
{
    let mut at: usize = 0;
    while at < devices.len()
        invariant
            at <= devices@.len(),
            forall|i: int| 0 <= i < at ==> !is_controller(#[trigger] devices@[i]),
        decreases devices@.len() - at,
    {
        let device: &Device = &devices[at];
        if device.vendor == INTEL && (device.device == 0x2415 || device.device == 0x2425
            || device.device == 0x2445) {
            return Some(at);
        }
        at += 1;
    }
    None
}

/// The mixer's ports and the controller's, unless either is in memory.
pub fn windows(first: BaseAddress, second: BaseAddress) -> (ports: Option<(u16, u16)>)
    ensures
        ports == match (first, second) {
            (BaseAddress::Port(mixer), BaseAddress::Port(bus)) => Some((mixer, bus)),
            _ => None,
        },
{
    match (first, second) {
        (BaseAddress::Port(mixer), BaseAddress::Port(bus)) => Some((mixer, bus)),
        _ => None,
    }
}

/// Whether the card can reach the memory it is to be given: what it cannot reach
/// it would play from somewhere else.
pub fn can_reach(list: u64, buffer: u64) -> (both: bool)
    ensures
        both == reachable(list, buffer),
{
    list < 0x1_0000_0000 && buffer < 0x1_0000_0000 - BUFFER_BYTES
}

/// What takes the link out of reset.
pub open spec fn linking(bus: u16) -> PortWrite {
    PortWrite::Long { port: (bus + register::GLOBAL_CONTROL) as u16, long: 2 }
}

/// What is to be written to take the link out of reset, which comes before
/// anything is said to the codec.
pub fn start_link(bus: u16) -> (write: PortWrite)
    requires
        bus <= 0xFFC0,
    ensures
        write == linking(bus),
{
    PortWrite::Long { port: bus + register::GLOBAL_CONTROL, long: 2 }
}

/// What a look at a register comes to.
#[derive(Debug, Clone, Copy, PartialEq, Eq, Structural)]
pub enum Look {
    Ready,
    Again,
    Never,
}

/// Whether the global status says that the codec is ready.
pub open spec fn says_ready(status: u32) -> bool {
    (status / 0x100) % 2 == 1
}

/// Whether the codec is ready, after so many looks at the global status, this
/// one among them.
pub fn codec_ready(status: u32, looks: u32) -> (look: Look)
    ensures
        look == if says_ready(status) {
            Look::Ready
        } else if looks < PATIENCE {
            Look::Again
        } else {
            Look::Never
        },
{
    if (status / 0x100) % 2 == 1 {
        Look::Ready
    } else if looks < PATIENCE {
        Look::Again
    } else {
        Look::Never
    }
}

/// What is written once the codec is ready.
pub open spec fn configuring(mixer: u16, bus: u16) -> Seq<PortWrite> {
    seq![
        PortWrite::Word { port: mixer, word: 0 },
        PortWrite::Word { port: (mixer + register::MASTER) as u16, word: 0 },
        PortWrite::Word { port: (mixer + register::PCM_VOLUME) as u16, word: 0 },
        PortWrite::Byte { port: (bus + register::CONTROL) as u16, byte: register::RESET_STREAM },
    ]
}

/// What is to be written once the codec is ready, in order: the codec is reset
/// and made as loud as it goes, and the stream is reset. The figures are how much
/// quieter it is to be.
pub fn configure(mixer: u16, bus: u16) -> (writes: Vec<PortWrite>)
    requires
        bus <= 0xFFC0,
        mixer <= 0xFFC0,
    ensures
        writes@ == configuring(mixer, bus),
{
    let mut writes: Vec<PortWrite> = Vec::new();
    writes.push(PortWrite::Word { port: mixer, word: 0 });
    writes.push(PortWrite::Word { port: mixer + register::MASTER, word: 0 });
    writes.push(PortWrite::Word { port: mixer + register::PCM_VOLUME, word: 0 });
    writes.push(
        PortWrite::Byte { port: bus + register::CONTROL, byte: register::RESET_STREAM },
    );
    assert(writes@ =~= configuring(mixer, bus));
    writes
}

/// Whether the stream's control register is to be looked at again, after so many
/// looks, this one among them: the reset clears itself when it is done.
pub fn still_resetting(control: u8, looks: u32) -> (again: bool)
    ensures
        again == ((control / 2) % 2 == 1 && looks < PATIENCE),
{
    (control / 2) % 2 == 1 && looks < PATIENCE
}

/// Adopt the card.
pub fn init(state: &mut State, card: Card)
    requires
        card.wf(),
    ensures
        final(state).wf(),
        final(state)@ == (Model { card: Some(card), ..old(state)@ }),
{
    state.card = Some(card);
}

/// How far the card has been brought up: what is wanted next.
#[derive(Debug, Clone, Copy, PartialEq, Eq, Structural)]
pub enum Stage {
    /// A page for the list of descriptors.
    List,
    /// Memory for the sound.
    Buffer,
    /// The global status, after so many looks: the codec is to be ready.
    Link(u32),
    /// The stream's control register, after so many looks: the reset is to be
    /// over.
    Stream(u32),
    /// Nothing: it is ready.
    Up,
    /// Nothing: it cannot be used.
    Down,
}

/// What bringing the card up comes to.
#[derive(Debug, Clone, Copy, PartialEq, Eq, Structural)]
pub enum Turn {
    /// Something is wanted before it goes on.
    Want(Want),
    /// The same, after a pause: it was looked at before.
    Again(Want),
    /// The card is ready.
    Up,
    /// The card cannot be used.
    Down,
}

/// What happens while the card is brought up.
pub enum Event {
    Wrote(PortWrite),
    Read { port: u16, value: u32 },
}

/// A card that is being brought up.
pub struct Bringing {
    mixer: u16,
    bus: u16,
    list: u64,
    buffer: u64,
    stage: Stage,
    history: Ghost<Seq<Event>>,
    heard_ready: Ghost<int>,
}

/// The same, as a value.
#[verifier::ext_equal]
pub struct Progress {
    /// The mixer's ports and the controller's.
    pub mixer: u16,
    pub bus: u16,
    /// The memory it was given.
    pub list: u64,
    pub buffer: u64,
    pub stage: Stage,
    /// Everything that has happened to the card by now, in order.
    pub history: Seq<Event>,
    /// Which of that is that the codec said it was ready, once it has.
    pub heard_ready: int,
}

impl Progress {
    /// What is wanted next.
    pub open spec fn turn(self) -> Turn {
        match self.stage {
            Stage::List => Turn::Want(Want::Block(0)),
            Stage::Buffer => Turn::Want(Want::Block(BUFFER_ORDER)),
            Stage::Link(looks) => {
                let want = Want::Read32((self.bus + register::GLOBAL_STATUS) as u16);
                if looks == 0 {
                    Turn::Want(want)
                } else {
                    Turn::Again(want)
                }
            },
            Stage::Stream(looks) => {
                let want = Want::Read8((self.bus + register::CONTROL) as u16);
                if looks == 0 {
                    Turn::Want(want)
                } else {
                    Turn::Again(want)
                }
            },
            Stage::Up => Turn::Up,
            Stage::Down => Turn::Down,
        }
    }

    /// Whether this is what was wanted.
    pub open spec fn fits(self, heard: Heard) -> bool {
        match self.turn() {
            Turn::Want(want) | Turn::Again(want) => want.fits(heard),
            _ => false,
        }
    }

    /// What is written once it was told.
    pub open spec fn writes(self, heard: Heard) -> Seq<PortWrite> {
        match (self.stage, heard) {
            (Stage::Buffer, Heard::Block(Some(buffer))) => if reachable(self.list, buffer) {
                seq![linking(self.bus)]
            } else {
                Seq::empty()
            },
            (Stage::Link(_), Heard::Read(status)) => if says_ready(status) {
                configuring(self.mixer, self.bus)
            } else {
                Seq::empty()
            },
            _ => Seq::empty(),
        }
    }

    /// How far it is once it was told. The figure of looks is how many there
    /// were.
    pub open spec fn stage_after(self, heard: Heard) -> Stage {
        match (self.stage, heard) {
            (Stage::List, Heard::Block(Some(_))) => Stage::Buffer,
            (Stage::Buffer, Heard::Block(Some(buffer))) => if reachable(self.list, buffer) {
                Stage::Link(0)
            } else {
                Stage::Down
            },
            (Stage::Link(looks), Heard::Read(status)) => if says_ready(status) {
                Stage::Stream(0)
            } else if looks + 1 < PATIENCE {
                Stage::Link((looks + 1) as u32)
            } else {
                Stage::Down
            },
            (Stage::Stream(looks), Heard::Read(control)) => if (control / 2) % 2 == 1 && looks + 1
                < PATIENCE {
                Stage::Stream((looks + 1) as u32)
            } else {
                Stage::Up
            },
            _ => Stage::Down,
        }
    }

    /// What was read, where a register was.
    pub open spec fn read(self, heard: Heard) -> Seq<Event> {
        match (self.stage, heard) {
            (Stage::Link(_), Heard::Read(value)) => seq![
                Event::Read { port: (self.bus + register::GLOBAL_STATUS) as u16, value },
            ],
            (Stage::Stream(_), Heard::Read(value)) => seq![
                Event::Read { port: (self.bus + register::CONTROL) as u16, value },
            ],
            _ => Seq::empty(),
        }
    }

    /// The card once it was told what was wanted.
    pub open spec fn told(self, heard: Heard) -> Progress {
        Progress {
            list: match (self.stage, heard) {
                (Stage::List, Heard::Block(Some(list))) => list,
                _ => self.list,
            },
            buffer: match (self.stage, heard) {
                (Stage::Buffer, Heard::Block(Some(buffer))) => buffer,
                _ => self.buffer,
            },
            stage: self.stage_after(heard),
            history: self.history + self.read(heard) + wrote(self.writes(heard)),
            heard_ready: if self.stage is Link {
                self.history.len() as int
            } else {
                self.heard_ready
            },
            ..self
        }
    }

    /// The link was taken out of reset first, and after that things were only
    /// read.
    pub open spec fn only_linked(self) -> bool {
        &&& self.history.len() > 0 ==> self.history[0] == Event::Wrote(linking(self.bus))
        &&& forall|i: int| 0 < i < self.history.len() ==> #[trigger] self.history[i] is Read
    }

    /// The link was taken out of reset, the codec said it was ready, and then the
    /// codec and the stream were set up.
    pub open spec fn configured(self) -> bool {
        let at = self.heard_ready;
        &&& 0 < at
        &&& at + 4 < self.history.len()
        &&& self.history[0] == Event::Wrote(linking(self.bus))
        &&& self.history[at] matches Event::Read { port, value } && port == self.bus
            + register::GLOBAL_STATUS && says_ready(value)
        &&& forall|i: int|
            at < i <= at + 4 ==> #[trigger] self.history[i] == Event::Wrote(
                configuring(self.mixer, self.bus)[i - at - 1],
            )
        &&& forall|i: int|
            0 < i < self.history.len() && !(at < i <= at + 4)
                ==> #[trigger] self.history[i] is Read
    }

    /// What is known is in order, and things happened in order.
    pub open spec fn sound(self) -> bool {
        &&& self.mixer <= 0xFFC0
        &&& self.bus <= 0xFFC0
        &&& match self.stage {
            Stage::List | Stage::Buffer => self.history.len() == 0,
            Stage::Link(looks) => {
                &&& looks < PATIENCE
                &&& reachable(self.list, self.buffer)
                &&& self.history.len() == looks + 1
                &&& self.only_linked()
            },
            Stage::Stream(looks) => {
                &&& looks < PATIENCE
                &&& reachable(self.list, self.buffer)
                &&& self.configured()
            },
            Stage::Up => reachable(self.list, self.buffer) && self.configured(),
            Stage::Down => self.only_linked(),
        }
    }
}

/// Writes to ports, as they happened.
pub open spec fn wrote(writes: Seq<PortWrite>) -> Seq<Event> {
    writes.map_values(|write: PortWrite| Event::Wrote(write))
}

impl View for Bringing {
    type V = Progress;

    closed spec fn view(&self) -> Progress {
        Progress {
            mixer: self.mixer,
            bus: self.bus,
            list: self.list,
            buffer: self.buffer,
            stage: self.stage,
            history: self.history@,
            heard_ready: self.heard_ready@,
        }
    }
}

impl Bringing {
    /// What is known is in order.
    pub open spec fn wf(&self) -> bool {
        self@.sound()
    }

    fn turn_now(&self) -> (turn: Turn)
        requires
            self.wf(),
        ensures
            turn == self@.turn(),
    {
        match self.stage {
            Stage::List => Turn::Want(Want::Block(0)),
            Stage::Buffer => Turn::Want(Want::Block(BUFFER_ORDER)),
            Stage::Link(looks) => {
                let want = Want::Read32(self.bus + register::GLOBAL_STATUS);
                if looks == 0 {
                    Turn::Want(want)
                } else {
                    Turn::Again(want)
                }
            },
            Stage::Stream(looks) => {
                let want = Want::Read8(self.bus + register::CONTROL);
                if looks == 0 {
                    Turn::Want(want)
                } else {
                    Turn::Again(want)
                }
            },
            Stage::Up => Turn::Up,
            Stage::Down => Turn::Down,
        }
    }

    /// Go on with what was wanted: what is to be written now, in order, and what
    /// is wanted then.
    ///
    /// A codec whose link is in reset hears nothing, so nothing is said to it
    /// before it has said that it is ready. A card without a codec is looked at
    /// so often and no more. A card that is ready is kept.
    pub fn heard(&mut self, state: &mut State, heard: Heard) -> (next: (Vec<PortWrite>, Turn))
        requires
            old(state).wf(),
            old(self).wf(),
            old(self)@.fits(heard),
        ensures
            final(state).wf(),
            final(self).wf(),
            final(self)@ == old(self)@.told(heard),
            next.0@ == old(self)@.writes(heard),
            next.1 == final(self)@.turn(),
            final(state)@ == if final(self)@.stage is Up {
                let now = final(self)@;
                let card = Card { bus: now.bus, list: now.list, buffer: now.buffer };
                Model { card: Some(card), ..old(state)@ }
            } else {
                old(state)@
            },
    {
        let ghost before = self@;
        let mut writes: Vec<PortWrite> = Vec::new();
        match (self.stage, heard) {
            (Stage::List, Heard::Block(Some(list))) => {
                self.list = list;
                self.stage = Stage::Buffer;
            },
            (Stage::Buffer, Heard::Block(Some(buffer))) => {
                self.buffer = buffer;
                if can_reach(self.list, buffer) {
                    writes.push(start_link(self.bus));
                    self.stage = Stage::Link(0);
                } else {
                    self.stage = Stage::Down;
                }
            },
            (Stage::Link(looks), Heard::Read(status)) => {
                self.heard_ready = Ghost(before.history.len() as int);
                match codec_ready(status, looks + 1) {
                    Look::Ready => {
                        writes = configure(self.mixer, self.bus);
                        self.stage = Stage::Stream(0);
                    },
                    Look::Again => {
                        self.stage = Stage::Link(looks + 1);
                    },
                    Look::Never => {
                        self.stage = Stage::Down;
                    },
                }
            },
            (Stage::Stream(looks), Heard::Read(control)) => {
                if still_resetting(control as u8, looks + 1) {
                    self.stage = Stage::Stream(looks + 1);
                } else {
                    self.stage = Stage::Up;
                    init(state, Card { bus: self.bus, list: self.list, buffer: self.buffer });
                }
            },
            _ => {
                self.stage = Stage::Down;
            },
        }
        assert(writes@ =~= before.writes(heard));
        self.history = Ghost(before.history + before.read(heard) + wrote(writes@));
        assert(self@ =~= before.told(heard));
        let turn = self.turn_now();
        (writes, turn)
    }
}

/// Start to bring a card up.
pub fn bring_up(mixer: u16, bus: u16) -> (start: (Bringing, Turn))
    requires
        mixer <= 0xFFC0,
        bus <= 0xFFC0,
    ensures
        start.0.wf(),
        start.0@.stage is List,
        start.0@.mixer == mixer,
        start.0@.bus == bus,
        start.0@.history == Seq::<Event>::empty(),
        start.1 == start.0@.turn(),
{
    let bringing = Bringing {
        mixer,
        bus,
        list: 0,
        buffer: 0,
        stage: Stage::List,
        history: Ghost(Seq::empty()),
        heard_ready: Ghost(0),
    };
    let turn = bringing.turn_now();
    (bringing, turn)
}

/// How many frames a tone is, as far as the buffer goes.
pub open spec fn frames_of(milliseconds: u64) -> u64 {
    let wanted = RATE * milliseconds / 1000;
    if wanted < FRAMES {
        wanted as u64
    } else {
        FRAMES
    }
}

/// How many frames half a period is.
pub open spec fn half_period(hertz: u32) -> int
    recommends
        hertz > 0,
{
    let half = RATE as int / (hertz * 2);
    if half < 1 {
        1
    } else {
        half
    }
}

/// What a sample of a tone is.
pub open spec fn level(frame: int, hertz: u32) -> i16 {
    if (frame / half_period(hertz)) % 2 == 0 {
        AMPLITUDE
    } else {
        (-AMPLITUDE) as i16
    }
}

/// The samples of a tone: both channels of a frame are the same.
pub open spec fn wave(frames: u64, hertz: u32) -> Seq<i16> {
    Seq::new((frames * 2) as nat, |i: int| level(i / 2, hertz))
}

/// An entry of the list.
#[derive(Debug, Clone, Copy, PartialEq, Eq, Structural)]
pub struct Descriptor {
    pub address: u32,
    /// How many samples there are.
    pub samples: u16,
    /// That the end of it is to be told.
    pub flags: u16,
}

/// The list of a tone, from a frame on, of so many entries more.
pub open spec fn described(buffer: u64, frames: u64, done: u64, room: nat) -> Seq<Descriptor>
    decreases room,
{
    if done >= frames || room == 0 {
        Seq::empty()
    } else {
        let take = if frames - done < PER_DESCRIPTOR {
            frames - done
        } else {
            PER_DESCRIPTOR as int
        };
        seq![
            Descriptor {
                address: (buffer + done * 4) as u32,
                samples: (take * 2) as u16,
                flags: register::INTERRUPT,
            },
        ] + described(buffer, frames, (done + take) as u64, (room - 1) as nat)
    }
}

/// Everything a tone takes.
#[derive(Debug)]
pub struct Tone {
    pub card: Card,
    pub frames: u64,
    /// What goes into the buffer.
    pub samples: Vec<i16>,
    /// What goes into the list.
    pub list: Vec<Descriptor>,
    /// What is written to the ports then, in order: the last starts the engine.
    pub writes: Vec<PortWrite>,
}

/// What is written to the ports to start the engine on a list.
pub open spec fn started(card: Card, entries: int) -> Seq<PortWrite> {
    seq![
        PortWrite::Word {
            port: (card.bus + register::STATUS) as u16,
            word: register::FINISHED,
        },
        PortWrite::Long {
            port: (card.bus + register::DESCRIPTOR_LIST) as u16,
            long: card.list as u32,
        },
        PortWrite::Byte {
            port: (card.bus + register::LAST_VALID) as u16,
            byte: (entries - 1) as u8,
        },
        PortWrite::Byte {
            port: (card.bus + register::CONTROL) as u16,
            byte: register::RUN,
        },
    ]
}

fn fill(frames: u64, hertz: u32) -> (samples: Vec<i16>)
    requires
        frames <= FRAMES,
        hertz > 0,
    ensures
        samples@ == wave(frames, hertz),
{
    let exact: u64 = RATE as u64 / (hertz as u64 * 2);
    let half: u64 = if exact < 1 {
        1
    } else {
        exact
    };
    assert(half == half_period(hertz));
    let mut samples: Vec<i16> = Vec::new();
    let mut frame: u64 = 0;
    while frame < frames
        invariant
            frame <= frames <= FRAMES,
            half == half_period(hertz),
            half >= 1,
            samples@ == wave(frame, hertz),
        decreases frames - frame,
    {
        let value: i16 = if (frame / half) % 2 == 0 {
            AMPLITUDE
        } else {
            -AMPLITUDE
        };
        assert(value == level(frame as int, hertz));
        samples.push(value);
        samples.push(value);
        frame += 1;
        assert(samples@ =~= wave(frame, hertz));
    }
    samples
}

fn describe(buffer: u64, frames: u64) -> (list: Vec<Descriptor>)
    requires
        buffer + BUFFER_BYTES < 0x1_0000_0000,
        frames <= FRAMES,
    ensures
        list@ == described(buffer, frames, 0, DESCRIPTORS as nat),
        list@.len() <= DESCRIPTORS,
        frames > 0 ==> list@.len() > 0,
{
    let mut list: Vec<Descriptor> = Vec::new();
    let mut done: u64 = 0;
    assert(Seq::<Descriptor>::empty() + described(buffer, frames, 0, DESCRIPTORS as nat)
        =~= described(buffer, frames, 0, DESCRIPTORS as nat));
    while done < frames && list.len() < DESCRIPTORS
        invariant
            buffer + BUFFER_BYTES < 0x1_0000_0000,
            done <= frames <= FRAMES,
            list@.len() <= DESCRIPTORS,
            done > 0 ==> list@.len() > 0,
            described(buffer, frames, 0, DESCRIPTORS as nat) == list@ + described(
                buffer,
                frames,
                done,
                (DESCRIPTORS - list@.len()) as nat,
            ),
        decreases DESCRIPTORS - list@.len(),
    {
        let left: u64 = frames - done;
        let take: u64 = if left < PER_DESCRIPTOR {
            left
        } else {
            PER_DESCRIPTOR
        };
        let ghost before = list@;
        let ghost room = (DESCRIPTORS - list@.len()) as nat;
        let entry = Descriptor {
            address: (buffer + done * 4) as u32,
            samples: (take * 2) as u16,
            flags: register::INTERRUPT,
        };
        list.push(entry);
        proof {
            let rest = described(buffer, frames, (done + take) as u64, (room - 1) as nat);
            assert(described(buffer, frames, done, room) == seq![entry] + rest);
            assert(before + (seq![entry] + rest) =~= list@ + rest);
        }
        done = done + take;
    }
    assert(list@ + Seq::<Descriptor>::empty() =~= list@);
    list
}

/// Play a square wave: everything it takes, unless there is no card, there is
/// nothing to play, or something is playing already. [`finished`] ends it.
pub fn tone(state: &mut State, hertz: u32, milliseconds: u64) -> (tone: Option<Tone>)
    requires
        old(state).wf(),
    ensures
        final(state).wf(),
        ({
            let can = old(state)@.card is Some && hertz > 0 && milliseconds > 0
                && !old(state)@.playing && frames_of(milliseconds) > 0;
            match tone {
                None => !can && final(state)@ == old(state)@,
                Some(tone) => {
                    &&& can
                    &&& final(state)@ == Model { playing: true, ..old(state)@ }
                    &&& tone.card == old(state)@.card.unwrap()
                    &&& tone.frames == frames_of(milliseconds)
                    &&& tone.samples@ == wave(tone.frames, hertz)
                    &&& tone.list@ == described(
                        tone.card.buffer,
                        tone.frames,
                        0,
                        DESCRIPTORS as nat,
                    )
                    &&& tone.writes@ == started(tone.card, tone.list@.len() as int)
                },
            }
        }),
{
    let card: Card = match state.card {
        None => return None,
        Some(card) => card,
    };
    if hertz == 0 || milliseconds == 0 {
        return None;
    }
    if state.playing {
        return None;
    }
    let frames: u64 = if milliseconds >= 1000 {
        FRAMES
    } else {
        let wanted: u64 = RATE as u64 * milliseconds / 1000;
        if wanted < FRAMES {
            wanted
        } else {
            FRAMES
        }
    };
    assert(frames == frames_of(milliseconds));
    if frames == 0 {
        return None;
    }
    let samples = fill(frames, hertz);
    let list = describe(card.buffer, frames);
    let mut writes: Vec<PortWrite> = Vec::new();
    writes.push(
        PortWrite::Word { port: card.bus + register::STATUS, word: register::FINISHED },
    );
    writes.push(
        PortWrite::Long { port: card.bus + register::DESCRIPTOR_LIST, long: card.list as u32 },
    );
    writes.push(
        PortWrite::Byte { port: card.bus + register::LAST_VALID, byte: (list.len() - 1) as u8 },
    );
    writes.push(PortWrite::Byte { port: card.bus + register::CONTROL, byte: register::RUN });
    assert(writes@ =~= started(card, list@.len() as int));
    state.playing = true;
    Some(Tone { card, frames, samples, list, writes })
}

/// A wait for the engine.
#[derive(Debug, Clone, Copy, PartialEq, Eq, Structural)]
pub struct Waiting {
    /// Whether it has been seen to move.
    pub moved: bool,
    pub deadline: u64,
}

/// When to stop waiting: well after the tone should be over.
pub open spec fn deadline_of(now: u64, milliseconds: u64) -> u64 {
    if now + milliseconds * 2 + 200 <= u64::MAX {
        (now + milliseconds * 2 + 200) as u64
    } else {
        u64::MAX
    }
}

/// Start waiting for the engine.
pub fn waiting(now: u64, milliseconds: u64) -> (wait: Waiting)
    ensures
        wait == (Waiting { moved: false, deadline: deadline_of(now, milliseconds) }),
{
    let end: u128 = now as u128 + milliseconds as u128 * 2 + 200;
    let deadline: u64 = if end <= 0xFFFF_FFFF_FFFF_FFFF {
        end as u64
    } else {
        u64::MAX
    };
    Waiting { moved: false, deadline }
}

/// A look at the engine: whether it ever moved, once it has stopped or the time
/// is up, and otherwise nothing.
///
/// An engine that was never started reads zero from beginning to end, and that is
/// a failure rather than a silence.
pub fn wait_for_end(
    wait: &mut Waiting,
    remaining: u16,
    current: u8,
    status: u16,
    now: u64,
) -> (ended: Option<bool>)
    ensures
        final(wait).deadline == old(wait).deadline,
        final(wait).moved == (old(wait).moved || remaining != 0 || current != 0),
        ended == if status & register::STOPPED != 0 || now >= old(wait).deadline {
            Some(final(wait).moved)
        } else {
            None
        },
{
    if remaining != 0 || current != 0 {
        wait.moved = true;
    }
    if status & register::STOPPED != 0 {
        return Some(wait.moved);
    }
    if now >= wait.deadline {
        return Some(wait.moved);
    }
    None
}

/// End a tone: what stops the engine. A tone counts if the engine moved.
pub fn finished(state: &mut State, card: Card, frames: u64, moved: bool) -> (write: PortWrite)
    requires
        old(state).wf(),
        card.wf(),
        frames <= FRAMES,
    ensures
        final(state).wf(),
        write == (PortWrite::Byte { port: (card.bus + register::CONTROL) as u16, byte: 0 }),
        final(state)@ == if moved {
            Model {
                playing: false,
                played: counted(old(state)@.played, 1),
                samples: counted(old(state)@.samples, (frames * 2) as u64),
                ..old(state)@
            }
        } else {
            Model { playing: false, ..old(state)@ }
        },
{
    state.playing = false;
    if moved {
        state.played = count(state.played, 1);
        state.samples = count(state.samples, frames * 2);
    }
    PortWrite::Byte { port: card.bus + register::CONTROL, byte: 0 }
}

/// How many samples a list has.
pub open spec fn samples_in(list: Seq<Descriptor>) -> nat
    decreases list.len(),
{
    if list.len() == 0 {
        0
    } else {
        list[0].samples as nat + samples_in(list.drop_first())
    }
}

proof fn lemma_described(buffer: u64, frames: u64, done: u64, room: nat)
    requires
        buffer + BUFFER_BYTES < 0x1_0000_0000,
        done <= frames <= FRAMES,
        frames - done <= room * PER_DESCRIPTOR,
    ensures
        ({
            let list = described(buffer, frames, done, room);
            &&& samples_in(list) == (frames - done) * 2
            &&& forall|i: int|
                0 <= i < list.len() ==> {
                    &&& buffer <= (#[trigger] list[i]).address
                    &&& list[i].address + list[i].samples * 2 <= buffer + BUFFER_BYTES
                }
        }),
    decreases room,
{
    let list = described(buffer, frames, done, room);
    if done < frames {
        if room == 0 {
            assert(false);
        }
        let take = if frames - done < PER_DESCRIPTOR {
            frames - done
        } else {
            PER_DESCRIPTOR as int
        };
        let next = (done + take) as u64;
        lemma_described(buffer, frames, next, (room - 1) as nat);
        let rest = described(buffer, frames, next, (room - 1) as nat);
        assert(list.drop_first() =~= rest);
        assert forall|i: int| 0 <= i < list.len() implies {
            &&& buffer <= (#[trigger] list[i]).address
            &&& list[i].address + list[i].samples * 2 <= buffer + BUFFER_BYTES
        } by {
            if i > 0 {
                assert(list[i] == rest[i - 1]);
            }
        }
    }
}

/// The list of a tone covers every sample of it and no other, and nothing
/// outside the buffer.
pub proof fn law_the_list_covers_the_tone(buffer: u64, frames: u64)
    requires
        buffer + BUFFER_BYTES < 0x1_0000_0000,
        frames <= FRAMES,
    ensures
        ({
            let list = described(buffer, frames, 0, DESCRIPTORS as nat);
            &&& samples_in(list) == frames * 2
            &&& forall|i: int|
                0 <= i < list.len() ==> {
                    &&& buffer <= (#[trigger] list[i]).address
                    &&& list[i].address + list[i].samples * 2 <= buffer + BUFFER_BYTES
                }
        }),
{
    lemma_described(buffer, frames, 0, DESCRIPTORS as nat);
}

/// The engine is started after everything else is in place.
pub proof fn law_the_engine_starts_last(card: Card, entries: int)
    requires
        card.wf(),
    ensures
        started(card, entries).last() == (PortWrite::Byte {
            port: (card.bus + register::CONTROL) as u16,
            byte: register::RUN,
        }),
        forall|i: int|
            0 <= i < started(card, entries).len() - 1 ==> (#[trigger] started(card, entries)[i])
                != started(card, entries).last(),
{
}

/// Nothing is said to the codec or the stream before the link was taken out of
/// reset and the codec has said that it is ready. A card that is ready was told
/// everything, and one that cannot be used nothing but to leave its reset.
pub proof fn law_the_codec_is_spoken_to_once_it_is_ready(card: Progress, at: int)
    requires
        card.sound(),
        0 <= at < card.history.len(),
    ensures
        card.history[0] == Event::Wrote(linking(card.bus)),
        card.history[at] is Wrote && at > 0 ==> {
            let ready = card.heard_ready;
            &&& 0 < ready < at
            &&& card.history[ready] matches Event::Read { port, value } && port == card.bus
                + register::GLOBAL_STATUS && says_ready(value)
        },
        card.stage is Up ==> card.history.subrange(
            card.heard_ready + 1,
            card.heard_ready + 5,
        ) == wrote(configuring(card.mixer, card.bus)),
        card.stage is Down && at > 0 ==> card.history[at] is Read,
{
    if card.stage is Up {
        assert(card.history.subrange(card.heard_ready + 1, card.heard_ready + 5) =~= wrote(
            configuring(card.mixer, card.bus),
        ));
    }
}

/// How many things can still be wanted of a card.
pub open spec fn wants_left(stage: Stage) -> int {
    match stage {
        Stage::List => 2 * PATIENCE + 3,
        Stage::Buffer => 2 * PATIENCE + 2,
        Stage::Link(looks) => 2 * PATIENCE + 1 - looks,
        Stage::Stream(looks) => PATIENCE - looks,
        Stage::Up | Stage::Down => 0,
    }
}

/// Bringing a card up ends: each thing it is told leaves fewer to be wanted.
pub proof fn law_bringing_a_card_up_ends(card: Progress, heard: Heard)
    requires
        card.sound(),
        card.fits(heard),
    ensures
        0 <= wants_left(card.told(heard).stage) < wants_left(card.stage),
{
}

} // verus!
