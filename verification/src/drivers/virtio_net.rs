//! A virtio network card.
//!
//! There are two queues: frames come in on one and go out on the other. Nobody
//! asks for a frame, so the card is given empty buffers beforehand, and each is
//! handed back as soon as it was read: a card without buffers drops what
//! arrives.
//!
//! Every buffer starts with a header of ten bytes, which is zero going out and
//! ignored coming in.
use vstd::prelude::*;

use crate::count::{count, counted};
use crate::drivers::pci::{BaseAddress, Device};
#[allow(unused_imports)]
use crate::drivers::port::MEMORY_END;
use crate::drivers::port::{Heard, PortWrite, Want};
use crate::drivers::virtio::{
    self, next_index, order_for, put_deeds, put_descriptor, put_entry, put_publish, put_writes,
    queue_layout, register, Deed, Layout, Look, Step, COMPLETION_SPINS, LAST_PORT, WRITE,
};
#[allow(unused_imports)]
use crate::drivers::virtio::{
    descriptor_steps, did, entry_step, given, giving_up, index_after, is_order_for, layout_of,
    noticing, one_write, order_of, placing, publish_steps, readying, stepped, wrote, Event,
};
use crate::text::around_decimal;
#[allow(unused_imports)]
use crate::text::decimal;

pub mod law;

verus! {

/// What a card's subsystem is.
pub const SUBSYSTEM: u16 = 1;

/// What a card's own number is, where its subsystem does not say.
pub const NUMBER: u16 = 0x1000;

/// The feature of saying what the card's address is: the only one agreed to.
pub const MAC_FEATURE: u32 = 32;

/// Bytes of the header in front of every frame.
pub const HEADER: u64 = 10;

/// The longest frame that is carried.
pub const MAX_FRAME: usize = 1514;

/// Bytes of a buffer.
pub const BUFFER: u64 = 2048;

/// Buffers the card can fill.
pub const RECEIVE_BUFFERS: u16 = 32;

/// Buffers that go out.
pub const TRANSMIT_BUFFERS: u16 = 8;

/// The queue frames come in on.
pub const RECEIVE_QUEUE: u16 = 0;

/// The queue frames go out on.
pub const TRANSMIT_QUEUE: u16 = 1;

/// What can go wrong.
#[derive(Debug, Clone, Copy, PartialEq, Eq, Structural)]
pub enum NetError {
    /// There is no card.
    NoDevice,
    /// The card's registers are in memory and not among the ports.
    NotPortMapped,
    /// A queue is missing, or too small for its buffers.
    QueueSize(u16),
    /// There was no memory for a queue or its buffers.
    OutOfMemory,
    /// A frame is longer than what is carried.
    TooLong(usize),
    /// The card did not take a frame.
    Timeout,
}

/// What went wrong, in words.
pub open spec fn words(error: NetError) -> Seq<char> {
    match error {
        NetError::NoDevice => "no virtio network device"@,
        NetError::NotPortMapped => "the device is memory mapped"@,
        NetError::QueueSize(size) => "a queue of "@ + decimal(size as nat) + " cannot be used"@,
        NetError::OutOfMemory => "not enough memory for the queues"@,
        NetError::TooLong(bytes) => "a frame of "@ + decimal(bytes as nat) + " bytes is too long"@,
        NetError::Timeout => "the device did not take the frame"@,
    }
}

impl NetError {
    /// What went wrong, in words.
    pub fn text(&self) -> (text: String)
        ensures
            text@ == words(*self),
    {
        match self {
            NetError::NoDevice => "no virtio network device".to_owned(),
            NetError::NotPortMapped => "the device is memory mapped".to_owned(),
            NetError::QueueSize(size) => around_decimal(
                "a queue of ",
                *size as u64,
                " cannot be used",
            ),
            NetError::OutOfMemory => "not enough memory for the queues".to_owned(),
            NetError::TooLong(bytes) => around_decimal(
                "a frame of ",
                *bytes as u64,
                " bytes is too long",
            ),
            NetError::Timeout => "the device did not take the frame".to_owned(),
        }
    }
}

/// A queue, and its buffers.
#[derive(Debug, Clone, Copy, PartialEq, Eq, Structural)]
pub struct Queue {
    /// Where it is.
    pub physical: u64,
    /// Descriptors it has.
    pub size: u16,
    /// Where its parts are.
    pub layout: Layout,
    /// Where its buffers are: one after another.
    pub buffers: u64,
    /// How far the device's ring has been looked at.
    pub seen: u16,
}

impl Queue {
    /// The parts are where they belong, and the memory is where it can be.
    pub open spec fn wf(self) -> bool {
        &&& self.size > 0
        &&& self.layout == layout_of(self.size)
        &&& self.physical <= u64::MAX - 0x40_0000
        &&& self.buffers <= u64::MAX - 0x1000_0000
    }

    /// Where the driver's ring is.
    pub open spec fn ring(self) -> u64 {
        (self.physical + self.layout.available) as u64
    }

    /// Where a buffer is.
    pub open spec fn spec_buffer(self, index: u16) -> u64 {
        (self.buffers + index * 2048) as u64
    }

    /// Where a buffer is.
    pub fn buffer_physical(&self, index: u16) -> (at: u64)
        requires
            self.wf(),
        ensures
            at == self.spec_buffer(index),
    {
        self.buffers + index as u64 * BUFFER
    }

    /// The steps that offer a descriptor to the device, given the driver's index.
    pub open spec fn offering(self, at: u16, index: u16) -> Seq<Step> {
        seq![entry_step(self.ring(), at, self.size, index)] + publish_steps(self.ring(), at)
    }

    /// Offer a descriptor to the device.
    pub fn offer(&self, out: &mut Vec<Step>, at: u16, index: u16)
        requires
            self.wf(),
        ensures
            final(out)@ == old(out)@ + self.offering(at, index),
    {
        let ring: u64 = self.physical + self.layout.available;
        put_entry(out, ring, at, self.size, index);
        put_publish(out, ring, at);
        assert(out@ =~= old(out)@ + self.offering(at, index));
    }

    /// Where the driver's index is.
    pub fn available_index(&self) -> (at: u64)
        requires
            self.wf(),
        ensures
            at == self.ring() + 2,
    {
        self.physical + self.layout.available + 2
    }

    /// Where the device's index is.
    pub fn used_index(&self) -> (at: u64)
        requires
            self.wf(),
        ensures
            at == self.physical + self.layout.used + 2,
    {
        self.physical + self.layout.used + 2
    }

    /// Where a place of the device's ring is.
    pub fn used_entry(&self, index: u16) -> (at: u64)
        requires
            self.wf(),
        ensures
            at == self.physical + self.layout.used + 4 + 8 * (index % self.size),
    {
        self.physical + self.layout.used + 4 + 8 * (index % self.size) as u64
    }
}

/// A place of the device's ring: which descriptor, and how many bytes are in it.
#[derive(Debug, Clone, Copy, PartialEq, Eq, Structural)]
pub struct Used {
    pub index: u32,
    pub length: u32,
}

/// A card that is ready.
#[derive(Debug, Clone, Copy)]
pub struct Card {
    /// Its first port.
    pub port: u16,
    pub receive: Queue,
    pub transmit: Queue,
    /// The address it answers to.
    pub mac: [u8; 6],
}

impl Card {
    /// Its queues are in order.
    pub open spec fn wf(self) -> bool {
        self.port <= LAST_PORT && self.receive.wf() && self.transmit.wf()
    }
}

/// The card, whether a frame is going out, and the counts.
pub struct State {
    card: Option<Card>,
    sending: bool,
    interrupts: u64,
    blocking: bool,
    line: Option<u8>,
    received: u64,
    transmitted: u64,
    dropped: u64,
}

/// The same, as a value.
pub struct Model {
    pub card: Option<Card>,
    /// Whether a frame is going out.
    pub sending: bool,
    /// Interrupts the card has raised.
    pub interrupts: u64,
    /// Whether waiting is sleeping.
    pub blocking: bool,
    /// The line the card was wired to.
    pub line: Option<u8>,
    pub received: u64,
    pub transmitted: u64,
    /// Frames of which not everything was taken.
    pub dropped: u64,
}

impl View for State {
    type V = Model;

    closed spec fn view(&self) -> Model {
        Model {
            card: self.card,
            sending: self.sending,
            interrupts: self.interrupts,
            blocking: self.blocking,
            line: self.line,
            received: self.received,
            transmitted: self.transmitted,
            dropped: self.dropped,
        }
    }
}

impl State {
    /// The card can be driven.
    pub open spec fn wf(&self) -> bool {
        self@.card matches Some(card) ==> card.wf()
    }

    /// No card.
    pub fn new() -> (state: Self)
        ensures
            state.wf(),
            state@ == (Model {
                card: None,
                sending: false,
                interrupts: 0,
                blocking: false,
                line: None,
                received: 0,
                transmitted: 0,
                dropped: 0,
            }),
    {
        State {
            card: None,
            sending: false,
            interrupts: 0,
            blocking: false,
            line: None,
            received: 0,
            transmitted: 0,
            dropped: 0,
        }
    }
}

/// Find the card among the devices.
pub fn init(devices: &[Device]) -> (found: Result<usize, NetError>)
    ensures
        match found {
            Ok(at) => {
                &&& at < devices@.len()
                &&& virtio::is_kind(devices@[at as int], SUBSYSTEM, NUMBER)
                &&& forall|i: int|
                    0 <= i < at ==> !virtio::is_kind(#[trigger] devices@[i], SUBSYSTEM, NUMBER)
            },
            Err(error) => {
                &&& error == NetError::NoDevice
                &&& forall|i: int|
                    0 <= i < devices@.len() ==> !virtio::is_kind(
                        #[trigger] devices@[i],
                        SUBSYSTEM,
                        NUMBER,
                    )
            },
        },
{
    match virtio::find(devices, SUBSYSTEM, NUMBER) {
        Some(at) => Ok(at),
        None => Err(NetError::NoDevice),
    }
}

/// The card's first port.
pub fn port_of(base: BaseAddress) -> (port: Result<u16, NetError>)
    ensures
        port == match base {
            BaseAddress::Port(port) => Ok::<u16, NetError>(port),
            BaseAddress::Memory { .. } => Err(NetError::NotPortMapped),
        },
{
    match base {
        BaseAddress::Port(port) => Ok(port),
        BaseAddress::Memory { .. } => Err(NetError::NotPortMapped),
    }
}

/// What is agreed to of what the card offers: to say its address, and nothing
/// else.
pub open spec fn agreed_to(offered: u32) -> u32 {
    if (offered / MAC_FEATURE) % 2 == 1 {
        MAC_FEATURE
    } else {
        0
    }
}

/// Agree to what the card offers.
pub fn agree(port: u16, offered: u32) -> (agreed: (u32, PortWrite))
    requires
        port <= LAST_PORT,
    ensures
        agreed.0 == agreed_to(offered),
        agreed.1 == agreeing(port, agreed_to(offered)),
{
    let agreed: u32 = if (offered / MAC_FEATURE) % 2 == 1 {
        MAC_FEATURE
    } else {
        0
    };
    (agreed, PortWrite::Long { port: port + register::DRIVER_FEATURES, long: agreed })
}

/// What is agreed to.
pub open spec fn agreeing(port: u16, agreed: u32) -> PortWrite {
    PortWrite::Long { port: (port + register::DRIVER_FEATURES) as u16, long: agreed }
}

/// Which queue's registers are wanted.
pub open spec fn selecting(port: u16, which: u16) -> PortWrite {
    PortWrite::Word { port: (port + register::QUEUE_SELECT) as u16, word: which }
}

/// Choose the queue whose registers are wanted.
pub fn select_queue(port: u16, which: u16) -> (write: PortWrite)
    requires
        port <= LAST_PORT,
    ensures
        write == selecting(port, which),
{
    PortWrite::Word { port: port + register::QUEUE_SELECT, word: which }
}

/// The memory a queue needs: where its parts are, and the orders of the blocks
/// for itself and for its buffers.
#[derive(Debug, Clone, Copy, PartialEq, Eq, Structural)]
pub struct Plan {
    pub layout: Layout,
    pub order: u32,
    pub buffer_order: u32,
}

/// Plan a queue, if it has a descriptor for each buffer.
pub fn plan_queue(size: u16, buffers: u16) -> (plan: Result<Plan, NetError>)
    ensures
        match plan {
            Err(error) => (size == 0 || size < buffers) && error == NetError::QueueSize(size),
            Ok(plan) => {
                &&& size > 0 && size >= buffers
                &&& plan.layout == layout_of(size)
                &&& plan.order == order_of(plan.layout.bytes as nat)
                &&& is_order_for(plan.order as nat, plan.layout.bytes as nat)
                &&& plan.buffer_order == order_of((buffers * 2048) as nat)
                &&& is_order_for(plan.buffer_order as nat, (buffers * 2048) as nat)
            },
        },
{
    if size == 0 || size < buffers {
        return Err(NetError::QueueSize(size));
    }
    let layout: Layout = queue_layout(size);
    Ok(
        Plan {
            layout,
            order: order_for(layout.bytes),
            buffer_order: order_for(buffers as u64 * BUFFER),
        },
    )
}

/// The steps that describe the first so many buffers of a queue.
pub open spec fn buffer_steps(queue: Queue, flags: u16, many: nat) -> Seq<Step>
    decreases many,
{
    if many == 0 {
        Seq::empty()
    } else {
        let index = (many - 1) as u16;
        buffer_steps(queue, flags, (many - 1) as nat) + descriptor_steps(
            queue.physical,
            index,
            queue.spec_buffer(index),
            2048,
            flags,
            0,
        )
    }
}

/// What the device does with the buffers of a queue: it writes those that come
/// in, and reads those that go out.
pub open spec fn buffer_flags(which: u16) -> u16 {
    if which == RECEIVE_QUEUE {
        WRITE
    } else {
        0
    }
}

/// The steps that set a queue up: where it is, and a descriptor for each buffer.
pub open spec fn setting_up(port: u16, which: u16, buffers: u16, queue: Queue) -> Seq<Step> {
    seq![Step::Port(placing(port, queue.physical))] + buffer_steps(
        queue,
        buffer_flags(which),
        buffers as nat,
    )
}

/// Set a queue up in memory that was found for it: where it is, and a descriptor
/// for each buffer. They are described once.
pub fn set_up_queue(
    port: u16,
    which: u16,
    buffers: u16,
    size: u16,
    physical: u64,
    buffers_at: u64,
) -> (set: (Queue, Vec<Step>))
    requires
        port <= LAST_PORT,
        0 < size,
        buffers <= size,
        physical <= u64::MAX - 0x40_0000,
        buffers_at <= u64::MAX - 0x1000_0000,
    ensures
        set.0.wf(),
        set.0 == (Queue {
            physical,
            size,
            layout: layout_of(size),
            buffers: buffers_at,
            seen: 0,
        }),
        set.1@ == setting_up(port, which, buffers, set.0),
{
    let queue = Queue {
        physical,
        size,
        layout: queue_layout(size),
        buffers: buffers_at,
        seen: 0,
    };
    let flags: u16 = if which == RECEIVE_QUEUE {
        WRITE
    } else {
        0
    };
    let mut steps: Vec<Step> = Vec::new();
    let write: PortWrite = virtio::place_queue(port, physical);
    steps.push(Step::Port(write));
    let mut index: u16 = 0;
    assert(steps@ =~= seq![Step::Port(write)] + buffer_steps(queue, flags, 0));
    while index < buffers
        invariant
            index <= buffers,
            queue.wf(),
            steps@ == seq![Step::Port(write)] + buffer_steps(queue, flags, index as nat),
        decreases buffers - index,
    {
        put_descriptor(
            &mut steps,
            queue.physical,
            index,
            queue.buffer_physical(index),
            BUFFER as u32,
            flags,
            0,
        );
        index += 1;
        assert(steps@ =~= seq![Step::Port(write)] + buffer_steps(queue, flags, index as nat));
    }
    (queue, steps)
}

/// The port of a byte of the card's address.
pub fn address_port(port: u16, index: u16) -> (at: u16)
    requires
        port <= LAST_PORT,
        index < 6,
    ensures
        at == port + register::CONFIG + index,
{
    port + register::CONFIG + index
}

/// The steps that offer the first so many buffers of a queue that is empty.
pub open spec fn offers(queue: Queue, many: nat) -> Seq<Step>
    decreases many,
{
    if many == 0 {
        Seq::empty()
    } else {
        offers(queue, (many - 1) as nat) + queue.offering((many - 1) as u16, (many - 1) as u16)
    }
}

/// The steps that start a card: it is ready, it has every buffer there is, and
/// it is told.
pub open spec fn starting(port: u16, receive: Queue) -> Seq<Step> {
    seq![Step::Port(readying(port))] + offers(receive, RECEIVE_BUFFERS as nat) + seq![
        Step::Port(
            PortWrite::Word {
                port: (port + register::QUEUE_NOTIFY) as u16,
                word: RECEIVE_QUEUE,
            },
        ),
    ]
}

/// Keep a card whose queues were set up, and start it.
pub fn adopt(state: &mut State, card: Card, line: u8) -> (steps: Vec<Step>)
    requires
        old(state).wf(),
        card.wf(),
    ensures
        final(state).wf(),
        final(state)@ == (Model { card: Some(card), line: Some(line), ..old(state)@ }),
        follows(old(state)@, final(state)@),
        steps@ == starting(card.port, card.receive),
{
    let mut steps: Vec<Step> = Vec::new();
    let ready: PortWrite = virtio::ready(card.port);
    steps.push(Step::Port(ready));
    let queue: Queue = card.receive;
    let mut index: u16 = 0;
    assert(steps@ =~= seq![Step::Port(ready)] + offers(queue, 0));
    while index < RECEIVE_BUFFERS
        invariant
            index <= RECEIVE_BUFFERS,
            queue.wf(),
            steps@ == seq![Step::Port(ready)] + offers(queue, index as nat),
        decreases RECEIVE_BUFFERS - index,
    {
        queue.offer(&mut steps, index, index);
        index += 1;
        assert(steps@ =~= seq![Step::Port(ready)] + offers(queue, index as nat));
    }
    steps.push(
        Step::Port(
            PortWrite::Word { port: card.port + register::QUEUE_NOTIFY, word: RECEIVE_QUEUE },
        ),
    );
    assert(steps@ =~= starting(card.port, card.receive));
    state.card = Some(card);
    state.line = Some(line);
    steps
}

/// How far a card has been brought up: what is wanted next.
#[derive(Debug, Clone, Copy, PartialEq, Eq, Structural)]
pub enum Stage {
    /// What it offers.
    Offer,
    /// How large a queue is.
    Size,
    /// Memory for the queue.
    Queue,
    /// Memory for its buffers.
    Buffers,
    /// The next byte of its address.
    Address,
    /// Nothing: it is ready.
    Up,
    /// Nothing: it was given up, and whether the queue in hand had its memory
    /// then.
    Down(NetError, bool),
}

/// What bringing a card up comes to.
#[derive(Debug, Clone, Copy, PartialEq, Eq, Structural)]
pub enum Turn {
    /// Something is wanted before it goes on.
    Want(Want),
    /// It is ready.
    Up,
    /// It was given up.
    Down(NetError),
}

/// A card that is being brought up, and what is known of it so far.
pub struct Bringing {
    port: u16,
    line: u8,
    stage: Stage,
    agreed: u32,
    which: u16,
    size: u16,
    order: u32,
    physical: u64,
    receive: Queue,
    transmit: Queue,
    said: Vec<u8>,
}

/// The same, as a value.
#[verifier::ext_equal]
pub struct Progress {
    /// The card's first port.
    pub port: u16,
    /// The line it is wired to.
    pub line: u8,
    pub stage: Stage,
    /// The features agreed to.
    pub agreed: u32,
    /// The queue in hand, how many descriptors it has, the order of its block,
    /// and where that is.
    pub which: u16,
    pub size: u16,
    pub order: u32,
    pub physical: u64,
    /// The queues that were set up.
    pub receive: Queue,
    pub transmit: Queue,
    /// What the card has said of its address.
    pub said: Seq<u8>,
}

/// How many buffers a queue has.
pub open spec fn buffers_of(which: u16) -> u16 {
    if which == RECEIVE_QUEUE {
        RECEIVE_BUFFERS
    } else {
        TRANSMIT_BUFFERS
    }
}

/// How many buffers a queue has.
fn buffer_count(which: u16) -> (buffers: u16)
    ensures
        buffers == buffers_of(which),
{
    if which == RECEIVE_QUEUE {
        RECEIVE_BUFFERS
    } else {
        TRANSMIT_BUFFERS
    }
}

/// The order of the block for a queue of so many descriptors.
pub open spec fn queue_order(size: u16) -> u32 {
    order_of(layout_of(size).bytes as nat) as u32
}

/// The order of the block for a queue's buffers.
pub open spec fn buffer_order(which: u16) -> u32 {
    order_of((buffers_of(which) * 2048) as nat) as u32
}

impl Progress {
    /// The queue in hand is large enough, and the order of its block is known.
    pub open spec fn sized(self) -> bool {
        &&& 0 < self.size
        &&& buffers_of(self.which) <= self.size
        &&& self.order == queue_order(self.size)
    }

    /// What is known is in order, as far as anything is known.
    pub open spec fn sound(self) -> bool {
        &&& self.port <= LAST_PORT
        &&& self.which == RECEIVE_QUEUE || self.which == TRANSMIT_QUEUE
        &&& self.which == TRANSMIT_QUEUE ==> self.receive.wf()
        &&& match self.stage {
            Stage::Offer => self.which == RECEIVE_QUEUE && self.said.len() == 0,
            Stage::Size => self.said.len() == 0,
            Stage::Queue => self.sized() && self.said.len() == 0,
            Stage::Buffers => {
                &&& self.sized()
                &&& self.physical < MEMORY_END
                &&& self.said.len() == 0
            },
            Stage::Address => {
                &&& self.which == TRANSMIT_QUEUE
                &&& self.transmit.wf()
                &&& self.agreed != 0
                &&& self.said.len() < 6
            },
            Stage::Up => {
                &&& self.which == TRANSMIT_QUEUE
                &&& self.transmit.wf()
                &&& self.said.len() == if self.agreed != 0 {
                    6nat
                } else {
                    0
                }
            },
            Stage::Down(error, held) => {
                &&& error is QueueSize || error is OutOfMemory
                &&& held ==> self.sized() && error is OutOfMemory && self.physical < MEMORY_END
            },
        }
    }

    /// What is wanted next.
    pub open spec fn turn(self) -> Turn {
        match self.stage {
            Stage::Offer => Turn::Want(
                Want::Read32((self.port + register::DEVICE_FEATURES) as u16),
            ),
            Stage::Size => Turn::Want(Want::Read16((self.port + register::QUEUE_SIZE) as u16)),
            Stage::Queue => Turn::Want(Want::Block(self.order)),
            Stage::Buffers => Turn::Want(Want::Block(buffer_order(self.which))),
            Stage::Address => Turn::Want(
                Want::Read8((self.port + register::CONFIG + self.said.len()) as u16),
            ),
            Stage::Up => Turn::Up,
            Stage::Down(error, _) => Turn::Down(error),
        }
    }

    /// The queue in hand, once it has its buffers.
    pub open spec fn built(self, buffers: u64) -> Queue {
        Queue {
            physical: self.physical,
            size: self.size,
            layout: layout_of(self.size),
            buffers,
            seen: 0,
        }
    }

    /// The card once it was told what was wanted. The queue frames come in on is
    /// set up first. The card's address is read only where it agreed to say it:
    /// otherwise there is nothing to read.
    pub open spec fn told(self, heard: Heard) -> Progress {
        match (self.stage, heard) {
            (Stage::Offer, Heard::Read(offered)) => Progress {
                stage: Stage::Size,
                agreed: agreed_to(offered),
                ..self
            },
            (Stage::Size, Heard::Read(size)) => if size == 0 || size < buffers_of(self.which) {
                Progress { stage: Stage::Down(NetError::QueueSize(size as u16), false), ..self }
            } else {
                Progress {
                    stage: Stage::Queue,
                    size: size as u16,
                    order: queue_order(size as u16),
                    ..self
                }
            },
            (Stage::Queue, Heard::Block(None)) => Progress {
                stage: Stage::Down(NetError::OutOfMemory, false),
                ..self
            },
            (Stage::Queue, Heard::Block(Some(physical))) => Progress {
                stage: Stage::Buffers,
                physical,
                ..self
            },
            (Stage::Buffers, Heard::Block(None)) => Progress {
                stage: Stage::Down(NetError::OutOfMemory, true),
                ..self
            },
            (Stage::Buffers, Heard::Block(Some(buffers))) => if self.which == RECEIVE_QUEUE {
                Progress {
                    stage: Stage::Size,
                    which: TRANSMIT_QUEUE,
                    receive: self.built(buffers),
                    ..self
                }
            } else {
                Progress {
                    stage: if self.agreed != 0 {
                        Stage::Address
                    } else {
                        Stage::Up
                    },
                    transmit: self.built(buffers),
                    ..self
                }
            },
            (Stage::Address, Heard::Read(byte)) => Progress {
                stage: if self.said.len() == 5 {
                    Stage::Up
                } else {
                    Stage::Address
                },
                said: self.said.push(byte as u8),
                ..self
            },
            _ => self,
        }
    }

    /// What happened to a queue that was set up, from the memory it was given on.
    pub open spec fn set(self, which: u16, queue: Queue) -> Seq<Event> {
        seq![
            Event::Given { at: queue.physical, order: queue_order(queue.size) },
            Event::Given { at: queue.buffers, order: buffer_order(which) },
        ] + stepped(setting_up(self.port, which, buffers_of(which), queue))
    }

    /// What has happened up to the queue in hand.
    pub open spec fn selected(self) -> Seq<Event> {
        let first = wrote(noticing(self.port)).push(
            one_write(agreeing(self.port, self.agreed)),
        ).push(one_write(selecting(self.port, RECEIVE_QUEUE)));
        if self.which == RECEIVE_QUEUE {
            first
        } else {
            (first + self.set(RECEIVE_QUEUE, self.receive)).push(
                one_write(selecting(self.port, TRANSMIT_QUEUE)),
            )
        }
    }

    /// What happens before a card is told that its driver is ready.
    pub open spec fn prepared(self) -> Seq<Event> {
        self.selected() + self.set(TRANSMIT_QUEUE, self.transmit)
    }

    /// Everything that has happened to the card by now, in order.
    pub open spec fn history(self) -> Seq<Event> {
        let queue = Event::Given { at: self.physical, order: self.order };
        match self.stage {
            Stage::Offer => wrote(noticing(self.port)),
            Stage::Size | Stage::Queue => self.selected(),
            Stage::Buffers => self.selected().push(queue),
            Stage::Address => self.prepared(),
            Stage::Up => self.prepared() + stepped(starting(self.port, self.receive)),
            Stage::Down(_, false) => self.selected().push(one_write(giving_up(self.port))),
            Stage::Down(_, true) => self.selected().push(queue).push(
                Event::Did(Deed::Free { at: self.physical, order: self.order }),
            ).push(one_write(giving_up(self.port))),
        }
    }

    /// The order of the block that is wanted.
    pub open spec fn wanted_order(self) -> u32 {
        match self.stage {
            Stage::Queue => self.order,
            _ => buffer_order(self.which),
        }
    }

    /// The address the card answers to.
    pub open spec fn address(self) -> Seq<u8> {
        if self.agreed != 0 {
            self.said
        } else {
            seq![0u8, 0, 0, 0, 0, 0]
        }
    }
}

impl View for Bringing {
    type V = Progress;

    closed spec fn view(&self) -> Progress {
        Progress {
            port: self.port,
            line: self.line,
            stage: self.stage,
            agreed: self.agreed,
            which: self.which,
            size: self.size,
            order: self.order,
            physical: self.physical,
            receive: self.receive,
            transmit: self.transmit,
            said: self.said@,
        }
    }
}

impl Bringing {
    /// What is known is in order.
    pub open spec fn wf(&self) -> bool {
        self@.sound()
    }

    fn turn_now(&self) -> (turn: Turn)
        requires
            self.wf(),
        ensures
            turn == self@.turn(),
    {
        match self.stage {
            Stage::Offer => Turn::Want(Want::Read32(self.port + register::DEVICE_FEATURES)),
            Stage::Size => Turn::Want(Want::Read16(self.port + register::QUEUE_SIZE)),
            Stage::Queue => Turn::Want(Want::Block(self.order)),
            Stage::Buffers => Turn::Want(
                Want::Block(order_for(buffer_count(self.which) as u64 * BUFFER)),
            ),
            Stage::Address => Turn::Want(
                Want::Read8(address_port(self.port, self.said.len() as u16)),
            ),
            Stage::Up => Turn::Up,
            Stage::Down(error, _) => Turn::Down(error),
        }
    }

    /// Give the card up.
    fn fall(&mut self, deeds: &mut Vec<Deed>, error: NetError, held: bool)
        requires
            old(self)@.port <= LAST_PORT,
        ensures
            final(self)@ == (Progress { stage: Stage::Down(error, held), ..old(self)@ }),
            did(final(deeds)@) == (if held {
                did(old(deeds)@).push(
                    Event::Did(Deed::Free { at: old(self)@.physical, order: old(self)@.order }),
                )
            } else {
                did(old(deeds)@)
            }).push(one_write(giving_up(old(self)@.port))),
    {
        let ghost before = did(deeds@);
        if held {
            deeds.push(Deed::Free { at: self.physical, order: self.order });
        }
        deeds.push(Deed::Step(Step::Port(virtio::give_up(self.port))));
        self.stage = Stage::Down(error, held);
        proof {
            let freed = Event::Did(Deed::Free { at: self.physical, order: self.order });
            let told = one_write(giving_up(self.port));
            if held {
                assert(did(deeds@) =~= before.push(freed).push(told));
            } else {
                assert(did(deeds@) =~= before.push(told));
            }
        }
    }

    /// Keep the card, and start it.
    fn finish(&mut self, state: &mut State, deeds: &mut Vec<Deed>)
        requires
            old(state).wf(),
            (Progress { stage: Stage::Up, ..old(self)@ }).sound(),
        ensures
            final(state).wf(),
            final(self).wf(),
            final(self)@ == (Progress { stage: Stage::Up, ..old(self)@ }),
            did(final(deeds)@) == did(old(deeds)@) + stepped(
                starting(old(self)@.port, old(self)@.receive),
            ),
            kept(old(state)@, final(self)@, final(state)@),
    {
        self.stage = Stage::Up;
        let mac: [u8; 6] = if self.agreed != 0 {
            [
                self.said[0],
                self.said[1],
                self.said[2],
                self.said[3],
                self.said[4],
                self.said[5],
            ]
        } else {
            [0, 0, 0, 0, 0, 0]
        };
        assert(mac@ =~= self@.address());
        let card = Card {
            port: self.port,
            receive: self.receive,
            transmit: self.transmit,
            mac,
        };
        let steps = adopt(state, card, self.line);
        put_deeds(deeds, &steps);
    }

    /// Go on with the memory for the buffers of the queue in hand.
    fn build(&mut self, state: &mut State, deeds: &mut Vec<Deed>, buffers: u64)
        requires
            old(state).wf(),
            old(self).wf(),
            old(self)@.stage is Buffers,
            buffers < MEMORY_END,
            old(deeds)@.len() == 0,
        ensures
            final(state).wf(),
            final(self).wf(),
            final(self)@ == old(self)@.told(Heard::Block(Some(buffers))),
            did(final(deeds)@) == stepped(
                setting_up(
                    old(self)@.port,
                    old(self)@.which,
                    buffers_of(old(self)@.which),
                    old(self)@.built(buffers),
                ),
            ) + (if old(self)@.which == RECEIVE_QUEUE {
                seq![one_write(selecting(old(self)@.port, TRANSMIT_QUEUE))]
            } else if final(self)@.stage is Up {
                stepped(starting(old(self)@.port, old(self)@.receive))
            } else {
                Seq::empty()
            }),
            kept(old(state)@, final(self)@, final(state)@),
    {
        let ghost before = self@;
        let which: u16 = self.which;
        let (queue, steps) = set_up_queue(
            self.port,
            which,
            buffer_count(which),
            self.size,
            self.physical,
            buffers,
        );
        put_deeds(deeds, &steps);
        let ghost set = did(deeds@);
        assert(set =~= stepped(steps@));
        if which == RECEIVE_QUEUE {
            deeds.push(Deed::Step(Step::Port(select_queue(self.port, TRANSMIT_QUEUE))));
            self.receive = queue;
            self.which = TRANSMIT_QUEUE;
            self.stage = Stage::Size;
            assert(did(deeds@) =~= set + seq![
                one_write(selecting(self.port, TRANSMIT_QUEUE)),
            ]);
        } else {
            self.transmit = queue;
            if self.agreed != 0 {
                self.stage = Stage::Address;
                assert(did(deeds@) =~= set + Seq::empty());
            } else {
                self.finish(state, deeds);
            }
        }
        assert(self@ =~= before.told(Heard::Block(Some(buffers))));
    }

    /// Go on with a byte of the card's address.
    fn hear(&mut self, state: &mut State, deeds: &mut Vec<Deed>, byte: u8)
        requires
            old(state).wf(),
            old(self).wf(),
            old(self)@.stage is Address,
            old(deeds)@.len() == 0,
        ensures
            final(state).wf(),
            final(self).wf(),
            final(self)@ == old(self)@.told(Heard::Read(byte as u32)),
            did(final(deeds)@) == if final(self)@.stage is Up {
                stepped(starting(old(self)@.port, old(self)@.receive))
            } else {
                Seq::empty()
            },
            kept(old(state)@, final(self)@, final(state)@),
    {
        let ghost before = self@;
        self.said.push(byte);
        assert(did(deeds@) =~= Seq::empty());
        if self.said.len() == 6 {
            self.finish(state, deeds);
            assert(did(deeds@) =~= stepped(starting(self.port, self.receive)));
        }
        assert(self@ =~= before.told(Heard::Read(byte as u32)));
    }

    /// Go on with what was wanted: what is to be done now, in order, and what is
    /// wanted then.
    ///
    /// A card one of whose queues is too small, or for which there is no memory,
    /// is given up. A queue's memory is given back where there is none for its
    /// buffers. A card that is ready is kept.
    pub fn heard(&mut self, state: &mut State, heard: Heard) -> (next: (Vec<Deed>, Turn))
        requires
            old(state).wf(),
            old(self).wf(),
            old(self)@.turn() matches Turn::Want(want) && want.fits(heard),
        ensures
            final(state).wf(),
            final(self).wf(),
            final(self)@ == old(self)@.told(heard),
            next.1 == final(self)@.turn(),
            final(self)@.history() == old(self)@.history() + given(
                old(self)@.wanted_order(),
                heard,
            ) + did(next.0@),
            kept(old(state)@, final(self)@, final(state)@),
            follows(old(state)@, final(state)@),
    {
        let ghost before = self@;
        let mut deeds: Vec<Deed> = Vec::new();
        assert(did(deeds@) =~= Seq::empty());
        match (self.stage, heard) {
            (Stage::Offer, Heard::Read(offered)) => {
                let (agreed, write) = agree(self.port, offered);
                deeds.push(Deed::Step(Step::Port(write)));
                deeds.push(Deed::Step(Step::Port(select_queue(self.port, RECEIVE_QUEUE))));
                self.agreed = agreed;
                self.stage = Stage::Size;
            },
            (Stage::Size, Heard::Read(size)) => {
                let size: u16 = size as u16;
                match plan_queue(size, buffer_count(self.which)) {
                    Err(error) => self.fall(&mut deeds, error, false),
                    Ok(plan) => {
                        self.size = size;
                        self.order = plan.order;
                        self.stage = Stage::Queue;
                    },
                }
            },
            (Stage::Queue, Heard::Block(None)) => {
                self.fall(&mut deeds, NetError::OutOfMemory, false);
            },
            (Stage::Queue, Heard::Block(Some(physical))) => {
                self.physical = physical;
                self.stage = Stage::Buffers;
            },
            (Stage::Buffers, Heard::Block(None)) => {
                self.fall(&mut deeds, NetError::OutOfMemory, true);
            },
            (Stage::Buffers, Heard::Block(Some(buffers))) => {
                self.build(state, &mut deeds, buffers)
            },
            (Stage::Address, Heard::Read(byte)) => self.hear(state, &mut deeds, byte as u8),
            _ => {},
        }
        assert(self@ =~= before.told(heard));
        assert(self@.history() =~= before.history() + given(before.wanted_order(), heard) + did(
            deeds@,
        ));
        let turn = self.turn_now();
        (deeds, turn)
    }
}

/// Whether a card is kept once it is ready, and nothing changes before.
pub open spec fn kept(before: Model, card: Progress, after: Model) -> bool {
    if card.stage is Up {
        &&& after.card matches Some(made) && made.port == card.port && made.receive == card.receive
            && made.transmit == card.transmit && made.mac@ == card.address()
        &&& after == (Model { card: after.card, line: Some(card.line), ..before })
    } else {
        after == before
    }
}

/// Start to bring a card up: what is to be done first, and what is wanted then.
/// Nothing is read of the card before it was reset and told of its driver.
pub fn bring_up(port: u16, line: u8) -> (start: (Bringing, Vec<Deed>, Turn))
    requires
        port <= LAST_PORT,
    ensures
        start.0.wf(),
        start.0@.stage is Offer,
        start.0@.port == port,
        start.0@.line == line,
        start.0@.history() == did(start.1@),
        start.1@ == noticing(port).map_values(|write: PortWrite| Deed::Step(Step::Port(write))),
        start.2 == start.0@.turn(),
{
    let none = Queue { physical: 0, size: 0, layout: queue_layout(0), buffers: 0, seen: 0 };
    let bringing = Bringing {
        port,
        line,
        stage: Stage::Offer,
        agreed: 0,
        which: RECEIVE_QUEUE,
        size: 0,
        order: 0,
        physical: 0,
        receive: none,
        transmit: none,
        said: Vec::new(),
    };
    let mut deeds: Vec<Deed> = Vec::new();
    put_writes(&mut deeds, &virtio::notice(port));
    assert(did(deeds@) =~= bringing@.history());
    let turn = bringing.turn_now();
    (bringing, deeds, turn)
}

/// Whether a frame can be sent.
pub open spec fn send_refused(state: Model, length: usize) -> Option<NetError> {
    if length > MAX_FRAME {
        Some(NetError::TooLong(length))
    } else if state.card is None {
        Some(NetError::NoDevice)
    } else {
        None
    }
}

/// The steps that send a frame of some length, given the driver's index. Always
/// from the first buffer: one frame goes out at a time. The device's index is
/// looked at before the frame is offered.
pub open spec fn send_steps(card: Card, length: usize, at: u16) -> Seq<Step> {
    let queue = card.transmit;
    let buffer = queue.spec_buffer(0);
    seq![
        Step::Zeros { at: buffer, many: HEADER },
        Step::Data { at: (buffer + HEADER) as u64, length: length as u64 },
    ] + descriptor_steps(queue.physical, 0, buffer, (HEADER + length) as u32, 0, 0) + seq![
        Step::Sample,
    ] + queue.offering(at, 0) + seq![
        Step::Port(
            PortWrite::Word {
                port: (card.port + register::QUEUE_NOTIFY) as u16,
                word: TRANSMIT_QUEUE,
            },
        ),
    ]
}

/// Whether a frame is short enough to be carried: asked before the turn to send
/// is waited for.
pub fn check_frame(length: usize) -> (checked: Result<(), NetError>)
    ensures
        checked == if length > MAX_FRAME {
            Err::<(), NetError>(NetError::TooLong(length))
        } else {
            Ok(())
        },
{
    if length > MAX_FRAME {
        return Err(NetError::TooLong(length));
    }
    Ok(())
}

/// Send a frame of some length, given the driver's index of the queue that goes
/// out.
pub fn transmit(state: &State, length: usize, at: u16) -> (steps: Result<Vec<Step>, NetError>)
    requires
        state.wf(),
    ensures
        match steps {
            Err(error) => send_refused(state@, length) == Some(error),
            Ok(steps) => {
                &&& send_refused(state@, length) is None
                &&& steps@ == send_steps(state@.card->0, length, at)
            },
        },
{
    match check_frame(length) {
        Err(error) => return Err(error),
        Ok(()) => {},
    }
    let card: Card = match state.card {
        None => return Err(NetError::NoDevice),
        Some(card) => card,
    };
    let queue: Queue = card.transmit;
    let buffer: u64 = queue.buffer_physical(0);
    let mut steps: Vec<Step> = Vec::new();
    steps.push(Step::Zeros { at: buffer, many: HEADER });
    steps.push(Step::Data { at: buffer + HEADER, length: length as u64 });
    put_descriptor(
        &mut steps,
        queue.physical,
        0,
        buffer,
        (HEADER as usize + length) as u32,
        0,
        0,
    );
    steps.push(Step::Sample);
    queue.offer(&mut steps, at, 0);
    steps.push(
        Step::Port(
            PortWrite::Word { port: card.port + register::QUEUE_NOTIFY, word: TRANSMIT_QUEUE },
        ),
    );
    assert(steps@ =~= send_steps(card, length, at));
    Ok(steps)
}

/// Take the turn to send, if nobody has it: whether it was taken.
pub fn acquire(state: &mut State) -> (taken: bool)
    requires
        old(state).wf(),
    ensures
        final(state).wf(),
        taken == !old(state)@.sending,
        final(state)@ == (Model { sending: true, ..old(state)@ }),
        follows(old(state)@, final(state)@),
{
    let taken: bool = !state.sending;
    state.sending = true;
    taken
}

/// Give the turn back. One of those waiting for it is to be woken.
pub fn release(state: &mut State)
    requires
        old(state).wf(),
    ensures
        final(state).wf(),
        final(state)@ == (Model { sending: false, ..old(state)@ }),
        follows(old(state)@, final(state)@),
{
    state.sending = false;
}

/// A frame that was offered: how it is waited for.
#[derive(Debug, Clone, Copy, PartialEq, Eq, Structural)]
pub struct Sending {
    /// The device's index before.
    pub before: u16,
    /// The generation of who waits, before.
    pub generation: u64,
    /// Looks so far, where it is not waited for by sleeping.
    pub spins: Option<u32>,
}

impl Sending {
    /// There is another look.
    pub open spec fn wf(self) -> bool {
        self.spins matches Some(spins) ==> spins < COMPLETION_SPINS
    }

    /// What a look at the device's index gives.
    pub open spec fn looked(self, used: u16) -> (Sending, Look) {
        if used != self.before {
            (self, Look::Done)
        } else {
            match self.spins {
                None => (self, Look::Sleep(self.generation)),
                Some(spins) => if spins + 1 < COMPLETION_SPINS {
                    (Sending { spins: Some((spins + 1) as u32), ..self }, Look::Again)
                } else {
                    (self, Look::TimedOut)
                },
            }
        }
    }

    /// Look at the device's index.
    pub fn look(&mut self, used: u16) -> (look: Look)
        requires
            old(self).wf(),
        ensures
            final(self).wf(),
            (*final(self), look) == old(self).looked(used),
    {
        if used != self.before {
            return Look::Done;
        }
        match self.spins {
            None => Look::Sleep(self.generation),
            Some(spins) => {
                if spins + 1 < COMPLETION_SPINS {
                    self.spins = Some(spins + 1);
                    Look::Again
                } else {
                    Look::TimedOut
                }
            },
        }
    }

    /// Go on after a sleep, with the generation there is now.
    pub fn slept(&mut self, generation: u64)
        requires
            old(self).wf(),
        ensures
            final(self).wf(),
            *final(self) == (Sending { generation, ..*old(self) }),
    {
        self.generation = generation;
    }
}

/// Start to wait for the card to take a frame: by sleeping where it has been
/// seen to interrupt and there is a thread to put to sleep.
pub fn wait_for_send(state: &State, before: u16, generation: u64, has_thread: bool) -> (sending:
    Sending)
    ensures
        sending.wf(),
        sending == (Sending {
            before,
            generation,
            spins: if state@.blocking && has_thread {
                None
            } else {
                Some(0u32)
            },
        }),
{
    let spins: Option<u32> = if state.blocking && has_thread {
        None
    } else {
        Some(0)
    };
    Sending { before, generation, spins }
}

/// Count a frame the card took, or say that it did not.
pub fn sent(state: &mut State, taken: bool) -> (outcome: Result<(), NetError>)
    requires
        old(state).wf(),
    ensures
        final(state).wf(),
        if taken {
            &&& outcome == Ok::<(), NetError>(())
            &&& final(state)@ == (Model {
                transmitted: counted(old(state)@.transmitted, 1),
                ..old(state)@
            })
        } else {
            &&& outcome == Err::<(), NetError>(NetError::Timeout)
            &&& final(state)@ == old(state)@
        },
        follows(old(state)@, final(state)@),
{
    if !taken {
        return Err(NetError::Timeout);
    }
    state.transmitted = count(state.transmitted, 1);
    Ok(())
}

/// Whether a frame is waiting, given the device's index of the queue that comes
/// in.
pub open spec fn waiting(state: Model, used: u16) -> bool {
    state.card matches Some(card) && used != card.receive.seen
}

/// Whether a frame is waiting to be taken.
pub fn has_frame_waiting(state: &State, used: u16) -> (has: bool)
    ensures
        has == waiting(state@, used),
{
    match state.card {
        None => false,
        Some(card) => used != card.receive.seen,
    }
}

/// Where the device's ring says which frame is next, if one is waiting. It is
/// read after the index was.
pub fn receive(state: &State, used: u16) -> (at: Option<u64>)
    requires
        state.wf(),
    ensures
        at == if waiting(state@, used) {
            let queue = (state@.card->0).receive;
            Some((queue.physical + queue.layout.used + 4 + 8 * (queue.seen % queue.size)) as u64)
        } else {
            None
        },
{
    let card: Card = match state.card {
        None => return None,
        Some(card) => card,
    };
    if used == card.receive.seen {
        return None;
    }
    Some(card.receive.used_entry(card.receive.seen))
}

/// A frame that was taken.
#[derive(Debug)]
pub struct Taken {
    /// Where it is.
    pub from: u64,
    /// How much of it to copy.
    pub bytes: usize,
    /// What to do once it was copied: the buffer goes back to the card.
    pub steps: Vec<Step>,
}

/// The lesser of two.
pub open spec fn lesser(left: int, right: int) -> int {
    if left < right {
        left
    } else {
        right
    }
}

/// How long a frame is of which the device wrote so many bytes: without the
/// header, and no longer than any frame is.
pub open spec fn frame_length(written: u32) -> int {
    if written < HEADER {
        0
    } else {
        lesser(written - HEADER, MAX_FRAME as int)
    }
}

/// Take the frame that is next, into so much room, given what the device's ring
/// says of it and the driver's index.
pub fn take(state: &mut State, entry: Used, room: usize, at: u16) -> (taken: Option<Taken>)
    requires
        old(state).wf(),
    ensures
        final(state).wf(),
        match old(state)@.card {
            None => taken is None && final(state)@ == old(state)@,
            Some(card) => {
                let index = (entry.index % 0x1_0000) as u16;
                let length = frame_length(entry.length);
                let bytes = lesser(length, room as int);
                &&& taken matches Some(frame) && frame.from == card.receive.spec_buffer(index)
                    + HEADER && frame.bytes == bytes && frame.steps@ == card.receive.offering(
                    at,
                    index,
                ) + seq![
                    Step::Port(
                        PortWrite::Word {
                            port: (card.port + register::QUEUE_NOTIFY) as u16,
                            word: RECEIVE_QUEUE,
                        },
                    ),
                ]
                &&& final(state)@ == (Model {
                    card: Some(
                        Card {
                            receive: Queue {
                                seen: index_after(card.receive.seen),
                                ..card.receive
                            },
                            ..card
                        },
                    ),
                    received: counted(old(state)@.received, 1),
                    dropped: if bytes < length {
                        counted(old(state)@.dropped, 1)
                    } else {
                        old(state)@.dropped
                    },
                    ..old(state)@
                })
            },
        },
        follows(old(state)@, final(state)@),
{
    let mut card: Card = match state.card {
        None => return None,
        Some(card) => card,
    };
    let queue: Queue = card.receive;
    let index: u16 = (entry.index % 0x1_0000) as u16;
    let written: usize = entry.length as usize;
    let mut length: usize = if written < HEADER as usize {
        0
    } else {
        written - HEADER as usize
    };
    if length > MAX_FRAME {
        length = MAX_FRAME;
    }
    let bytes: usize = if length < room {
        length
    } else {
        room
    };
    if bytes < length {
        state.dropped = count(state.dropped, 1);
    }
    let mut steps: Vec<Step> = Vec::new();
    queue.offer(&mut steps, at, index);
    steps.push(
        Step::Port(
            PortWrite::Word { port: card.port + register::QUEUE_NOTIFY, word: RECEIVE_QUEUE },
        ),
    );
    assert(steps@ =~= queue.offering(at, index) + seq![
        Step::Port(
            PortWrite::Word {
                port: (card.port + register::QUEUE_NOTIFY) as u16,
                word: RECEIVE_QUEUE,
            },
        ),
    ]);
    card.receive.seen = next_index(queue.seen);
    state.card = Some(card);
    state.received = count(state.received, 1);
    Some(Taken { from: queue.buffer_physical(index) + HEADER, bytes, steps })
}

/// The port that says why the card interrupted, and acknowledges it.
pub fn reason_port(state: &State) -> (port: Option<u16>)
    requires
        state.wf(),
    ensures
        port == match state@.card {
            Some(card) => Some((card.port + register::ISR) as u16),
            None => None,
        },
{
    match state.card {
        Some(card) => Some(card.port + register::ISR),
        None => None,
    }
}

/// The line was raised, for this reason: whether to wake who waits for a frame
/// and who waits for one to go out. Without one it was another device on the
/// line, and says nothing of whether this card's interrupt works.
pub fn on_interrupt(state: &mut State, reason: u8) -> (wake: bool)
    requires
        old(state).wf(),
    ensures
        final(state).wf(),
        wake == (reason != 0),
        final(state)@ == if reason != 0 {
            Model { interrupts: counted(old(state)@.interrupts, 1), ..old(state)@ }
        } else {
            old(state)@
        },
        follows(old(state)@, final(state)@),
{
    if reason == 0 {
        return false;
    }
    state.interrupts = count(state.interrupts, 1);
    true
}

/// Take the card's interrupt into use, if it has interrupted: whether that
/// changed anything.
pub fn adopt_interrupt(state: &mut State) -> (changed: bool)
    requires
        old(state).wf(),
    ensures
        final(state).wf(),
        changed == can_adopt(old(state)@),
        final(state)@ == if changed {
            Model { blocking: true, ..old(state)@ }
        } else {
            old(state)@
        },
        final(state)@.blocking == (old(state)@.blocking || old(state)@.interrupts != 0),
        follows(old(state)@, final(state)@),
{
    if state.blocking || state.interrupts == 0 {
        return false;
    }
    state.blocking = true;
    true
}

/// Whether waiting is sleeping yet.
pub fn is_blocking(state: &State) -> (blocking: bool)
    ensures
        blocking == state@.blocking,
{
    state.blocking
}

/// The line the card was wired to.
pub fn interrupt_line(state: &State) -> (line: Option<u8>)
    ensures
        line == state@.line,
{
    state.line
}

/// The address the card answers to.
pub fn address(state: &State) -> (mac: Option<[u8; 6]>)
    ensures
        mac == match state@.card {
            Some(card) => Some(card.mac),
            None => None,
        },
{
    match state.card {
        Some(card) => Some(card.mac),
        None => None,
    }
}

/// The card.
pub fn card(state: &State) -> (card: Option<Card>)
    ensures
        card == state@.card,
{
    state.card
}

/// Whether there is a card.
pub fn is_present(state: &State) -> (present: bool)
    ensures
        present == (state@.card is Some),
{
    state.card.is_some()
}

/// Frames in, frames out, frames that were cut, and interrupts.
pub fn statistics(state: &State) -> (counts: (u64, u64, u64, u64))
    ensures
        counts == (
            state@.received,
            state@.transmitted,
            state@.dropped,
            state@.interrupts,
        ),
{
    (state.received, state.transmitted, state.dropped, state.interrupts)
}

/// The buffer a frame came in goes back to the card at once, whatever became of
/// the frame: its entry comes before the index that shows it.
pub proof fn law_buffers_go_back(queue: Queue, at: u16, index: u16)
    requires
        queue.wf(),
    ensures
        queue.offering(at, index).len() == 4,
        queue.offering(at, index)[0] == entry_step(queue.ring(), at, queue.size, index),
        queue.offering(at, index)[1] == Step::Fence,
        queue.offering(at, index)[2] == (Step::Half {
            at: (queue.ring() + 2) as u64,
            half: index_after(at),
        }),
        queue.offering(at, index)[3] == Step::Fence,
{
}

/// What is copied of a frame is in its buffer, and no more than there is room
/// for.
pub proof fn law_frames_stay_in_their_buffers(written: u32, room: usize)
    ensures
        0 <= frame_length(written) <= MAX_FRAME,
        HEADER + lesser(frame_length(written), room as int) <= BUFFER,
        lesser(frame_length(written), room as int) <= room,
        HEADER + MAX_FRAME <= BUFFER,
{
}

/// The buffers of a queue do not overlap.
pub proof fn law_buffers_are_apart(queue: Queue, one: u16, other: u16)
    requires
        queue.wf(),
        one < other,
    ensures
        queue.spec_buffer(one) + BUFFER <= queue.spec_buffer(other),
{
}

/// The device is offered every buffer at the start, the ones it can fill in the
/// order they are in.
pub proof fn law_every_buffer_is_offered(queue: Queue, many: nat, index: nat)
    requires
        index < many <= RECEIVE_BUFFERS,
    ensures
        offers(queue, many).len() == 4 * many,
        offers(queue, many)[4 * index as int] == entry_step(
            queue.ring(),
            index as u16,
            queue.size,
            index as u16,
        ),
    decreases many,
{
    lemma_offers_len(queue, (many - 1) as nat);
    if index < many - 1 {
        law_every_buffer_is_offered(queue, (many - 1) as nat, index);
    }
}

proof fn lemma_offers_len(queue: Queue, many: nat)
    ensures
        offers(queue, many).len() == 4 * many,
    decreases many,
{
    if many > 0 {
        lemma_offers_len(queue, (many - 1) as nat);
    }
}

/// A history of setting a queue up holds where the queue is, and nothing said of
/// the driver's status.
proof fn lemma_set(card: Progress, which: u16, queue: Queue)
    ensures
        card.set(which, queue).contains(one_write(placing(card.port, queue.physical))),
        !card.set(which, queue).contains(one_write(readying(card.port))),
        forall|at: u64, order: u32|
            #[trigger] card.set(which, queue).contains(Event::Given { at, order }) ==> at
                == queue.physical || at == queue.buffers,
{
    let steps = setting_up(card.port, which, buffers_of(which), queue);
    let set = card.set(which, queue);
    lemma_buffer_steps(queue, buffer_flags(which), buffers_of(which) as nat);
    assert(steps[0] == Step::Port(placing(card.port, queue.physical)));
    assert(set[2] == one_write(placing(card.port, queue.physical)));
    assert forall|i: int| 2 < i < set.len() implies #[trigger] set[i] != one_write(
        readying(card.port),
    ) by {
        assert(set[i] == Event::Did(Deed::Step(steps[i - 2])));
        assert(steps[i - 2] == buffer_steps(
            queue,
            buffer_flags(which),
            buffers_of(which) as nat,
        )[i - 3]);
    }
}

/// Describing buffers writes to no port.
proof fn lemma_buffer_steps(queue: Queue, flags: u16, many: nat)
    ensures
        forall|i: int|
            0 <= i < buffer_steps(queue, flags, many).len() ==> !(#[trigger] buffer_steps(
                queue,
                flags,
                many,
            )[i] is Port),
    decreases many,
{
    if many > 0 {
        lemma_buffer_steps(queue, flags, (many - 1) as nat);
    }
}

/// What happens up to the queue in hand says nothing of the driver being ready.
proof fn lemma_selected(card: Progress)
    ensures
        !card.selected().contains(one_write(readying(card.port))),
        card.which == RECEIVE_QUEUE ==> forall|at: u64, order: u32|
            !#[trigger] card.selected().contains(Event::Given { at, order }),
        forall|at: u64, order: u32|
            #[trigger] card.selected().contains(Event::Given { at, order }) ==> at
                == card.receive.physical || at == card.receive.buffers,
        card.which != RECEIVE_QUEUE ==> card.selected().contains(
            one_write(placing(card.port, card.receive.physical)),
        ),
{
    let first = wrote(noticing(card.port)).push(
        one_write(agreeing(card.port, card.agreed)),
    ).push(one_write(selecting(card.port, RECEIVE_QUEUE)));
    let set = card.set(RECEIVE_QUEUE, card.receive);
    let ready = one_write(readying(card.port));
    lemma_set(card, RECEIVE_QUEUE, card.receive);
    assert(!first.contains(ready));
    if card.which != RECEIVE_QUEUE {
        let all = card.selected();
        let inner = first + set;
        assert forall|i: int| 0 <= i < all.len() implies #[trigger] all[i] != ready by {
            if first.len() <= i < inner.len() {
                assert(all[i] == set[i - first.len()]);
            } else if i < first.len() {
                assert(all[i] == first[i]);
            }
        }
        assert forall|at: u64, order: u32| #[trigger]
            all.contains(Event::Given { at, order }) implies at == card.receive.physical || at
            == card.receive.buffers by {
            let event = Event::Given { at, order };
            let i = choose|i: int| 0 <= i < all.len() && all[i] == event;
            if first.len() <= i < inner.len() {
                assert(all[i] == set[i - first.len()]);
                assert(set.contains(event));
            } else if i < first.len() {
                assert(all[i] == first[i]);
            }
        }
        let placed = one_write(placing(card.port, card.receive.physical));
        let i = choose|i: int| 0 <= i < set.len() && set[i] == placed;
        assert(all[first.len() + i] == placed);
    }
}

/// A card is told that its driver is ready once it was told where both its
/// queues are, and only where everything it needs was there. Its buffers are
/// offered after that, and then it is told of them.
pub proof fn law_a_card_is_ready_after_its_queues(card: Progress)
    requires
        card.sound(),
    ensures
        ({
            let ready = one_write(readying(card.port));
            if card.stage is Up {
                &&& card.history() == card.prepared() + stepped(
                    starting(card.port, card.receive),
                )
                &&& stepped(starting(card.port, card.receive))[0] == ready
                &&& card.prepared().contains(
                    one_write(placing(card.port, card.receive.physical)),
                )
                &&& card.prepared().contains(
                    one_write(placing(card.port, card.transmit.physical)),
                )
                &&& !card.prepared().contains(ready)
            } else {
                !card.history().contains(ready)
            }
        }),
{
    let ready = one_write(readying(card.port));
    let selected = card.selected();
    let set = card.set(TRANSMIT_QUEUE, card.transmit);
    lemma_selected(card);
    if card.stage is Address || card.stage is Up {
        let prepared = card.prepared();
        lemma_set(card, TRANSMIT_QUEUE, card.transmit);
        assert forall|i: int| 0 <= i < prepared.len() implies #[trigger] prepared[i] != ready by {
            if i < selected.len() {
                assert(prepared[i] == selected[i]);
            } else {
                assert(prepared[i] == set[i - selected.len()]);
            }
        }
        let first = one_write(placing(card.port, card.receive.physical));
        let i = choose|i: int| 0 <= i < selected.len() && selected[i] == first;
        assert(prepared[i] == first);
        let second = one_write(placing(card.port, card.transmit.physical));
        let j = choose|j: int| 0 <= j < set.len() && set[j] == second;
        assert(prepared[selected.len() + j] == second);
    } else if !(card.stage is Offer) {
        let history = card.history();
        assert forall|i: int| 0 <= i < history.len() implies #[trigger] history[i] != ready by {
            if i < selected.len() {
                assert(history[i] == selected[i]);
            }
        }
    }
}

/// A card that could not be brought up is told last that it was given up. What
/// memory was given was given back, but for that of a queue the card was told
/// of.
pub proof fn law_a_card_that_fails_is_given_up(card: Progress)
    requires
        card.sound(),
        card.stage is Down,
    ensures
        card.history().last() == one_write(giving_up(card.port)),
        forall|at: u64, order: u32|
            #[trigger] card.history().contains(Event::Given { at, order })
                ==> card.history().contains(Event::Did(Deed::Free { at, order })) || {
                &&& card.which == TRANSMIT_QUEUE
                &&& at == card.receive.physical || at == card.receive.buffers
                &&& card.history().contains(
                    one_write(placing(card.port, card.receive.physical)),
                )
            },
{
    let history = card.history();
    let selected = card.selected();
    lemma_selected(card);
    if card.stage->Down_1 {
        assert(history[history.len() - 2] == Event::Did(
            Deed::Free { at: card.physical, order: card.order },
        ));
    }
    assert forall|at: u64, order: u32| #[trigger]
        history.contains(Event::Given { at, order }) implies history.contains(
        Event::Did(Deed::Free { at, order }),
    ) || {
        &&& card.which == TRANSMIT_QUEUE
        &&& at == card.receive.physical || at == card.receive.buffers
        &&& history.contains(one_write(placing(card.port, card.receive.physical)))
    } by {
        let event = Event::Given { at, order };
        let i = choose|i: int| 0 <= i < history.len() && history[i] == event;
        if i < selected.len() {
            assert(selected[i] == event);
            assert(selected.contains(event));
            let placed = one_write(placing(card.port, card.receive.physical));
            let j = choose|j: int| 0 <= j < selected.len() && selected[j] == placed;
            assert(history[j] == placed);
        }
    }
}

/// How many things can still be wanted of a card.
pub open spec fn wants_left(card: Progress) -> int {
    let queues = if card.which == RECEIVE_QUEUE {
        3
    } else {
        0int
    };
    match card.stage {
        Stage::Offer => 13,
        Stage::Size => 9 + queues,
        Stage::Queue => 8 + queues,
        Stage::Buffers => 7 + queues,
        Stage::Address => 6 - card.said.len(),
        Stage::Up | Stage::Down(..) => 0,
    }
}

/// Bringing a card up ends: each thing it is told leaves fewer to be wanted.
pub proof fn law_bringing_a_card_up_ends(card: Progress, heard: Heard)
    requires
        card.sound(),
        card.turn() matches Turn::Want(want) && want.fits(heard),
    ensures
        0 <= wants_left(card.told(heard)) < wants_left(card),
{
}

/// What may become of the card from one moment to the next: once waiting is
/// sleeping it stays so.
pub open spec fn follows(before: Model, after: Model) -> bool {
    before.blocking ==> after.blocking
}

/// Whether taking the card's interrupt into use would change anything.
pub open spec fn can_adopt(state: Model) -> bool {
    !state.blocking && state.interrupts != 0
}

/// Once waiting is sleeping it stays so, through whatever is done: `run` is the
/// states one after another.
pub proof fn law_sleeping_stays(run: Seq<Model>, from: int, to: int)
    requires
        0 <= from <= to < run.len(),
        forall|i: int| 0 <= i < run.len() - 1 ==> follows(#[trigger] run[i], run[i + 1]),
        run[from].blocking,
    ensures
        run[to].blocking,
    decreases to - from,
{
    if from < to {
        law_sleeping_stays(run, from, to - 1);
        assert(follows(run[to - 1], run[to - 1 + 1]));
    }
}

/// The card's interrupt is taken into use at most once: from the state after one
/// call that said so, no later call says so again.
pub proof fn law_an_interrupt_is_adopted_once(run: Seq<Model>, adopted: int, later: int)
    requires
        0 <= adopted < later < run.len(),
        forall|i: int| 0 <= i < run.len() - 1 ==> follows(#[trigger] run[i], run[i + 1]),
        can_adopt(run[adopted]),
        run[adopted + 1].blocking,
    ensures
        !can_adopt(run[later]),
{
    law_sleeping_stays(run, adopted + 1, later);
}

} // verus!
