//! A virtio disk.
//!
//! A request is a chain of descriptors: a header that says what and where, the
//! data, and one byte for the device to say how it went. One request is made at
//! a time, because there is one place for it in memory.
//!
//! A request waits by spinning until the device has been seen to interrupt;
//! only then does it sleep.
use vstd::prelude::*;

use crate::bytes::put_zeros;
use crate::count::{count, counted};
use crate::drivers::pci::{BaseAddress, Device};
#[allow(unused_imports)]
use crate::drivers::port::MEMORY_END;
use crate::drivers::port::{Heard, PortWrite, Want};
use crate::drivers::virtio::{
    self, order_for, put_descriptor, put_entry, put_publish, put_writes, queue_layout, register,
    Deed, Layout, Look, Step, COMPLETION_SPINS, LAST_PORT, NEXT, WRITE,
};
#[allow(unused_imports)]
use crate::drivers::virtio::{
    descriptor_steps, did, entry_step, given, giving_up, layout_of, noticing, one_write, order_of,
    placing, publish_steps, readying, wrote, Event,
};
use crate::text::{append_hexadecimal, around_decimal, with_decimal};
#[allow(unused_imports)]
use crate::text::{decimal, hexadecimal};

pub mod law;

verus! {

/// What a disk's subsystem is.
pub const SUBSYSTEM: u16 = 2;

/// What a disk's own number is, where its subsystem does not say.
pub const NUMBER: u16 = 0x1001;

/// Read from the disk into memory.
pub const READ_REQUEST: u32 = 0;

/// Write from memory to the disk.
pub const WRITE_REQUEST: u32 = 1;

/// What was written is on the medium before this is answered.
pub const FLUSH_REQUEST: u32 = 4;

/// The feature of taking flushes: the only one that is agreed to.
pub const FLUSH_FEATURE: u32 = 512;

/// What the device says of a request that went well.
pub const STATUS_OK: u8 = 0;

/// Bytes of a sector.
pub const SECTOR_SIZE: usize = 512;

/// Sectors of one request.
pub const MAX_TRANSFER_SECTORS: usize = 8;

/// The largest queue that is built.
pub const MAX_QUEUE: u16 = 256;

/// Where the status byte is in the scratch memory: clear of the header before it
/// and of the data after it.
pub const SCRATCH_STATUS: u64 = 1024;

/// Where the data is in the scratch memory: in a page of its own.
pub const SCRATCH_DATA: u64 = 4096;

/// The order of the scratch memory's block.
pub const SCRATCH_ORDER: u32 = 1;

/// How often a device is looked at that may answer at once.
pub const HANDOFF_SPINS: u32 = 400_000;

/// Why an operation failed.
#[derive(Debug, Clone, Copy, PartialEq, Eq, Structural)]
pub enum BlockError {
    /// There is no disk.
    NoDevice,
    /// The disk's registers are in memory and not among the ports.
    NotPortMapped { base: u64, sixty_four: bool },
    /// There was no memory for the queue or for the scratch memory.
    OutOfMemory,
    /// The disk has a queue that is not built here.
    QueueTooLarge(u16),
    /// The request is not on the disk, or runs off it.
    OutOfRange,
    /// The data is not a whole number of sectors, or more than one request
    /// carries.
    BadLength,
    /// The disk never finished the request.
    Timeout,
    /// The disk said that the request failed.
    Failed(u8),
}

/// What went wrong, in words.
pub open spec fn words(error: BlockError) -> Seq<char> {
    match error {
        BlockError::NoDevice => "no virtio block device"@,
        BlockError::NotPortMapped { base, sixty_four } => "the device is behind a "@ + (
        if sixty_four {
            "64"@
        } else {
            "32"@
        }) + "-bit memory window at "@ + hexadecimal(base as nat) + ", not a port window"@,
        BlockError::OutOfMemory => "out of memory for the virtqueue"@,
        BlockError::QueueTooLarge(size) => "the device wants a queue of "@ + decimal(size as nat),
        BlockError::OutOfRange => "the sector is past the end of the disk"@,
        BlockError::BadLength => "a request carries between one and "@ + decimal(
            MAX_TRANSFER_SECTORS as nat,
        ) + " whole sectors"@,
        BlockError::Timeout => "the device never completed the request"@,
        BlockError::Failed(status) => "the device reported status "@ + decimal(status as nat),
    }
}

impl BlockError {
    /// What went wrong, in words.
    pub fn text(&self) -> (text: String)
        ensures
            text@ == words(*self),
    {
        match self {
            BlockError::NoDevice => "no virtio block device".to_owned(),
            BlockError::NotPortMapped { base, sixty_four } => {
                let mut text: String = "the device is behind a ".to_owned();
                text.append(
                    if *sixty_four {
                        "64"
                    } else {
                        "32"
                    },
                );
                text.append("-bit memory window at ");
                append_hexadecimal(&mut text, *base);
                text.append(", not a port window");
                text
            },
            BlockError::OutOfMemory => "out of memory for the virtqueue".to_owned(),
            BlockError::QueueTooLarge(size) => with_decimal(
                "the device wants a queue of ",
                *size as u64,
            ),
            BlockError::OutOfRange => "the sector is past the end of the disk".to_owned(),
            BlockError::BadLength => around_decimal(
                "a request carries between one and ",
                MAX_TRANSFER_SECTORS as u64,
                " whole sectors",
            ),
            BlockError::Timeout => "the device never completed the request".to_owned(),
            BlockError::Failed(status) => with_decimal(
                "the device reported status ",
                *status as u64,
            ),
        }
    }
}

/// A disk that is ready.
#[derive(Debug, Clone, Copy, PartialEq, Eq, Structural)]
pub struct Disk {
    /// Its first port.
    pub port: u16,
    /// Descriptors its queue has.
    pub queue_size: u16,
    /// Where the queue is.
    pub queue: u64,
    /// Where a request's header, data and status go.
    pub scratch: u64,
    /// How many sectors it has.
    pub capacity: u64,
    /// Where the parts of the queue are.
    pub layout: Layout,
    /// Whether it takes flushes.
    pub flushes: bool,
}

impl Disk {
    /// The queue is one that is built here, and everything is where it can be.
    pub open spec fn wf(self) -> bool {
        &&& self.port <= LAST_PORT
        &&& 0 < self.queue_size <= MAX_QUEUE
        &&& self.layout == layout_of(self.queue_size)
        &&& self.queue <= u64::MAX - 0x20_0000
        &&& self.scratch <= u64::MAX - 0x2000
    }
}

/// How requests were waited for.
#[derive(Debug, Clone, Copy, PartialEq, Eq, Structural)]
pub struct WaitStatistics {
    pub requests: u64,
    pub poll_completions: u64,
    pub wait_attempts: u64,
}

/// The disk, who has it, and the counts.
pub struct State {
    disk: Option<Disk>,
    busy: bool,
    interrupts: u64,
    blocking: bool,
    line: Option<u8>,
    sectors_read: u64,
    sectors_written: u64,
    flushes: u64,
    waits: WaitStatistics,
}

/// The same, as a value.
pub struct Model {
    pub disk: Option<Disk>,
    /// Whether a request is being made.
    pub busy: bool,
    /// Interrupts the disk has raised.
    pub interrupts: u64,
    /// Whether a request waits by sleeping.
    pub blocking: bool,
    /// The line the disk was wired to.
    pub line: Option<u8>,
    pub sectors_read: u64,
    pub sectors_written: u64,
    pub flushes: u64,
    pub waits: WaitStatistics,
}

impl View for State {
    type V = Model;

    closed spec fn view(&self) -> Model {
        Model {
            disk: self.disk,
            busy: self.busy,
            interrupts: self.interrupts,
            blocking: self.blocking,
            line: self.line,
            sectors_read: self.sectors_read,
            sectors_written: self.sectors_written,
            flushes: self.flushes,
            waits: self.waits,
        }
    }
}

impl State {
    /// The disk can be driven.
    pub open spec fn wf(&self) -> bool {
        self@.disk matches Some(disk) ==> disk.wf()
    }

    /// No disk.
    pub fn new() -> (state: Self)
        ensures
            state.wf(),
            state@ == (Model {
                disk: None,
                busy: false,
                interrupts: 0,
                blocking: false,
                line: None,
                sectors_read: 0,
                sectors_written: 0,
                flushes: 0,
                waits: WaitStatistics { requests: 0, poll_completions: 0, wait_attempts: 0 },
            }),
    {
        State {
            disk: None,
            busy: false,
            interrupts: 0,
            blocking: false,
            line: None,
            sectors_read: 0,
            sectors_written: 0,
            flushes: 0,
            waits: WaitStatistics { requests: 0, poll_completions: 0, wait_attempts: 0 },
        }
    }
}

/// How requests were waited for.
pub fn wait_statistics(state: &State) -> (statistics: WaitStatistics)
    ensures
        statistics == state@.waits,
{
    state.waits
}

/// Sectors on the disk, or none where there is no disk.
pub fn capacity(state: &State) -> (sectors: u64)
    ensures
        sectors == match state@.disk {
            Some(disk) => disk.capacity,
            None => 0,
        },
{
    match state.disk {
        Some(disk) => disk.capacity,
        None => 0,
    }
}

/// Sectors read and written.
pub fn statistics(state: &State) -> (counts: (u64, u64))
    ensures
        counts == (state@.sectors_read, state@.sectors_written),
{
    (state.sectors_read, state.sectors_written)
}

/// Flushes asked for since boot, whatever became of them, and whether the disk
/// takes them at all.
pub fn flush_statistics(state: &State) -> (counts: (u64, bool))
    ensures
        counts == (
            state@.flushes,
            match state@.disk {
                Some(disk) => disk.flushes,
                None => false,
            },
        ),
{
    let takes: bool = match state.disk {
        Some(disk) => disk.flushes,
        None => false,
    };
    (state.flushes, takes)
}

/// The interrupt line the disk was wired to, if it was wired to one.
pub fn interrupt_line(state: &State) -> (line: Option<u8>)
    ensures
        line == match state@.line {
            Some(line) if line != 0xFF => Some(line),
            _ => None,
        },
{
    match state.line {
        Some(line) => if line != 0xFF {
            Some(line)
        } else {
            None
        },
        None => None,
    }
}

/// Interrupts the disk has raised, and whether requests sleep.
pub fn interrupt_statistics(state: &State) -> (counts: (u64, bool))
    ensures
        counts == (state@.interrupts, state@.blocking),
{
    (state.interrupts, state.blocking)
}

/// The disk.
pub fn disk(state: &State) -> (disk: Option<Disk>)
    ensures
        disk == state@.disk,
{
    state.disk
}

/// Whether there is a disk.
pub fn is_present(state: &State) -> (present: bool)
    ensures
        present == (state@.disk is Some),
{
    state.disk.is_some()
}

/// Find the disk among the devices.
pub fn init(devices: &[Device]) -> (found: Result<usize, BlockError>)
    ensures
        match found {
            Ok(at) => {
                &&& at < devices@.len()
                &&& virtio::is_kind(devices@[at as int], SUBSYSTEM, NUMBER)
                &&& forall|i: int|
                    0 <= i < at ==> !virtio::is_kind(#[trigger] devices@[i], SUBSYSTEM, NUMBER)
            },
            Err(error) => {
                &&& error == BlockError::NoDevice
                &&& forall|i: int|
                    0 <= i < devices@.len() ==> !virtio::is_kind(
                        #[trigger] devices@[i],
                        SUBSYSTEM,
                        NUMBER,
                    )
            },
        },
{
    match virtio::find(devices, SUBSYSTEM, NUMBER) {
        Some(at) => Ok(at),
        None => Err(BlockError::NoDevice),
    }
}

/// The disk's first port.
pub fn port_of(base: BaseAddress) -> (port: Result<u16, BlockError>)
    ensures
        port == match base {
            BaseAddress::Port(port) => Ok::<u16, BlockError>(port),
            BaseAddress::Memory { base, sixty_four } => Err(
                BlockError::NotPortMapped { base, sixty_four },
            ),
        },
{
    match base {
        BaseAddress::Port(port) => Ok(port),
        BaseAddress::Memory { base, sixty_four } => Err(
            BlockError::NotPortMapped { base, sixty_four },
        ),
    }
}

/// Whether the feature of taking flushes is among those offered.
pub open spec fn offers_flush(offered: u32) -> bool {
    (offered / FLUSH_FEATURE) % 2 == 1
}

/// What is written once the device has said what it offers: what is agreed to,
/// and that the registers of its queue are wanted.
pub open spec fn agreeing(port: u16, flushes: bool) -> Seq<PortWrite> {
    seq![
        PortWrite::Long {
            port: (port + register::DRIVER_FEATURES) as u16,
            long: if flushes {
                FLUSH_FEATURE
            } else {
                0
            },
        },
        PortWrite::Word { port: (port + register::QUEUE_SELECT) as u16, word: 0 },
    ]
}

/// Agree to what the device offers: to flushes, where it takes them, and to
/// nothing else.
pub fn agree(port: u16, offered: u32) -> (agreed: (bool, Vec<PortWrite>))
    requires
        port <= LAST_PORT,
    ensures
        agreed.0 == offers_flush(offered),
        agreed.1@ == agreeing(port, offers_flush(offered)),
{
    let flushes: bool = (offered / FLUSH_FEATURE) % 2 == 1;
    let mut writes: Vec<PortWrite> = Vec::new();
    writes.push(
        PortWrite::Long {
            port: port + register::DRIVER_FEATURES,
            long: if flushes {
                FLUSH_FEATURE
            } else {
                0
            },
        },
    );
    writes.push(PortWrite::Word { port: port + register::QUEUE_SELECT, word: 0 });
    assert(writes@ =~= agreeing(port, flushes));
    (flushes, writes)
}

/// Where the parts of the disk's queue go, if it is one that is built.
pub fn plan_queue(size: u16) -> (layout: Result<Layout, BlockError>)
    ensures
        layout == if size == 0 || size > MAX_QUEUE {
            Err::<Layout, BlockError>(BlockError::QueueTooLarge(size))
        } else {
            Ok(layout_of(size))
        },
{
    if size == 0 || size > MAX_QUEUE {
        return Err(BlockError::QueueTooLarge(size));
    }
    Ok(queue_layout(size))
}

/// What is known of a disk before it is ready.
#[derive(Debug, Clone, Copy, PartialEq, Eq, Structural)]
pub struct Found {
    pub port: u16,
    pub queue_size: u16,
    pub queue: u64,
    pub scratch: u64,
    pub flushes: bool,
    pub line: u8,
    /// The two halves of its capacity.
    pub low: u32,
    pub high: u32,
}

impl Found {
    /// It is a disk that can be driven.
    pub open spec fn wf(self) -> bool {
        &&& self.port <= LAST_PORT
        &&& 0 < self.queue_size <= MAX_QUEUE
        &&& self.queue <= u64::MAX - 0x20_0000
        &&& self.scratch <= u64::MAX - 0x2000
    }

    /// The disk it is.
    pub open spec fn disk(self) -> Disk {
        Disk {
            port: self.port,
            queue_size: self.queue_size,
            queue: self.queue,
            scratch: self.scratch,
            capacity: (self.high * 0x1_0000_0000 + self.low) as u64,
            layout: layout_of(self.queue_size),
            flushes: self.flushes,
        }
    }
}

/// Keep a disk that was found: what it holds.
pub fn adopt(state: &mut State, found: Found) -> (sectors: u64)
    requires
        old(state).wf(),
        found.wf(),
    ensures
        final(state).wf(),
        sectors == found.disk().capacity,
        final(state)@ == (Model {
            disk: Some(found.disk()),
            line: Some(found.line),
            ..old(state)@
        }),
{
    let capacity: u64 = found.high as u64 * 0x1_0000_0000 + found.low as u64;
    let disk = Disk {
        port: found.port,
        queue_size: found.queue_size,
        queue: found.queue,
        scratch: found.scratch,
        capacity,
        layout: queue_layout(found.queue_size),
        flushes: found.flushes,
    };
    assert(disk == found.disk());
    state.disk = Some(disk);
    state.line = Some(found.line);
    capacity
}

/// How far a disk has been brought up: what is wanted next.
#[derive(Debug, Clone, Copy, PartialEq, Eq, Structural)]
pub enum Stage {
    /// What it offers.
    Offer,
    /// How large its queue is.
    Size,
    /// Memory for the queue.
    Queue,
    /// The scratch memory.
    Scratch,
    /// The lower half of its capacity.
    Low,
    /// The upper half.
    High,
    /// Nothing: it is ready.
    Up,
    /// Nothing: it was given up, and whether the queue had its memory then.
    Down(BlockError, bool),
}

/// A disk that is being brought up, and what is known of it so far.
#[derive(Debug, Clone, Copy, PartialEq, Eq, Structural)]
pub struct Bringing {
    pub stage: Stage,
    pub found: Found,
    /// The order of the queue's block.
    pub order: u32,
}

/// What bringing a disk up comes to.
#[derive(Debug, Clone, Copy, PartialEq, Eq, Structural)]
pub enum Turn {
    /// Something is wanted before it goes on.
    Want(Want),
    /// It is ready, and has so many sectors.
    Up(u64),
    /// It was given up.
    Down(BlockError),
}

impl Bringing {
    /// What is known is in order, as far as anything is known.
    pub open spec fn wf(self) -> bool {
        let sized = 0 < self.found.queue_size <= MAX_QUEUE && self.order == order_of(
            layout_of(self.found.queue_size).bytes as nat,
        );
        &&& self.found.port <= LAST_PORT
        &&& match self.stage {
            Stage::Offer | Stage::Size => true,
            Stage::Queue => sized,
            Stage::Scratch => sized && self.found.queue < MEMORY_END,
            Stage::Low | Stage::High | Stage::Up => {
                &&& sized
                &&& self.found.queue < MEMORY_END
                &&& self.found.scratch < MEMORY_END
            },
            Stage::Down(error, held) => {
                &&& error is QueueTooLarge || error is OutOfMemory
                &&& held ==> sized && error is OutOfMemory && self.found.queue < MEMORY_END
            },
        }
    }

    /// What is wanted next.
    pub open spec fn turn(self) -> Turn {
        let port = self.found.port;
        match self.stage {
            Stage::Offer => Turn::Want(Want::Read32((port + register::DEVICE_FEATURES) as u16)),
            Stage::Size => Turn::Want(Want::Read16((port + register::QUEUE_SIZE) as u16)),
            Stage::Queue => Turn::Want(Want::Block(self.order)),
            Stage::Scratch => Turn::Want(Want::Block(SCRATCH_ORDER)),
            Stage::Low => Turn::Want(Want::Read32((port + register::CONFIG) as u16)),
            Stage::High => Turn::Want(Want::Read32((port + register::CONFIG + 4) as u16)),
            Stage::Up => Turn::Up(self.found.disk().capacity),
            Stage::Down(error, _) => Turn::Down(error),
        }
    }

    /// The disk once it was told what was wanted.
    pub open spec fn told(self, heard: Heard) -> Bringing {
        let found = self.found;
        match (self.stage, heard) {
            (Stage::Offer, Heard::Read(offered)) => Bringing {
                stage: Stage::Size,
                found: Found { flushes: offers_flush(offered), ..found },
                ..self
            },
            (Stage::Size, Heard::Read(size)) => if size == 0 || size > MAX_QUEUE {
                Bringing { stage: Stage::Down(BlockError::QueueTooLarge(size as u16), false), ..self }
            } else {
                Bringing {
                    stage: Stage::Queue,
                    found: Found { queue_size: size as u16, ..found },
                    order: order_of(layout_of(size as u16).bytes as nat) as u32,
                }
            },
            (Stage::Queue, Heard::Block(None)) => Bringing {
                stage: Stage::Down(BlockError::OutOfMemory, false),
                ..self
            },
            (Stage::Queue, Heard::Block(Some(queue))) => Bringing {
                stage: Stage::Scratch,
                found: Found { queue, ..found },
                ..self
            },
            (Stage::Scratch, Heard::Block(None)) => Bringing {
                stage: Stage::Down(BlockError::OutOfMemory, true),
                ..self
            },
            (Stage::Scratch, Heard::Block(Some(scratch))) => Bringing {
                stage: Stage::Low,
                found: Found { scratch, ..found },
                ..self
            },
            (Stage::Low, Heard::Read(low)) => Bringing {
                stage: Stage::High,
                found: Found { low, ..found },
                ..self
            },
            (Stage::High, Heard::Read(high)) => Bringing {
                stage: Stage::Up,
                found: Found { high, ..found },
                ..self
            },
            _ => self,
        }
    }

    /// Everything that has happened to the disk by now, in order.
    pub open spec fn history(self) -> Seq<Event> {
        let found = self.found;
        let noticed = wrote(noticing(found.port));
        let agreed = noticed + wrote(agreeing(found.port, found.flushes));
        let queue = Event::Given { at: found.queue, order: self.order };
        let scratch = Event::Given { at: found.scratch, order: SCRATCH_ORDER };
        let placed = agreed.push(queue).push(scratch).push(
            one_write(placing(found.port, found.queue)),
        );
        match self.stage {
            Stage::Offer => noticed,
            Stage::Size | Stage::Queue => agreed,
            Stage::Scratch => agreed.push(queue),
            Stage::Low | Stage::High => placed,
            Stage::Up => placed.push(one_write(readying(found.port))),
            Stage::Down(_, false) => agreed.push(one_write(giving_up(found.port))),
            Stage::Down(_, true) => agreed.push(queue).push(
                Event::Did(Deed::Free { at: found.queue, order: self.order }),
            ).push(one_write(giving_up(found.port))),
        }
    }

    /// The order of the block that is wanted.
    pub open spec fn wanted_order(self) -> u32 {
        match self.stage {
            Stage::Queue => self.order,
            _ => SCRATCH_ORDER,
        }
    }

    fn turn_now(&self) -> (turn: Turn)
        requires
            self.wf(),
        ensures
            turn == self.turn(),
    {
        let port: u16 = self.found.port;
        match self.stage {
            Stage::Offer => Turn::Want(Want::Read32(port + register::DEVICE_FEATURES)),
            Stage::Size => Turn::Want(Want::Read16(port + register::QUEUE_SIZE)),
            Stage::Queue => Turn::Want(Want::Block(self.order)),
            Stage::Scratch => Turn::Want(Want::Block(SCRATCH_ORDER)),
            Stage::Low => Turn::Want(Want::Read32(port + register::CONFIG)),
            Stage::High => Turn::Want(Want::Read32(port + register::CONFIG + 4)),
            Stage::Up => Turn::Up(
                self.found.high as u64 * 0x1_0000_0000 + self.found.low as u64,
            ),
            Stage::Down(error, _) => Turn::Down(error),
        }
    }

    /// Go on with what was wanted: what is to be done now, in order, and what is
    /// wanted then.
    ///
    /// A disk whose queue cannot be built, or for which there is no memory, is
    /// given up. The queue's memory is given back where there is none for the
    /// requests. A disk that is ready is kept.
    pub fn heard(&mut self, state: &mut State, heard: Heard) -> (next: (Vec<Deed>, Turn))
        requires
            old(state).wf(),
            old(self).wf(),
            old(self).turn() matches Turn::Want(want) && want.fits(heard),
        ensures
            final(state).wf(),
            final(self).wf(),
            *final(self) == old(self).told(heard),
            next.1 == final(self).turn(),
            final(self).history() == old(self).history() + given(old(self).wanted_order(), heard)
                + did(next.0@),
            final(state)@ == if final(self).stage is Up {
                Model {
                    disk: Some(final(self).found.disk()),
                    line: Some(final(self).found.line),
                    ..old(state)@
                }
            } else {
                old(state)@
            },
    {
        let ghost before = *self;
        let port: u16 = self.found.port;
        let mut deeds: Vec<Deed> = Vec::new();
        let ghost none = did(deeds@);
        assert(none =~= Seq::empty());
        match (self.stage, heard) {
            (Stage::Offer, Heard::Read(offered)) => {
                let (flushes, writes) = agree(port, offered);
                put_writes(&mut deeds, &writes);
                self.found.flushes = flushes;
                self.stage = Stage::Size;
            },
            (Stage::Size, Heard::Read(size)) => {
                let size: u16 = size as u16;
                match plan_queue(size) {
                    Err(error) => {
                        deeds.push(Deed::Step(Step::Port(virtio::give_up(port))));
                        self.stage = Stage::Down(error, false);
                    },
                    Ok(layout) => {
                        self.found.queue_size = size;
                        self.order = order_for(layout.bytes);
                        self.stage = Stage::Queue;
                    },
                }
            },
            (Stage::Queue, Heard::Block(None)) => {
                deeds.push(Deed::Step(Step::Port(virtio::give_up(port))));
                self.stage = Stage::Down(BlockError::OutOfMemory, false);
            },
            (Stage::Queue, Heard::Block(Some(queue))) => {
                self.found.queue = queue;
                self.stage = Stage::Scratch;
            },
            (Stage::Scratch, Heard::Block(None)) => {
                deeds.push(Deed::Free { at: self.found.queue, order: self.order });
                deeds.push(Deed::Step(Step::Port(virtio::give_up(port))));
                self.stage = Stage::Down(BlockError::OutOfMemory, true);
            },
            (Stage::Scratch, Heard::Block(Some(scratch))) => {
                deeds.push(Deed::Step(Step::Port(virtio::place_queue(port, self.found.queue))));
                self.found.scratch = scratch;
                self.stage = Stage::Low;
            },
            (Stage::Low, Heard::Read(low)) => {
                self.found.low = low;
                self.stage = Stage::High;
            },
            (Stage::High, Heard::Read(high)) => {
                self.found.high = high;
                deeds.push(Deed::Step(Step::Port(virtio::ready(port))));
                adopt(state, self.found);
                self.stage = Stage::Up;
            },
            _ => {},
        }
        assert(self.history() =~= before.history() + given(before.wanted_order(), heard) + did(
            deeds@,
        ));
        let turn = self.turn_now();
        (deeds, turn)
    }
}

/// Start to bring a disk up: what is to be done first, and what is wanted then.
/// Nothing is read of the disk before it was reset and told of its driver.
pub fn bring_up(port: u16, line: u8) -> (start: (Bringing, Vec<Deed>, Turn))
    requires
        port <= LAST_PORT,
    ensures
        start.0.wf(),
        start.0.stage is Offer,
        start.0.found.port == port,
        start.0.found.line == line,
        start.0.history() == did(start.1@),
        start.1@ == noticing(port).map_values(|write: PortWrite| Deed::Step(Step::Port(write))),
        start.2 == start.0.turn(),
{
    let found = Found {
        port,
        queue_size: 0,
        queue: 0,
        scratch: 0,
        flushes: false,
        line,
        low: 0,
        high: 0,
    };
    let bringing = Bringing { stage: Stage::Offer, found, order: 0 };
    let mut deeds: Vec<Deed> = Vec::new();
    put_writes(&mut deeds, &virtio::notice(port));
    assert(did(deeds@) =~= bringing.history());
    let turn = bringing.turn_now();
    (bringing, deeds, turn)
}

/// How many sectors so many bytes are, if one request carries them.
pub open spec fn length_checked(bytes: nat) -> Result<nat, BlockError> {
    if bytes == 0 || bytes % 512 != 0 || bytes > 4096 {
        Err(BlockError::BadLength)
    } else {
        Ok(bytes / 512)
    }
}

/// How many sectors so many bytes are, if one request carries them.
pub fn check_length(bytes: usize) -> (sectors: Result<usize, BlockError>)
    ensures
        match sectors {
            Ok(sectors) => length_checked(bytes as nat) == Ok::<nat, BlockError>(sectors as nat),
            Err(error) => length_checked(bytes as nat) == Err::<nat, BlockError>(error),
        },
{
    if bytes == 0 || bytes % SECTOR_SIZE != 0 || bytes > MAX_TRANSFER_SECTORS * SECTOR_SIZE {
        return Err(BlockError::BadLength);
    }
    Ok(bytes / SECTOR_SIZE)
}

/// Whether so many sectors from one on are all on a disk. The last is what
/// counts: a request that starts on the disk can run off it.
pub open spec fn on_disk(disk: Disk, sector: u64, sectors: nat) -> bool {
    sectors > 0 && sector + sectors <= disk.capacity
}

/// The steps that write a request's header and a status that no device gives.
pub open spec fn header_steps(scratch: u64, kind: u32, sector: u64) -> Seq<Step> {
    seq![
        Step::Word { at: scratch, word: kind },
        Step::Word { at: (scratch + 4) as u64, word: 0 },
        Step::Long { at: (scratch + 8) as u64, long: sector },
        Step::Byte { at: (scratch + SCRATCH_STATUS) as u64, byte: 0xFF },
    ]
}

/// The steps that prepare a transfer: the header, the data where it is a write,
/// and three descriptors.
pub open spec fn transfer_steps(disk: Disk, kind: u32, sector: u64, length: u32) -> Seq<Step> {
    let data = (disk.scratch + SCRATCH_DATA) as u64;
    header_steps(disk.scratch, kind, sector) + (if kind == WRITE_REQUEST {
        seq![Step::Data { at: data, length: length as u64 }]
    } else {
        Seq::<Step>::empty()
    }) + descriptor_steps(disk.queue, 0, disk.scratch, 16, NEXT, 1) + descriptor_steps(
        disk.queue,
        1,
        data,
        length,
        if kind == READ_REQUEST {
            3u16
        } else {
            NEXT
        },
        2,
    ) + descriptor_steps(disk.queue, 2, (disk.scratch + SCRATCH_STATUS) as u64, 1, WRITE, 0)
}

/// The steps that prepare a flush: it carries nothing, so there are two
/// descriptors.
pub open spec fn flush_steps(disk: Disk) -> Seq<Step> {
    header_steps(disk.scratch, FLUSH_REQUEST, 0) + descriptor_steps(
        disk.queue,
        0,
        disk.scratch,
        16,
        NEXT,
        1,
    ) + descriptor_steps(disk.queue, 1, (disk.scratch + SCRATCH_STATUS) as u64, 1, WRITE, 0)
}

/// The steps that hand a prepared request over. The device's index is looked at
/// before its own can be: it may be done before it is told.
pub open spec fn submit_steps(disk: Disk, index: u16) -> Seq<Step> {
    let ring = (disk.queue + disk.layout.available) as u64;
    seq![entry_step(ring, index, disk.queue_size, 0), Step::Sample] + publish_steps(ring, index)
        + seq![
        Step::Port(
            PortWrite::Word { port: (disk.port + register::QUEUE_NOTIFY) as u16, word: 0 },
        ),
    ]
}

fn put_header(out: &mut Vec<Step>, scratch: u64, kind: u32, sector: u64)
    requires
        scratch <= u64::MAX - 0x2000,
    ensures
        final(out)@ == old(out)@ + header_steps(scratch, kind, sector),
{
    out.push(Step::Word { at: scratch, word: kind });
    out.push(Step::Word { at: scratch + 4, word: 0 });
    out.push(Step::Long { at: scratch + 8, long: sector });
    out.push(Step::Byte { at: scratch + SCRATCH_STATUS, byte: 0xFF });
    assert(out@ =~= old(out)@ + header_steps(scratch, kind, sector));
}

/// A request that was prepared.
#[derive(Debug)]
pub struct Request {
    pub kind: u32,
    pub sector: u64,
    /// How much data there is.
    pub length: u32,
    /// What to do before it is handed over.
    pub steps: Vec<Step>,
}

/// Whether a transfer can be made.
pub open spec fn transfer_refused(state: Model, sector: u64, length: nat) -> Option<BlockError> {
    match state.disk {
        None => Some(BlockError::NoDevice),
        Some(disk) => if on_disk(disk, sector, length / 512) {
            None
        } else {
            Some(BlockError::OutOfRange)
        },
    }
}

/// Prepare a transfer.
pub fn one_transfer(state: &State, kind: u32, sector: u64, length: usize) -> (request: Result<
    Request,
    BlockError,
>)
    requires
        state.wf(),
        length <= 4096,
    ensures
        match request {
            Err(error) => transfer_refused(state@, sector, length as nat) == Some(error),
            Ok(request) => {
                &&& transfer_refused(state@, sector, length as nat) is None
                &&& request.kind == kind
                &&& request.sector == sector
                &&& request.length == length
                &&& request.steps@ == transfer_steps(
                    state@.disk->0,
                    kind,
                    sector,
                    length as u32,
                )
                &&& request.steps@[2] == (Step::Long {
                    at: (state@.disk->0.scratch + 8) as u64,
                    long: sector,
                })
            },
        },
{
    let disk: Disk = match state.disk {
        None => return Err(BlockError::NoDevice),
        Some(disk) => disk,
    };
    let sectors: u64 = (length / SECTOR_SIZE) as u64;
    if sector >= disk.capacity || sectors == 0 || disk.capacity - sector < sectors {
        return Err(BlockError::OutOfRange);
    }
    let data: u64 = disk.scratch + SCRATCH_DATA;
    let mut steps: Vec<Step> = Vec::new();
    put_header(&mut steps, disk.scratch, kind, sector);
    if kind == WRITE_REQUEST {
        steps.push(Step::Data { at: data, length: length as u64 });
    }
    let ghost start = steps@;
    assert(start =~= header_steps(disk.scratch, kind, sector) + (if kind == WRITE_REQUEST {
        seq![Step::Data { at: data, length: length as u64 }]
    } else {
        Seq::<Step>::empty()
    }));
    put_descriptor(&mut steps, disk.queue, 0, disk.scratch, 16, NEXT, 1);
    let flags: u16 = if kind == READ_REQUEST {
        NEXT + WRITE
    } else {
        NEXT
    };
    put_descriptor(&mut steps, disk.queue, 1, data, length as u32, flags, 2);
    put_descriptor(&mut steps, disk.queue, 2, disk.scratch + SCRATCH_STATUS, 1, WRITE, 0);
    Ok(Request { kind, sector, length: length as u32, steps })
}

/// Prepare a flush.
pub fn one_flush(state: &State) -> (request: Result<Request, BlockError>)
    requires
        state.wf(),
    ensures
        match request {
            Err(error) => state@.disk is None && error == BlockError::NoDevice,
            Ok(request) => {
                &&& state@.disk is Some
                &&& request.kind == FLUSH_REQUEST
                &&& request.sector == 0
                &&& request.length == 0
                &&& request.steps@ == flush_steps(state@.disk->0)
            },
        },
{
    let disk: Disk = match state.disk {
        None => return Err(BlockError::NoDevice),
        Some(disk) => disk,
    };
    let mut steps: Vec<Step> = Vec::new();
    put_header(&mut steps, disk.scratch, FLUSH_REQUEST, 0);
    assert(steps@ =~= header_steps(disk.scratch, FLUSH_REQUEST, 0));
    put_descriptor(&mut steps, disk.queue, 0, disk.scratch, 16, NEXT, 1);
    put_descriptor(&mut steps, disk.queue, 1, disk.scratch + SCRATCH_STATUS, 1, WRITE, 0);
    Ok(Request { kind: FLUSH_REQUEST, sector: 0, length: 0, steps })
}

/// What refuses a read or a write of so many bytes.
pub open spec fn request_refused(state: Model, sector: u64, length: nat) -> Option<BlockError> {
    match length_checked(length) {
        Err(error) => Some(error),
        Ok(_) => transfer_refused(state, sector, length),
    }
}

/// Read sectors into so many bytes.
pub fn read_sectors(state: &State, sector: u64, length: usize) -> (request: Result<
    Request,
    BlockError,
>)
    requires
        state.wf(),
    ensures
        match request {
            Err(error) => request_refused(state@, sector, length as nat) == Some(error),
            Ok(request) => {
                &&& request_refused(state@, sector, length as nat) is None
                &&& request.kind == READ_REQUEST
                &&& request.sector == sector
                &&& request.length == length
                &&& request.steps@ == transfer_steps(
                    state@.disk->0,
                    READ_REQUEST,
                    sector,
                    length as u32,
                )
                &&& request.steps@[2] == (Step::Long {
                    at: (state@.disk->0.scratch + 8) as u64,
                    long: sector,
                })
            },
        },
{
    match check_length(length) {
        Err(error) => Err(error),
        Ok(_) => one_transfer(state, READ_REQUEST, sector, length),
    }
}

/// Write sectors from so many bytes.
pub fn write_sectors(state: &State, sector: u64, length: usize) -> (request: Result<
    Request,
    BlockError,
>)
    requires
        state.wf(),
    ensures
        match request {
            Err(error) => request_refused(state@, sector, length as nat) == Some(error),
            Ok(request) => {
                &&& request_refused(state@, sector, length as nat) is None
                &&& request.kind == WRITE_REQUEST
                &&& request.sector == sector
                &&& request.length == length
                &&& request.steps@ == transfer_steps(
                    state@.disk->0,
                    WRITE_REQUEST,
                    sector,
                    length as u32,
                )
                &&& request.steps@[2] == (Step::Long {
                    at: (state@.disk->0.scratch + 8) as u64,
                    long: sector,
                })
            },
        },
{
    match check_length(length) {
        Err(error) => Err(error),
        Ok(_) => one_transfer(state, WRITE_REQUEST, sector, length),
    }
}

/// Read one sector, of which so many bytes are wanted: the request, and how many
/// of its bytes to hand over.
pub fn read_sector(state: &State, sector: u64, wanted: usize) -> (read: Result<
    (Request, usize),
    BlockError,
>)
    requires
        state.wf(),
    ensures
        match read {
            Err(error) => request_refused(state@, sector, 512) == Some(error),
            Ok((request, taken)) => {
                &&& request_refused(state@, sector, 512) is None
                &&& request.kind == READ_REQUEST
                &&& request.sector == sector
                &&& request.length == 512
                &&& request.steps@ == transfer_steps(state@.disk->0, READ_REQUEST, sector, 512)
                &&& taken == if wanted < 512 {
                    wanted as int
                } else {
                    512
                }
            },
        },
{
    let taken: usize = if wanted < SECTOR_SIZE {
        wanted
    } else {
        SECTOR_SIZE
    };
    match read_sectors(state, sector, SECTOR_SIZE) {
        Err(error) => Err(error),
        Ok(request) => Ok((request, taken)),
    }
}

/// A sector that starts as some bytes do, and is filled up with zeros.
pub open spec fn as_sector(bytes: Seq<u8>) -> Seq<u8> {
    Seq::new(
        512,
        |i: int|
            if i < bytes.len() {
                bytes[i]
            } else {
                0u8
            },
    )
}

/// Write one sector, of which there are these bytes: the request, and the whole
/// sector.
pub fn write_sector(state: &State, sector: u64, bytes: &[u8]) -> (write: Result<
    (Request, Vec<u8>),
    BlockError,
>)
    requires
        state.wf(),
    ensures
        match write {
            Err(error) => request_refused(state@, sector, 512) == Some(error),
            Ok((request, whole)) => {
                &&& request_refused(state@, sector, 512) is None
                &&& request.kind == WRITE_REQUEST
                &&& request.sector == sector
                &&& request.length == 512
                &&& request.steps@ == transfer_steps(state@.disk->0, WRITE_REQUEST, sector, 512)
                &&& whole@ == as_sector(bytes@)
            },
        },
{
    let length: usize = if bytes.len() < SECTOR_SIZE {
        bytes.len()
    } else {
        SECTOR_SIZE
    };
    let mut whole: Vec<u8> = crate::bytes::copy_range(bytes, 0, length);
    put_zeros(&mut whole, SECTOR_SIZE - length);
    assert(whole@ =~= as_sector(bytes@));
    match write_sectors(state, sector, SECTOR_SIZE) {
        Err(error) => Err(error),
        Ok(request) => Ok((request, whole)),
    }
}

/// Have everything that was written on the medium: the request, or nothing where
/// the disk does not take one. Such a disk keeps nothing back.
pub fn flush(state: &State) -> (request: Result<Option<Request>, BlockError>)
    requires
        state.wf(),
    ensures
        match state@.disk {
            None => request matches Err(error) && error == BlockError::NoDevice,
            Some(disk) => match request {
                Ok(None) => !disk.flushes,
                Ok(Some(request)) => {
                    &&& disk.flushes
                    &&& request.kind == FLUSH_REQUEST
                    &&& request.sector == 0
                    &&& request.length == 0
                    &&& request.steps@ == flush_steps(disk)
                },
                Err(_) => false,
            },
        },
{
    match state.disk {
        None => Err(BlockError::NoDevice),
        Some(disk) => {
            if !disk.flushes {
                return Ok(None);
            }
            match one_flush(state) {
                Err(error) => Err(error),
                Ok(request) => Ok(Some(request)),
            }
        },
    }
}

/// Take the driver, if nobody has it: whether it was taken.
pub fn acquire(state: &mut State) -> (taken: bool)
    requires
        old(state).wf(),
    ensures
        final(state).wf(),
        taken == !old(state)@.busy,
        final(state)@ == (Model { busy: true, ..old(state)@ }),
{
    let taken: bool = !state.busy;
    state.busy = true;
    taken
}

/// Give the driver back. One of those waiting for it is to be woken.
pub fn release(state: &mut State)
    requires
        old(state).wf(),
    ensures
        final(state).wf(),
        final(state)@ == (Model { busy: false, ..old(state)@ }),
{
    state.busy = false;
}

/// Hand a prepared request over, given the index of the driver's ring.
pub fn submit(state: &mut State, index: u16) -> (steps: Option<Vec<Step>>)
    requires
        old(state).wf(),
    ensures
        final(state).wf(),
        match old(state)@.disk {
            None => steps is None && final(state)@ == old(state)@,
            Some(disk) => {
                &&& steps matches Some(steps) && steps@ == submit_steps(disk, index)
                &&& final(state)@ == (Model {
                    waits: WaitStatistics {
                        requests: counted(old(state)@.waits.requests, 1),
                        ..old(state)@.waits
                    },
                    ..old(state)@
                })
            },
        },
{
    let disk: Disk = match state.disk {
        None => return None,
        Some(disk) => disk,
    };
    let ring: u64 = disk.queue + disk.layout.available;
    let mut steps: Vec<Step> = Vec::new();
    put_entry(&mut steps, ring, index, disk.queue_size, 0);
    steps.push(Step::Sample);
    put_publish(&mut steps, ring, index);
    steps.push(
        Step::Port(PortWrite::Word { port: disk.port + register::QUEUE_NOTIFY, word: 0 }),
    );
    assert(steps@ =~= submit_steps(disk, index));
    state.waits.requests = count(state.waits.requests, 1);
    Some(steps)
}

/// How a request is being waited for.
#[derive(Debug, Clone, Copy, PartialEq, Eq, Structural)]
pub enum Waiting {
    /// A device that answers at once is waited for by looking: so many looks are
    /// left.
    Handoff(u32),
    /// By sleeping, and whether it was tried.
    Blocking(bool),
    /// By looking, so many times so far.
    Spinning(u32),
}

/// A request that was handed over.
#[derive(Debug, Clone, Copy, PartialEq, Eq, Structural)]
pub struct Completion {
    /// The device's index before.
    pub before: u16,
    /// The generation of who waits, before.
    pub generation: u64,
    pub waiting: Waiting,
}

/// Start to wait, given what was looked at before the request was handed over.
pub fn wait_for_completion(before: u16, generation: u64) -> (completion: Completion)
    ensures
        completion == (Completion {
            before,
            generation,
            waiting: Waiting::Handoff(HANDOFF_SPINS),
        }),
{
    Completion { before, generation, waiting: Waiting::Handoff(HANDOFF_SPINS) }
}

impl Completion {
    /// Looks that are still to come, at least where nothing sleeps.
    pub open spec fn wf(self) -> bool {
        match self.waiting {
            Waiting::Handoff(left) => left > 0,
            Waiting::Blocking(_) => true,
            Waiting::Spinning(spins) => spins < COMPLETION_SPINS,
        }
    }

    /// What one look does, where the device has not answered.
    pub open spec fn unanswered(self, blocking: bool) -> (Waiting, Look) {
        match self.waiting {
            Waiting::Handoff(left) => if left > 1 {
                (Waiting::Handoff((left - 1) as u32), Look::Again)
            } else if blocking {
                (Waiting::Blocking(false), Look::Again)
            } else {
                (Waiting::Spinning(0), Look::Again)
            },
            Waiting::Blocking(_) => (Waiting::Blocking(true), Look::Sleep(self.generation)),
            Waiting::Spinning(spins) => if spins + 1 < COMPLETION_SPINS {
                (Waiting::Spinning((spins + 1) as u32), Look::Again)
            } else {
                (self.waiting, Look::TimedOut)
            },
        }
    }

    /// Whether an answer was seen without sleeping for it.
    pub open spec fn polled(self) -> bool {
        self.waiting != Waiting::Blocking(true)
    }
}

/// Look at the device's index. A request sleeps only where the device has been
/// seen to interrupt, and where there is a thread to put to sleep.
pub fn look(state: &mut State, completion: &mut Completion, used: u16, has_thread: bool) -> (look:
    Look)
    requires
        old(state).wf(),
        old(completion).wf(),
    ensures
        final(state).wf(),
        final(completion).before == old(completion).before,
        final(completion).generation == old(completion).generation,
        if used != old(completion).before {
            &&& look == Look::Done
            &&& *final(completion) == *old(completion)
            &&& final(state)@ == (Model {
                waits: WaitStatistics {
                    poll_completions: if old(completion).polled() {
                        counted(old(state)@.waits.poll_completions, 1)
                    } else {
                        old(state)@.waits.poll_completions
                    },
                    ..old(state)@.waits
                },
                ..old(state)@
            })
        } else {
            &&& (final(completion).waiting, look) == old(completion).unanswered(
                old(state)@.blocking && has_thread,
            )
            &&& look is TimedOut || final(completion).wf()
            &&& final(state)@ == (Model {
                waits: WaitStatistics {
                    wait_attempts: if look is Sleep {
                        counted(old(state)@.waits.wait_attempts, 1)
                    } else {
                        old(state)@.waits.wait_attempts
                    },
                    ..old(state)@.waits
                },
                ..old(state)@
            })
        },
{
    if used != completion.before {
        match completion.waiting {
            Waiting::Blocking(true) => {},
            _ => {
                state.waits.poll_completions = count(state.waits.poll_completions, 1);
            },
        }
        return Look::Done;
    }
    match completion.waiting {
        Waiting::Handoff(left) => {
            completion.waiting = if left > 1 {
                Waiting::Handoff(left - 1)
            } else if state.blocking && has_thread {
                Waiting::Blocking(false)
            } else {
                Waiting::Spinning(0)
            };
            Look::Again
        },
        Waiting::Blocking(_) => {
            completion.waiting = Waiting::Blocking(true);
            state.waits.wait_attempts = count(state.waits.wait_attempts, 1);
            Look::Sleep(completion.generation)
        },
        Waiting::Spinning(spins) => {
            if spins + 1 < COMPLETION_SPINS {
                completion.waiting = Waiting::Spinning(spins + 1);
                Look::Again
            } else {
                Look::TimedOut
            }
        },
    }
}

/// Go on after a sleep, with the generation there is now.
pub fn slept(completion: &mut Completion, generation: u64)
    ensures
        *final(completion) == (Completion { generation, ..*old(completion) }),
{
    completion.generation = generation;
}

/// What a request's status says of it.
pub open spec fn verdict(status: u8) -> Result<(), BlockError> {
    if status != STATUS_OK {
        Err(BlockError::Failed(status))
    } else {
        Ok(())
    }
}

/// Take in what came of a request that was answered with a status, or was not
/// answered. What was read is in the scratch memory now.
///
/// Sectors count once they were moved; a flush counts once it was asked for.
pub fn finish(state: &mut State, request: &Request, answer: Option<u8>) -> (outcome: Result<
    (),
    BlockError,
>)
    requires
        old(state).wf(),
    ensures
        final(state).wf(),
        outcome == match answer {
            None => Err::<(), BlockError>(BlockError::Timeout),
            Some(status) => verdict(status),
        },
        final(state)@ == if request.kind == FLUSH_REQUEST {
            Model { flushes: counted(old(state)@.flushes, 1), ..old(state)@ }
        } else if request.kind == READ_REQUEST && outcome is Ok {
            Model {
                sectors_read: counted(old(state)@.sectors_read, (request.length / 512) as u64),
                ..old(state)@
            }
        } else if request.kind == WRITE_REQUEST && outcome is Ok {
            Model {
                sectors_written: counted(
                    old(state)@.sectors_written,
                    (request.length / 512) as u64,
                ),
                ..old(state)@
            }
        } else {
            old(state)@
        },
{
    if request.kind == FLUSH_REQUEST {
        state.flushes = count(state.flushes, 1);
    }
    match answer {
        None => return Err(BlockError::Timeout),
        Some(status) => {
            if status != STATUS_OK {
                return Err(BlockError::Failed(status));
            }
        },
    }
    let sectors: u64 = (request.length / 512) as u64;
    if request.kind == READ_REQUEST {
        state.sectors_read = count(state.sectors_read, sectors);
    } else if request.kind == WRITE_REQUEST {
        state.sectors_written = count(state.sectors_written, sectors);
    }
    Ok(())
}

/// The port that says why the disk interrupted, and acknowledges it.
pub fn reason_port(state: &State) -> (port: Option<u16>)
    requires
        state.wf(),
    ensures
        port == match state@.disk {
            Some(disk) => Some((disk.port + register::ISR) as u16),
            None => None,
        },
{
    match state.disk {
        Some(disk) => Some(disk.port + register::ISR),
        None => None,
    }
}

/// The line was raised, for this reason: whether to wake who waits for the disk.
/// Without one it was another device on the line.
pub fn on_interrupt(state: &mut State, reason: u8) -> (wake: bool)
    requires
        old(state).wf(),
    ensures
        final(state).wf(),
        wake == (reason != 0),
        final(state)@ == if reason != 0 {
            Model { interrupts: counted(old(state)@.interrupts, 1), ..old(state)@ }
        } else {
            old(state)@
        },
{
    if reason == 0 {
        return false;
    }
    state.interrupts = count(state.interrupts, 1);
    true
}

/// Let requests sleep from now on, if the disk has interrupted.
pub fn adopt_interrupt(state: &mut State) -> (adopted: bool)
    requires
        old(state).wf(),
    ensures
        final(state).wf(),
        adopted == (old(state)@.interrupts != 0),
        final(state)@ == if adopted {
            Model { blocking: true, ..old(state)@ }
        } else {
            old(state)@
        },
{
    if state.interrupts == 0 {
        return false;
    }
    state.blocking = true;
    true
}

/// A disk is told that its driver is ready once and last: after it was told where
/// its queue is, and only where everything it needs was there.
pub proof fn law_a_disk_is_ready_last(bringing: Bringing)
    requires
        bringing.wf(),
    ensures
        ({
            let history = bringing.history();
            let ready = one_write(readying(bringing.found.port));
            let placed = one_write(placing(bringing.found.port, bringing.found.queue));
            if bringing.stage is Up {
                &&& history.last() == ready
                &&& history.drop_last().contains(placed)
                &&& !history.drop_last().contains(ready)
                &&& forall|i: int|
                    0 <= i < history.len() ==> !(#[trigger] history[i] matches Event::Did(
                        Deed::Free { .. },
                    ))
            } else {
                !history.contains(ready)
            }
        }),
{
    let history = bringing.history();
    if bringing.stage is Up {
        let before = history.drop_last();
        assert(before.last() == one_write(
            placing(bringing.found.port, bringing.found.queue),
        ));
        assert(before[before.len() - 1] == before.last());
    }
}

/// A disk that could not be brought up is told last that it was given up. It was
/// not told where a queue is, and what memory was given was given back.
pub proof fn law_a_disk_that_fails_is_given_up(bringing: Bringing)
    requires
        bringing.wf(),
        bringing.stage is Down,
    ensures
        ({
            let history = bringing.history();
            let port = bringing.found.port;
            &&& history.last() == one_write(giving_up(port))
            &&& forall|at: u64| !history.contains(#[trigger] one_write(placing(port, at)))
            &&& forall|at: u64, order: u32|
                #[trigger] history.contains(Event::Given { at, order }) ==> history.contains(
                    Event::Did(Deed::Free { at, order }),
                )
        }),
{
    let history = bringing.history();
    if bringing.stage->Down_1 {
        let queue = bringing.found.queue;
        assert(history[history.len() - 2] == Event::Did(
            Deed::Free { at: queue, order: bringing.order },
        ));
    }
}

/// Whatever a disk was told, the first three things are that it was reset, that
/// it was noticed and that it has a driver.
pub proof fn law_a_disk_is_noticed_first(bringing: Bringing)
    requires
        bringing.wf(),
    ensures
        bringing.history().len() >= 3,
        bringing.history().take(3) == wrote(noticing(bringing.found.port)),
{
    assert(bringing.history().take(3) =~= wrote(noticing(bringing.found.port)));
}

/// How many things can still be wanted of a disk.
pub open spec fn wants_left(stage: Stage) -> nat {
    match stage {
        Stage::Offer => 6,
        Stage::Size => 5,
        Stage::Queue => 4,
        Stage::Scratch => 3,
        Stage::Low => 2,
        Stage::High => 1,
        Stage::Up | Stage::Down(..) => 0,
    }
}

/// Bringing a disk up ends: each thing it is told leaves fewer to be wanted.
pub proof fn law_bringing_a_disk_up_ends(bringing: Bringing, heard: Heard)
    requires
        bringing.wf(),
        bringing.turn() matches Turn::Want(want) && want.fits(heard),
    ensures
        wants_left(bringing.told(heard).stage) < wants_left(bringing.stage),
{
}

/// The header, the status and the data of a request have each their own place in
/// the scratch memory, and fit in it.
pub proof fn law_the_scratch_parts_are_apart(length: nat)
    requires
        length_checked(length) is Ok,
    ensures
        16 <= SCRATCH_STATUS,
        SCRATCH_STATUS < SCRATCH_DATA,
        SCRATCH_DATA + length <= 4096 * 2,
{
}

/// A request that is not refused stays on the disk.
pub proof fn law_requests_stay_on_the_disk(state: Model, sector: u64, length: nat)
    requires
        request_refused(state, sector, length) is None,
    ensures
        state.disk matches Some(disk) && sector + length / 512 <= disk.capacity,
        0 < length / 512 <= MAX_TRANSFER_SECTORS,
{
}

/// The device sees the entry before the index, and is told last. Its own index
/// was looked at before it could have moved for this request.
pub proof fn law_the_index_comes_after_the_entry(disk: Disk, index: u16)
    requires
        disk.wf(),
    ensures
        ({
            let steps = submit_steps(disk, index);
            let ring = (disk.queue + disk.layout.available) as u64;
            &&& steps.len() == 6
            &&& steps[0] == entry_step(ring, index, disk.queue_size, 0)
            &&& steps[1] == Step::Sample
            &&& steps[2] == Step::Fence
            &&& steps[3] == (Step::Half {
                at: (ring + 2) as u64,
                half: virtio::index_after(index),
            })
            &&& steps[4] == Step::Fence
            &&& steps[5] is Port
        }),
{
}

/// Waiting by looking ends: each look brings the end nearer.
pub proof fn law_looking_ends(completion: Completion, blocking: bool)
    requires
        completion.wf(),
        !(completion.waiting is Blocking),
        !blocking,
    ensures
        ({
            let (next, look) = completion.unanswered(blocking);
            look is TimedOut || looks_left(next) < looks_left(completion.waiting)
        }),
{
}

/// How many looks there can still be.
pub open spec fn looks_left(waiting: Waiting) -> int {
    match waiting {
        Waiting::Handoff(left) => left + COMPLETION_SPINS,
        Waiting::Blocking(_) => 0,
        Waiting::Spinning(spins) => COMPLETION_SPINS - spins,
    }
}

} // verus!
