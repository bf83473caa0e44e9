//! What a USB device is, above the controller that it is plugged into.
//!
//! A device on a port that was just reset has no address and answers on one
//! endpoint. It is given a slot, described to the controller, addressed, and
//! asked what it is, and each of these needs the one before.
//!
//! The first endpoint speaks in three stages: a setup carrying the request, the
//! data if there is any, and a status going the other way.
use vstd::prelude::*;

use crate::bytes::{get_u16, u16_at};
use crate::drivers::xhci::{self, port, Stage, Trouble};
use crate::drivers::xhci_rings::{trb, Producer, Store};
#[allow(unused_imports)]
use crate::drivers::xhci_rings::{entry_stores, fresh, link, ProducerModel, PAGE};
use interfaces::{read_interfaces, Interfaces, MASS_STORAGE};
#[allow(unused_imports)]
use interfaces::{walked, Walking};

pub mod interfaces;
pub mod law;

verus! {

/// Ask for a descriptor.
pub const GET_DESCRIPTOR: u8 = 6;

/// Choose a configuration.
pub const SET_CONFIGURATION: u8 = 9;

/// A descriptor: the device.
pub const DEVICE: u16 = 1;

/// A descriptor: a configuration.
pub const CONFIGURATION: u16 = 2;

/// A direction: from the device.
pub const IN: u8 = 0x80;

/// A direction: to the device.
pub const OUT: u8 = 0x00;

/// The subclass of storage that is driven here: SCSI commands.
pub const SCSI: u8 = 0x06;

/// The protocol of storage that is driven here: bulk only.
pub const BULK_ONLY: u8 = 0x50;

/// The most a transfer moves: a page.
pub const MOST: u32 = 4096;

/// What was learned of a device.
#[derive(Debug, Clone, Copy, PartialEq, Eq, Structural)]
pub struct Device {
    /// The controller's handle for it.
    pub slot: u8,
    /// Which port it is on, counting from one.
    pub port: u64,
    pub vendor: u16,
    pub product: u16,
    /// The configuration to choose.
    pub configuration: u8,
    /// What it can do, from its interfaces: what it is may not stand at the
    /// device itself.
    pub interfaces: Interfaces,
}

/// Everything kept for one device, for as long as the controller uses it.
pub struct Attached {
    pub device: Device,
    /// The ring of its first endpoint.
    pub control: Producer,
    /// The rings of its bulk endpoints.
    pub in_ring: Option<Producer>,
    pub out_ring: Option<Producer>,
    /// The page it is described to the controller in.
    pub described: u64,
    /// A page to move data through.
    pub buffer: u64,
    /// Another for the wrappers of commands, so that a wrapper cannot overwrite
    /// what it describes.
    pub command: u64,
}

impl Attached {
    /// The rings are in order, and the pages are where pages can be.
    pub open spec fn wf(&self) -> bool {
        &&& self.control.wf()
        &&& self.in_ring matches Some(ring) ==> ring.wf()
        &&& self.out_ring matches Some(ring) ==> ring.wf()
        &&& self.described <= u64::MAX - PAGE
        &&& self.buffer <= u64::MAX - PAGE
        &&& self.command <= u64::MAX - PAGE
    }

    /// Where the data is, as the controller is told.
    pub fn buffer_physical(&self) -> (at: u64)
        ensures
            at == self.buffer,
    {
        self.buffer
    }

    /// Where the wrappers are, as the controller is told.
    pub fn command_physical(&self) -> (at: u64)
        ensures
            at == self.command,
    {
        self.command
    }

    /// Where it is described to the controller.
    pub fn input(&self) -> (at: u64)
        ensures
            at == self.described,
    {
        self.described
    }
}

/// How large the first endpoint's packets are, before the device has said: the
/// largest it may use at its speed.
pub open spec fn first_packet(speed: u32) -> u16 {
    if speed == 4 || speed == 5 {
        512
    } else if speed == 2 {
        8
    } else {
        64
    }
}

/// How large the first endpoint's packets are, before the device has said.
pub fn first_packet_size(speed: u32) -> (bytes: u16)
    ensures
        bytes == first_packet(speed),
{
    match speed {
        4 | 5 => 512,
        2 => 8,
        _ => 64,
    }
}

/// An address, marked with the cycle its ring starts with.
pub open spec fn marked(physical: u64) -> u64 {
    (physical - physical % 2 + 1) as u64
}

/// The pages a device takes.
#[derive(Debug, Clone, Copy, PartialEq, Eq, Structural)]
pub struct Pages {
    pub control: u64,
    /// What the device is described to the controller in.
    pub input: u64,
    /// What the controller keeps of it.
    pub output: u64,
    pub buffer: u64,
    pub command: u64,
}

impl Pages {
    /// They are where pages can be.
    pub open spec fn wf(self) -> bool {
        &&& self.control <= u64::MAX - PAGE
        &&& self.input <= u64::MAX - PAGE
        &&& self.output <= u64::MAX - PAGE
        &&& self.buffer <= u64::MAX - PAGE
        &&& self.command <= u64::MAX - PAGE
    }
}

/// What the controller is told of a device before it is addressed: which parts
/// are described, its speed and its port, and its first endpoint with three
/// retries and where its ring is.
pub open spec fn described(
    pages: Pages,
    port: u64,
    speed: u32,
    context_size: u64,
) -> Seq<Store> {
    let slot_at = (pages.input + context_size) as u64;
    let endpoint_at = (pages.input + context_size * 2) as u64;
    seq![
        Store::Word { at: (pages.input + 4) as u64, word: 3 },
        Store::Word { at: slot_at, word: (speed * 0x10_0000 + 0x800_0000) as u32 },
        Store::Word { at: (slot_at + 4) as u64, word: (port * 0x1_0000) as u32 },
        Store::Word {
            at: (endpoint_at + 4) as u64,
            word: (38 + first_packet(speed) * 0x1_0000) as u32,
        },
        Store::Long { at: (endpoint_at + 8) as u64, long: marked(pages.control) },
        Store::Word { at: (endpoint_at + 16) as u64, word: 8 },
    ]
}

/// Everything that is stored before a device is addressed.
pub open spec fn attach_stores(
    pages: Pages,
    contexts: u64,
    slot: u8,
    port: u64,
    speed: u32,
    context_size: u64,
) -> Seq<Store> {
    seq![Store::Zero { at: pages.control }] + entry_stores(
        (pages.control + 4080) as u64,
        link(pages.control, true),
    ) + seq![
        Store::Zero { at: pages.input },
        Store::Zero { at: pages.output },
        Store::Zero { at: pages.buffer },
        Store::Zero { at: pages.command },
        Store::Long { at: (contexts + slot * 8) as u64, long: pages.output },
    ] + described(pages, port, speed, context_size)
}

/// A device of which nothing is known.
pub open spec fn unknown(slot: u8, port: u64) -> Device {
    Device {
        slot,
        port,
        vendor: 0,
        product: 0,
        configuration: 0,
        interfaces: Interfaces {
            class: 0,
            subclass: 0,
            protocol: 0,
            interface: 0,
            bulk_in: None,
            bulk_out: None,
        },
    }
}

/// Describe a device to the controller, in the slot it gave: what is to be
/// stored before the device is addressed. [`attach_next`] goes on.
///
/// `contexts` is where the array of contexts is, and `context_size` how large
/// one is.
pub fn attach(
    slot: u8,
    port: u64,
    speed: u32,
    pages: Pages,
    contexts: u64,
    context_size: u64,
) -> (attached: (Attached, Vec<Store>))
    requires
        pages.wf(),
        contexts <= u64::MAX - PAGE,
        port < 256,
        speed < 16,
        context_size <= 64,
    ensures
        attached.0.wf(),
        attached.0.device == unknown(slot, port),
        attached.0.control@ == fresh(pages.control),
        attached.0.in_ring is None,
        attached.0.out_ring is None,
        attached.0.described == pages.input,
        attached.0.buffer == pages.buffer,
        attached.0.command == pages.command,
        attached.1@ == attach_stores(pages, contexts, slot, port, speed, context_size),
{
    let (control, mut stores) = Producer::new(pages.control);
    stores.push(Store::Zero { at: pages.input });
    stores.push(Store::Zero { at: pages.output });
    stores.push(Store::Zero { at: pages.buffer });
    stores.push(Store::Zero { at: pages.command });
    stores.push(Store::Long { at: contexts + slot as u64 * 8, long: pages.output });
    let slot_at: u64 = pages.input + context_size;
    let endpoint_at: u64 = pages.input + context_size * 2;
    let packet: u16 = first_packet_size(speed);
    stores.push(Store::Word { at: pages.input + 4, word: 3 });
    stores.push(Store::Word { at: slot_at, word: speed * 0x10_0000 + 0x800_0000 });
    stores.push(Store::Word { at: slot_at + 4, word: port as u32 * 0x1_0000 });
    stores.push(Store::Word { at: endpoint_at + 4, word: 38 + packet as u32 * 0x1_0000 });
    stores.push(
        Store::Long { at: endpoint_at + 8, long: pages.control - pages.control % 2 + 1 },
    );
    stores.push(Store::Word { at: endpoint_at + 16, word: 8 });
    assert(stores@ =~= attach_stores(pages, contexts, slot, port, speed, context_size));
    let device = Device {
        slot,
        port,
        vendor: 0,
        product: 0,
        configuration: 0,
        interfaces: Interfaces {
            class: 0,
            subclass: 0,
            protocol: 0,
            interface: 0,
            bulk_in: None,
            bulk_out: None,
        },
    };
    (
        Attached {
            device,
            control,
            in_ring: None,
            out_ring: None,
            described: pages.input,
            buffer: pages.buffer,
            command: pages.command,
        },
        stores,
    )
}

/// A request on the first endpoint.
#[derive(Debug, Clone, Copy, PartialEq, Eq, Structural)]
pub struct Request {
    pub direction: u8,
    pub request: u8,
    pub value: u16,
    pub index: u16,
    pub length: u32,
}

impl Request {
    /// Whether data comes from the device.
    pub open spec fn reads(self) -> bool {
        self.direction >= 0x80
    }

    /// The eight bytes of it, which stand in the entry itself.
    pub open spec fn setup(self) -> u64 {
        (self.direction + self.request * 0x100 + self.value * 0x1_0000 + self.index
            * 0x1_0000_0000 + self.length * 0x1_0000_0000_0000) as u64
    }

    /// What the setup stage says is to follow: nothing, data to the device, or
    /// data from it.
    pub open spec fn kind(self) -> u32 {
        if self.length == 0 {
            0
        } else if self.reads() {
            3
        } else {
            2
        }
    }
}

/// One, for a yes.
pub open spec fn one_if(yes: bool) -> u32 {
    if yes {
        1
    } else {
        0
    }
}

/// A ring with a request put on it: the setup, the data if there is any, and the
/// status the other way, which alone is to be told of.
pub open spec fn requested(ring: ProducerModel, buffer: u64, request: Request) -> ProducerModel {
    let one = ring.pushed(
        request.setup(),
        8,
        (trb::SETUP * 1024 + 64 + request.kind() * 0x1_0000) as u32,
    );
    let two = if request.length > 0 {
        one.pushed(
            buffer,
            request.length,
            (trb::DATA * 1024 + one_if(request.reads()) * 0x1_0000) as u32,
        )
    } else {
        one
    };
    two.pushed(0, 0, (trb::STATUS * 1024 + 32 + one_if(!request.reads()) * 0x1_0000) as u32)
}

/// The stores that put it there.
pub open spec fn request_stores(ring: ProducerModel, buffer: u64, request: Request) -> Seq<Store> {
    let setup = (trb::SETUP * 1024 + 64 + request.kind() * 0x1_0000) as u32;
    let one = ring.pushed(request.setup(), 8, setup);
    let data = (trb::DATA * 1024 + one_if(request.reads()) * 0x1_0000) as u32;
    let status = (trb::STATUS * 1024 + 32 + one_if(!request.reads()) * 0x1_0000) as u32;
    if request.length > 0 {
        let two = one.pushed(buffer, request.length, data);
        ring.push_stores(request.setup(), 8, setup) + one.push_stores(
            buffer,
            request.length,
            data,
        ) + two.push_stores(0, 0, status)
    } else {
        ring.push_stores(request.setup(), 8, setup) + one.push_stores(0, 0, status)
    }
}

/// Put a request on the first endpoint's ring: what is to be stored before the
/// doorbell of the device's first endpoint is rung.
pub fn control(attached: &mut Attached, request: Request) -> (stores: Result<Vec<Store>, Trouble>)
    requires
        old(attached).wf(),
    ensures
        final(attached).wf(),
        final(attached).device == old(attached).device,
        final(attached).in_ring == old(attached).in_ring,
        final(attached).out_ring == old(attached).out_ring,
        final(attached).described == old(attached).described,
        final(attached).buffer == old(attached).buffer,
        final(attached).command == old(attached).command,
        match stores {
            Err(trouble) => {
                &&& request.length > MOST
                &&& trouble == Trouble::NoMemory
                &&& final(attached).control@ == old(attached).control@
            },
            Ok(stores) => {
                &&& request.length <= MOST
                &&& final(attached).control@ == requested(
                    old(attached).control@,
                    old(attached).buffer,
                    request,
                )
                &&& stores@ == request_stores(
                    old(attached).control@,
                    old(attached).buffer,
                    request,
                )
            },
        },
{
    if request.length > MOST {
        return Err(Trouble::NoMemory);
    }
    let ghost ring = attached.control@;
    let reading: bool = request.direction >= 0x80;
    let setup: u64 = request.direction as u64 + request.request as u64 * 0x100
        + request.value as u64 * 0x1_0000 + request.index as u64 * 0x1_0000_0000
        + request.length as u64 * 0x1_0000_0000_0000;
    let kind: u32 = if request.length == 0 {
        0
    } else if reading {
        3
    } else {
        2
    };
    let read: u32 = if reading {
        1
    } else {
        0
    };
    let first = attached.control.push(setup, 8, trb::SETUP * 1024 + 64 + kind * 0x1_0000);
    let mut stores: Vec<Store> = first.stores;
    if request.length > 0 {
        let second = attached.control.push(
            attached.buffer,
            request.length,
            trb::DATA * 1024 + read * 0x1_0000,
        );
        put_stores(&mut stores, &second.stores);
    }
    let last = attached.control.push(
        0,
        0,
        trb::STATUS * 1024 + 32 + (1 - read) * 0x1_0000,
    );
    put_stores(&mut stores, &last.stores);
    assert(stores@ =~= request_stores(ring, attached.buffer, request));
    Ok(stores)
}

/// Append some stores to others.
pub fn put_stores(out: &mut Vec<Store>, from: &Vec<Store>)
    ensures
        final(out)@ == old(out)@ + from@,
{
    let mut at: usize = 0;
    assert(old(out)@ + from@.take(0) =~= old(out)@);
    while at < from.len()
        invariant
            at <= from@.len(),
            out@ == old(out)@ + from@.take(at as int),
        decreases from@.len() - at,
    {
        out.push(from[at]);
        at += 1;
        assert(out@ =~= old(out)@ + from@.take(at as int));
    }
    assert(from@.take(at as int) =~= from@);
}

/// A request for a descriptor.
pub open spec fn descriptor_request(kind: u16, index: u16, length: u32) -> Request {
    Request {
        direction: IN,
        request: GET_DESCRIPTOR,
        value: (kind * 0x100 + index) as u16,
        index: 0,
        length,
    }
}

/// A request for a descriptor, into the data page.
pub fn control_in(kind: u16, index: u8, length: u32) -> (request: Request)
    requires
        kind < 256,
    ensures
        request == descriptor_request(kind, index as u16, length),
{
    Request {
        direction: IN,
        request: GET_DESCRIPTOR,
        value: kind * 0x100 + index as u16,
        index: 0,
        length,
    }
}

/// The request that chooses a configuration.
pub open spec fn choosing(configuration: u8) -> Request {
    Request {
        direction: OUT,
        request: SET_CONFIGURATION,
        value: configuration as u16,
        index: 0,
        length: 0,
    }
}

/// Choose the configuration, which is what makes the endpoints there: the
/// request.
pub fn set_configuration(attached: &Attached) -> (request: Request)
    ensures
        request == choosing(attached.device.configuration),
{
    Request {
        direction: OUT,
        request: SET_CONFIGURATION,
        value: attached.device.configuration as u16,
        index: 0,
        length: 0,
    }
}

/// How far a device has been brought up.
#[derive(Debug, Clone, Copy, PartialEq, Eq, Structural)]
pub enum Attaching {
    /// It is being addressed.
    Addressing,
    /// It is being asked what it is.
    Device,
    /// It is being asked how long what it can do is.
    Length,
    /// It is being asked what it can do.
    Configuration,
    Over,
}

/// What comes next: a request on its first endpoint, or nothing more.
pub open spec fn next_request(stage: Attaching, bytes: Seq<u8>) -> Option<Request> {
    match stage {
        Attaching::Addressing => Some(descriptor_request(DEVICE, 0, 18)),
        Attaching::Device => Some(descriptor_request(CONFIGURATION, 0, 9)),
        Attaching::Length => Some(
            descriptor_request(
                CONFIGURATION,
                0,
                if u16_at(bytes, 2) < 4096 {
                    u16_at(bytes, 2) as u32
                } else {
                    4096
                },
            ),
        ),
        _ => None,
    }
}

/// The device after a stage, with what was read in it.
pub open spec fn learned(stage: Attaching, device: Device, bytes: Seq<u8>) -> Device {
    match stage {
        Attaching::Device => Device {
            vendor: u16_at(bytes, 8),
            product: u16_at(bytes, 10),
            ..device
        },
        Attaching::Length => Device { configuration: bytes[5], ..device },
        Attaching::Configuration => Device {
            interfaces: walked(Walking { found: device.interfaces, ours: false }, bytes, 0).found,
            ..device
        },
        _ => device,
    }
}

/// The stage after one.
pub open spec fn stage_after(stage: Attaching) -> Attaching {
    match stage {
        Attaching::Addressing => Attaching::Device,
        Attaching::Device => Attaching::Length,
        Attaching::Length => Attaching::Configuration,
        _ => Attaching::Over,
    }
}

/// What a device owes at a stage and did not give.
pub open spec fn too_little(stage: Attaching, bytes: Seq<u8>) -> Option<Trouble> {
    if stage == Attaching::Device && bytes.len() < 18 {
        Some(Trouble::Stuck(Stage::DescribeItself))
    } else if stage == Attaching::Length && bytes.len() < 9 {
        Some(Trouble::Stuck(Stage::DescribeItsConfiguration))
    } else {
        None
    }
}

/// Go on bringing a device up, given what came of the last step: the bytes that
/// were read into the data page, or what the controller refused. The next
/// request, until there is none.
///
/// What it can do is asked for twice: once for how long it is, and once for all
/// of it.
pub fn attach_next(
    attached: &mut Attached,
    stage: &mut Attaching,
    outcome: Result<&[u8], Trouble>,
) -> (next: Result<Option<Request>, Trouble>)
    requires
        old(attached).wf(),
    ensures
        final(attached).wf(),
        final(attached).control@ == old(attached).control@,
        final(attached).in_ring == old(attached).in_ring,
        final(attached).out_ring == old(attached).out_ring,
        final(attached).described == old(attached).described,
        final(attached).buffer == old(attached).buffer,
        final(attached).command == old(attached).command,
        match outcome {
            Err(trouble) => {
                &&& next == Err::<Option<Request>, Trouble>(trouble)
                &&& final(attached).device == old(attached).device
                &&& *final(stage) == *old(stage)
            },
            Ok(bytes) => match too_little(*old(stage), bytes@) {
                Some(trouble) => {
                    &&& next == Err::<Option<Request>, Trouble>(trouble)
                    &&& final(attached).device == old(attached).device
                    &&& *final(stage) == *old(stage)
                },
                None => {
                    &&& next == Ok::<Option<Request>, Trouble>(
                        next_request(*old(stage), bytes@),
                    )
                    &&& final(attached).device == learned(
                        *old(stage),
                        old(attached).device,
                        bytes@,
                    )
                    &&& *final(stage) == stage_after(*old(stage))
                },
            },
        },
{
    let bytes: &[u8] = match outcome {
        Err(trouble) => return Err(trouble),
        Ok(bytes) => bytes,
    };
    match *stage {
        Attaching::Addressing => {
            *stage = Attaching::Device;
            Ok(Some(control_in(DEVICE, 0, 18)))
        },
        Attaching::Device => {
            if bytes.len() < 18 {
                return Err(Trouble::Stuck(Stage::DescribeItself));
            }
            attached.device.vendor = get_u16(bytes, 8);
            attached.device.product = get_u16(bytes, 10);
            *stage = Attaching::Length;
            Ok(Some(control_in(CONFIGURATION, 0, 9)))
        },
        Attaching::Length => {
            if bytes.len() < 9 {
                return Err(Trouble::Stuck(Stage::DescribeItsConfiguration));
            }
            let total: u16 = get_u16(bytes, 2);
            let most: u32 = if total < 4096 {
                total as u32
            } else {
                4096
            };
            attached.device.configuration = bytes[5];
            *stage = Attaching::Configuration;
            Ok(Some(control_in(CONFIGURATION, 0, most)))
        },
        Attaching::Configuration => {
            attached.device.interfaces = read_interfaces(attached.device.interfaces, bytes);
            *stage = Attaching::Over;
            Ok(None)
        },
        Attaching::Over => Ok(None),
    }
}

/// Whether there is something on a port to be brought up, given what it reads
/// as: the port as the controller numbers it, and the speed.
pub fn enumerate(state: &xhci::State, index: u64, value: u32) -> (found: Option<(u64, u32)>)
    requires
        index < 256,
    ensures
        found == if state@.present && index < state@.layout.ports && value & port::CONNECTED != 0
            && value & port::ENABLED != 0 {
            Some(((index + 1) as u64, xhci::speed_of(value)))
        } else {
            None
        },
{
    if !xhci::is_present(state) || index >= xhci::port_count(state) {
        return None;
    }
    if value & port::CONNECTED == 0 || value & port::ENABLED == 0 {
        return None;
    }
    Some((index + 1, xhci::port_speed(value)))
}

/// What is done with a device that was brought up.
#[derive(Debug, Clone, Copy, PartialEq, Eq, Structural)]
pub enum Use {
    /// It is a disk that can be driven.
    Disk,
    /// It is storage of a kind that cannot.
    OtherStorage,
    Nothing,
}

/// What is done with a device.
pub fn use_of(device: &Device) -> (used: Use)
    ensures
        used == if device.interfaces.class != MASS_STORAGE {
            Use::Nothing
        } else if device.interfaces.subclass == SCSI && device.interfaces.protocol == BULK_ONLY {
            Use::Disk
        } else {
            Use::OtherStorage
        },
{
    if device.interfaces.class != MASS_STORAGE {
        Use::Nothing
    } else if device.interfaces.subclass == SCSI && device.interfaces.protocol == BULK_ONLY {
        Use::Disk
    } else {
        Use::OtherStorage
    }
}

/// A request asks to be told of once, of its last stage, whatever it is.
pub proof fn law_one_event_for_a_request(request: Request)
    requires
        request.length <= MOST,
    ensures
        ({
            let setup = (trb::SETUP * 1024 + 64 + request.kind() * 0x1_0000) as u32;
            let data = (trb::DATA * 1024 + one_if(request.reads()) * 0x1_0000) as u32;
            let status = (trb::STATUS * 1024 + 32 + one_if(!request.reads()) * 0x1_0000) as u32;
            &&& (setup / 32) % 2 == 0
            &&& (data / 32) % 2 == 0
            &&& (status / 32) % 2 == 1
            &&& (setup / 1024) % 64 == trb::SETUP
            &&& (data / 1024) % 64 == trb::DATA
            &&& (status / 1024) % 64 == trb::STATUS
        }),
{
}

/// The eight bytes of a request are its parts: each can be read back.
pub proof fn law_a_setup_holds_its_parts(request: Request)
    requires
        request.length <= MOST,
    ensures
        request.setup() % 0x100 == request.direction,
        (request.setup() / 0x100) % 0x100 == request.request,
        (request.setup() / 0x1_0000) % 0x1_0000 == request.value,
        (request.setup() / 0x1_0000_0000) % 0x1_0000 == request.index,
        request.setup() / 0x1_0000_0000_0000 == request.length,
{
}

/// A device is brought up in four steps, in this order.
pub proof fn law_a_device_comes_up_in_four_steps()
    ensures
        stage_after(stage_after(stage_after(stage_after(Attaching::Addressing))))
            == Attaching::Over,
        next_request(Attaching::Addressing, Seq::empty()) is Some,
        forall|bytes: Seq<u8>| #[trigger] next_request(Attaching::Configuration, bytes) is None,
{
}

} // verus!
