//! Bulk-only transport, and the SCSI commands that travel on it.
//!
//! A command is three transfers: a wrapper out with the command in it, the data
//! if there is any, and a status back. The status carries the tag of the command
//! it answers, and one with another tag answers another command.
use vstd::prelude::*;

use crate::bytes::{
    copy_range, get_u32, get_u32_be, put_bytes, put_u32, put_zeros, u32_at, u32_be_at,
};
#[allow(unused_imports)]
use crate::bytes::{be16, be32, le32};
use crate::drivers::usb::interfaces::Endpoint;
#[allow(unused_imports)]
use crate::drivers::usb::{choosing, marked};
use crate::drivers::usb::{put_stores, set_configuration, Attached, Device, Request};
use crate::drivers::xhci::port_speed;
#[allow(unused_imports)]
use crate::drivers::xhci::speed_of;
use crate::drivers::xhci_rings::{trb, Producer, Store};
#[allow(unused_imports)]
use crate::drivers::xhci_rings::{entry_stores, fresh, link, PAGE};
use crate::text::{around_decimal, is_utf8, trim_end};
#[allow(unused_imports)]
use crate::text::{decimal, trimmed};

pub mod law;
pub mod scsi;
pub mod verify;

verus! {

/// What a wrapper of a command starts with.
pub const CBW_SIGNATURE: u32 = 0x4342_5355;

/// What a status starts with.
pub const CSW_SIGNATURE: u32 = 0x5342_5355;

/// Bytes of a wrapper.
pub const CBW_LENGTH: u32 = 31;

/// Bytes of a status.
pub const CSW_LENGTH: u32 = 13;

/// The most one read or write moves.
pub const MAX_TRANSFER: u32 = 4096;

/// Where in the page of wrappers a status goes, out of the way of the wrapper.
pub const STATUS_AT: u64 = 64;

/// A disk reached over USB.
#[derive(Debug)]
pub struct Disk {
    /// How many blocks it has.
    pub blocks: u64,
    /// How large each is.
    pub block_size: u32,
    /// What it calls its maker: eight bytes.
    pub vendor: Vec<u8>,
    /// What it calls itself: sixteen bytes.
    pub product: Vec<u8>,
    /// The tag of the next command.
    pub tag: u32,
}

/// The same, as a value.
#[verifier::ext_equal]
pub struct DiskModel {
    pub blocks: u64,
    pub block_size: u32,
    pub vendor: Seq<u8>,
    pub product: Seq<u8>,
    pub tag: u32,
}

impl View for Disk {
    type V = DiskModel;

    open spec fn view(&self) -> DiskModel {
        DiskModel {
            blocks: self.blocks,
            block_size: self.block_size,
            vendor: self.vendor@,
            product: self.product@,
            tag: self.tag,
        }
    }
}

/// Why something failed.
#[derive(Debug, Clone, Copy, PartialEq, Eq, Structural)]
pub enum Trouble {
    /// The controller refused a transfer.
    Controller,
    /// What came back was not a status.
    BadStatus,
    /// The status was of another command.
    WrongTag,
    /// The device says that the command failed.
    Failed(u8),
    /// The device has no pair of bulk endpoints.
    NoEndpoints,
    /// More was asked for than the buffer holds.
    TooMuch,
}

/// What a trouble is, in words.
pub open spec fn words(trouble: Trouble) -> Seq<char> {
    match trouble {
        Trouble::Controller => "the controller refused a transfer"@,
        Trouble::BadStatus => "what came back was not a status wrapper"@,
        Trouble::WrongTag => "the status was for a different command than the one sent"@,
        Trouble::Failed(status) => "the device refused the command (status "@ + decimal(
            status as nat,
        ) + ")"@,
        Trouble::NoEndpoints => "the device offers no pair of bulk endpoints"@,
        Trouble::TooMuch => "more was asked for than the buffer holds"@,
    }
}

impl Trouble {
    /// What it is, in words.
    pub fn text(&self) -> (text: String)
        ensures
            text@ == words(*self),
    {
        match self {
            Trouble::Controller => "the controller refused a transfer".to_owned(),
            Trouble::BadStatus => "what came back was not a status wrapper".to_owned(),
            Trouble::WrongTag => "the status was for a different command than the one sent".to_owned(),
            Trouble::Failed(status) => around_decimal(
                "the device refused the command (status ",
                *status as u64,
                ")",
            ),
            Trouble::NoEndpoints => "the device offers no pair of bulk endpoints".to_owned(),
            Trouble::TooMuch => "more was asked for than the buffer holds".to_owned(),
        }
    }
}

/// The place of an endpoint among the contexts: two for each number, the one in
/// after the one out.
pub open spec fn index_of(endpoint: u8, inbound: bool) -> u8 {
    (endpoint * 2 + if inbound {
        1int
    } else {
        0
    }) as u8
}

/// The place of an endpoint among the contexts.
pub fn context_index(endpoint: u8, inbound: bool) -> (index: u8)
    requires
        endpoint < 16,
    ensures
        index == index_of(endpoint, inbound),
        index < 32,
{
    endpoint * 2 + if inbound {
        1
    } else {
        0
    }
}

/// The two endpoints of a device.
#[derive(Debug, Clone, Copy, PartialEq, Eq, Structural)]
pub struct Pair {
    pub inward: Endpoint,
    pub outward: Endpoint,
}

impl Pair {
    /// The numbers are numbers of endpoints.
    pub open spec fn wf(self) -> bool {
        self.inward.number < 16 && self.outward.number < 16
    }
}

/// The pair of bulk endpoints a device has.
pub fn endpoints(attached: &Attached) -> (pair: Result<Pair, Trouble>)
    ensures
        pair == match (
            attached.device.interfaces.bulk_in,
            attached.device.interfaces.bulk_out,
        ) {
            (Some(inward), Some(outward)) => Ok::<Pair, Trouble>(Pair { inward, outward }),
            _ => Err(Trouble::NoEndpoints),
        },
{
    match (attached.device.interfaces.bulk_in, attached.device.interfaces.bulk_out) {
        (Some(inward), Some(outward)) => Ok(Pair { inward, outward }),
        _ => Err(Trouble::NoEndpoints),
    }
}

/// The greater of two.
pub open spec fn higher(left: u8, right: u8) -> u8 {
    if left < right {
        right
    } else {
        left
    }
}

/// What the controller is told of one bulk endpoint, at a place: its kind, three
/// retries, how large its packets are and where its ring is.
pub open spec fn endpoint_stores(at: u64, kind: u32, packet: u16, ring: u64) -> Seq<Store> {
    seq![
        Store::Word { at: (at + 4) as u64, word: (kind * 8 + 6 + packet * 0x1_0000) as u32 },
        Store::Long { at: (at + 8) as u64, long: marked(ring) },
        Store::Word { at: (at + 16) as u64, word: packet as u32 },
    ]
}

/// What the controller is told of a disk's endpoints: which parts are described,
/// the speed and the port again with as many parts as there are now, and both
/// endpoints.
pub open spec fn pair_stores(
    described: u64,
    port: u64,
    speed: u32,
    context_size: u64,
    pair: Pair,
    in_ring: u64,
    out_ring: u64,
) -> Seq<Store> {
    let inward = index_of(pair.inward.number, true);
    let outward = index_of(pair.outward.number, false);
    let slot_at = (described + context_size) as u64;
    seq![
        Store::Zero { at: described },
        Store::Word {
            at: (described + 4) as u64,
            word: 1u32 | (1u32 << inward) | (1u32 << outward),
        },
        Store::Word {
            at: slot_at,
            word: (speed * 0x10_0000 + higher(inward, outward) * 0x800_0000) as u32,
        },
        Store::Word { at: (slot_at + 4) as u64, word: (port * 0x1_0000) as u32 },
    ] + endpoint_stores(
        (described + context_size * (1 + inward)) as u64,
        6,
        pair.inward.packet,
        in_ring,
    ) + endpoint_stores(
        (described + context_size * (1 + outward)) as u64,
        2,
        pair.outward.packet,
        out_ring,
    )
}

/// The stores that make a ring in a page.
pub open spec fn ring_stores(page: u64) -> Seq<Store> {
    seq![Store::Zero { at: page }] + entry_stores((page + 4080) as u64, link(page, true))
}

/// Everything that is stored before the controller is told to configure a disk's
/// endpoints: both rings, and what it is told of them.
pub open spec fn configuring(
    described: u64,
    port: u64,
    speed: u32,
    context_size: u64,
    pair: Pair,
    in_page: u64,
    out_page: u64,
) -> Seq<Store> {
    ring_stores(in_page) + ring_stores(out_page) + pair_stores(
        described,
        port,
        speed,
        context_size,
        pair,
        in_page,
        out_page,
    )
}

/// The rings of a pair of endpoints.
pub struct Rings {
    pub inward: Producer,
    pub outward: Producer,
}

/// Make the rings of a device's bulk endpoints: the rings, and what is to be
/// stored before the controller is told to configure the endpoints. The
/// configuration has been chosen: a device without one has a single endpoint.
pub fn configure(
    attached: &Attached,
    pair: Pair,
    in_page: u64,
    out_page: u64,
    speed: u32,
    context_size: u64,
) -> (made: (Rings, Vec<Store>))
    requires
        attached.wf(),
        pair.wf(),
        in_page <= u64::MAX - PAGE,
        out_page <= u64::MAX - PAGE,
        attached.device.port < 256,
        speed < 16,
        context_size <= 64,
    ensures
        made.0.inward.wf(),
        made.0.outward.wf(),
        made.0.inward@ == fresh(in_page),
        made.0.outward@ == fresh(out_page),
        made.1@ == configuring(
            attached.described,
            attached.device.port,
            speed,
            context_size,
            pair,
            in_page,
            out_page,
        ),
{
    let (in_ring, mut stores) = Producer::new(in_page);
    let (out_ring, more) = Producer::new(out_page);
    put_stores(&mut stores, &more);
    let described: u64 = attached.described;
    let port: u64 = attached.device.port;
    let inward: u8 = context_index(pair.inward.number, true);
    let outward: u8 = context_index(pair.outward.number, false);
    let highest: u8 = if inward < outward {
        outward
    } else {
        inward
    };
    stores.push(Store::Zero { at: described });
    stores.push(
        Store::Word { at: described + 4, word: 1u32 | (1u32 << inward) | (1u32 << outward) },
    );
    let slot_at: u64 = described + context_size;
    stores.push(
        Store::Word { at: slot_at, word: speed * 0x10_0000 + highest as u32 * 0x800_0000 },
    );
    stores.push(Store::Word { at: slot_at + 4, word: port as u32 * 0x1_0000 });
    assert(0 <= context_size * (1 + inward) <= 64 * 32) by (nonlinear_arith)
        requires
            0 <= context_size <= 64,
            0 <= inward < 32,
    ;
    assert(0 <= context_size * (1 + outward) <= 64 * 32) by (nonlinear_arith)
        requires
            0 <= context_size <= 64,
            0 <= outward < 32,
    ;
    let in_at: u64 = described + context_size * (1 + inward as u64);
    stores.push(
        Store::Word { at: in_at + 4, word: 54 + pair.inward.packet as u32 * 0x1_0000 },
    );
    stores.push(Store::Long { at: in_at + 8, long: in_page - in_page % 2 + 1 });
    stores.push(Store::Word { at: in_at + 16, word: pair.inward.packet as u32 });
    let out_at: u64 = described + context_size * (1 + outward as u64);
    stores.push(
        Store::Word { at: out_at + 4, word: 22 + pair.outward.packet as u32 * 0x1_0000 },
    );
    stores.push(Store::Long { at: out_at + 8, long: out_page - out_page % 2 + 1 });
    stores.push(Store::Word { at: out_at + 16, word: pair.outward.packet as u32 });
    assert(stores@ =~= ring_stores(in_page) + ring_stores(out_page) + pair_stores(
        described,
        port,
        speed,
        context_size,
        pair,
        in_page,
        out_page,
    ));
    (Rings { inward: in_ring, outward: out_ring }, stores)
}

/// How far a device's endpoints have been made usable: what is wanted next.
#[derive(Debug, Clone, Copy, PartialEq, Eq, Structural)]
pub enum Stage {
    /// That its configuration was chosen.
    Choosing,
    /// A page for the ring of what comes in.
    InPage,
    /// A page for the ring of what goes out.
    OutPage,
    /// What its port reads as.
    Port,
    /// That the controller has configured them.
    Endpoints,
    Over,
}

/// What is to be done, once the stores are stored.
#[derive(Debug, Clone, Copy, PartialEq, Eq, Structural)]
pub enum Wanted {
    /// This request on the device's first endpoint.
    Control(Request),
    /// A page.
    Page,
    /// What this port of the controller reads as.
    Port(u64),
    /// Have the controller configure the endpoints it was told of.
    Configure,
    /// Nothing more: commands can be sent.
    Over,
}

/// What came of it.
#[derive(Debug, Clone, Copy, PartialEq, Eq, Structural)]
pub enum Told {
    /// Whether it was done.
    Done(bool),
    /// The page, if there was one.
    Page(Option<u64>),
    /// What the port reads as.
    Port(u32),
}

/// A device whose endpoints are being made usable.
pub struct Preparing {
    stage: Stage,
    pair: Pair,
    context_size: u64,
    in_page: u64,
    out_page: u64,
    rings: Option<Rings>,
}

/// The same, as a value.
pub struct Preparation {
    pub stage: Stage,
    pub pair: Pair,
    /// How large a part of a description is.
    pub context_size: u64,
    pub in_page: u64,
    pub out_page: u64,
}

impl Preparation {
    /// What was given is where it can be.
    pub open spec fn sound(self) -> bool {
        &&& self.pair.wf()
        &&& self.context_size <= 64
        &&& self.in_page <= u64::MAX - PAGE
        &&& self.out_page <= u64::MAX - PAGE
    }

    /// What is to be done.
    pub open spec fn wants(self, device: Device) -> Wanted {
        match self.stage {
            Stage::Choosing => Wanted::Control(choosing(device.configuration)),
            Stage::InPage | Stage::OutPage => Wanted::Page,
            Stage::Port => Wanted::Port((device.port - 1) as u64),
            Stage::Endpoints => Wanted::Configure,
            Stage::Over => Wanted::Over,
        }
    }

    /// Whether this is what was wanted.
    pub open spec fn fits(self, told: Told) -> bool {
        match self.stage {
            Stage::Choosing | Stage::Endpoints => told is Done,
            Stage::InPage | Stage::OutPage => told matches Told::Page(page) && (page matches Some(
                at,
            ) ==> at <= u64::MAX - PAGE),
            Stage::Port => told is Port,
            Stage::Over => false,
        }
    }

    /// Whether it can go on.
    pub open spec fn goes_on(self, told: Told) -> bool {
        match told {
            Told::Done(done) => done,
            Told::Page(page) => page is Some,
            Told::Port(_) => true,
        }
    }

    /// The same once it has.
    pub open spec fn after(self, told: Told) -> Preparation {
        match (self.stage, told) {
            (Stage::Choosing, _) => Preparation { stage: Stage::InPage, ..self },
            (Stage::InPage, Told::Page(Some(page))) => Preparation {
                stage: Stage::OutPage,
                in_page: page,
                ..self
            },
            (Stage::OutPage, Told::Page(Some(page))) => Preparation {
                stage: Stage::Port,
                out_page: page,
                ..self
            },
            (Stage::Port, _) => Preparation { stage: Stage::Endpoints, ..self },
            _ => Preparation { stage: Stage::Over, ..self },
        }
    }

    /// What is to be stored then.
    pub open spec fn stores(self, attached: Attached, told: Told) -> Seq<Store> {
        match (self.stage, told) {
            (Stage::Port, Told::Port(value)) => configuring(
                attached.described,
                attached.device.port,
                speed_of(value),
                self.context_size,
                self.pair,
                self.in_page,
                self.out_page,
            ),
            _ => Seq::empty(),
        }
    }
}

impl View for Preparing {
    type V = Preparation;

    closed spec fn view(&self) -> Preparation {
        Preparation {
            stage: self.stage,
            pair: self.pair,
            context_size: self.context_size,
            in_page: self.in_page,
            out_page: self.out_page,
        }
    }
}

impl Preparing {
    /// What was given is where it can be, and the rings are there once the
    /// controller was told of them.
    pub closed spec fn wf(&self) -> bool {
        &&& self@.sound()
        &&& self.stage == Stage::Endpoints ==> (self.rings matches Some(rings)
            && rings.inward.wf() && rings.outward.wf() && rings.inward@ == fresh(self.in_page)
            && rings.outward@ == fresh(self.out_page))
    }

    /// Go on with what came of the last step: what is to be stored, and what is
    /// to be done then.
    ///
    /// The rings are the device's once the controller knows of them.
    pub fn next(&mut self, attached: &mut Attached, told: Told) -> (next: Result<
        (Vec<Store>, Wanted),
        Trouble,
    >)
        requires
            old(self).wf(),
            old(attached).wf(),
            0 < old(attached).device.port < 256,
            old(self)@.fits(told),
        ensures
            final(attached).wf(),
            final(attached).device == old(attached).device,
            final(attached).control@ == old(attached).control@,
            final(attached).described == old(attached).described,
            final(attached).buffer == old(attached).buffer,
            final(attached).command == old(attached).command,
            next is Ok == old(self)@.goes_on(told),
            match next {
                Err(trouble) => trouble == Trouble::Controller,
                Ok((stores, wanted)) => {
                    &&& final(self).wf()
                    &&& final(self)@ == old(self)@.after(told)
                    &&& stores@ == old(self)@.stores(*old(attached), told)
                    &&& wanted == final(self)@.wants(old(attached).device)
                },
            },
            if old(self)@.stage is Endpoints && next is Ok {
                &&& final(attached).in_ring matches Some(ring) && ring@ == fresh(
                    old(self)@.in_page,
                )
                &&& final(attached).out_ring matches Some(ring) && ring@ == fresh(
                    old(self)@.out_page,
                )
            } else {
                &&& final(attached).in_ring == old(attached).in_ring
                &&& final(attached).out_ring == old(attached).out_ring
            },
    {
        let mut stores: Vec<Store> = Vec::new();
        assert(stores@ =~= Seq::empty());
        match (self.stage, told) {
            (Stage::Choosing, Told::Done(true)) => {
                self.stage = Stage::InPage;
                Ok((stores, Wanted::Page))
            },
            (Stage::InPage, Told::Page(Some(page))) => {
                self.in_page = page;
                self.stage = Stage::OutPage;
                Ok((stores, Wanted::Page))
            },
            (Stage::OutPage, Told::Page(Some(page))) => {
                self.out_page = page;
                self.stage = Stage::Port;
                Ok((stores, Wanted::Port(attached.device.port - 1)))
            },
            (Stage::Port, Told::Port(value)) => {
                let (rings, made) = configure(
                    attached,
                    self.pair,
                    self.in_page,
                    self.out_page,
                    port_speed(value),
                    self.context_size,
                );
                self.rings = Some(rings);
                self.stage = Stage::Endpoints;
                Ok((made, Wanted::Configure))
            },
            (Stage::Endpoints, Told::Done(true)) => {
                self.stage = Stage::Over;
                let mut rings = None;
                std::mem::swap(&mut rings, &mut self.rings);
                if let Some(rings) = rings {
                    attached.in_ring = Some(rings.inward);
                    attached.out_ring = Some(rings.outward);
                }
                Ok((stores, Wanted::Over))
            },
            _ => Err(Trouble::Controller),
        }
    }
}

/// Start to make a device's endpoints usable: its configuration is chosen first,
/// since a device without one has a single endpoint.
pub fn prepare(attached: &Attached, context_size: u64) -> (started: Result<
    (Preparing, Wanted),
    Trouble,
>)
    requires
        attached.wf(),
        attached.device.interfaces.bulk_in matches Some(endpoint) ==> endpoint.number < 16,
        attached.device.interfaces.bulk_out matches Some(endpoint) ==> endpoint.number < 16,
        context_size <= 64,
    ensures
        match started {
            Err(trouble) => {
                &&& trouble == Trouble::NoEndpoints
                &&& attached.device.interfaces.bulk_in is None
                    || attached.device.interfaces.bulk_out is None
            },
            Ok((preparing, wanted)) => {
                &&& preparing.wf()
                &&& preparing@.stage is Choosing
                &&& preparing@.context_size == context_size
                &&& attached.device.interfaces.bulk_in == Some(preparing@.pair.inward)
                &&& attached.device.interfaces.bulk_out == Some(preparing@.pair.outward)
                &&& wanted == preparing@.wants(attached.device)
            },
        },
{
    let pair = match endpoints(attached) {
        Err(trouble) => return Err(trouble),
        Ok(pair) => pair,
    };
    let preparing = Preparing {
        stage: Stage::Choosing,
        pair,
        context_size,
        in_page: 0,
        out_page: 0,
        rings: None,
    };
    Ok((preparing, Wanted::Control(set_configuration(attached))))
}

/// The control word of a bulk transfer: it is to be told of when it is done, and
/// when it is short.
pub open spec fn bulk_control() -> u32 {
    (trb::NORMAL * 1024 + 32 + 4) as u32
}

/// A bulk transfer that was put on a ring.
#[derive(Debug)]
pub struct Bulk {
    /// Which doorbell of the device is rung.
    pub endpoint: u8,
    /// What is to be stored first.
    pub stores: Vec<Store>,
}

/// The endpoint and the ring of a transfer that way.
pub open spec fn bulk_of(attached: Attached, reading: bool) -> Option<(Endpoint, Producer)> {
    let endpoint = if reading {
        attached.device.interfaces.bulk_in
    } else {
        attached.device.interfaces.bulk_out
    };
    let ring = if reading {
        attached.in_ring
    } else {
        attached.out_ring
    };
    match (endpoint, ring) {
        (Some(endpoint), Some(ring)) => Some((endpoint, ring)),
        _ => None,
    }
}

/// Put one bulk transfer on the ring that way.
pub fn bulk(attached: &mut Attached, physical: u64, length: u32, reading: bool) -> (put: Result<
    Bulk,
    Trouble,
>)
    requires
        old(attached).wf(),
        bulk_of(*old(attached), reading) matches Some((endpoint, _)) ==> endpoint.number < 16,
    ensures
        final(attached).wf(),
        final(attached).device == old(attached).device,
        final(attached).control@ == old(attached).control@,
        final(attached).described == old(attached).described,
        final(attached).buffer == old(attached).buffer,
        final(attached).command == old(attached).command,
        match bulk_of(*old(attached), reading) {
            None => {
                &&& put matches Err(trouble) && trouble == Trouble::NoEndpoints
                &&& final(attached).in_ring == old(attached).in_ring
                &&& final(attached).out_ring == old(attached).out_ring
            },
            Some((endpoint, ring)) => {
                &&& put matches Ok(bulk) && bulk.endpoint == index_of(endpoint.number, reading)
                    && bulk.stores@ == ring@.push_stores(physical, length, bulk_control())
                &&& bulk_of(*final(attached), reading) matches Some((_, after)) && after@
                    == ring@.pushed(physical, length, bulk_control())
                &&& reading ==> final(attached).out_ring == old(attached).out_ring
                &&& !reading ==> final(attached).in_ring == old(attached).in_ring
            },
        },
{
    if reading {
        let endpoint: Endpoint = match attached.device.interfaces.bulk_in {
            None => return Err(Trouble::NoEndpoints),
            Some(endpoint) => endpoint,
        };
        let mut slot: Option<Producer> = None;
        std::mem::swap(&mut slot, &mut attached.in_ring);
        match slot {
            None => Err(Trouble::NoEndpoints),
            Some(mut ring) => {
                let pushed = ring.push(physical, length, trb::NORMAL * 1024 + 32 + 4);
                attached.in_ring = Some(ring);
                Ok(
                    Bulk {
                        endpoint: context_index(endpoint.number, true),
                        stores: pushed.stores,
                    },
                )
            },
        }
    } else {
        let endpoint: Endpoint = match attached.device.interfaces.bulk_out {
            None => return Err(Trouble::NoEndpoints),
            Some(endpoint) => endpoint,
        };
        let mut slot: Option<Producer> = None;
        std::mem::swap(&mut slot, &mut attached.out_ring);
        match slot {
            None => Err(Trouble::NoEndpoints),
            Some(mut ring) => {
                let pushed = ring.push(physical, length, trb::NORMAL * 1024 + 32 + 4);
                attached.out_ring = Some(ring);
                Ok(
                    Bulk {
                        endpoint: context_index(endpoint.number, false),
                        stores: pushed.stores,
                    },
                )
            },
        }
    }
}

/// A SCSI command.
#[derive(Debug)]
pub struct Command {
    /// The sixteen bytes of it.
    pub block: Vec<u8>,
    /// How many of them count.
    pub length: u8,
    /// How much data there is.
    pub data: u32,
    /// Which way it goes.
    pub reading: bool,
}

/// The same, as a value.
#[verifier::ext_equal]
pub struct CommandModel {
    pub block: Seq<u8>,
    pub length: u8,
    pub data: u32,
    pub reading: bool,
}

impl View for Command {
    type V = CommandModel;

    open spec fn view(&self) -> CommandModel {
        CommandModel {
            block: self.block@,
            length: self.length,
            data: self.data,
            reading: self.reading,
        }
    }
}

/// So many zero bytes.
pub open spec fn zeros(many: nat) -> Seq<u8> {
    Seq::new(many, |i: int| 0u8)
}

/// The wrapper of a command, and zeros up to where a status goes.
pub open spec fn wrapper(tag: u32, command: CommandModel) -> Seq<u8> {
    le32(CBW_SIGNATURE) + le32(tag) + le32(command.data) + seq![
        if command.reading {
            0x80u8
        } else {
            0u8
        },
        0u8,
        command.length,
    ] + command.block + zeros(33)
}

/// A command on its way.
#[derive(Debug, Clone, Copy, PartialEq, Eq, Structural)]
pub struct Transaction {
    pub tag: u32,
    pub data: u32,
    pub reading: bool,
    pub stage: Carrying,
}

/// How far a command has got.
#[derive(Debug, Clone, Copy, PartialEq, Eq, Structural)]
pub enum Carrying {
    /// The wrapper is to go out.
    Wrapper,
    Data,
    Status,
    /// The status is to be looked at.
    Answer,
}

/// A transfer to be made.
#[derive(Debug, Clone, Copy, PartialEq, Eq, Structural)]
pub struct Transfer {
    pub physical: u64,
    pub length: u32,
    pub reading: bool,
}

/// Start a command: the wrapper that goes to the page of wrappers. The tag is
/// the next one.
pub fn command(disk: &mut Disk, asked: &Command) -> (started: (Transaction, Vec<u8>))
    requires
        asked.block@.len() == 16,
    ensures
        started.0 == (Transaction {
            tag: old(disk).tag,
            data: asked.data,
            reading: asked.reading,
            stage: Carrying::Wrapper,
        }),
        started.1@ == wrapper(old(disk).tag, asked@),
        started.1@.len() == STATUS_AT,
        final(disk)@ == (DiskModel {
            tag: ((old(disk).tag + 1) % 0x1_0000_0000) as u32,
            ..old(disk)@
        }),
{
    let tag: u32 = disk.tag;
    disk.tag = if tag == u32::MAX {
        0
    } else {
        tag + 1
    };
    let mut bytes: Vec<u8> = Vec::new();
    put_u32(&mut bytes, CBW_SIGNATURE);
    put_u32(&mut bytes, tag);
    put_u32(&mut bytes, asked.data);
    bytes.push(
        if asked.reading {
            0x80
        } else {
            0
        },
    );
    bytes.push(0);
    bytes.push(asked.length);
    put_bytes(&mut bytes, asked.block.as_slice());
    put_zeros(&mut bytes, 33);
    assert(bytes@ =~= wrapper(tag, asked@));
    (
        Transaction {
            tag,
            data: asked.data,
            reading: asked.reading,
            stage: Carrying::Wrapper,
        },
        bytes,
    )
}

impl Transaction {
    /// The transfer of a stage, if it is one: the wrapper out, the data where
    /// there is any, and the status in.
    pub open spec fn transfer(self, command: u64, buffer: u64) -> Option<Transfer> {
        match self.stage {
            Carrying::Wrapper => Some(
                Transfer { physical: command, length: CBW_LENGTH, reading: false },
            ),
            Carrying::Data => Some(
                Transfer { physical: buffer, length: self.data, reading: self.reading },
            ),
            Carrying::Status => Some(
                Transfer {
                    physical: (command + STATUS_AT) as u64,
                    length: CSW_LENGTH,
                    reading: true,
                },
            ),
            Carrying::Answer => None,
        }
    }

    /// The stage after this one.
    pub open spec fn after(self) -> Transaction {
        Transaction {
            stage: match self.stage {
                Carrying::Wrapper => if self.data > 0 {
                    Carrying::Data
                } else {
                    Carrying::Status
                },
                Carrying::Data => Carrying::Status,
                _ => Carrying::Answer,
            },
            ..self
        }
    }

    /// The transfer to be made now, until there is none.
    pub fn next(&self, attached: &Attached) -> (transfer: Option<Transfer>)
        requires
            attached.wf(),
        ensures
            transfer == self.transfer(attached.command, attached.buffer),
    {
        match self.stage {
            Carrying::Wrapper => Some(
                Transfer { physical: attached.command, length: CBW_LENGTH, reading: false },
            ),
            Carrying::Data => Some(
                Transfer {
                    physical: attached.buffer,
                    length: self.data,
                    reading: self.reading,
                },
            ),
            Carrying::Status => Some(
                Transfer {
                    physical: attached.command + STATUS_AT,
                    length: CSW_LENGTH,
                    reading: true,
                },
            ),
            Carrying::Answer => None,
        }
    }

    /// Take in whether the controller made a transfer.
    pub fn made(&mut self, done: bool) -> (outcome: Result<(), Trouble>)
        ensures
            if done {
                outcome == Ok::<(), Trouble>(()) && *final(self) == old(self).after()
            } else {
                outcome == Err::<(), Trouble>(Trouble::Controller) && *final(self) == *old(self)
            },
    {
        if !done {
            return Err(Trouble::Controller);
        }
        let stage: Carrying = match self.stage {
            Carrying::Wrapper => if self.data > 0 {
                Carrying::Data
            } else {
                Carrying::Status
            },
            Carrying::Data => Carrying::Status,
            _ => Carrying::Answer,
        };
        self.stage = stage;
        Ok(())
    }

    /// What a status says of a command with a tag.
    pub open spec fn verdict(tag: u32, status: Seq<u8>) -> Result<(), Trouble> {
        if u32_at(status, 0) != CSW_SIGNATURE {
            Err(Trouble::BadStatus)
        } else if u32_at(status, 4) != tag {
            Err(Trouble::WrongTag)
        } else if status[12] != 0 {
            Err(Trouble::Failed(status[12]))
        } else {
            Ok(())
        }
    }

    /// What the status says.
    pub fn answered(&self, status: &[u8]) -> (outcome: Result<(), Trouble>)
        requires
            status@.len() == CSW_LENGTH,
        ensures
            outcome == Transaction::verdict(self.tag, status@),
    {
        if get_u32(status, 0) != CSW_SIGNATURE {
            return Err(Trouble::BadStatus);
        }
        if get_u32(status, 4) != self.tag {
            return Err(Trouble::WrongTag);
        }
        if status[12] != 0 {
            return Err(Trouble::Failed(status[12]));
        }
        Ok(())
    }
}

/// The sixteen bytes of a command that says how much it wants in its fifth.
pub open spec fn short_block(operation: u8, length: u8) -> Seq<u8> {
    zeros(16).update(0, operation).update(4, length)
}

fn sixteen() -> (block: Vec<u8>)
    ensures
        block@ == zeros(16),
{
    let mut block: Vec<u8> = Vec::new();
    put_zeros(&mut block, 16);
    assert(block@ =~= zeros(16));
    block
}

fn short_command(operation: u8, length: u8, block_length: u8, data: u32, reading: bool) -> (command:
    Command)
    ensures
        command@ == (CommandModel {
            block: short_block(operation, length),
            length: block_length,
            data,
            reading,
        }),
{
    let mut block = sixteen();
    block.set(0, operation);
    block.set(4, length);
    Command { block, length: block_length, data, reading }
}

/// A read or write of blocks.
pub open spec fn transfer_block(operation: u8, block: u64, count: u16) -> Seq<u8> {
    let at = be32((block % 0x1_0000_0000) as u32);
    let many = be16(count);
    zeros(16).update(0, operation).update(2, at[0]).update(3, at[1]).update(4, at[2]).update(
        5,
        at[3],
    ).update(7, many[0]).update(8, many[1])
}

fn transfer_command(operation: u8, block: u64, count: u16, bytes: u32, reading: bool) -> (command:
    Command)
    ensures
        command@ == (CommandModel {
            block: transfer_block(operation, block, count),
            length: 10,
            data: bytes,
            reading,
        }),
{
    let at: u32 = (block % 0x1_0000_0000) as u32;
    let mut out = sixteen();
    out.set(0, operation);
    out.set(2, (at / 0x100_0000) as u8);
    out.set(3, ((at / 0x1_0000) % 0x100) as u8);
    out.set(4, ((at / 0x100) % 0x100) as u8);
    out.set(5, (at % 0x100) as u8);
    out.set(7, (count / 0x100) as u8);
    out.set(8, (count % 0x100) as u8);
    Command { block: out, length: 10, data: bytes, reading }
}

/// How many bytes so many blocks are.
pub open spec fn bytes_of(disk: DiskModel, count: u16) -> int {
    count * disk.block_size
}

fn bytes_in(disk: &Disk, count: u16) -> (bytes: u64)
    ensures
        bytes == bytes_of(disk@, count),
{
    assert(0 <= count * disk.block_size <= 0xFFFF * 0xFFFF_FFFF) by (nonlinear_arith)
        requires
            0 <= count <= 0xFFFF,
            0 <= disk.block_size <= 0xFFFF_FFFF,
    ;
    count as u64 * disk.block_size as u64
}

/// Read blocks into the data page: the command.
pub fn read(disk: &Disk, block: u64, count: u16) -> (command: Result<Command, Trouble>)
    ensures
        match command {
            Err(trouble) => bytes_of(disk@, count) > MAX_TRANSFER && trouble == Trouble::TooMuch,
            Ok(command) => bytes_of(disk@, count) <= MAX_TRANSFER && command@ == (CommandModel {
                block: transfer_block(scsi::READ_10, block, count),
                length: 10,
                data: bytes_of(disk@, count) as u32,
                reading: true,
            }),
        },
{
    let bytes: u64 = bytes_in(disk, count);
    if bytes > MAX_TRANSFER as u64 {
        return Err(Trouble::TooMuch);
    }
    Ok(transfer_command(scsi::READ_10, block, count, bytes as u32, true))
}

/// Write blocks from the data page: the command.
pub fn write(disk: &Disk, block: u64, count: u16) -> (command: Result<Command, Trouble>)
    ensures
        match command {
            Err(trouble) => bytes_of(disk@, count) > MAX_TRANSFER && trouble == Trouble::TooMuch,
            Ok(command) => bytes_of(disk@, count) <= MAX_TRANSFER && command@ == (CommandModel {
                block: transfer_block(scsi::WRITE_10, block, count),
                length: 10,
                data: bytes_of(disk@, count) as u32,
                reading: false,
            }),
        },
{
    let bytes: u64 = bytes_in(disk, count);
    if bytes > MAX_TRANSFER as u64 {
        return Err(Trouble::TooMuch);
    }
    Ok(transfer_command(scsi::WRITE_10, block, count, bytes as u32, false))
}

/// How far a disk has been opened.
#[derive(Debug, Clone, Copy, PartialEq, Eq, Structural)]
pub enum Opening {
    /// It is asked what it is called.
    Inquiry,
    /// It is asked whether it is ready.
    Ready,
    /// It is asked why it is not.
    Sense,
    /// It is asked again whether it is ready.
    ReadyAgain,
    /// It is asked how large it is.
    Capacity,
    Open,
}

/// What is asked at a stage.
pub open spec fn asked(stage: Opening) -> Option<CommandModel> {
    match stage {
        Opening::Inquiry => Some(
            CommandModel {
                block: short_block(scsi::INQUIRY, 36),
                length: 6,
                data: 36,
                reading: true,
            },
        ),
        Opening::Ready => Some(
            CommandModel {
                block: short_block(scsi::TEST_UNIT_READY, 0),
                length: 6,
                data: 0,
                reading: false,
            },
        ),
        Opening::Sense => Some(
            CommandModel {
                block: short_block(scsi::REQUEST_SENSE, 18),
                length: 6,
                data: 18,
                reading: true,
            },
        ),
        Opening::ReadyAgain => Some(
            CommandModel {
                block: short_block(scsi::TEST_UNIT_READY, 0),
                length: 6,
                data: 0,
                reading: false,
            },
        ),
        Opening::Capacity => Some(
            CommandModel {
                block: short_block(scsi::READ_CAPACITY_10, 0),
                length: 10,
                data: 8,
                reading: true,
            },
        ),
        Opening::Open => None,
    }
}

/// What a disk is at first.
pub open spec fn unopened() -> DiskModel {
    DiskModel { blocks: 0, block_size: 0, vendor: zeros(8), product: zeros(16), tag: 1 }
}

/// A disk of which nothing is known, to be opened.
pub fn open() -> (start: (Disk, Opening))
    ensures
        start.0@ == unopened(),
        start.1 == Opening::Inquiry,
{
    let mut vendor: Vec<u8> = Vec::new();
    put_zeros(&mut vendor, 8);
    let mut product: Vec<u8> = Vec::new();
    put_zeros(&mut product, 16);
    let disk = Disk { blocks: 0, block_size: 0, vendor, product, tag: 1 };
    assert(disk@ =~= unopened());
    (disk, Opening::Inquiry)
}

/// What is asked now, until the disk is open.
pub fn open_command(stage: Opening) -> (command: Option<Command>)
    ensures
        match command {
            Some(command) => asked(stage) == Some(command@),
            None => asked(stage) is None,
        },
{
    match stage {
        Opening::Inquiry => Some(short_command(scsi::INQUIRY, 36, 6, 36, true)),
        Opening::Ready => Some(short_command(scsi::TEST_UNIT_READY, 0, 6, 0, false)),
        Opening::Sense => Some(short_command(scsi::REQUEST_SENSE, 18, 6, 18, true)),
        Opening::ReadyAgain => Some(short_command(scsi::TEST_UNIT_READY, 0, 6, 0, false)),
        Opening::Capacity => Some(short_command(scsi::READ_CAPACITY_10, 0, 10, 8, true)),
        Opening::Open => None,
    }
}

/// The stage after one, given what came of it.
///
/// A disk that was just plugged in is not ready until it has been asked why;
/// what it says then is not looked at.
pub open spec fn opened_after(stage: Opening, outcome: Result<(), Trouble>) -> Result<
    Opening,
    Trouble,
> {
    match stage {
        Opening::Ready => Ok(
            if outcome is Ok {
                Opening::Capacity
            } else {
                Opening::Sense
            },
        ),
        Opening::Sense => Ok(Opening::ReadyAgain),
        _ => match outcome {
            Err(trouble) => Err(trouble),
            Ok(()) => Ok(
                match stage {
                    Opening::Inquiry => Opening::Ready,
                    Opening::ReadyAgain => Opening::Capacity,
                    _ => Opening::Open,
                },
            ),
        },
    }
}

/// What a disk is after a stage, with what was read in it: what it is called,
/// and how large it is. It tells its last block, so there is one more.
pub open spec fn learned(stage: Opening, disk: DiskModel, bytes: Seq<u8>) -> DiskModel {
    match stage {
        Opening::Inquiry => DiskModel {
            vendor: bytes.subrange(8, 16),
            product: bytes.subrange(16, 32),
            ..disk
        },
        Opening::Capacity => DiskModel {
            blocks: (u32_be_at(bytes, 0) + 1) as u64,
            block_size: u32_be_at(bytes, 4),
            ..disk
        },
        _ => disk,
    }
}

/// Go on opening a disk, given what came of the last command, and the data page.
pub fn open_next(
    disk: &mut Disk,
    stage: &mut Opening,
    outcome: Result<(), Trouble>,
    bytes: &[u8],
) -> (next: Result<(), Trouble>)
    requires
        bytes@.len() >= 36,
    ensures
        match opened_after(*old(stage), outcome) {
            Err(trouble) => {
                &&& next == Err::<(), Trouble>(trouble)
                &&& *final(stage) == *old(stage)
                &&& final(disk)@ == old(disk)@
            },
            Ok(after) => {
                &&& next == Ok::<(), Trouble>(())
                &&& *final(stage) == after
                &&& final(disk)@ == if outcome is Ok {
                    learned(*old(stage), old(disk)@, bytes@)
                } else {
                    old(disk)@
                }
            },
        },
{
    let good: bool = outcome.is_ok();
    match *stage {
        Opening::Ready => {
            *stage = if good {
                Opening::Capacity
            } else {
                Opening::Sense
            };
            return Ok(());
        },
        Opening::Sense => {
            *stage = Opening::ReadyAgain;
            return Ok(());
        },
        _ => {},
    }
    if let Err(trouble) = outcome {
        return Err(trouble);
    }
    match *stage {
        Opening::Inquiry => {
            disk.vendor = copy_range(bytes, 8, 16);
            disk.product = copy_range(bytes, 16, 32);
            *stage = Opening::Ready;
        },
        Opening::ReadyAgain => {
            *stage = Opening::Capacity;
        },
        Opening::Capacity => {
            disk.blocks = get_u32_be(bytes, 0) as u64 + 1;
            disk.block_size = get_u32_be(bytes, 4);
            *stage = Opening::Open;
        },
        _ => {
            *stage = Opening::Open;
        },
    }
    Ok(())
}

/// What is shown of a disk.
#[derive(Debug)]
pub struct Description {
    pub vendor: Vec<u8>,
    pub product: Vec<u8>,
    pub blocks: u64,
    pub block_size: u32,
    pub megabytes: u64,
}

/// A name without the spaces it is filled up with, or question marks where it is
/// not text.
pub open spec fn name_shown(name: Seq<u8>, many: nat) -> Seq<u8> {
    if vstd::utf8::valid_utf8(name) {
        trimmed(name)
    } else {
        Seq::new(many, |i: int| 0x3Fu8)
    }
}

fn show_name(name: &[u8], many: usize) -> (shown: Vec<u8>)
    ensures
        shown@ == name_shown(name@, many as nat),
{
    if is_utf8(name) {
        return trim_end(name);
    }
    let mut shown: Vec<u8> = Vec::new();
    let mut at: usize = 0;
    while at < many
        invariant
            at <= many,
            shown@ == Seq::new(at as nat, |i: int| 0x3Fu8),
        decreases many - at,
    {
        shown.push(0x3F);
        at += 1;
        assert(shown@ =~= Seq::new(at as nat, |i: int| 0x3Fu8));
    }
    shown
}

/// Say what was found.
pub fn describe(disk: &Disk) -> (description: Description)
    requires
        disk.blocks <= 0x1_0000_0000,
    ensures
        description.vendor@ == name_shown(disk.vendor@, 8),
        description.product@ == name_shown(disk.product@, 16),
        description.blocks == disk.blocks,
        description.block_size == disk.block_size,
        description.megabytes == disk.blocks * disk.block_size / 1_048_576,
{
    assert(0 <= disk.blocks * disk.block_size <= 0x1_0000_0000 * 0xFFFF_FFFF) by (nonlinear_arith)
        requires
            0 <= disk.blocks <= 0x1_0000_0000,
            0 <= disk.block_size <= 0xFFFF_FFFF,
    ;
    Description {
        vendor: show_name(disk.vendor.as_slice(), 8),
        product: show_name(disk.product.as_slice(), 16),
        blocks: disk.blocks,
        block_size: disk.block_size,
        megabytes: disk.blocks * disk.block_size as u64 / 1_048_576,
    }
}

/// How many things are still wanted.
pub open spec fn wants_left(stage: Stage) -> nat {
    match stage {
        Stage::Choosing => 5,
        Stage::InPage => 4,
        Stage::OutPage => 3,
        Stage::Port => 2,
        Stage::Endpoints => 1,
        Stage::Over => 0,
    }
}

/// The controller is told to configure a disk's endpoints once its configuration
/// was chosen, both rings are there and everything was stored: the request is the
/// first thing that is wanted and the controller the last, and each comes once.
pub proof fn law_endpoints_come_after_the_configuration(
    before: Preparation,
    device: Device,
    told: Told,
)
    requires
        before.fits(told),
        before.goes_on(told),
    ensures
        wants_left(before.after(told).stage) == wants_left(before.stage) - 1,
        (before.wants(device) is Control) == (wants_left(before.stage) == 5),
        (before.wants(device) is Configure) == (wants_left(before.stage) == 1),
        before.after(told).wants(device) is Configure ==> told is Port,
        before.after(told).wants(device) is Over ==> before.wants(device) is Configure && told
            == Told::Done(true),
{
}

/// A status is believed only if it is one and carries the tag of the command it
/// is taken for.
pub proof fn law_only_its_own_status_is_believed(tag: u32, status: Seq<u8>)
    requires
        Transaction::verdict(tag, status) is Ok,
    ensures
        u32_at(status, 4) == tag,
        forall|other: u32| other != tag ==> Transaction::verdict(other, status) is Err,
{
}

/// A wrapper tells the device the command it was made for: thirty-one bytes of
/// it count, and a command can be read back from them.
pub proof fn law_a_wrapper_holds_its_command(tag: u32, command: CommandModel)
    requires
        command.block.len() == 16,
    ensures
        wrapper(tag, command).len() == STATUS_AT,
        wrapper(tag, command).subrange(15, 31) == command.block,
        wrapper(tag, command)[14] == command.length,
        u32_at(wrapper(tag, command), 4) == tag,
        u32_at(wrapper(tag, command), 8) == command.data,
{
    let bytes = wrapper(tag, command);
    assert(bytes.subrange(15, 31) =~= command.block);
    crate::bytes::lemma_u32_round_trip(tag);
    crate::bytes::lemma_u32_round_trip(command.data);
    assert(bytes[4] == le32(tag)[0] && bytes[5] == le32(tag)[1] && bytes[6] == le32(tag)[2]
        && bytes[7] == le32(tag)[3]);
    assert(bytes[8] == le32(command.data)[0] && bytes[9] == le32(command.data)[1] && bytes[10]
        == le32(command.data)[2] && bytes[11] == le32(command.data)[3]);
}

/// A command is three transfers, or two where there is no data: the wrapper out
/// first, and the status in last.
pub proof fn law_the_status_comes_last(start: Transaction)
    requires
        start.stage == Carrying::Wrapper,
    ensures
        ({
            let one = start.after();
            let two = one.after();
            let three = two.after();
            if start.data > 0 {
                one.stage == Carrying::Data && two.stage == Carrying::Status && three.stage
                    == Carrying::Answer
            } else {
                one.stage == Carrying::Status && two.stage == Carrying::Answer
            }
        }),
{
}

/// A read and a write of the same blocks differ in what they do and in which way
/// the data goes, and in nothing else.
pub proof fn law_reads_and_writes_name_the_same_blocks(block: u64, count: u16)
    ensures
        transfer_block(scsi::READ_10, block, count).update(0, scsi::WRITE_10) == transfer_block(
            scsi::WRITE_10,
            block,
            count,
        ),
        u32_be_at(transfer_block(scsi::READ_10, block, count), 2) == block % 0x1_0000_0000,
{
    assert(transfer_block(scsi::READ_10, block, count).update(0, scsi::WRITE_10)
        =~= transfer_block(scsi::WRITE_10, block, count));
    crate::bytes::lemma_be32_round_trip((block % 0x1_0000_0000) as u32);
}

} // verus!
