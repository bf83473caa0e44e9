//! What a device on the bus is told and asked, in the bus's own numbers.
use vstd::prelude::*;

#[allow(unused_imports)]
use super::interfaces::{
    is_record, walked, with_endpoint, with_interface, with_record, Endpoint, Interfaces, Walking,
};
#[allow(unused_imports)]
use super::{
    attach_stores, choosing, described, descriptor_request, first_packet, learned, marked,
    next_request, one_if, request_stores, requested, stage_after, too_little, unknown, Attaching,
    Device, Pages, Request, BULK_ONLY, MOST, SCSI,
};
#[allow(unused_imports)]
use crate::bytes::u16_at;
#[allow(unused_imports)]
use crate::drivers::xhci::{self, Trouble};
#[allow(unused_imports)]
use crate::drivers::xhci_rings::{link, ProducerModel, Store};

verus! {

/// How large the first packet is, by speed: 512 bytes for the two fastest, eight for
/// the slowest, 64 for the rest.
pub proof fn law_first_packets(speed: u32)
    ensures
        speed == 4 || speed == 5 ==> first_packet(speed) == 512,
        speed == 2 ==> first_packet(speed) == 8,
        speed != 2 && speed != 4 && speed != 5 ==> first_packet(speed) == 64,
{
}

/// An address with its lowest bit set: that is where the ring starts, and the first
/// entry has the bit.
pub proof fn law_a_marked_address(physical: u64)
    ensures
        marked(physical) % 2 == 1,
        marked(physical) / 2 == physical / 2,
{
}

/// What describes a device to the controller before it has an address: that the slot
/// and the first endpoint are meant; the speed with one endpoint in the slot, and the
/// port; and of the endpoint what kind it is, how large its packets are, where its ring
/// is, and how long a transfer is on average.
pub proof fn law_what_describes_a_device(pages: Pages, port: u64, speed: u32, context_size: u64)
    requires
        pages.wf(),
        port < 256,
        speed < 16,
        context_size <= 64,
    ensures
        ({
            let stores = described(pages, port, speed, context_size);
            let slot = pages.input + context_size;
            let endpoint = pages.input + 2 * context_size;
            &&& stores.len() == 6
            &&& stores[0] == (Store::Word { at: (pages.input + 4) as u64, word: 3 })
            &&& stores[1] == (Store::Word {
                at: slot as u64,
                word: (0x10_0000 * speed + 0x800_0000) as u32,
            })
            &&& stores[2] == (Store::Word {
                at: (slot + 4) as u64,
                word: (0x1_0000 * port) as u32,
            })
            &&& stores[3] == (Store::Word {
                at: (endpoint + 4) as u64,
                word: (4 * 8 + 3 * 2 + 0x1_0000 * first_packet(speed)) as u32,
            })
            &&& stores[4] == (Store::Long {
                at: (endpoint + 8) as u64,
                long: marked(pages.control),
            })
            &&& stores[5] == (Store::Word { at: (endpoint + 16) as u64, word: 8 })
        }),
{
}

/// What is stored before a device gets its address: its pages are cleared, its ring
/// ends in a link to its start, and its slot names the page the controller writes to.
pub proof fn law_what_is_stored_for_a_device(
    pages: Pages,
    contexts: u64,
    slot: u8,
    port: u64,
    speed: u32,
    context_size: u64,
)
    requires
        pages.wf(),
        contexts <= u64::MAX - 4096,
    ensures
        ({
            let stores = attach_stores(pages, contexts, slot, port, speed, context_size);
            &&& stores.len() == 15
            &&& stores[0] == (Store::Zero { at: pages.control })
            &&& stores[1] == (Store::Long { at: (pages.control + 4080) as u64, long: pages.control })
            &&& stores[4] == (Store::Zero { at: pages.input })
            &&& stores[5] == (Store::Zero { at: pages.output })
            &&& stores[6] == (Store::Zero { at: pages.buffer })
            &&& stores[7] == (Store::Zero { at: pages.command })
            &&& stores[8] == (Store::Long {
                at: (contexts + 8 * slot) as u64,
                long: pages.output,
            })
            &&& forall|i: int|
                0 <= i < 6 ==> #[trigger] stores[9 + i] == described(
                    pages,
                    port,
                    speed,
                    context_size,
                )[i]
        }),
        unknown(slot, port).slot == slot && unknown(slot, port).port == port,
        unknown(slot, port).interfaces.bulk_in is None && unknown(slot, port).interfaces.bulk_out
            is None,
{
    let stores = attach_stores(pages, contexts, slot, port, speed, context_size);
    let last = described(pages, port, speed, context_size);
    assert forall|i: int| 0 <= i < 6 implies #[trigger] stores[9 + i] == last[i] by {}
}

/// Which way a request goes: bit seven of its first byte says that the device
/// answers. The setup says whether bytes follow, and which way.
pub proof fn law_which_way_a_request_goes(request: Request)
    ensures
        request.reads() <==> request.direction >= 128,
        request.length == 0 ==> request.kind() == 0,
        request.length > 0 && request.reads() ==> request.kind() == 3,
        request.length > 0 && !request.reads() ==> request.kind() == 2,
        one_if(true) == 1,
        one_if(false) == 0,
        MOST == 4096,
{
}

/// What a request puts on the ring: its setup, eight bytes that stand in the entry;
/// the bytes, where there are any, from or to the buffer; and a status that goes the
/// other way and is told of.
pub proof fn law_what_a_request_puts_on_the_ring(
    ring: ProducerModel,
    buffer: u64,
    request: Request,
)
    requires
        request.length <= 4096,
    ensures
        ({
            let way = if request.reads() {
                1int
            } else {
                0
            };
            let setup = (2 * 1024 + 64 + 0x1_0000 * request.kind()) as u32;
            let data = (3 * 1024 + 0x1_0000 * way) as u32;
            let status = (4 * 1024 + 32 + 0x1_0000 * (1 - way)) as u32;
            let one = ring.pushed(request.setup(), 8, setup);
            &&& request.length == 0 ==> {
                &&& requested(ring, buffer, request) == one.pushed(0, 0, status)
                &&& request_stores(ring, buffer, request) == ring.push_stores(
                    request.setup(),
                    8,
                    setup,
                ) + one.push_stores(0, 0, status)
            }
            &&& request.length > 0 ==> {
                let two = one.pushed(buffer, request.length, data);
                &&& requested(ring, buffer, request) == two.pushed(0, 0, status)
                &&& request_stores(ring, buffer, request) == ring.push_stores(
                    request.setup(),
                    8,
                    setup,
                ) + one.push_stores(buffer, request.length, data) + two.push_stores(0, 0, status)
            }
        }),
{
}

/// What asks for a descriptor, and what chooses a configuration.
pub proof fn law_two_requests(kind: u16, index: u16, length: u32, configuration: u8)
    requires
        kind < 256,
        index < 256,
    ensures
        descriptor_request(kind, index, length) == (Request {
            direction: 0x80,
            request: 6,
            value: (256 * kind + index) as u16,
            index: 0,
            length,
        }),
        choosing(configuration) == (Request {
            direction: 0,
            request: 9,
            value: configuration as u16,
            index: 0,
            length: 0,
        }),
{
}

/// What a device is asked, one after the other: for the eighteen bytes that say what
/// it is, for the first nine of its configuration, and for as much of that as those say
/// it has.
pub proof fn law_what_a_device_is_asked(bytes: Seq<u8>)
    ensures
        next_request(Attaching::Addressing, bytes) == Some(descriptor_request(1, 0, 18)),
        next_request(Attaching::Device, bytes) == Some(descriptor_request(2, 0, 9)),
        u16_at(bytes, 2) <= 4096 ==> next_request(Attaching::Length, bytes) == Some(
            descriptor_request(2, 0, u16_at(bytes, 2) as u32),
        ),
        u16_at(bytes, 2) > 4096 ==> next_request(Attaching::Length, bytes) == Some(
            descriptor_request(2, 0, 4096),
        ),
        next_request(Attaching::Configuration, bytes) is None,
        next_request(Attaching::Over, bytes) is None,
        stage_after(Attaching::Addressing) == Attaching::Device,
        stage_after(Attaching::Device) == Attaching::Length,
        stage_after(Attaching::Length) == Attaching::Configuration,
        stage_after(Attaching::Configuration) == Attaching::Over,
{
}

/// What is learned from each answer: the vendor and the product, the number of the
/// configuration, and its interfaces. An answer that is too short says nothing.
pub proof fn law_what_is_learned(device: Device, bytes: Seq<u8>)
    ensures
        learned(Attaching::Device, device, bytes) == (Device {
            vendor: u16_at(bytes, 8),
            product: u16_at(bytes, 10),
            ..device
        }),
        learned(Attaching::Length, device, bytes) == (Device { configuration: bytes[5], ..device }),
        learned(Attaching::Configuration, device, bytes).slot == device.slot,
        learned(Attaching::Addressing, device, bytes) == device,
        too_little(Attaching::Device, bytes) is Some <==> bytes.len() < 18,
        too_little(Attaching::Device, bytes) matches Some(trouble) ==> trouble == Trouble::Stuck(
            xhci::Stage::DescribeItself,
        ),
        too_little(Attaching::Length, bytes) is Some <==> bytes.len() < 9,
        too_little(Attaching::Length, bytes) matches Some(trouble) ==> trouble == Trouble::Stuck(
            xhci::Stage::DescribeItsConfiguration,
        ),
        too_little(Attaching::Addressing, bytes) is None,
        too_little(Attaching::Configuration, bytes) is None,
        SCSI == 6,
        BULK_ONLY == 0x50,
{
}

/// What a record of a configuration says: its first byte is its length and its second
/// its kind. Kind four, of nine bytes or more, is an interface, which counts where its
/// class is eight and nothing was found yet; kind five, of seven or more, is an
/// endpoint of the interface before it.
pub proof fn law_what_a_record_says(before: Walking, record: Seq<u8>)
    requires
        record.len() >= 2,
    ensures
        record[1] == 4 && record.len() >= 9 ==> with_record(before, record) == with_interface(
            before,
            record,
        ),
        record[1] == 5 && record.len() >= 7 && before.ours ==> with_record(before, record)
            == with_endpoint(before, record),
        record[1] != 4 && record[1] != 5 || record[1] == 4 && record.len() < 9 || record[1] == 5 && (
        record.len() < 7 || !before.ours) ==> with_record(before, record) == before,
        record[5] == 8 && before.found.bulk_in is None ==> with_interface(before, record) == (Walking {
            found: Interfaces {
                interface: record[2],
                class: 8,
                subclass: record[6],
                protocol: record[7],
                ..before.found
            },
            ours: true,
        }),
        record[5] != 8 || before.found.bulk_in is Some ==> with_interface(before, record)
            == (Walking { ours: false, ..before }),
{
}

/// What an endpoint's record says: a bulk one has two in the lowest bits of its
/// fourth byte; bit seven of its address says that it goes in; the lowest four bits are
/// its number; and its packets have the size of the fifth and sixth byte.
pub proof fn law_what_an_endpoint_says(before: Walking, record: Seq<u8>)
    ensures
        ({
            let after = with_endpoint(before, record);
            let endpoint = Endpoint {
                number: record[2] % 16,
                packet: (record[4] + 256 * record[5]) as u16,
            };
            &&& record[3] % 4 != 2 ==> after == before
            &&& record[3] % 4 == 2 && record[2] >= 128 ==> after == (Walking {
                found: Interfaces { bulk_in: Some(endpoint), ..before.found },
                ..before
            })
            &&& record[3] % 4 == 2 && record[2] < 128 ==> after == (Walking {
                found: Interfaces { bulk_out: Some(endpoint), ..before.found },
                ..before
            })
        }),
{
}

/// A configuration is walked record by record, each as long as it says, and the walk
/// ends at one that is too short or does not fit.
pub proof fn law_a_configuration_is_walked(before: Walking, tree: Seq<u8>, at: int)
    requires
        0 <= at,
    ensures
        is_record(tree, at) <==> at + 2 <= tree.len() && tree[at] >= 2 && at + tree[at] <= tree.len(),
        is_record(tree, at) ==> walked(before, tree, at) == walked(
            with_record(before, tree.subrange(at, at + tree[at])),
            tree,
            at + tree[at],
        ),
        !is_record(tree, at) ==> walked(before, tree, at) == before,
{
}

/// Of a device that has said nothing yet only its place is known.
pub proof fn law_a_device_is_unknown_at_first(slot: u8, port: u64)
    ensures
        unknown(slot, port) == (Device {
            slot,
            port,
            vendor: 0,
            product: 0,
            configuration: 0,
            interfaces: Interfaces {
                class: 0,
                subclass: 0,
                protocol: 0,
                interface: 0,
                bulk_in: None,
                bulk_out: None,
            },
        }),
{
}

} // verus!
