//! What a device and its driver have agreed on: the registers, the bits of the
//! status, and where the parts of a queue lie, each as the number it is.
use vstd::prelude::*;

#[allow(unused_imports)]
use super::{
    descriptor_steps, did, entry_step, given, giving_up, index_after, is_kind, layout_of, noticing,
    one_write, page_up, placing, publish_steps, readying, slot_at, stepped, wrote, Deed, Event,
    Step, COMPLETION_SPINS,
};
#[allow(unused_imports)]
use crate::drivers::pci::Device;
#[allow(unused_imports)]
use crate::drivers::port::{Heard, PortWrite};

verus! {

/// The parts of a queue of so many entries: sixteen bytes for each descriptor,
/// behind them the ring of what is available, and the ring of what is used from the
/// first page that is free of both.
pub proof fn law_where_the_parts_of_a_queue_are(size: u16)
    ensures
        layout_of(size).available == 16 * size,
        layout_of(size).used >= 16 * size + 6 + 2 * size,
        layout_of(size).used - 4096 < 16 * size + 6 + 2 * size,
        layout_of(size).used % 4096 == 0,
        layout_of(size).bytes == layout_of(size).used + 6 + 8 * size,
{
}

/// What a device reads of a descriptor, sixteen bytes for each: the address, and
/// behind it the length, the flags and the next one.
pub proof fn law_a_descriptor(
    table: u64,
    which: u16,
    address: u64,
    length: u32,
    flags: u16,
    next: u16,
)
    requires
        table <= u64::MAX - 0x10_0000,
    ensures
        ({
            let steps = descriptor_steps(table, which, address, length, flags, next);
            let at = table + 16 * which;
            &&& steps.len() == 4
            &&& steps[0] == (Step::Long { at: at as u64, long: address })
            &&& steps[1] == (Step::Word { at: (at + 8) as u64, word: length })
            &&& steps[2] == (Step::Half { at: (at + 12) as u64, half: flags })
            &&& steps[3] == (Step::Half { at: (at + 14) as u64, half: next })
        }),
{
}

/// A ring has its flags and its index in front, two bytes each, and then two bytes
/// for each entry; a running index goes round it and starts again after 65535.
pub proof fn law_a_ring(ring: u64, index: u16, size: u16, which: u16)
    requires
        size > 0,
        ring <= u64::MAX - 0x10_0000,
    ensures
        slot_at(ring, index, size) == ring + 4 + 2 * (index % size),
        entry_step(ring, index, size, which) == (Step::Half {
            at: (ring + 4 + 2 * (index % size)) as u64,
            half: which,
        }),
        index < 65535 ==> index_after(index) == index + 1,
        index_after(65535) == 0,
{
}

/// An entry is made known by writing the index behind it, with a fence before the
/// write and one after it.
pub proof fn law_publishing(ring: u64, index: u16)
    requires
        ring <= u64::MAX - 0x10_0000,
    ensures
        publish_steps(ring, index).len() == 3,
        publish_steps(ring, index)[0] == Step::Fence,
        publish_steps(ring, index)[1] == (Step::Half {
            at: (ring + 2) as u64,
            half: if index == 65535 {
                0
            } else {
                (index + 1) as u16
            },
        }),
        publish_steps(ring, index)[2] == Step::Fence,
{
}

/// What is written to the status, the register at eighteen: zero to start over,
/// then that the device was seen, then that there is a driver for it; that the
/// driver is ready on top of those; and 128 where it gives up.
pub proof fn law_status_writes(port: u16)
    requires
        port <= 0xFFE0,
    ensures
        noticing(port) == seq![
            PortWrite::Byte { port: (port + 18) as u16, byte: 0 },
            PortWrite::Byte { port: (port + 18) as u16, byte: 1 },
            PortWrite::Byte { port: (port + 18) as u16, byte: 3 },
        ],
        readying(port) == (PortWrite::Byte { port: (port + 18) as u16, byte: 7 }),
        giving_up(port) == (PortWrite::Byte { port: (port + 18) as u16, byte: 128 }),
{
}

/// A queue is placed by the number of its page, in the register at eight: what a
/// device is told and what it works out from it are the same address, for memory
/// a register of that width can name.
pub proof fn law_a_queue_is_placed_by_its_page(port: u16, physical: u64)
    requires
        port <= 0xFFE0,
        physical % 4096 == 0,
        physical < 0x1000_0000_0000,
    ensures
        placing(port, physical) matches PortWrite::Long { port: register, long } && register == port
            + 8 && long * 4096 == physical,
{
}

/// A device is of a kind by its vendor, 0x1AF4, and by one of two numbers.
pub proof fn law_what_kind_a_device_is(device: Device, subsystem: u16, number: u16)
    ensures
        is_kind(device, subsystem, number) <==> device.vendor == 0x1AF4 && (device.subsystem
            == subsystem || device.device == number),
{
}

/// What happened is in the order it was done, one for one, and memory counts as
/// given only where there was some.
pub proof fn law_what_happened(
    deeds: Seq<Deed>,
    steps: Seq<Step>,
    writes: Seq<PortWrite>,
    at: u64,
    order: u32,
    value: u32,
    i: int,
)
    ensures
        did(deeds).len() == deeds.len(),
        0 <= i < deeds.len() ==> did(deeds)[i] == Event::Did(deeds[i]),
        stepped(steps).len() == steps.len(),
        0 <= i < steps.len() ==> stepped(steps)[i] == Event::Did(Deed::Step(steps[i])),
        wrote(writes).len() == writes.len(),
        0 <= i < writes.len() ==> wrote(writes)[i] == Event::Did(Deed::Step(Step::Port(writes[i]))),
        0 <= i < writes.len() ==> one_write(writes[i]) == wrote(writes)[i],
        given(order, Heard::Block(Some(at))) == seq![Event::Given { at, order }],
        given(order, Heard::Block(None)).len() == 0,
        given(order, Heard::Read(value)).len() == 0,
{
}

} // verus!
