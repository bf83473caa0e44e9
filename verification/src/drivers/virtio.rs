//! What the virtio devices have in common.
//!
//! A queue is three arrays that a driver and a device share: descriptors that
//! say where the buffers are, a ring the driver appends to, and a ring the
//! device appends to. Something is handed over by writing its descriptors,
//! appending the first of them to the driver's ring, moving that ring's index,
//! and telling the device.
use vstd::arithmetic::power2::{lemma_pow2_unfold, pow2};
use vstd::prelude::*;

use crate::drivers::pci::Device;
#[allow(unused_imports)]
use crate::drivers::port::Heard;
use crate::drivers::port::PortWrite;

pub mod law;
pub mod register;
pub mod status;

verus! {

/// Every virtio device has this vendor.
pub const VENDOR: u16 = 0x1AF4;

/// The chain goes on at the next descriptor.
pub const NEXT: u16 = 1;

/// The device writes this buffer, where otherwise it reads it.
pub const WRITE: u16 = 2;

/// Bytes of a page, and what the ring of the device is aligned to.
pub const PAGE: u64 = 4096;

/// How often a device is looked at before it is given up.
pub const COMPLETION_SPINS: u32 = 50_000_000;

/// The last place a device's first port can be, so that all its registers are
/// ports.
pub const LAST_PORT: u16 = 0xFFE0;

/// Something to be done to a device, or to the memory it shares. Where a thing
/// is in memory is where the device finds it.
#[derive(Debug, Clone, Copy, PartialEq, Eq, Structural)]
pub enum Step {
    Byte { at: u64, byte: u8 },
    Half { at: u64, half: u16 },
    Word { at: u64, word: u32 },
    Long { at: u64, long: u64 },
    /// So many zero bytes.
    Zeros { at: u64, many: u64 },
    /// So many bytes of what the caller has to send, from its start.
    Data { at: u64, length: u64 },
    /// What went before is seen before what follows.
    Fence,
    /// Look at the device's index, and at the queue of who waits for it.
    Sample,
    Port(PortWrite),
    /// A byte of a register that is in memory.
    Register8 { register: u64, value8: u8 },
    /// Two bytes of a register that is in memory.
    Register16 { register: u64, value16: u16 },
    /// Four bytes of a register that is in memory.
    Register32 { register: u64, value32: u32 },
}

/// Where the parts of a queue are, as offsets from its start, and how much
/// memory it takes.
#[derive(Debug, Clone, Copy, PartialEq, Eq, Structural)]
pub struct Layout {
    pub available: u64,
    pub used: u64,
    pub bytes: u64,
}

/// The least multiple of a page that is not below a number.
pub open spec fn page_up(bytes: nat) -> nat {
    (bytes + 4095) / 4096 * 4096
}

/// Where the parts of a queue of so many descriptors are. The descriptors come
/// first, sixteen bytes each. The driver's ring follows, two bytes for each
/// descriptor and six more; the device's starts on the next page, eight bytes
/// for each and six more.
pub open spec fn layout_of(size: u16) -> Layout {
    let used = page_up((18 * size + 6) as nat);
    Layout { available: (16 * size) as u64, used: used as u64, bytes: (used + 8 * size + 6) as u64 }
}

/// Where the parts of a queue of so many descriptors are.
pub fn queue_layout(size: u16) -> (layout: Layout)
    ensures
        layout == layout_of(size),
{
    let size: u64 = size as u64;
    let available: u64 = 16 * size;
    let used: u64 = (available + 2 * size + 6 + 4095) / PAGE * PAGE;
    Layout { available, used, bytes: used + 8 * size + 6 }
}

/// Whether blocks of an order hold so many bytes, and those of the order below
/// do not.
pub open spec fn is_order_for(order: nat, bytes: nat) -> bool {
    &&& bytes <= PAGE * pow2(order)
    &&& order > 0 ==> PAGE * pow2((order - 1) as nat) < bytes
}

/// The least order of pages whose blocks hold so many bytes.
pub open spec fn order_of(bytes: nat) -> nat {
    choose|order: nat| is_order_for(order, bytes)
}

/// The least order of pages whose blocks hold so many bytes.
pub fn order_for(bytes: u64) -> (order: u32)
    requires
        bytes <= 0x8000_0000_0000_0000,
    ensures
        is_order_for(order as nat, bytes as nat),
        order == order_of(bytes as nat),
        order <= 51,
{
    let mut order: u32 = 0;
    let mut holds: u64 = PAGE;
    proof {
        vstd::arithmetic::power2::lemma2_to64();
        vstd::arithmetic::power2::lemma2_to64_rest();
    }
    while holds < bytes
        invariant
            holds == PAGE * pow2(order as nat),
            order <= 51,
            bytes <= 0x8000_0000_0000_0000,
            pow2(51) == 0x8_0000_0000_0000,
            order > 0 ==> PAGE * pow2((order - 1) as nat) < bytes,
        decreases 52 - order,
    {
        proof {
            lemma_pow2_unfold((order + 1) as nat);
            if order == 51 {
                assert(holds == 0x8000_0000_0000_0000);
            }
        }
        holds = holds * 2;
        order += 1;
    }
    proof {
        let other = order_of(bytes as nat);
        assert(is_order_for(order as nat, bytes as nat));
        law_the_order_is_the_least(order as nat, other, bytes as nat);
        law_the_order_is_the_least(other, order as nat, bytes as nat);
    }
    order
}

/// The steps that write a descriptor of a table.
pub open spec fn descriptor_steps(
    table: u64,
    which: u16,
    address: u64,
    length: u32,
    flags: u16,
    next: u16,
) -> Seq<Step> {
    let at = table + 16 * which;
    seq![
        Step::Long { at: at as u64, long: address },
        Step::Word { at: (at + 8) as u64, word: length },
        Step::Half { at: (at + 12) as u64, half: flags },
        Step::Half { at: (at + 14) as u64, half: next },
    ]
}

/// Write a descriptor of a table.
pub fn put_descriptor(
    out: &mut Vec<Step>,
    table: u64,
    which: u16,
    address: u64,
    length: u32,
    flags: u16,
    next: u16,
)
    requires
        table <= u64::MAX - 0x10_0000,
    ensures
        final(out)@ == old(out)@ + descriptor_steps(table, which, address, length, flags, next),
{
    let at: u64 = table + 16 * which as u64;
    out.push(Step::Long { at, long: address });
    out.push(Step::Word { at: at + 8, word: length });
    out.push(Step::Half { at: at + 12, half: flags });
    out.push(Step::Half { at: at + 14, half: next });
    assert(out@ =~= old(out)@ + descriptor_steps(table, which, address, length, flags, next));
}

/// Where a place of the driver's ring is.
pub open spec fn slot_at(ring: u64, index: u16, size: u16) -> u64 {
    (ring + 4 + 2 * (index % size)) as u64
}

/// An index after one more: it wraps.
pub open spec fn index_after(index: u16) -> u16 {
    ((index + 1) % 0x1_0000) as u16
}

/// An index after one more.
pub fn next_index(index: u16) -> (next: u16)
    ensures
        next == index_after(index),
{
    if index == u16::MAX {
        0
    } else {
        index + 1
    }
}

/// The step that puts a descriptor in the driver's ring.
pub open spec fn entry_step(ring: u64, index: u16, size: u16, which: u16) -> Step {
    Step::Half { at: slot_at(ring, index, size), half: which }
}

/// The steps that move the driver's index: the device sees what is in the ring
/// before it sees that there is more in it.
pub open spec fn publish_steps(ring: u64, index: u16) -> Seq<Step> {
    seq![
        Step::Fence,
        Step::Half { at: (ring + 2) as u64, half: index_after(index) },
        Step::Fence,
    ]
}

/// Put a descriptor in the driver's ring.
pub fn put_entry(out: &mut Vec<Step>, ring: u64, index: u16, size: u16, which: u16)
    requires
        ring <= u64::MAX - 0x10_0000,
        size > 0,
    ensures
        final(out)@ == old(out)@.push(entry_step(ring, index, size, which)),
{
    out.push(Step::Half { at: ring + 4 + 2 * (index % size) as u64, half: which });
}

/// Move the driver's index.
pub fn put_publish(out: &mut Vec<Step>, ring: u64, index: u16)
    requires
        ring <= u64::MAX - 0x10_0000,
    ensures
        final(out)@ == old(out)@ + publish_steps(ring, index),
{
    out.push(Step::Fence);
    out.push(Step::Half { at: ring + 2, half: next_index(index) });
    out.push(Step::Fence);
    assert(out@ =~= old(out)@ + publish_steps(ring, index));
}

/// Whether a device is one of a kind: by what its subsystem says, or by its
/// number.
pub open spec fn is_kind(device: Device, subsystem: u16, number: u16) -> bool {
    device.vendor == VENDOR && (device.subsystem == subsystem || device.device == number)
}

/// The first device of a kind.
pub fn find(devices: &[Device], subsystem: u16, number: u16) -> (found: Option<usize>)
    ensures
        match found {
            Some(at) => {
                &&& at < devices@.len()
                &&& is_kind(devices@[at as int], subsystem, number)
                &&& forall|i: int|
                    0 <= i < at ==> !is_kind(#[trigger] devices@[i], subsystem, number)
            },
            None => forall|i: int|
                0 <= i < devices@.len() ==> !is_kind(#[trigger] devices@[i], subsystem, number),
        },
{
    let mut at: usize = 0;
    while at < devices.len()
        invariant
            at <= devices@.len(),
            forall|i: int| 0 <= i < at ==> !is_kind(#[trigger] devices@[i], subsystem, number),
        decreases devices@.len() - at,
    {
        if devices[at].vendor == VENDOR && (devices[at].subsystem == subsystem
            || devices[at].device == number) {
            return Some(at);
        }
        at += 1;
    }
    None
}

/// Start with a device: reset it, and say that it was noticed and that there is
/// a driver. Nothing is read of it before that.
pub open spec fn noticing(port: u16) -> Seq<PortWrite> {
    let register = (port + register::DEVICE_STATUS) as u16;
    seq![
        PortWrite::Byte { port: register, byte: 0 },
        PortWrite::Byte { port: register, byte: status::ACKNOWLEDGE },
        PortWrite::Byte { port: register, byte: 3 },
    ]
}

/// Start with a device.
pub fn notice(port: u16) -> (writes: Vec<PortWrite>)
    requires
        port <= LAST_PORT,
    ensures
        writes@ == noticing(port),
{
    let register: u16 = port + register::DEVICE_STATUS;
    let mut writes: Vec<PortWrite> = Vec::new();
    writes.push(PortWrite::Byte { port: register, byte: 0 });
    writes.push(PortWrite::Byte { port: register, byte: status::ACKNOWLEDGE });
    writes.push(PortWrite::Byte { port: register, byte: status::ACKNOWLEDGE + status::DRIVER });
    assert(writes@ =~= noticing(port));
    writes
}

/// Say that the driver has given a device up.
pub fn give_up(port: u16) -> (write: PortWrite)
    requires
        port <= LAST_PORT,
    ensures
        write == giving_up(port),
{
    PortWrite::Byte { port: port + register::DEVICE_STATUS, byte: status::FAILED }
}

/// Say that the driver is ready.
pub fn ready(port: u16) -> (write: PortWrite)
    requires
        port <= LAST_PORT,
    ensures
        write == readying(port),
{
    PortWrite::Byte {
        port: port + register::DEVICE_STATUS,
        byte: status::ACKNOWLEDGE + status::DRIVER + status::DRIVER_OK,
    }
}

/// Tell the device where the selected queue is: the number of its page.
pub fn place_queue(port: u16, physical: u64) -> (write: PortWrite)
    requires
        port <= LAST_PORT,
    ensures
        write == placing(port, physical),
{
    PortWrite::Long {
        port: port + register::QUEUE_ADDRESS,
        long: ((physical / 4096) % 0x1_0000_0000) as u32,
    }
}

/// What a driver does while it brings a device up.
#[derive(Debug, Clone, Copy, PartialEq, Eq, Structural)]
pub enum Deed {
    Step(Step),
    /// Give a block of memory back.
    Free { at: u64, order: u32 },
}

/// What happens while a device is brought up.
pub enum Event {
    /// The driver did something.
    Did(Deed),
    /// The driver was given a block of memory.
    Given { at: u64, order: u32 },
}

/// Deeds, as they happened.
pub open spec fn did(deeds: Seq<Deed>) -> Seq<Event> {
    deeds.map_values(|deed: Deed| Event::Did(deed))
}

/// Steps, as they happened.
pub open spec fn stepped(steps: Seq<Step>) -> Seq<Event> {
    steps.map_values(|step: Step| Event::Did(Deed::Step(step)))
}

/// Writes to ports, as they happened.
pub open spec fn wrote(writes: Seq<PortWrite>) -> Seq<Event> {
    writes.map_values(|write: PortWrite| Event::Did(Deed::Step(Step::Port(write))))
}

/// What was given, where that was a block of an order.
pub open spec fn given(order: u32, heard: Heard) -> Seq<Event> {
    match heard {
        Heard::Block(Some(at)) => seq![Event::Given { at, order }],
        _ => Seq::empty(),
    }
}

/// That the driver is ready.
pub open spec fn readying(port: u16) -> PortWrite {
    PortWrite::Byte { port: (port + register::DEVICE_STATUS) as u16, byte: 7 }
}

/// That the driver has given the device up.
pub open spec fn giving_up(port: u16) -> PortWrite {
    PortWrite::Byte { port: (port + register::DEVICE_STATUS) as u16, byte: status::FAILED }
}

/// Where the selected queue is: the number of its page.
pub open spec fn placing(port: u16, physical: u64) -> PortWrite {
    PortWrite::Long {
        port: (port + register::QUEUE_ADDRESS) as u16,
        long: ((physical / 4096) % 0x1_0000_0000) as u32,
    }
}

/// A write to a port, as it happened.
pub open spec fn one_write(write: PortWrite) -> Event {
    Event::Did(Deed::Step(Step::Port(write)))
}

/// Append writes to ports to a list of deeds.
pub fn put_writes(out: &mut Vec<Deed>, writes: &Vec<PortWrite>)
    ensures
        did(final(out)@) == did(old(out)@) + wrote(writes@),
        final(out)@ == old(out)@ + writes@.map_values(
            |write: PortWrite| Deed::Step(Step::Port(write)),
        ),
{
    let mut at: usize = 0;
    let ghost before = out@;
    let ghost all = writes@.map_values(|write: PortWrite| Deed::Step(Step::Port(write)));
    assert(out@ =~= before + all.take(0));
    while at < writes.len()
        invariant
            at <= writes@.len(),
            all == writes@.map_values(|write: PortWrite| Deed::Step(Step::Port(write))),
            out@ == before + all.take(at as int),
        decreases writes@.len() - at,
    {
        out.push(Deed::Step(Step::Port(writes[at])));
        at += 1;
        assert(out@ =~= before + all.take(at as int));
    }
    assert(out@ =~= before + all);
    assert(did(out@) =~= did(before) + wrote(writes@));
}

/// Append steps to a list of deeds.
pub fn put_deeds(out: &mut Vec<Deed>, steps: &Vec<Step>)
    ensures
        did(final(out)@) == did(old(out)@) + stepped(steps@),
        final(out)@ == old(out)@ + steps@.map_values(|step: Step| Deed::Step(step)),
{
    let mut at: usize = 0;
    let ghost before = out@;
    let ghost all = steps@.map_values(|step: Step| Deed::Step(step));
    assert(out@ =~= before + all.take(0));
    while at < steps.len()
        invariant
            at <= steps@.len(),
            all == steps@.map_values(|step: Step| Deed::Step(step)),
            out@ == before + all.take(at as int),
        decreases steps@.len() - at,
    {
        out.push(Deed::Step(steps[at]));
        at += 1;
        assert(out@ =~= before + all.take(at as int));
    }
    assert(out@ =~= before + all);
    assert(did(out@) =~= did(before) + stepped(steps@));
}

/// What came of looking whether a device has done something.
#[derive(Debug, Clone, Copy, PartialEq, Eq, Structural)]
pub enum Look {
    /// It has.
    Done,
    /// Look again.
    Again,
    /// Sleep until it interrupts, unless it has since this generation.
    Sleep(u64),
    /// It is given up.
    TimedOut,
}

/// The parts of a queue follow one another: what is written in one is not in
/// another, and the device's ring starts on a page.
pub proof fn law_the_parts_of_a_queue_are_apart(size: u16, index: u16, which: u16)
    requires
        which < size,
    ensures
        16 * which + 16 <= layout_of(size).available,
        layout_of(size).available <= slot_at(layout_of(size).available, index, size),
        slot_at(layout_of(size).available, index, size) + 2 <= layout_of(size).used,
        layout_of(size).used % 4096 == 0,
        layout_of(size).used + 4 + 8 * (index % size) + 8 <= layout_of(size).bytes,
{
    assert(0 <= index % size < size);
}

/// A block that is asked for holds what it is asked for, and one of half the
/// size would not.
pub proof fn law_the_order_is_the_least(order: nat, other: nat, bytes: nat)
    requires
        is_order_for(order, bytes),
        bytes <= PAGE * pow2(other),
    ensures
        order <= other,
{
    if other < order {
        if other < order - 1 {
            vstd::arithmetic::power2::lemma_pow2_strictly_increases(other, (order - 1) as nat);
        }
        assert(pow2(other) <= pow2((order - 1) as nat));
    }
}

/// The index a device is shown goes through every number, and its place in the
/// ring moves on by one, or round to the first. (A queue's size is a power of
/// two, so it divides the numbers an index can be.)
pub proof fn law_the_ring_comes_round(index: u16, size: u16)
    requires
        size > 0,
        0x1_0000int % (size as int) == 0,
    ensures
        index_after(index) % size == if index % size + 1 == size {
            0
        } else {
            index % size + 1
        },
{
    let whole = 0x1_0000int;
    let size = size as int;
    let next = index + 1;
    vstd::arithmetic::div_mod::lemma_fundamental_div_mod(index as int, size);
    let turns = index as int / size;
    let place = index as int % size;
    if index == 0xFFFF {
        vstd::arithmetic::div_mod::lemma_mod_self_0(size);
        vstd::arithmetic::div_mod::lemma_small_mod(0, size as nat);
        // The number after the last is a multiple of the size.
        assert(place + 1 == size) by {
            vstd::arithmetic::div_mod::lemma_add_mod_noop(index as int, 1, size);
            if place + 1 < size {
                if size > 1 {
                    vstd::arithmetic::div_mod::lemma_small_mod(1, size as nat);
                }
                vstd::arithmetic::div_mod::lemma_small_mod((place + 1) as nat, size as nat);
            }
        }
    } else {
        assert(index_after(index) == next);
        if place + 1 == size {
            assert(next == (turns + 1) * size) by (nonlinear_arith)
                requires
                    next == size * turns + place + 1,
                    place + 1 == size,
            ;
            vstd::arithmetic::div_mod::lemma_mod_multiples_basic(turns + 1, size);
        } else {
            vstd::arithmetic::div_mod::lemma_fundamental_div_mod_converse(
                next,
                size,
                turns,
                place + 1,
            );
        }
    }
}

} // verus!
