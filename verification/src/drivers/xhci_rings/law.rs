//! That the stamps work: what the driver puts on a ring the controller reads,
//! once, in order.
use vstd::prelude::*;

use super::{ConsumerModel, ProducerModel, Store, Trb};
#[allow(unused_imports)]
use super::{
    build_stores, completion, entry_stores, fresh, link, pages_needed, pages_wf, scratchpad_stores,
    stamped, trb, RING_SIZE,
};

verus! {

/// A reader of a ring that the driver writes: the controller.
pub struct Reader {
    /// Where it reads next.
    pub at: nat,
    /// How the next entry is stamped if it is there.
    pub cycle: bool,
}

/// What the controller reads next, and where it is then. It follows a link, and
/// turns over what it expects where the link says so.
pub open spec fn reads(entries: Seq<Trb>, reader: Reader) -> (Option<Trb>, Reader) {
    let here = followed(entries, reader);
    let entry = entries[here.at as int];
    if entry.spec_cycle() != here.cycle {
        (None, here)
    } else {
        (Some(entry), Reader { at: here.at + 1, ..here })
    }
}

/// Where the controller is once it has followed a link, if it stands at one that
/// is there.
pub open spec fn followed(entries: Seq<Trb>, reader: Reader) -> Reader {
    let entry = entries[reader.at as int];
    if entry.spec_cycle() == reader.cycle && entry.spec_kind() == trb::LINK {
        Reader {
            at: 0,
            cycle: if (entry.control / 2) % 2 == 1 {
                !reader.cycle
            } else {
                reader.cycle
            },
        }
    } else {
        reader
    }
}

/// Whether the controller has read everything that is on a ring: it stands where
/// the next entry goes, or at the link that leads there.
pub open spec fn caught_up(ring: ProducerModel, reader: Reader) -> bool {
    ||| reader.at == ring.at && reader.cycle == ring.cycle
    ||| ring.at == 0 && reader.at == RING_SIZE - 1 && reader.cycle != ring.cycle
        && ring.entries[RING_SIZE - 1].spec_cycle() == reader.cycle
}

/// A ring that nothing was put on is in order, and there is nothing on it to be
/// read.
pub proof fn law_a_fresh_ring_is_empty(physical: u64)
    requires
        physical <= u64::MAX - super::PAGE,
    ensures
        fresh(physical).sound(),
        caught_up(fresh(physical), Reader { at: 0, cycle: true }),
{
}

/// Putting an entry on a ring keeps it in order.
pub proof fn law_pushing_keeps_a_ring_sound(
    ring: ProducerModel,
    parameter: u64,
    status: u32,
    control: u32,
)
    requires
        ring.sound(),
    ensures
        ring.pushed(parameter, status, control).sound(),
{
    let after = ring.pushed(parameter, status, control);
    assert(stamped(parameter, status, control, ring.cycle).spec_cycle() == ring.cycle);
    assert(link(ring.physical, ring.cycle).spec_cycle() == ring.cycle);
}

/// A controller that has read everything reads nothing more.
pub proof fn law_nothing_is_read_twice(ring: ProducerModel, reader: Reader)
    requires
        ring.sound(),
        caught_up(ring, reader),
    ensures
        reads(ring.entries, reader).0 is None,
        caught_up(ring, reads(ring.entries, reader).1),
{
    let back = ring.entries[RING_SIZE - 1];
    assert(back == link(ring.physical, back.spec_cycle()));
    assert(back.spec_kind() == trb::LINK);
}

/// What the driver puts on a ring is what the controller reads next, whatever it
/// is, as often as the ring comes round; and then the controller has read
/// everything again.
///
/// The driver never puts a link on a ring: that is the ring's own.
pub proof fn law_what_is_pushed_is_read(
    ring: ProducerModel,
    reader: Reader,
    parameter: u64,
    status: u32,
    control: u32,
)
    requires
        ring.sound(),
        caught_up(ring, reader),
        (control / 1024) % 64 != trb::LINK,
    ensures
        ({
            let after = ring.pushed(parameter, status, control);
            let (entry, then) = reads(after.entries, reader);
            &&& entry == Some(stamped(parameter, status, control, ring.cycle))
            &&& caught_up(after, then)
        }),
{
    let after = ring.pushed(parameter, status, control);
    let entry = stamped(parameter, status, control, ring.cycle);
    assert(entry.spec_cycle() == ring.cycle);
    assert(entry.spec_kind() == (control / 1024) % 64);
    let back = ring.entries[RING_SIZE - 1];
    assert(back == link(ring.physical, back.spec_cycle()));
    assert(back.spec_kind() == trb::LINK);
    assert((back.control / 2) % 2 == 1);
    let again = link(ring.physical, ring.cycle);
    assert(again.spec_cycle() == ring.cycle);
    assert(again.spec_kind() == trb::LINK);
    assert(after.entries[ring.at as int] == entry);
}

/// The stamp of an entry is stored after the rest of it.
pub proof fn law_the_stamp_is_stored_last(at: u64, entry: Trb)
    requires
        at <= u64::MAX - 16,
    ensures
        entry_stores(at, entry).last() == (Store::Word {
            at: (at + 12) as u64,
            word: entry.control,
        }),
        entry_stores(at, entry)[0] == (Store::Long { at, long: entry.parameter }),
        entry_stores(at, entry)[1] == (Store::Word { at: (at + 8) as u64, word: entry.status }),
{
}

/// The driver reads the event ring round and round, a page at a time: after as
/// many events as there are entries it is where it was, and expects the other
/// stamp.
pub proof fn law_the_event_ring_comes_round(ring: ConsumerModel)
    requires
        ring.sound(),
        ring.at == 0,
    ensures
        ({
            let round = popped_often(ring, RING_SIZE as nat);
            round.at == 0 && round.cycle != ring.cycle && round.physical == ring.physical
        }),
{
    lemma_popped(ring, (RING_SIZE - 1) as nat);
    reveal_with_fuel(popped_often, 2);
}

/// A ring with so many events read.
pub open spec fn popped_often(ring: ConsumerModel, many: nat) -> ConsumerModel
    decreases many,
{
    if many == 0 {
        ring
    } else {
        popped_often(ring, (many - 1) as nat).popped()
    }
}

proof fn lemma_popped(ring: ConsumerModel, many: nat)
    requires
        ring.sound(),
        ring.at == 0,
        many < RING_SIZE,
    ensures
        popped_often(ring, many).at == many,
        popped_often(ring, many).cycle == ring.cycle,
        popped_often(ring, many).physical == ring.physical,
    decreases many,
{
    if many > 0 {
        lemma_popped(ring, (many - 1) as nat);
    }
}

/// What an entry of a ring is: its kind in six bits from the tenth on, and whose turn
/// it is in the lowest.
pub proof fn law_what_an_entry_is(entry: Trb)
    ensures
        entry.spec_kind() == (entry.control / 1024) % 64,
        entry.spec_cycle() <==> entry.control % 2 == 1,
        trb::NORMAL == 1,
        trb::SETUP == 2,
        trb::DATA == 3,
        trb::STATUS == 4,
        trb::LINK == 6,
        trb::ENABLE_SLOT == 9,
        trb::ADDRESS_DEVICE == 11,
        trb::CONFIGURE_ENDPOINT == 12,
        trb::TRANSFER_EVENT == 32,
        trb::COMMAND_COMPLETE == 33,
        trb::PORT_STATUS_CHANGE == 34,
        completion::SUCCESS == 1,
        completion::SHORT_PACKET == 13,
{
}

/// The last entry of a ring leads back to its start and turns the turn over; any other
/// is what was put there, with whose turn it is in its lowest bit.
pub proof fn law_links_and_stamps(physical: u64, cycle: bool, status: u32, control: u32)
    ensures
        link(physical, cycle).parameter == physical,
        link(physical, cycle).spec_kind() == 6,
        (link(physical, cycle).control / 2) % 2 == 1,
        link(physical, cycle).spec_cycle() == cycle,
        stamped(physical, status, control, cycle).parameter == physical,
        stamped(physical, status, control, cycle).status == status,
        stamped(physical, status, control, cycle).control / 2 == control / 2,
        stamped(physical, status, control, cycle).spec_cycle() == cycle,
{
}

/// Where an entry goes: sixteen bytes for each, 255 of them and a link; the link is
/// stored together with the last one, for the turn that was.
pub proof fn law_where_an_entry_goes(
    ring: ProducerModel,
    parameter: u64,
    status: u32,
    control: u32,
)
    requires
        ring.sound(),
    ensures
        ({
            let stores = ring.push_stores(parameter, status, control);
            let entry = stamped(parameter, status, control, ring.cycle);
            let after = ring.pushed(parameter, status, control);
            &&& stores.take(3) == entry_stores((ring.physical + 16 * ring.at) as u64, entry)
            &&& after.entries[ring.at as int] == entry
            &&& ring.at < 254 ==> stores.len() == 3 && after.at == ring.at + 1 && after.cycle
                == ring.cycle
            &&& ring.at == 254 ==> stores.len() == 6 && stores.skip(3) == entry_stores(
                (ring.physical + 4080) as u64,
                link(ring.physical, ring.cycle),
            ) && after.at == 0 && after.cycle != ring.cycle
        }),
{
    let stores = ring.push_stores(parameter, status, control);
    let entry = stamped(parameter, status, control, ring.cycle);
    assert(stores.take(3) =~= entry_stores((ring.physical + 16 * ring.at) as u64, entry));
    if ring.at == 254 {
        assert(stores.skip(3) =~= entry_stores(
            (ring.physical + 4080) as u64,
            link(ring.physical, ring.cycle),
        ));
    }
}

/// An event ring has 256 entries and no link: after the last comes the first, for the
/// other turn.
pub proof fn law_the_next_event(ring: ConsumerModel)
    requires
        ring.sound(),
    ensures
        ring.at < 255 ==> ring.popped().at == ring.at + 1 && ring.popped().cycle == ring.cycle,
        ring.at == 255 ==> ring.popped().at == 0 && ring.popped().cycle != ring.cycle,
        ring.popped().physical == ring.physical,
{
}

/// How many pages the rings take: four, and where the controller wants pages of its
/// own those and one for their list. Both lists are of eight bytes an entry and fit
/// into a page.
pub proof fn law_how_many_pages(slots: u64, scratchpads: u64)
    ensures
        pages_needed(slots, scratchpads) is Some <==> slots < 512 && scratchpads <= 512,
        slots < 512 && scratchpads == 0 ==> pages_needed(slots, scratchpads) == Some(4nat),
        slots < 512 && 0 < scratchpads <= 512 ==> pages_needed(slots, scratchpads) == Some(
            (5 + scratchpads) as nat,
        ),
{
}

/// What building the rings stores, at the end: the one segment of the event ring, its
/// page and its 256 entries; and in between, the list of the controller's own pages in
/// the first place of the contexts.
pub proof fn law_what_building_stores(frames: Seq<u64>, scratchpads: u64)
    requires
        frames.len() >= 4,
        pages_wf(frames),
    ensures
        ({
            let stores = build_stores(frames, scratchpads);
            let many = stores.len();
            let last = frames[frames.len() - 1];
            &&& many >= 9
            &&& stores[0] == (Store::Zero { at: frames[0] })
            &&& stores[1] == (Store::Long { at: (frames[0] + 4080) as u64, long: frames[0] })
            &&& stores[4] == (Store::Zero { at: frames[1] })
            &&& stores[5] == (Store::Zero { at: frames[2] })
            &&& stores[many - 3] == (Store::Zero { at: last })
            &&& stores[many - 2] == (Store::Long { at: last, long: frames[1] })
            &&& stores[many - 1] == (Store::Word { at: (last + 8) as u64, word: 256 })
            &&& scratchpads > 0 ==> stores[6] == (Store::Zero { at: frames[3] }) && stores[many - 4]
                == (Store::Long { at: frames[2], long: frames[3] })
        }),
{
}

/// The controller's own pages are cleared and listed in their order.
pub proof fn law_own_pages_are_listed(array: u64, pages: Seq<u64>, many: nat, i: int)
    requires
        0 <= i < many <= 512,
        array <= u64::MAX - 4096,
    ensures
        scratchpad_stores(array, pages, many).len() == 2 * many,
        scratchpad_stores(array, pages, many)[2 * i] == (Store::Zero { at: pages[i] }),
        scratchpad_stores(array, pages, many)[2 * i + 1] == (Store::Long {
            at: (array + 8 * i) as u64,
            long: pages[i],
        }),
    decreases many,
{
    lemma_own_pages(array, pages, (many - 1) as nat);
    if i < many - 1 {
        law_own_pages_are_listed(array, pages, (many - 1) as nat, i);
    }
}

proof fn lemma_own_pages(array: u64, pages: Seq<u64>, many: nat)
    ensures
        scratchpad_stores(array, pages, many).len() == 2 * many,
    decreases many,
{
    if many > 0 {
        lemma_own_pages(array, pages, (many - 1) as nat);
    }
}

} // verus!
