//! The rings an xHCI controller and its driver pass work across.
//!
//! An entry is sixteen bytes, and one bit of it is the whole protocol: whoever
//! writes stamps each entry with a cycle, and turns the cycle over when it comes
//! round; whoever reads stops at the first entry that is stamped the other way.
//!
//! The last entry of a ring that the driver writes is a link back to the first,
//! which tells the controller to turn over what it expects.
use vstd::prelude::*;

pub mod completion;
pub mod law;
pub mod trb;

verus! {

/// Entries of a ring: one page of them.
pub const RING_SIZE: usize = 256;

/// Bytes of a page.
pub const PAGE: u64 = 4096;

/// One entry, as the controller reads and writes it.
#[derive(Debug, Clone, Copy, PartialEq, Eq, Structural)]
pub struct Trb {
    pub parameter: u64,
    pub status: u32,
    pub control: u32,
}

impl Trb {
    /// What kind it is.
    pub open spec fn spec_kind(self) -> u32 {
        (self.control / 1024) % 64
    }

    /// How it is stamped.
    pub open spec fn spec_cycle(self) -> bool {
        self.control % 2 == 1
    }

    /// What kind it is.
    pub fn kind(self) -> (kind: u32)
        ensures
            kind == self.spec_kind(),
    {
        (self.control / 1024) % 64
    }

    /// How it is stamped.
    pub fn cycle(self) -> (cycle: bool)
        ensures
            cycle == self.spec_cycle(),
    {
        self.control % 2 == 1
    }

    /// What became of it, for an event.
    pub fn completion(self) -> (code: u32)
        ensures
            code == self.status / 0x100_0000,
    {
        self.status / 0x100_0000
    }

    /// How many bytes were not moved, for an event of a transfer: what stands
    /// below what became of it.
    pub fn residue(self) -> (bytes: u32)
        ensures
            bytes == self.status % 0x100_0000,
    {
        self.status % 0x100_0000
    }

    /// The slot an event is about.
    pub fn slot(self) -> (slot: u8)
        ensures
            slot == self.control / 0x100_0000,
    {
        (self.control / 0x100_0000) as u8
    }
}

/// A store to memory.
#[derive(Debug, Clone, Copy, PartialEq, Eq, Structural)]
pub enum Store {
    /// A page of zeros.
    Zero { at: u64 },
    Long { at: u64, long: u64 },
    Word { at: u64, word: u32 },
}

/// The stores that write an entry: the control word last, because it carries the
/// stamp, and the controller may read the entry the moment it is there.
pub open spec fn entry_stores(at: u64, entry: Trb) -> Seq<Store> {
    seq![
        Store::Long { at, long: entry.parameter },
        Store::Word { at: (at + 8) as u64, word: entry.status },
        Store::Word { at: (at + 12) as u64, word: entry.control },
    ]
}

fn put_entry(stores: &mut Vec<Store>, at: u64, entry: Trb)
    requires
        at + 16 <= u64::MAX,
    ensures
        final(stores)@ == old(stores)@ + entry_stores(at, entry),
{
    stores.push(Store::Long { at, long: entry.parameter });
    stores.push(Store::Word { at: at + 8, word: entry.status });
    stores.push(Store::Word { at: at + 12, word: entry.control });
    assert(stores@ =~= old(stores)@ + entry_stores(at, entry));
}

/// The link back to the start of a ring, stamped.
pub open spec fn link(physical: u64, cycle: bool) -> Trb {
    Trb {
        parameter: physical,
        status: 0,
        control: (trb::LINK * 1024 + 2 + if cycle {
            1int
        } else {
            0
        }) as u32,
    }
}

fn make_link(physical: u64, cycle: bool) -> (entry: Trb)
    ensures
        entry == link(physical, cycle),
{
    Trb {
        parameter: physical,
        status: 0,
        control: trb::LINK * 1024 + 2 + if cycle {
            1
        } else {
            0
        },
    }
}

/// An entry with a stamp.
pub open spec fn stamped(parameter: u64, status: u32, control: u32, cycle: bool) -> Trb {
    Trb {
        parameter,
        status,
        control: (control - control % 2 + if cycle {
            1int
        } else {
            0
        }) as u32,
    }
}

/// A ring the driver writes and the controller reads.
pub struct Producer {
    physical: u64,
    entries: Vec<Trb>,
    at: usize,
    cycle: bool,
}

/// The same, as a value.
#[verifier::ext_equal]
pub struct ProducerModel {
    /// The page it is in.
    pub physical: u64,
    /// What is in it.
    pub entries: Seq<Trb>,
    /// Where the next entry goes.
    pub at: nat,
    /// How it is stamped.
    pub cycle: bool,
}

impl View for Producer {
    type V = ProducerModel;

    closed spec fn view(&self) -> ProducerModel {
        ProducerModel {
            physical: self.physical,
            entries: self.entries@,
            at: self.at as nat,
            cycle: self.cycle,
        }
    }
}

/// An entry of zeros.
pub open spec fn nothing() -> Trb {
    Trb { parameter: 0, status: 0, control: 0 }
}

/// A ring nothing was put on.
pub open spec fn fresh(physical: u64) -> ProducerModel {
    ProducerModel {
        physical,
        entries: Seq::new(RING_SIZE as nat, |i: int| nothing()).update(
            RING_SIZE - 1,
            link(physical, true),
        ),
        at: 0,
        cycle: true,
    }
}

impl ProducerModel {
    /// What of the ring is the driver's says so: the entries behind are stamped
    /// with the cycle, those ahead with the other, and the last is a link.
    pub open spec fn sound(self) -> bool {
        &&& self.entries.len() == RING_SIZE
        &&& self.at < RING_SIZE - 1
        &&& self.physical <= u64::MAX - PAGE
        &&& forall|i: int|
            0 <= i < self.at ==> (#[trigger] self.entries[i]).spec_cycle() == self.cycle
        &&& forall|i: int|
            self.at <= i < RING_SIZE - 1 ==> (#[trigger] self.entries[i]).spec_cycle()
                != self.cycle
        &&& self.entries[RING_SIZE - 1] == link(
            self.physical,
            self.entries[RING_SIZE - 1].spec_cycle(),
        )
    }

    /// The ring with one more entry on it.
    pub open spec fn pushed(self, parameter: u64, status: u32, control: u32) -> ProducerModel {
        let entry = stamped(parameter, status, control, self.cycle);
        let entries = self.entries.update(self.at as int, entry);
        if self.at + 1 == RING_SIZE - 1 {
            ProducerModel {
                entries: entries.update(RING_SIZE - 1, link(self.physical, self.cycle)),
                at: 0,
                cycle: !self.cycle,
                ..self
            }
        } else {
            ProducerModel { entries, at: self.at + 1, ..self }
        }
    }

    /// The stores that put an entry on it: the entry first, and the link where
    /// the ring comes round.
    pub open spec fn push_stores(self, parameter: u64, status: u32, control: u32) -> Seq<Store> {
        let entry = entry_stores(
            (self.physical + self.at * 16) as u64,
            stamped(parameter, status, control, self.cycle),
        );
        if self.at + 1 == RING_SIZE - 1 {
            entry + entry_stores(
                (self.physical + (RING_SIZE - 1) * 16) as u64,
                link(self.physical, self.cycle),
            )
        } else {
            entry
        }
    }
}

/// Something put on a ring.
#[derive(Debug)]
pub struct Pushed {
    /// Where it is, which is what an event names it by.
    pub address: u64,
    /// What is to be stored, in order.
    pub stores: Vec<Store>,
}

impl Producer {
    /// The ring is in order.
    pub open spec fn wf(&self) -> bool {
        self@.sound()
    }

    /// Make a ring in a page: what is to be stored first.
    pub fn new(physical: u64) -> (made: (Self, Vec<Store>))
        requires
            physical <= u64::MAX - PAGE,
        ensures
            made.0.wf(),
            made.0@ == fresh(physical),
            made.1@ == seq![Store::Zero { at: physical }] + entry_stores(
                (physical + 4080) as u64,
                link(physical, true),
            ),
    {
        let mut entries: Vec<Trb> = Vec::new();
        while entries.len() < RING_SIZE
            invariant
                entries@.len() <= RING_SIZE,
                forall|i: int| 0 <= i < entries@.len() ==> entries@[i] == nothing(),
            decreases RING_SIZE - entries@.len(),
        {
            entries.push(Trb { parameter: 0, status: 0, control: 0 });
        }
        let back: Trb = make_link(physical, true);
        entries.set(RING_SIZE - 1, back);
        let mut stores: Vec<Store> = Vec::new();
        stores.push(Store::Zero { at: physical });
        put_entry(&mut stores, physical + 4080, back);
        let ring = Producer { physical, entries, at: 0, cycle: true };
        assert(ring@.entries =~= fresh(physical).entries);
        assert(stores@ =~= seq![Store::Zero { at: physical }] + entry_stores(
            (physical + 4080) as u64,
            back,
        ));
        (ring, stores)
    }

    /// Where the controller is to be told to look.
    pub fn physical(&self) -> (at: u64)
        ensures
            at == self@.physical,
    {
        self.physical
    }

    /// How the controller is to expect the first entry to be stamped.
    pub fn initial_cycle(&self) -> (cycle: bool)
        ensures
            cycle == fresh(self@.physical).cycle,
    {
        true
    }

    /// Put an entry on the ring. The stamp is the ring's own, and is turned over
    /// here and nowhere else.
    pub fn push(&mut self, parameter: u64, status: u32, control: u32) -> (pushed: Pushed)
        requires
            old(self).wf(),
        ensures
            final(self).wf(),
            final(self)@ == old(self)@.pushed(parameter, status, control),
            pushed.address == old(self)@.physical + old(self)@.at * 16,
            pushed.stores@ == old(self)@.push_stores(parameter, status, control),
    {
        let entry = Trb {
            parameter,
            status,
            control: control - control % 2 + if self.cycle {
                1
            } else {
                0
            },
        };
        let at: usize = self.at;
        let address: u64 = self.physical + at as u64 * 16;
        let mut stores: Vec<Store> = Vec::new();
        put_entry(&mut stores, address, entry);
        self.entries.set(at, entry);
        self.at = at + 1;
        if self.at == RING_SIZE - 1 {
            let back: Trb = make_link(self.physical, self.cycle);
            put_entry(&mut stores, self.physical + 4080, back);
            self.entries.set(RING_SIZE - 1, back);
            self.at = 0;
            self.cycle = !self.cycle;
        }
        assert(stores@ =~= old(self)@.push_stores(parameter, status, control));
        assert(self@ =~= old(self)@.pushed(parameter, status, control));
        Pushed { address, stores }
    }
}

/// A ring the controller writes and the driver reads.
pub struct Consumer {
    physical: u64,
    at: usize,
    cycle: bool,
}

/// The same, as a value.
pub struct ConsumerModel {
    /// The page it is in.
    pub physical: u64,
    /// Where the next entry is read.
    pub at: nat,
    /// How it is stamped if the controller has written it.
    pub cycle: bool,
}

impl View for Consumer {
    type V = ConsumerModel;

    closed spec fn view(&self) -> ConsumerModel {
        ConsumerModel { physical: self.physical, at: self.at as nat, cycle: self.cycle }
    }
}

impl ConsumerModel {
    /// The next entry is in the page.
    pub open spec fn sound(self) -> bool {
        self.at < RING_SIZE && self.physical <= u64::MAX - PAGE
    }

    /// The ring with one entry fewer to be read: this one has no link, so it
    /// comes round at its end.
    pub open spec fn popped(self) -> ConsumerModel {
        if self.at + 1 == RING_SIZE {
            ConsumerModel { at: 0, cycle: !self.cycle, ..self }
        } else {
            ConsumerModel { at: self.at + 1, ..self }
        }
    }
}

impl Consumer {
    /// The next entry is in the page.
    pub open spec fn wf(&self) -> bool {
        self@.sound()
    }

    /// Make a ring in a page: it is zeroed, so that nothing in it is stamped as
    /// the controller stamps.
    pub fn new(physical: u64) -> (made: (Self, Store))
        requires
            physical <= u64::MAX - PAGE,
        ensures
            made.0.wf(),
            made.0@ == (ConsumerModel { physical, at: 0, cycle: true }),
            made.1 == (Store::Zero { at: physical }),
    {
        (Consumer { physical, at: 0, cycle: true }, Store::Zero { at: physical })
    }

    /// The page it is in.
    pub fn physical(&self) -> (at: u64)
        ensures
            at == self@.physical,
    {
        self.physical
    }

    /// Where the next entry is read, which is what the controller is told has
    /// been read up to.
    pub fn dequeue(&self) -> (at: u64)
        requires
            self.wf(),
        ensures
            at == self@.physical + self@.at * 16,
    {
        self.physical + self.at as u64 * 16
    }

    /// Take the next event, given what stands where it is read, if the
    /// controller has written it.
    pub fn pop(&mut self, entry: Trb) -> (event: Option<Trb>)
        requires
            old(self).wf(),
        ensures
            final(self).wf(),
            if entry.spec_cycle() == old(self)@.cycle {
                event == Some(entry) && final(self)@ == old(self)@.popped()
            } else {
                event is None && final(self)@ == old(self)@
            },
    {
        if entry.cycle() != self.cycle {
            return None;
        }
        self.at = self.at + 1;
        if self.at == RING_SIZE {
            self.at = 0;
            self.cycle = !self.cycle;
        }
        Some(entry)
    }
}

/// Everything the controller was given. It is kept for as long as the machine
/// runs, because the controller goes on using it.
pub struct Rings {
    pub commands: Producer,
    pub events: Consumer,
    /// The array of where each device's context is.
    pub contexts: u64,
    /// The table of the event ring's segments.
    pub segments: u64,
    /// The array of the controller's own pages, if it asked for any.
    pub scratchpad: Option<u64>,
    /// How many pages stand behind the array.
    pub pages: u64,
}

impl Rings {
    /// How many pages the controller was given for itself.
    pub fn scratchpad_count(&self) -> (many: u64)
        ensures
            many == if self.scratchpad is Some {
                self.pages
            } else {
                0
            },
    {
        if self.scratchpad.is_some() {
            self.pages
        } else {
            0
        }
    }
}

/// Where the array of contexts is, for a driver adding a slot to it, once there
/// is one.
pub fn contexts(rings: Option<&Rings>) -> (at: u64)
    ensures
        at == match rings {
            Some(rings) => rings.contexts,
            None => 0,
        },
{
    match rings {
        Some(rings) => rings.contexts,
        None => 0,
    }
}

/// How many pages the controller needs, if its slots fit one page of contexts
/// and its own pages one page of addresses.
pub open spec fn pages_needed(slots: u64, scratchpads: u64) -> Option<nat> {
    if (slots + 1) * 8 > PAGE || scratchpads * 8 > PAGE {
        None
    } else if scratchpads > 0 {
        Some((5 + scratchpads) as nat)
    } else {
        Some(4)
    }
}

/// How many pages to take for [`build`].
pub fn frames_needed(slots: u64, scratchpads: u64) -> (many: Option<u64>)
    ensures
        match many {
            Some(many) => pages_needed(slots, scratchpads) == Some(many as nat),
            None => pages_needed(slots, scratchpads) is None,
        },
{
    if slots > 511 || scratchpads > 512 {
        return None;
    }
    if scratchpads > 0 {
        Some(5 + scratchpads)
    } else {
        Some(4)
    }
}

/// The stores that give the controller its own pages: each is zeroed, and its
/// address goes into the array.
pub open spec fn scratchpad_stores(array: u64, pages: Seq<u64>, many: nat) -> Seq<Store>
    decreases many,
{
    if many == 0 {
        Seq::empty()
    } else {
        scratchpad_stores(array, pages, (many - 1) as nat) + seq![
            Store::Zero { at: pages[many - 1] },
            Store::Long { at: (array + (many - 1) * 8) as u64, long: pages[many - 1] },
        ]
    }
}

/// Everything that is stored before the controller is told of it. The pages are
/// taken in order: commands, events, contexts, the array of the controller's own
/// pages and those pages where there are any, and the segments.
pub open spec fn build_stores(frames: Seq<u64>, scratchpads: u64) -> Seq<Store> {
    let last = frames[frames.len() - 1];
    let rings = seq![Store::Zero { at: frames[0] }] + entry_stores(
        (frames[0] + 4080) as u64,
        link(frames[0], true),
    ) + seq![Store::Zero { at: frames[1] }, Store::Zero { at: frames[2] }];
    let own = if scratchpads > 0 {
        seq![Store::Zero { at: frames[3] }] + scratchpad_stores(
            frames[3],
            frames.skip(4),
            scratchpads as nat,
        ) + seq![Store::Long { at: frames[2], long: frames[3] }]
    } else {
        Seq::empty()
    };
    rings + own + seq![
        Store::Zero { at: last },
        Store::Long { at: last, long: frames[1] },
        Store::Word { at: (last + 8) as u64, word: RING_SIZE as u32 },
    ]
}

/// Whether every page is where a page can be.
pub open spec fn pages_wf(frames: Seq<u64>) -> bool {
    forall|i: int| 0 <= i < frames.len() ==> #[trigger] frames[i] <= u64::MAX - PAGE
}

/// Build everything the controller needs out of the pages that could be had, if
/// that is as many as it takes.
pub fn build(slots: u64, scratchpads: u64, frames: &[u64]) -> (built: Option<(Rings, Vec<Store>)>)
    requires
        pages_wf(frames@),
    ensures
        match built {
            None => pages_needed(slots, scratchpads) is None || frames@.len() < pages_needed(
                slots,
                scratchpads,
            ).unwrap(),
            Some((rings, stores)) => {
                let needed = pages_needed(slots, scratchpads);
                &&& needed is Some
                &&& frames@.len() >= needed.unwrap()
                &&& rings.commands.wf()
                &&& rings.commands@ == fresh(frames@[0])
                &&& rings.events.wf()
                &&& rings.events@ == (ConsumerModel { physical: frames@[1], at: 0, cycle: true })
                &&& rings.contexts == frames@[2]
                &&& rings.segments == frames@[needed.unwrap() - 1]
                &&& rings.scratchpad == if scratchpads > 0 {
                    Some(frames@[3])
                } else {
                    None
                }
                &&& rings.pages == scratchpads
                &&& stores@ == build_stores(frames@.take(needed.unwrap() as int), scratchpads)
            },
        },
{
    let needed: u64 = match frames_needed(slots, scratchpads) {
        None => return None,
        Some(needed) => needed,
    };
    if (frames.len() as u64) < needed {
        return None;
    }
    let ghost used = frames@.take(needed as int);
    let (commands, mut stores) = Producer::new(frames[0]);
    let (events, zero) = Consumer::new(frames[1]);
    stores.push(zero);
    let contexts: u64 = frames[2];
    stores.push(Store::Zero { at: contexts });
    let ghost rings = stores@;
    assert(rings =~= seq![Store::Zero { at: used[0] }] + entry_stores(
        (used[0] + 4080) as u64,
        link(used[0], true),
    ) + seq![Store::Zero { at: used[1] }, Store::Zero { at: used[2] }]);
    let scratchpad: Option<u64> = if scratchpads > 0 {
        let array: u64 = frames[3];
        stores.push(Store::Zero { at: array });
        let ghost pages = used.skip(4);
        let ghost opened = stores@;
        let mut index: u64 = 0;
        assert(opened + scratchpad_stores(array, pages, 0) =~= opened);
        while index < scratchpads
            invariant
                index <= scratchpads <= 512,
                needed == 5 + scratchpads,
                frames@.len() >= needed,
                used == frames@.take(needed as int),
                pages == used.skip(4),
                array == frames@[3],
                pages_wf(frames@),
                stores@ == opened + scratchpad_stores(array, pages, index as nat),
            decreases scratchpads - index,
        {
            let page: u64 = frames[4 + index as usize];
            assert(page == pages[index as int]);
            assert(array == used[3]);
            stores.push(Store::Zero { at: page });
            stores.push(Store::Long { at: array + index * 8, long: page });
            assert(stores@ =~= opened + scratchpad_stores(array, pages, (index + 1) as nat));
            index += 1;
        }
        stores.push(Store::Long { at: contexts, long: array });
        assert(stores@ =~= rings + (seq![Store::Zero { at: array }] + scratchpad_stores(
            array,
            pages,
            scratchpads as nat,
        ) + seq![Store::Long { at: contexts, long: array }]));
        Some(array)
    } else {
        assert(stores@ =~= rings + Seq::<Store>::empty());
        None
    };
    let segments: u64 = frames[needed as usize - 1];
    stores.push(Store::Zero { at: segments });
    stores.push(Store::Long { at: segments, long: events.physical() });
    stores.push(Store::Word { at: segments + 8, word: RING_SIZE as u32 });
    assert(stores@ =~= build_stores(used, scratchpads));
    Some((Rings { commands, events, contexts, segments, scratchpad, pages: scratchpads }, stores))
}

} // verus!
