//! Memory, for a program built for Linux.
//!
//! Anonymous or file-backed mappings, private, at an address of the caller's
//! choosing or of this layer's. A file mapping is a copy of the file's bytes
//! into fresh pages; memory with a descriptor on it is mapped shared, and the
//! mapping keeps it alive after the descriptor is closed. No page is ever both
//! writable and executable.
use vstd::prelude::*;

use crate::compat::error::{EEXIST, EINVAL, EIO, ENODEV, ENOMEM, ENOSYS};
use crate::count::{count, counted};
use crate::table::Table;

pub mod flag;
pub mod law;

verus! {

/// Where a mapping goes when the caller did not say.
pub const MMAP_BASE: u64 = 0x0000_2000_0000_0000;

/// And where one goes for a program that is thirty-two bit.
///
/// Such a program gets its addresses back in half a register, so they have to
/// fit in one.
pub const MMAP_BASE32: u64 = 0x4000_0000;

/// The highest address a thirty-two bit mapping may reach.
pub const MMAP_LIMIT32: u64 = 0xB000_0000;

/// The most one `mmap` will give out.
pub const MAX_MMAP: u64 = 0x1000_0000;

/// Bytes in a page.
pub const PAGE: u64 = 4096;

/// How many times to step past something already mapped before giving up.
pub const ATTEMPTS: u32 = 64;

/// What a page is mapped for. Every one is present and the program's.
#[derive(Clone, Copy, PartialEq, Eq, Structural, Debug)]
pub struct PageFlags {
    pub writable: bool,
    pub executable: bool,
    /// The frame belongs to a memory object and not to the address space.
    pub shared: bool,
}

/// A view of a memory object that a process is holding open.
#[derive(Clone, Copy, PartialEq, Eq, Structural, Debug)]
pub struct Mapped {
    pub at: u64,
    pub pages: u64,
    /// What the object is known by.
    pub object: u64,
}

/// Where each process's next mapping goes, what it holds open, and the counts.
pub struct State {
    next: Table<u64>,
    shared: Table<Vec<Mapped>>,
    mapped: u64,
    unmapped: u64,
    placed: u64,
}

/// The same, as a value.
#[verifier::ext_equal]
pub struct Model {
    /// Where each process's next unplaced mapping goes.
    pub next: Map<u64, u64>,
    /// What each process has mapped that belongs to a memory object.
    pub shared: Map<u64, Seq<Mapped>>,
    /// Pages handed out.
    pub mapped: u64,
    /// Pages given back.
    pub unmapped: u64,
    /// Mappings placed where the caller insisted.
    pub placed: u64,
}

impl Model {
    /// What `process` holds open.
    pub open spec fn held(self, process: u64) -> Seq<Mapped> {
        if self.shared.dom().contains(process) {
            self.shared[process]
        } else {
            Seq::empty()
        }
    }
}

impl View for State {
    type V = Model;

    closed spec fn view(&self) -> Model {
        Model {
            next: self.next@,
            shared: Map::new(
                |process: u64| self.shared@.dom().contains(process),
                |process: u64| self.shared@[process]@,
            ),
            mapped: self.mapped,
            unmapped: self.unmapped,
            placed: self.placed,
        }
    }
}

impl State {
    /// The tables are in order, and every place kept for a process is at the
    /// start of a page.
    pub closed spec fn wf(&self) -> bool {
        &&& self.next.wf()
        &&& self.shared.wf()
        &&& forall|process: u64| #[trigger]
            self.next@.dom().contains(process) ==> self.next@[process] % PAGE == 0
    }

    /// Nothing is mapped.
    pub fn new() -> (state: Self)
        ensures
            state.wf(),
            state@ == (Model {
                next: Map::empty(),
                shared: Map::empty(),
                mapped: 0,
                unmapped: 0,
                placed: 0,
            }),
    {
        let state = State {
            next: Table::new(),
            shared: Table::new(),
            mapped: 0,
            unmapped: 0,
            placed: 0,
        };
        assert(state@.shared =~= Map::empty());
        state
    }
}

/// Pages mapped, pages unmapped, and mappings placed where the caller insisted.
pub fn statistics(state: &State) -> (counts: (u64, u64, u64))
    ensures
        counts == (state@.mapped, state@.unmapped, state@.placed),
{
    (state.mapped, state.unmapped, state.placed)
}

/// Forget a process's placement cursor and let go of what it had mapped.
///
/// Called when it ends and when it becomes another program. What comes back are
/// the objects it held open, to be let go of.
pub fn forget(state: &mut State, process: u64) -> (released: Vec<Mapped>)
    requires
        old(state).wf(),
    ensures
        final(state).wf(),
        released@ == old(state)@.held(process),
        final(state)@ == (Model {
            next: old(state)@.next.remove(process),
            shared: old(state)@.shared.remove(process),
            ..old(state)@
        }),
{
    state.next.remove(process);
    let taken = state.shared.remove(process);
    assert(state@.shared =~= old(state)@.shared.remove(process));
    match taken {
        Some(mappings) => mappings,
        None => {
            let none: Vec<Mapped> = Vec::new();
            assert(none@ =~= Seq::empty());
            none
        },
    }
}

/// What pages a protection asks for, if it asks for something there is.
///
/// A page has to be readable, and may not be both writable and executable.
pub open spec fn flags_for(protection: u64) -> Option<PageFlags> {
    if protection & flag::PROT_READ == 0 || (protection & flag::PROT_WRITE != 0 && protection
        & flag::PROT_EXEC != 0) {
        None
    } else {
        Some(
            PageFlags {
                writable: protection & flag::PROT_WRITE != 0,
                executable: protection & flag::PROT_EXEC != 0,
                shared: false,
            },
        )
    }
}

/// What pages a protection asks for, if it asks for something there is.
pub fn page_flags(protection: u64) -> (flags: Option<PageFlags>)
    ensures
        flags == flags_for(protection),
{
    if protection == flag::PROT_NONE || protection & flag::PROT_READ == 0 {
        assert(0u64 & 1u64 == 0) by (bit_vector);
        return None;
    }
    if protection & flag::PROT_WRITE != 0 && protection & flag::PROT_EXEC != 0 {
        return None;
    }
    Some(
        PageFlags {
            writable: protection & flag::PROT_WRITE != 0,
            executable: protection & flag::PROT_EXEC != 0,
            shared: false,
        },
    )
}

/// How many pages `length` bytes take.
pub open spec fn pages_for(length: u64) -> u64 {
    ((length + PAGE - 1) / PAGE as int) as u64
}

fn page_count(length: u64) -> (pages: u64)
    ensures
        pages == pages_for(length),
        pages * PAGE >= length,
        length <= MAX_MMAP ==> pages <= 0x1_0000,
{
    let whole: u64 = length / PAGE;
    if length % PAGE == 0 {
        whole
    } else {
        whole + 1
    }
}

/// Whether every page of a range is absent, given which are.
pub open spec fn all_absent(absent: Seq<bool>) -> bool {
    forall|i: int| 0 <= i < absent.len() ==> #[trigger] absent[i]
}

/// Whether every page of a range is absent, given which are.
pub fn is_free(absent: &[bool]) -> (free: bool)
    ensures
        free == all_absent(absent@),
{
    let mut at: usize = 0;
    while at < absent.len()
        invariant
            at <= absent@.len(),
            forall|i: int| 0 <= i < at ==> #[trigger] absent@[i],
        decreases absent@.len() - at,
    {
        if !absent[at] {
            return false;
        }
        at += 1;
    }
    true
}

/// What a search for room is to do next.
#[derive(Clone, Copy, PartialEq, Eq, Structural, Debug)]
pub enum Search {
    /// Look which of the pages from here on are absent, and go on with
    /// [`Placing::looked`].
    Look(u64),
    /// Every page from here on was absent: go on with [`fill`].
    At(u64),
    /// There is no room: go on with [`fill`], which says so.
    Full,
}

/// A place that was looked at, and which of its pages were absent.
pub struct Looked {
    pub at: u64,
    pub absent: Seq<bool>,
}

/// A search for room for a mapping.
pub struct Placing {
    mapping: Mapping,
    base: u64,
    limit: u64,
    tried: u32,
    now: Search,
    looks: Ghost<Seq<Looked>>,
}

/// The same, as a value.
#[verifier::ext_equal]
pub struct PlacingModel {
    /// What room is looked for.
    pub mapping: Mapping,
    /// Where the search starts for a process that has mapped nothing.
    pub base: u64,
    /// What no mapping may reach.
    pub limit: u64,
    /// Places asked for.
    pub tried: u32,
    pub now: Search,
    /// The places that were looked at, in order.
    pub looks: Seq<Looked>,
}

impl PlacingModel {
    /// Bytes to find room for.
    pub open spec fn bytes(self) -> int {
        self.mapping.pages * PAGE
    }

    /// Whether a place is one that can be offered.
    pub open spec fn offers(self, at: u64) -> bool {
        at % PAGE == 0 && at + self.bytes() < self.limit
    }

    /// The search is for whole pages, from the start of a page. The place it has
    /// come to was looked at last and was free, and no place before it was.
    pub open spec fn sound(self) -> bool {
        &&& self.mapping.wf()
        &&& self.base % PAGE == 0
        &&& forall|i: int|
            0 <= i < self.looks.len() ==> (#[trigger] self.looks[i]).absent.len()
                == self.mapping.pages
        &&& match self.now {
            Search::Look(at) => self.offers(at) && self.passed(self.looks.len() as int),
            Search::At(at) => {
                &&& self.offers(at)
                &&& self.looks.len() > 0
                &&& self.looks.last().at == at
                &&& all_absent(self.looks.last().absent)
                &&& self.passed(self.looks.len() - 1)
            },
            Search::Full => self.passed(self.looks.len() as int),
        }
    }

    /// Each of the first so many places that were looked at had something mapped
    /// in it.
    pub open spec fn passed(self, many: int) -> bool {
        forall|i: int| 0 <= i < many ==> !all_absent((#[trigger] self.looks[i]).absent)
    }

    /// Where the next place is.
    pub open spec fn cursor(self, state: Model) -> u64 {
        if state.next.dom().contains(self.mapping.process) {
            state.next[self.mapping.process]
        } else {
            self.base
        }
    }

    /// The next place to look at, if there is one left, and the cursor after it.
    ///
    /// The cursor only goes up, so that no place is offered twice, and it goes
    /// past a place whether or not that turns out to be free.
    pub open spec fn offered(self, state: Model) -> (Search, Model) {
        let at = self.cursor(state);
        if self.tried >= ATTEMPTS {
            (Search::Full, state)
        } else if at + self.bytes() >= self.limit {
            (Search::Full, Model { next: state.next.insert(self.mapping.process, at), ..state })
        } else {
            (
                Search::Look(at),
                Model {
                    next: state.next.insert(
                        self.mapping.process,
                        (at + self.bytes()) as u64,
                    ),
                    ..state
                },
            )
        }
    }

    /// The search once it has asked for the next place.
    pub open spec fn moved_on(self, state: Model) -> PlacingModel {
        PlacingModel {
            tried: if self.tried >= ATTEMPTS {
                self.tried
            } else {
                (self.tried + 1) as u32
            },
            now: self.offered(state).0,
            ..self
        }
    }

    /// The search once the place it has come to was looked at.
    pub open spec fn seen(self, absent: Seq<bool>) -> PlacingModel {
        PlacingModel { looks: self.looks.push(Looked { at: self.now->Look_0, absent }), ..self }
    }
}

impl View for Placing {
    type V = PlacingModel;

    closed spec fn view(&self) -> PlacingModel {
        PlacingModel {
            mapping: self.mapping,
            base: self.base,
            limit: self.limit,
            tried: self.tried,
            now: self.now,
            looks: self.looks@,
        }
    }
}

impl Placing {
    /// The search is in order.
    pub open spec fn wf(&self) -> bool {
        self@.sound()
    }

    /// Ask for the next place.
    fn candidate(&mut self, state: &mut State) -> (next: Search)
        requires
            old(state).wf(),
            old(self)@.mapping.wf(),
            old(self)@.base % PAGE == 0,
        ensures
            final(state).wf(),
            final(self)@ == old(self)@.moved_on(old(state)@),
            (next, final(state)@) == old(self)@.offered(old(state)@),
            next matches Search::Look(at) ==> old(self)@.offers(at),
    {
        if self.tried >= ATTEMPTS {
            self.now = Search::Full;
            return Search::Full;
        }
        self.tried += 1;
        let process: u64 = self.mapping.process;
        let at: u64 = match state.next.get(process) {
            Some(at) => *at,
            None => self.base,
        };
        let ghost before = state@;
        let end: u64 = match at.checked_add(self.mapping.pages * PAGE) {
            Some(end) if end < self.limit => end,
            _ => {
                state.next.insert(process, at);
                assert(state@.shared =~= before.shared);
                self.now = Search::Full;
                return Search::Full;
            },
        };
        state.next.insert(process, end);
        assert(state@.shared =~= before.shared);
        self.now = Search::Look(at);
        Search::Look(at)
    }

    /// Go on: which pages of the place that was to be looked at are absent.
    ///
    /// A place is used only if every one of its pages is absent: a mapping the
    /// caller insisted on may be anywhere, also in front of the cursor. Where one
    /// is not, the next place is looked at.
    pub fn looked(&mut self, state: &mut State, absent: &[bool]) -> (next: Search)
        requires
            old(state).wf(),
            old(self).wf(),
            old(self)@.now is Look,
            absent@.len() == old(self)@.mapping.pages,
        ensures
            final(state).wf(),
            final(self).wf(),
            next == final(self)@.now,
            all_absent(absent@) ==> {
                &&& next == Search::At(old(self)@.now->Look_0)
                &&& final(self)@ == (PlacingModel { now: next, ..old(self)@.seen(absent@) })
                &&& final(state)@ == old(state)@
            },
            !all_absent(absent@) ==> {
                &&& (next, final(state)@) == old(self)@.offered(old(state)@)
                &&& final(self)@ == old(self)@.seen(absent@).moved_on(old(state)@)
            },
    {
        let at: u64 = match self.now {
            Search::Look(at) => at,
            _ => 0,
        };
        let ghost before = self@;
        self.looks = Ghost(self.looks@.push(Looked { at, absent: absent@ }));
        proof {
            let looks = self.looks@;
            assert(looks.last() == (Looked { at, absent: absent@ }));
            assert forall|i: int| 0 <= i < before.looks.len() implies #[trigger] looks[i]
                == before.looks[i] by {}
            assert(self@ =~= before.seen(absent@));
        }
        if is_free(absent) {
            self.now = Search::At(at);
            return Search::At(at);
        }
        self.candidate(state)
    }
}

/// Start looking for room for a mapping: the search, and its first step.
///
/// Where a program's mappings live depends on how wide the program is.
pub fn place(
    state: &mut State,
    mapping: Mapping,
    thirty_two_bit: bool,
    user_space_end: u64,
) -> (started: (Placing, Search))
    requires
        old(state).wf(),
        mapping.wf(),
    ensures
        final(state).wf(),
        started.0.wf(),
        started.1 == started.0@.now,
        ({
            let fresh = searching(mapping, thirty_two_bit, user_space_end);
            &&& started.0@ == fresh.moved_on(old(state)@)
            &&& (started.1, final(state)@) == fresh.offered(old(state)@)
        }),
{
    let mut search = Placing {
        mapping,
        base: if thirty_two_bit {
            MMAP_BASE32
        } else {
            MMAP_BASE
        },
        limit: if thirty_two_bit {
            MMAP_LIMIT32
        } else {
            user_space_end
        },
        tried: 0,
        now: Search::Full,
        looks: Ghost(Seq::empty()),
    };
    assert(search@ =~= searching(mapping, thirty_two_bit, user_space_end));
    let next = search.candidate(state);
    (search, next)
}

/// A search that has asked for no place yet.
pub open spec fn searching(
    mapping: Mapping,
    thirty_two_bit: bool,
    user_space_end: u64,
) -> PlacingModel {
    PlacingModel {
        mapping,
        base: if thirty_two_bit {
            MMAP_BASE32
        } else {
            MMAP_BASE
        },
        limit: if thirty_two_bit {
            MMAP_LIMIT32
        } else {
            user_space_end
        },
        tried: 0,
        now: Search::Full,
        looks: Seq::empty(),
    }
}

/// A range on its way out of an address space.
pub struct Releasing {
    at: u64,
    pages: u64,
    page: u64,
    removed: u64,
}

impl Releasing {
    pub closed spec fn at(self) -> u64 {
        self.at
    }

    pub closed spec fn pages(self) -> u64 {
        self.pages
    }

    /// Pages done with.
    pub closed spec fn page(self) -> u64 {
        self.page
    }

    /// Pages that were mapped.
    pub closed spec fn removed(self) -> u64 {
        self.removed
    }

    /// No more done with than there are, and no more removed than that.
    pub open spec fn wf(self) -> bool {
        self.removed() <= self.page() <= self.pages()
    }

    /// The next page to unmap, if there is one in the program's half.
    pub fn next(&self, user_space_end: u64) -> (virt: Option<u64>)
        requires
            self.wf(),
        ensures
            virt == if self.page() < self.pages() && self.at() + self.page() * PAGE
                < user_space_end {
                Some((self.at() + self.page() * PAGE) as u64)
            } else {
                None
            },
    {
        if self.page >= self.pages {
            return None;
        }
        let virt: u128 = self.at as u128 + self.page as u128 * 4096u128;
        if virt >= user_space_end as u128 {
            return None;
        }
        Some(virt as u64)
    }

    /// The page was mapped, or was not; whether its frame goes back.
    ///
    /// A shared frame belongs to everyone else who maps it and does not.
    pub fn unmapped(&mut self, was_mapped: bool, shared: bool) -> (free: bool)
        requires
            old(self).wf(),
            old(self).page() < old(self).pages(),
        ensures
            final(self).wf(),
            final(self).at() == old(self).at(),
            final(self).pages() == old(self).pages(),
            final(self).page() == old(self).page() + 1,
            final(self).removed() == old(self).removed() + if was_mapped {
                1int
            } else {
                0
            },
            free == (was_mapped && !shared),
    {
        self.page += 1;
        if was_mapped {
            self.removed += 1;
        }
        was_mapped && !shared
    }
}

/// Whether a range covers the whole of a mapping.
pub open spec fn covers(at: u64, pages: u64, mapping: Mapped) -> bool {
    mapping.at >= at && mapping.at + mapping.pages * PAGE <= at + pages * PAGE
}

/// Start taking a range out of the address space.
pub fn release(at: u64, pages: u64) -> (range: Releasing)
    ensures
        range.wf(),
        range.at() == at,
        range.pages() == pages,
        range.page() == 0,
        range.removed() == 0,
{
    Releasing { at, pages, page: 0, removed: 0 }
}

/// Finish taking a range out: count what went, and let go of every memory
/// object the range was a whole view of.
///
/// A range that takes only part of a view leaves the object alive for the rest.
pub fn released(state: &mut State, process: u64, range: Releasing) -> (objects: Vec<Mapped>)
    requires
        old(state).wf(),
    ensures
        final(state).wf(),
        objects@ == old(state)@.held(process).filter(
            |mapping: Mapped| covers(range.at(), range.pages(), mapping),
        ),
        final(state)@ == (Model {
            unmapped: counted(old(state)@.unmapped, range.removed()),
            shared: if old(state)@.shared.dom().contains(process) {
                old(state)@.shared.insert(
                    process,
                    old(state)@.shared[process].filter(
                        |mapping: Mapped| !covers(range.at(), range.pages(), mapping),
                    ),
                )
            } else {
                old(state)@.shared
            },
            ..old(state)@
        }),
{
    let ghost before = state@;
    let ghost covered = |mapping: Mapped| covers(range.at, range.pages, mapping);
    let ghost apart = |mapping: Mapped| !covers(range.at, range.pages, mapping);
    state.unmapped = count(state.unmapped, range.removed);
    let mut taken: Vec<Mapped> = Vec::new();
    let mappings = match state.shared.remove(process) {
        Some(mappings) => mappings,
        None => {
            assert(state@.shared =~= before.shared);
            assert(taken@ =~= Seq::<Mapped>::empty().filter(covered)) by {
                reveal(Seq::filter);
            }
            return taken;
        },
    };
    let mut kept: Vec<Mapped> = Vec::new();
    let mut at: usize = 0;
    proof {
        assert(mappings@.take(0) =~= Seq::empty());
        reveal(Seq::filter);
    }
    while at < mappings.len()
        invariant
            at <= mappings@.len(),
            covered == (|mapping: Mapped| covers(range.at, range.pages, mapping)),
            apart == (|mapping: Mapped| !covers(range.at, range.pages, mapping)),
            taken@ == mappings@.take(at as int).filter(covered),
            kept@ == mappings@.take(at as int).filter(apart),
        decreases mappings@.len() - at,
    {
        let mapping: Mapped = mappings[at];
        proof {
            assert(mappings@.take(at + 1).drop_last() =~= mappings@.take(at as int));
            assert(mappings@.take(at + 1).last() == mappings@[at as int]);
            reveal(Seq::filter);
        }
        let end: u128 = mapping.at as u128 + mapping.pages as u128 * 4096u128;
        let limit: u128 = range.at as u128 + range.pages as u128 * 4096u128;
        if mapping.at >= range.at && end <= limit {
            taken.push(mapping);
        } else {
            kept.push(mapping);
        }
        at += 1;
    }
    assert(mappings@.take(at as int) =~= mappings@);
    state.shared.insert(process, kept);
    assert(state@.shared =~= before.shared.insert(process, kept@));
    taken
}

/// What `mmap` was asked for.
#[derive(Clone, Copy, PartialEq, Eq, Structural, Debug)]
pub struct Request {
    pub address: u64,
    pub length: u64,
    pub protection: u64,
    pub flags: u64,
    pub offset: u64,
}

/// Memory with a descriptor on it: what it is known by, and its size in pages.
#[derive(Clone, Copy, PartialEq, Eq, Structural, Debug)]
pub struct Memory {
    pub object: u64,
    pub pages: u64,
}

/// One page of a memory object.
#[derive(Clone, Copy, PartialEq, Eq, Structural, Debug)]
pub struct ObjectPage {
    pub object: u64,
    pub page: u64,
}

/// What is to be mapped, once there is a place for it.
#[derive(Clone, Copy, PartialEq, Eq, Structural, Debug)]
pub struct Mapping {
    pub process: u64,
    pub pages: u64,
    pub flags: PageFlags,
    /// Where in the file the first page is, for a file mapping.
    pub file: Option<u64>,
    /// The memory object, and its first page that is mapped.
    pub memory: Option<ObjectPage>,
}

impl Mapping {
    /// The mapping has pages, and no more than there can be.
    pub open spec fn wf(self) -> bool {
        &&& self.pages > 0
        &&& self.pages * PAGE <= u64::MAX
        &&& self.memory matches Some(first) ==> first.page + self.pages <= u64::MAX
    }
}

/// What `mmap` is to do next.
#[derive(Clone, Copy, PartialEq, Eq, Structural, Debug)]
pub enum Next {
    Answer(u64),
    /// Look which of the pages in the range are absent, and go on with
    /// [`vacant`].
    Vacant { at: u64, mapping: Mapping },
    /// Take out whatever is in the range, and go on with [`insisted`].
    Release { at: u64, mapping: Mapping },
    /// Find a place for it: [`place`].
    Place { mapping: Mapping },
}

impl Next {
    /// What is to be mapped can be, and where the caller insisted.
    pub open spec fn wf(self) -> bool {
        match self {
            Next::Answer(_) => true,
            Next::Vacant { at, mapping } | Next::Release { at, mapping } => mapping.wf() && at
                + mapping.pages * PAGE <= u64::MAX,
            Next::Place { mapping } => mapping.wf(),
        }
    }
}

/// What a view of memory with a descriptor on it comes to.
pub open spec fn shared_view(process: u64, request: Request, memory: Memory) -> Next {
    let pages = pages_for(request.length);
    let first = (request.offset / PAGE) as u64;
    if request.offset % PAGE != 0 || first + pages > memory.pages {
        Next::Answer(EINVAL)
    } else {
        Next::Place {
            mapping: Mapping {
                process,
                pages,
                flags: PageFlags {
                    writable: request.protection & flag::PROT_WRITE != 0,
                    executable: false,
                    shared: true,
                },
                file: None,
                memory: Some(ObjectPage { object: memory.object, page: first }),
            },
        }
    }
}

/// What a private mapping comes to.
pub open spec fn private_mapping(
    process: u64,
    request: Request,
    node: Result<(), u64>,
    user_space_end: u64,
) -> Next {
    let pages = pages_for(request.length);
    let anonymous = request.flags & flag::ANONYMOUS != 0;
    let fixed = request.flags & (flag::FIXED | flag::FIXED_NOREPLACE) != 0;
    let mapping = Mapping {
        process,
        pages,
        flags: flags_for(request.protection).unwrap(),
        file: if anonymous {
            None
        } else {
            Some(request.offset)
        },
        memory: None,
    };
    if request.flags & flag::SHARED != 0 {
        Next::Answer(ENODEV)
    } else if request.flags & flag::PRIVATE == 0 || request.offset % PAGE != 0 {
        Next::Answer(EINVAL)
    } else if !anonymous && node is Err {
        Next::Answer(node->Err_0)
    } else if !fixed {
        Next::Place { mapping }
    } else if request.address == 0 || request.address % PAGE != 0 {
        Next::Answer(EINVAL)
    } else if request.address + pages * PAGE >= user_space_end {
        Next::Answer(ENOMEM)
    } else if request.flags & flag::FIXED_NOREPLACE != 0 {
        Next::Vacant { at: request.address, mapping }
    } else {
        Next::Release { at: request.address, mapping }
    }
}

/// `mmap(address, length, protection, flags, fd, offset)`.
///
/// `memory` is the memory the descriptor names, if it names any, and `node`
/// whether it names a file; both are looked at only where the mapping is not
/// anonymous. A bad descriptor is a refusal before a page is mapped.
pub fn mmap(
    process: Option<u64>,
    request: Request,
    memory: Option<Memory>,
    node: Result<(), u64>,
    user_space_end: u64,
) -> (next: Next)
    ensures
        next == if request.length == 0 || request.length > MAX_MMAP || flags_for(
            request.protection,
        ) is None {
            Next::Answer(EINVAL)
        } else if process is None {
            Next::Answer(ENOSYS)
        } else if request.flags & flag::ANONYMOUS == 0 && memory is Some {
            shared_view(process.unwrap(), request, memory.unwrap())
        } else {
            private_mapping(process.unwrap(), request, node, user_space_end)
        },
        next.wf(),
        match next {
            Next::Answer(_) => true,
            Next::Vacant { mapping, .. } | Next::Release { mapping, .. } | Next::Place { mapping } => {
                &&& mapping.flags.writable <==> request.protection & 2 != 0
                &&& mapping.flags.executable ==> request.protection & 4 != 0
                &&& mapping.flags.shared <==> mapping.memory is Some
                &&& mapping.memory is None ==> (mapping.flags.executable <==> request.protection & 4
                    != 0)
                &&& Some(mapping.process) == process
                &&& (mapping.pages - 1) * 4096 < request.length <= mapping.pages * 4096
            },
        },
{
    if request.length == 0 || request.length > MAX_MMAP {
        return Next::Answer(EINVAL);
    }
    let flags: PageFlags = match page_flags(request.protection) {
        Some(flags) => flags,
        None => return Next::Answer(EINVAL),
    };
    let process: u64 = match process {
        Some(process) => process,
        None => return Next::Answer(ENOSYS),
    };
    let anonymous: bool = request.flags & flag::ANONYMOUS != 0;
    if !anonymous {
        if let Some(memory) = memory {
            return share(process, request, memory);
        }
    }
    if request.flags & flag::SHARED != 0 {
        return Next::Answer(ENODEV);
    }
    if request.flags & flag::PRIVATE == 0 || request.offset % PAGE != 0 {
        return Next::Answer(EINVAL);
    }
    let pages: u64 = page_count(request.length);
    let fixed: bool = request.flags & (flag::FIXED | flag::FIXED_NOREPLACE) != 0;
    if !anonymous {
        if let Err(reason) = node {
            return Next::Answer(reason);
        }
    }
    let mapping = Mapping {
        process,
        pages,
        flags,
        file: if anonymous {
            None
        } else {
            Some(request.offset)
        },
        memory: None,
    };
    if !fixed {
        return Next::Place { mapping };
    }
    if request.address == 0 || request.address % PAGE != 0 {
        return Next::Answer(EINVAL);
    }
    if request.address as u128 + pages as u128 * 4096u128 >= user_space_end as u128 {
        return Next::Answer(ENOMEM);
    }
    if request.flags & flag::FIXED_NOREPLACE != 0 {
        Next::Vacant { at: request.address, mapping }
    } else {
        Next::Release { at: request.address, mapping }
    }
}

/// A view of memory with a descriptor on it, shared rather than copied.
///
/// The address is this layer's choice whatever the caller asked for.
pub fn share(process: u64, request: Request, memory: Memory) -> (next: Next)
    requires
        0 < request.length <= MAX_MMAP,
    ensures
        next == shared_view(process, request, memory),
        next.wf(),
{
    if request.offset % PAGE != 0 {
        return Next::Answer(EINVAL);
    }
    let first: u64 = request.offset / PAGE;
    let pages: u64 = page_count(request.length);
    if first + pages > memory.pages {
        return Next::Answer(EINVAL);
    }
    Next::Place {
        mapping: Mapping {
            process,
            pages,
            flags: PageFlags {
                writable: request.protection & flag::PROT_WRITE != 0,
                executable: false,
                shared: true,
            },
            file: None,
            memory: Some(ObjectPage { object: memory.object, page: first }),
        },
    }
}

/// Whether a place the caller insisted on may be used, given which of its pages
/// are absent.
pub fn vacant(absent: &[bool], at: u64, mapping: Mapping) -> (next: Next)
    requires
        absent@.len() == mapping.pages,
    ensures
        next == if all_absent(absent@) {
            Next::Release { at, mapping }
        } else {
            Next::Answer(EEXIST)
        },
{
    if is_free(absent) {
        Next::Release { at, mapping }
    } else {
        Next::Answer(EEXIST)
    }
}

/// How far one page of a mapping is.
#[derive(Clone, Copy, PartialEq, Eq, Structural, Debug)]
pub enum Paging {
    /// It has no frame yet.
    Frame,
    /// The file is to be read into this frame.
    Reading(u64),
    /// This frame is to be mapped.
    Mapping(u64),
}

/// Pages on their way into an address space.
#[derive(Clone, Copy, PartialEq, Eq, Structural, Debug)]
pub struct Filling {
    pub at: u64,
    pub mapping: Mapping,
    /// Pages mapped so far.
    pub done: u64,
    /// How far the next is.
    pub paging: Paging,
}

/// A page of a mapping.
#[derive(Clone, Copy, PartialEq, Eq, Structural, Debug)]
pub struct Page {
    pub virt: u64,
    pub flags: PageFlags,
    /// Where in the file its bytes start, if it is filled from one.
    pub file: Option<u64>,
    /// Which page of a memory object it is, if it is one.
    pub memory: Option<ObjectPage>,
}

/// What a mapping is to do next, or what `mmap` answers.
#[derive(Clone, Copy, PartialEq, Eq, Structural, Debug)]
pub enum Fill {
    Answer(u64),
    /// Let the mapping keep this object, then answer this.
    Keep { object: u64, answer: u64 },
    /// Find the frame of this page, and go on with [`Filling::framed`].
    Object(ObjectPage),
    /// Get a frame and fill it with zeros before anything can see it, and go on
    /// with [`Filling::framed`].
    Zeros,
    /// Read the file from this offset into the frame, as far as it goes, and go
    /// on with [`Filling::read`].
    Read { frame: u64, offset: u64 },
    /// Map the frame at this address, and go on with [`Filling::mapped`].
    Place { virt: u64, frame: u64, flags: PageFlags },
    /// Give back the frame, which nothing refers to, then answer this.
    Free { frame: u64, answer: u64 },
}

/// A mapping none of whose pages has a frame yet.
pub open spec fn unfilled(at: u64, mapping: Mapping) -> Filling {
    Filling { at, mapping, done: 0, paging: Paging::Frame }
}

impl Filling {
    /// The mapping has pages, and they lie in the address space.
    pub open spec fn wf(self) -> bool {
        &&& self.mapping.wf()
        &&& self.done <= self.mapping.pages
        &&& self.at + self.mapping.pages * PAGE <= u64::MAX
        &&& self.paging is Reading ==> self.mapping.file is Some && self.mapping.memory is None
    }

    /// The page that is mapped next. A file offset past the end of the number
    /// space wraps.
    pub open spec fn next_page(self) -> Page {
        Page {
            virt: (self.at + self.done * PAGE) as u64,
            flags: self.mapping.flags,
            file: match self.mapping.file {
                Some(offset) => Some(counted(offset, (self.done * PAGE) as u64)),
                None => None,
            },
            memory: match self.mapping.memory {
                Some(first) => Some(
                    ObjectPage { object: first.object, page: (first.page + self.done) as u64 },
                ),
                None => None,
            },
        }
    }

    /// What is to be done for the next page.
    pub open spec fn asks(self) -> Fill {
        let page = self.next_page();
        match self.paging {
            Paging::Frame => match page.memory {
                Some(page) => Fill::Object(page),
                None => Fill::Zeros,
            },
            Paging::Reading(frame) => Fill::Read { frame, offset: page.file.unwrap() },
            Paging::Mapping(frame) => Fill::Place { virt: page.virt, frame, flags: page.flags },
        }
    }

    /// The mapping once the next page has a frame: a file is read into it first.
    pub open spec fn with_frame(self, frame: u64) -> Filling {
        Filling {
            paging: if self.mapping.file is Some && self.mapping.memory is None {
                Paging::Reading(frame)
            } else {
                Paging::Mapping(frame)
            },
            ..self
        }
    }

    /// The mapping once the next page is mapped.
    pub open spec fn advanced(self) -> Filling {
        Filling { done: (self.done + 1) as u64, paging: Paging::Frame, ..self }
    }

    /// What follows a frame that could not be read into or mapped: it is given
    /// back, unless it belongs to an object.
    pub open spec fn fails(self, frame: u64, answer: u64) -> Fill {
        if self.mapping.memory is Some {
            Fill::Answer(answer)
        } else {
            Fill::Free { frame, answer }
        }
    }

    /// What a mapping all of whose pages are mapped answers.
    pub open spec fn ends(self) -> Fill {
        match self.mapping.memory {
            Some(first) => Fill::Keep { object: first.object, answer: self.at },
            None => Fill::Answer(self.at),
        }
    }

    /// What is known once a mapping has all its pages: a view of a memory object
    /// keeps the object alive from here on.
    pub open spec fn recorded(self, state: Model) -> Model {
        Model {
            mapped: counted(state.mapped, self.mapping.pages),
            shared: match self.mapping.memory {
                Some(first) => state.shared.insert(
                    self.mapping.process,
                    state.held(self.mapping.process).push(
                        Mapped {
                            at: self.at,
                            pages: self.mapping.pages,
                            object: first.object,
                        },
                    ),
                ),
                None => state.shared,
            },
            ..state
        }
    }

    fn ask(&self) -> (fill: Fill)
        requires
            self.wf(),
            self.done < self.mapping.pages,
        ensures
            fill == self.asks(),
    {
        let skipped: u64 = self.done * PAGE;
        match self.paging {
            Paging::Frame => match self.mapping.memory {
                Some(first) => Fill::Object(
                    ObjectPage { object: first.object, page: first.page + self.done },
                ),
                None => Fill::Zeros,
            },
            Paging::Reading(frame) => Fill::Read {
                frame,
                offset: match self.mapping.file {
                    Some(offset) => count(offset, skipped),
                    None => 0,
                },
            },
            Paging::Mapping(frame) => Fill::Place {
                virt: self.at + skipped,
                frame,
                flags: self.mapping.flags,
            },
        }
    }

    /// Go on: the frame the page asked for, if there is one.
    ///
    /// What was mapped stays mapped when a later page fails.
    pub fn framed(&mut self, frame: Option<u64>) -> (fill: Fill)
        requires
            old(self).wf(),
            old(self).done < old(self).mapping.pages,
            old(self).paging is Frame,
        ensures
            final(self).wf(),
            match frame {
                Some(frame) => {
                    &&& *final(self) == old(self).with_frame(frame)
                    &&& fill == final(self).asks()
                },
                None => {
                    &&& *final(self) == *old(self)
                    &&& fill == Fill::Answer(
                        if old(self).mapping.memory is Some {
                            EINVAL
                        } else {
                            ENOMEM
                        },
                    )
                },
            },
    {
        match frame {
            None => Fill::Answer(
                if self.mapping.memory.is_some() {
                    EINVAL
                } else {
                    ENOMEM
                },
            ),
            Some(frame) => {
                self.paging = if self.mapping.file.is_some() && self.mapping.memory.is_none() {
                    Paging::Reading(frame)
                } else {
                    Paging::Mapping(frame)
                };
                self.ask()
            },
        }
    }

    /// Go on: whether the file could be read. Past its end there is nothing to
    /// read, and the frame stays zeros.
    pub fn read(&mut self, done: bool) -> (fill: Fill)
        requires
            old(self).wf(),
            old(self).done < old(self).mapping.pages,
            old(self).paging is Reading,
        ensures
            final(self).wf(),
            if done {
                &&& *final(self) == (Filling {
                    paging: Paging::Mapping(old(self).paging->Reading_0),
                    ..*old(self)
                })
                &&& fill == final(self).asks()
            } else {
                &&& *final(self) == *old(self)
                &&& fill == Fill::Free { frame: old(self).paging->Reading_0, answer: EIO }
            },
    {
        let frame: u64 = match self.paging {
            Paging::Reading(frame) => frame,
            _ => 0,
        };
        if !done {
            return Fill::Free { frame, answer: EIO };
        }
        self.paging = Paging::Mapping(frame);
        self.ask()
    }

    /// Go on: whether the frame could be mapped.
    pub fn mapped(&mut self, state: &mut State, done: bool) -> (fill: Fill)
        requires
            old(state).wf(),
            old(self).wf(),
            old(self).done < old(self).mapping.pages,
            old(self).paging is Mapping,
        ensures
            final(state).wf(),
            final(self).wf(),
            if done {
                &&& *final(self) == old(self).advanced()
                &&& if final(self).done < final(self).mapping.pages {
                    fill == final(self).asks() && final(state)@ == old(state)@
                } else {
                    fill == final(self).ends() && final(state)@ == final(self).recorded(
                        old(state)@,
                    )
                }
            } else {
                &&& *final(self) == *old(self)
                &&& final(state)@ == old(state)@
                &&& fill == old(self).fails(old(self).paging->Mapping_0, ENOMEM)
            },
    {
        let frame: u64 = match self.paging {
            Paging::Mapping(frame) => frame,
            _ => 0,
        };
        if !done {
            return if self.mapping.memory.is_some() {
                Fill::Answer(ENOMEM)
            } else {
                Fill::Free { frame, answer: ENOMEM }
            };
        }
        self.done += 1;
        self.paging = Paging::Frame;
        if self.done < self.mapping.pages {
            return self.ask();
        }
        let ghost before = state@;
        state.mapped = count(state.mapped, self.mapping.pages);
        match self.mapping.memory {
            None => Fill::Answer(self.at),
            Some(first) => {
                let mut mappings = match state.shared.remove(self.mapping.process) {
                    Some(mappings) => mappings,
                    None => Vec::new(),
                };
                let ghost held = mappings@;
                mappings.push(
                    Mapped { at: self.at, pages: self.mapping.pages, object: first.object },
                );
                state.shared.insert(self.mapping.process, mappings);
                assert(held =~= before.held(self.mapping.process));
                assert(state@.shared =~= before.shared.insert(self.mapping.process, mappings@));
                Fill::Keep { object: first.object, answer: self.at }
            },
        }
    }
}

/// Start mapping, at the place a search came to, or answer that there is none.
pub fn fill(search: Placing) -> (started: Result<(Filling, Fill), u64>)
    requires
        search.wf(),
        !(search@.now is Look),
    ensures
        started == match search@.now {
            Search::At(at) => {
                let filling = unfilled(at, search@.mapping);
                Ok::<(Filling, Fill), u64>((filling, filling.asks()))
            },
            _ => Err(ENOMEM),
        },
        started matches Ok((filling, _)) ==> filling.wf(),
{
    match search.now {
        Search::At(at) => {
            let filling = Filling {
                at,
                mapping: search.mapping,
                done: 0,
                paging: Paging::Frame,
            };
            let first = filling.ask();
            Ok((filling, first))
        },
        _ => Err(ENOMEM),
    }
}

/// Start mapping where the caller insisted, once what was there is out.
pub fn insisted(state: &mut State, at: u64, mapping: Mapping) -> (started: (Filling, Fill))
    requires
        old(state).wf(),
        unfilled(at, mapping).wf(),
    ensures
        final(state).wf(),
        final(state)@ == (Model { placed: counted(old(state)@.placed, 1), ..old(state)@ }),
        started.0 == unfilled(at, mapping),
        started.1 == started.0.asks(),
{
    state.placed = count(state.placed, 1);
    let filling = Filling { at, mapping, done: 0, paging: Paging::Frame };
    let first = filling.ask();
    (filling, first)
}

/// `munmap(address, length)`: a refusal, or the range to take out before
/// answering zero.
pub fn munmap(has_process: bool, address: u64, length: u64) -> (range: Result<Releasing, u64>)
    ensures
        match range {
            Err(reason) => {
                ||| (length == 0 || address % PAGE != 0) && reason == EINVAL
                ||| length != 0 && address % PAGE == 0 && !has_process && reason == ENOSYS
            },
            Ok(range) => {
                &&& length != 0
                &&& address % PAGE == 0
                &&& has_process
                &&& range.wf()
                &&& range.at() == address
                &&& range.pages() == pages_for(length)
                &&& range.page() == 0
                &&& range.removed() == 0
            },
        },
{
    if length == 0 || address % PAGE != 0 {
        return Err(EINVAL);
    }
    if !has_process {
        return Err(ENOSYS);
    }
    Ok(release(address, page_count(length)))
}

/// Pages whose protection is being changed.
#[derive(Clone, Copy, PartialEq, Eq, Structural, Debug)]
pub struct Protecting {
    pub address: u64,
    pub pages: u64,
    pub flags: PageFlags,
    pub page: u64,
}

/// What `mprotect` is to do next.
#[derive(Clone, Copy, PartialEq, Eq, Structural, Debug)]
pub enum Protect {
    Answer(u64),
    /// Change this page, and go on with [`Protecting::changed`].
    Page { virt: u64, flags: PageFlags },
}

impl Protecting {
    /// The page that is changed next, or the answer.
    pub open spec fn next(self, user_space_end: u64) -> Protect {
        if self.page >= self.pages {
            Protect::Answer(0)
        } else if self.address + self.page * PAGE >= user_space_end {
            Protect::Answer(ENOMEM)
        } else {
            Protect::Page { virt: (self.address + self.page * PAGE) as u64, flags: self.flags }
        }
    }

    fn page_now(&self, user_space_end: u64) -> (step: Protect)
        ensures
            step == self.next(user_space_end),
    {
        if self.page >= self.pages {
            return Protect::Answer(0);
        }
        let virt: u128 = self.address as u128 + self.page as u128 * 4096u128;
        if virt >= user_space_end as u128 {
            return Protect::Answer(ENOMEM);
        }
        Protect::Page { virt: virt as u64, flags: self.flags }
    }

    /// Go on: the page was changed, or was not mapped.
    pub fn changed(&mut self, mapped: bool, user_space_end: u64) -> (step: Protect)
        requires
            old(self).page < old(self).pages,
        ensures
            !mapped ==> step == Protect::Answer(ENOMEM) && *final(self) == *old(self),
            mapped ==> {
                &&& *final(self) == Protecting { page: (old(self).page + 1) as u64, ..*old(self) }
                &&& step == final(self).next(user_space_end)
            },
    {
        if !mapped {
            return Protect::Answer(ENOMEM);
        }
        self.page += 1;
        self.page_now(user_space_end)
    }
}

/// `mprotect(address, length, protection)`.
///
/// This changes the page tables, or fails: a range with a hole in it is
/// refused at the hole.
pub fn mprotect(
    has_process: bool,
    address: u64,
    length: u64,
    protection: u64,
    user_space_end: u64,
) -> (started: Result<(Protecting, Protect), u64>)
    ensures
        ({
            let protecting = Protecting {
                address,
                pages: pages_for(length),
                flags: flags_for(protection).unwrap(),
                page: 0,
            };
            started == if address % PAGE != 0 {
                Err::<(Protecting, Protect), u64>(EINVAL)
            } else if length == 0 {
                Err(0)
            } else if flags_for(protection) is None {
                Err(EINVAL)
            } else if !has_process {
                Err(ENOSYS)
            } else {
                Ok((protecting, protecting.next(user_space_end)))
            }
        }),
{
    if address % PAGE != 0 {
        return Err(EINVAL);
    }
    if length == 0 {
        return Err(0);
    }
    let flags: PageFlags = match page_flags(protection) {
        Some(flags) => flags,
        None => return Err(EINVAL),
    };
    if !has_process {
        return Err(ENOSYS);
    }
    let protecting = Protecting { address, pages: page_count(length), flags, page: 0 };
    let first = protecting.page_now(user_space_end);
    Ok((protecting, first))
}

/// Bytes that go into one page.
#[derive(Clone, Copy, PartialEq, Eq, Structural, Debug)]
pub struct Piece {
    /// The page they go into.
    pub page: u64,
    /// Where in it.
    pub within: u64,
    /// Where they are taken from.
    pub from: u64,
    pub take: u64,
}

/// The pieces that `length` bytes from `from` on, going to `at`, are cut into at
/// page boundaries.
pub open spec fn cut(at: nat, length: nat, from: nat) -> Seq<Piece>
    decreases length,
{
    if length == 0 {
        Seq::empty()
    } else {
        let within = at % PAGE as nat;
        let take = if PAGE - within < length {
            (PAGE - within) as nat
        } else {
            length
        };
        seq![
            Piece {
                page: (at - within) as u64,
                within: within as u64,
                from: from as u64,
                take: take as u64,
            },
        ] + cut(at + take, (length - take) as nat, from + take)
    }
}

/// Cut a write into pieces that each stay inside one page.
///
/// The frames behind a range are not contiguous, so each piece is looked up for
/// itself.
pub fn write_into(at: u64, length: u64) -> (pieces: Vec<Piece>)
    requires
        at + length <= u64::MAX,
    ensures
        pieces@ == cut(at as nat, length as nat, 0),
{
    let mut pieces: Vec<Piece> = Vec::new();
    let mut written: u64 = 0;
    assert(pieces@ + cut(at as nat, length as nat, 0) =~= cut(at as nat, length as nat, 0));
    while written < length
        invariant
            written <= length,
            at + length <= u64::MAX,
            pieces@ + cut((at + written) as nat, (length - written) as nat, written as nat) == cut(
                at as nat,
                length as nat,
                0,
            ),
        decreases length - written,
    {
        let address: u64 = at + written;
        let within: u64 = address % PAGE;
        let room: u64 = PAGE - within;
        let left: u64 = length - written;
        let take: u64 = if room < left {
            room
        } else {
            left
        };
        let piece = Piece { page: address - within, within, from: written, take };
        let ghost rest = cut(
            (at + written + take) as nat,
            (length - written - take) as nat,
            (written + take) as nat,
        );
        assert(pieces@ + (seq![piece] + rest) =~= pieces@.push(piece) + rest);
        pieces.push(piece);
        written += take;
    }
    assert(pieces@ + cut((at + written) as nat, 0, written as nat) =~= pieces@);
    pieces
}

/// No page this layer maps for a program is both writable and executable,
/// whether it is fresh or a view of memory with a descriptor on it.
pub proof fn law_never_writable_and_executable(
    process: u64,
    request: Request,
    memory: Memory,
    node: Result<(), u64>,
    user_space_end: u64,
)
    ensures
        flags_for(request.protection) matches Some(flags) ==> !(flags.writable && flags.executable),
        shared_view(process, request, memory) matches Next::Place { mapping } ==> !(
        mapping.flags.writable && mapping.flags.executable),
        flags_for(request.protection) is Some ==> match private_mapping(
            process,
            request,
            node,
            user_space_end,
        ) {
            Next::Answer(_) => true,
            Next::Vacant { mapping, .. } | Next::Release { mapping, .. } | Next::Place { mapping }
                => !(mapping.flags.writable && mapping.flags.executable),
        },
{
}

/// A mapping starts where a search looked last and found every page absent, and
/// at the start of a page; at every place the search looked at before, something
/// was mapped. Where no such place was found nothing is mapped.
pub proof fn law_what_is_filled_was_free(search: Placing)
    requires
        search.wf(),
    ensures
        search@.now matches Search::At(at) ==> {
            let last = search@.looks.last();
            &&& at % PAGE == 0
            &&& at + search@.bytes() < search@.limit
            &&& search@.looks.len() > 0
            &&& last.at == at
            &&& last.absent.len() == search@.mapping.pages
            &&& forall|i: int| 0 <= i < search@.mapping.pages ==> #[trigger] last.absent[i]
            &&& forall|i: int|
                0 <= i < search@.looks.len() - 1 ==> !all_absent(
                    (#[trigger] search@.looks[i]).absent,
                )
        },
        !(search@.now is At) ==> forall|i: int|
            0 <= i < search@.looks.len() ==> !all_absent((#[trigger] search@.looks[i]).absent),
{
}

/// Two places offered one after the other do not overlap: the second starts
/// where the first ends or beyond it, and neither reaches the limit.
pub proof fn law_places_do_not_overlap(before: Model, search: PlacingModel)
    requires
        search.offered(before).0 is Look,
    ensures
        ({
            let first = search.cursor(before);
            let after = search.offered(before).1;
            &&& search.moved_on(before).cursor(after) == first + search.bytes()
            &&& first + search.bytes() < search.limit
        }),
{
}

/// A search ends: each place it is offered is one fewer that it may ask for.
pub proof fn law_a_search_ends(before: Model, search: PlacingModel)
    requires
        search.offered(before).0 is Look,
    ensures
        ATTEMPTS - search.moved_on(before).tried < ATTEMPTS - search.tried,
        search.moved_on(before).tried <= ATTEMPTS,
{
}

/// Where a page of a range is.
pub open spec fn page_at(at: u64, page: int) -> u64 {
    (at + page * PAGE) as u64
}

/// Which pages of a range are absent from an address space, of which what each
/// page is mapped for is given.
pub open spec fn absent_from(space: Map<u64, PageFlags>, at: u64, pages: u64) -> Seq<bool> {
    Seq::new(pages as nat, |i: int| !space.dom().contains(page_at(at, i)))
}

/// An address space once a mapping has got so far.
pub open spec fn filled(space: Map<u64, PageFlags>, filling: Filling) -> Map<u64, PageFlags>
    decreases filling.done,
{
    if filling.done == 0 {
        space
    } else {
        let before = Filling { done: (filling.done - 1) as u64, ..filling };
        filled(space, before).insert(before.next_page().virt, before.next_page().flags)
    }
}

proof fn lemma_filled(space: Map<u64, PageFlags>, filling: Filling)
    requires
        filling.wf(),
    ensures
        forall|i: int|
            0 <= i < filling.done ==> {
                &&& filled(space, filling).dom().contains(#[trigger] page_at(filling.at, i))
                &&& filled(space, filling)[page_at(filling.at, i)] == filling.mapping.flags
            },
        forall|virt: u64|
            !(filling.at <= virt < filling.at + filling.done * PAGE) ==> (#[trigger] filled(
                space,
                filling,
            ).dom().contains(virt) == space.dom().contains(virt)),
        forall|virt: u64|
            !(filling.at <= virt < filling.at + filling.done * PAGE) && space.dom().contains(virt)
                ==> #[trigger] filled(space, filling)[virt] == space[virt],
    decreases filling.done,
{
    if filling.done > 0 {
        let before = Filling { done: (filling.done - 1) as u64, ..filling };
        lemma_filled(space, before);
        let page = page_at(filling.at, before.done as int);
        let end = filling.at + filling.done * PAGE;
        assert(before.next_page().virt == page);
        assert(filling.at <= page < end);
        assert(filled(space, filling) == filled(space, before).insert(page, filling.mapping.flags));
        assert forall|virt: u64| !(filling.at <= virt < end) implies #[trigger] filled(
            space,
            filling,
        ).dom().contains(virt) == space.dom().contains(virt) by {
            assert(filled(space, before).dom().contains(virt) == space.dom().contains(virt));
        }
        assert forall|virt: u64|
            !(filling.at <= virt < end) && space.dom().contains(virt) implies #[trigger] filled(
            space,
            filling,
        )[virt] == space[virt] by {
            assert(filled(space, before)[virt] == space[virt]);
        }
    }
}

/// Memory that was asked for without a file and without an address is new: its
/// pages, as many as the length takes, were all absent, each is now mapped for
/// just what was asked, to a frame of zeros with nothing read into it, and no
/// other page of the address space has changed. The answer is where it starts.
///
/// `space` is what each page of the process is mapped for when the search looks
/// at the place it comes to, and `done` how many pages are mapped so far.
pub proof fn law_anonymous_memory_is_new(
    space: Map<u64, PageFlags>,
    process: u64,
    request: Request,
    node: Result<(), u64>,
    user_space_end: u64,
    search: Placing,
    done: u64,
)
    requires
        request.flags & flag::ANONYMOUS != 0,
        flags_for(request.protection) is Some,
        private_mapping(process, request, node, user_space_end) == (Next::Place {
            mapping: search@.mapping,
        }),
        search.wf(),
        search@.now is At,
        search@.looks.last().absent == absent_from(
            space,
            search@.looks.last().at,
            search@.mapping.pages,
        ),
        done <= search@.mapping.pages,
    ensures
        ({
            let at = search@.now->At_0;
            let pages = pages_for(request.length);
            let filling = Filling { done, ..unfilled(at, search@.mapping) };
            let after = filled(space, filling);
            &&& at % PAGE == 0
            &&& search@.mapping.pages == pages
            &&& search@.mapping.process == process
            &&& forall|i: int|
                0 <= i < pages ==> !space.dom().contains(#[trigger] page_at(at, i))
            &&& forall|i: int|
                0 <= i < done ==> {
                    &&& after.dom().contains(#[trigger] page_at(at, i))
                    &&& after[page_at(at, i)].writable == (request.protection & flag::PROT_WRITE
                        != 0)
                    &&& after[page_at(at, i)].executable == (request.protection & flag::PROT_EXEC
                        != 0)
                    &&& !after[page_at(at, i)].shared
                }
            &&& filling.ends() == Fill::Answer(at)
            &&& filling.asks() == Fill::Zeros
            &&& forall|frame: u64|
                (#[trigger] filling.with_frame(frame)).asks() == (Fill::Place {
                    virt: page_at(at, done as int),
                    frame,
                    flags: search@.mapping.flags,
                })
            &&& forall|virt: u64|
                !(at <= virt < at + pages * PAGE) ==> (#[trigger] after.dom().contains(virt)
                    == space.dom().contains(virt))
            &&& forall|virt: u64|
                !(at <= virt < at + pages * PAGE) && space.dom().contains(virt)
                    ==> #[trigger] after[virt] == space[virt]
        }),
{
    let at = search@.now->At_0;
    let filling = Filling { done, ..unfilled(at, search@.mapping) };
    let last = search@.looks.last();
    lemma_filled(space, filling);
    assert(done * PAGE <= search@.mapping.pages * PAGE);
    assert forall|i: int| 0 <= i < search@.mapping.pages implies !space.dom().contains(
        #[trigger] page_at(at, i),
    ) by {
        assert(last.absent[i]);
    }
}

/// A frame that was got for a page is mapped or given back, and a frame of a
/// memory object is never given back: whatever fails, the frame is one or the
/// other.
pub proof fn law_no_frame_is_lost(filling: Filling, frame: u64, answer: u64)
    requires
        filling.wf(),
        filling.paging is Frame,
    ensures
        ({
            let framed = filling.with_frame(frame);
            &&& framed.paging == Paging::Reading(frame) || framed.paging == Paging::Mapping(frame)
            &&& filling.mapping.memory is None ==> framed.fails(frame, answer) == (Fill::Free {
                frame,
                answer,
            })
            &&& filling.mapping.memory is Some ==> {
                &&& framed.paging == Paging::Mapping(frame)
                &&& framed.fails(frame, answer) == Fill::Answer(answer)
            }
        }),
{
}

/// Every piece of a write lies inside one page, and the pieces are the write:
/// each starts where the one before it ended, the first at its start and the
/// last at its end.
pub proof fn law_pieces_tile_the_write(at: nat, length: nat, from: nat)
    requires
        at + length <= u64::MAX,
        from + length <= u64::MAX,
    ensures
        ({
            let pieces = cut(at, length, from);
            &&& forall|i: int|
                0 <= i < pieces.len() ==> {
                    &&& (#[trigger] pieces[i]).page % PAGE == 0
                    &&& 0 < pieces[i].take
                    &&& pieces[i].within + pieces[i].take <= PAGE
                    &&& pieces[i].page + pieces[i].within == at + (pieces[i].from - from)
                }
            &&& length > 0 ==> pieces.len() > 0 && pieces[0].from == from
            &&& forall|i: int|
                #![trigger pieces[i]]
                0 <= i < pieces.len() - 1 ==> pieces[i + 1].from == pieces[i].from + pieces[i].take
            &&& length > 0 ==> pieces.last().from + pieces.last().take == from + length
        }),
    decreases length,
{
    if length > 0 {
        let within = at % PAGE as nat;
        let take = if PAGE - within < length {
            (PAGE - within) as nat
        } else {
            length
        };
        let rest = cut(at + take, (length - take) as nat, from + take);
        law_pieces_tile_the_write(at + take, (length - take) as nat, from + take);
        let pieces = cut(at, length, from);
        assert(pieces.drop_first() =~= rest);
        assert forall|i: int| 0 <= i < pieces.len() implies {
            &&& (#[trigger] pieces[i]).page % PAGE == 0
            &&& 0 < pieces[i].take
            &&& pieces[i].within + pieces[i].take <= PAGE
            &&& pieces[i].page + pieces[i].within == at + (pieces[i].from - from)
        } by {
            if i > 0 {
                assert(pieces[i] == rest[i - 1]);
            }
        }
        assert forall|i: int| #![trigger pieces[i]] 0 <= i < pieces.len() - 1 implies pieces[i
            + 1].from == pieces[i].from + pieces[i].take by {
            assert(pieces[i + 1] == rest[i]);
            if i > 0 {
                assert(pieces[i] == rest[i - 1]);
            }
        }
        if rest.len() > 0 {
            assert(pieces.last() == rest.last());
        }
        if length - take > 0 {
            assert(rest.len() > 0);
        } else {
            assert(rest.len() == 0);
        }
    }
}

} // verus!
