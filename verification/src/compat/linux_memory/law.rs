//! What a program counts on when it asks for memory, in its own numbers: the
//! bits of a protection, the bits of the flags, and pages of 4096 bytes.
use vstd::prelude::*;

#[allow(unused_imports)]
use super::{
    covers, flags_for, pages_for, private_mapping, searching, shared_view, unfilled, Fill, Filling,
    Mapped, Mapping, Memory, Model, Next, ObjectPage, PageFlags, Paging, PlacingModel, Protect,
    Protecting, Request, Search, ATTEMPTS, MAX_MMAP, PAGE,
};
#[allow(unused_imports)]
use crate::compat::error::{EINVAL, ENODEV, ENOMEM};

verus! {

/// The pages for some bytes are the fewest that hold them.
pub proof fn law_the_fewest_pages(length: u64)
    ensures
        pages_for(length) * 4096 >= length,
        (pages_for(length) - 1) * 4096 < length,
{
}

/// Bit zero of a protection asks for a page that can be read, bit one for one that
/// can be written, and bit two for one that can be run. A page that cannot be
/// read, and one that can be both written and run, is not to be had.
pub proof fn law_protection_bits(protection: u64)
    ensures
        flags_for(protection) is Some <==> protection & 1 != 0 && (protection & 2 == 0 || protection
            & 4 == 0),
        flags_for(protection) matches Some(flags) ==> {
            &&& flags.writable <==> protection & 2 != 0
            &&& flags.executable <==> protection & 4 != 0
            &&& !flags.shared
        },
{
}

/// A view of a memory object that is placed has pages that are writable exactly
/// where that was asked for, that are never run, and that belong to the object;
/// it shows the object from the page the place in it names.
pub proof fn law_a_view_is_what_was_asked_for(process: u64, request: Request, memory: Memory)
    requires
        0 < request.length,
    ensures
        shared_view(process, request, memory) matches Next::Place { mapping } ==> {
            &&& mapping.memory == Some(
                ObjectPage { object: memory.object, page: (request.offset / 4096) as u64 },
            )
            &&& mapping.flags.writable <==> request.protection & 2 != 0
            &&& !mapping.flags.executable
            &&& mapping.flags.shared
            &&& mapping.file is None
            &&& mapping.process == process
            &&& (mapping.pages - 1) * 4096 < request.length <= mapping.pages * 4096
            &&& request.offset + request.length <= memory.pages * 4096
        },
        shared_view(process, request, memory) is Place <==> request.offset % 4096 == 0
            && request.offset + request.length <= memory.pages * 4096,
        !(shared_view(process, request, memory) is Place) ==> shared_view(process, request, memory)
            == Next::Answer(EINVAL),
{
}

/// Two views of one object differ in nothing but what their requests differ in:
/// asking to write as well changes that the pages are writable, and nothing else.
pub proof fn law_asking_to_write_changes_only_that(process: u64, request: Request, memory: Memory)
    requires
        request.protection & 2 == 0,
    ensures
        ({
            let other = Request { protection: request.protection | 2, ..request };
            let reading = shared_view(process, request, memory);
            let writing = shared_view(process, other, memory);
            &&& reading is Place <==> writing is Place
            &&& reading matches Next::Place { mapping } ==> !mapping.flags.writable && writing
                == (Next::Place {
                mapping: Mapping {
                    flags: PageFlags { writable: true, ..mapping.flags },
                    ..mapping
                },
            })
        }),
{
    let asked = request.protection;
    assert((asked | 2u64) & 2u64 == 2) by (bit_vector);
}

/// What a private mapping is, wherever it goes: as many pages as the length takes,
/// of the kind the protection asks for, filled from the file at the place that
/// was given, or with zeros where bit five of the flags says there is no file.
pub proof fn law_a_private_mapping_is_what_was_asked_for(
    process: u64,
    request: Request,
    node: Result<(), u64>,
    user_space_end: u64,
)
    requires
        0 < request.length,
        flags_for(request.protection) is Some,
    ensures
        ({
            let next = private_mapping(process, request, node, user_space_end);
            match next {
                Next::Answer(_) => true,
                Next::Vacant { mapping, .. } | Next::Release { mapping, .. } | Next::Place {
                    mapping,
                } => {
                    &&& mapping.process == process
                    &&& (mapping.pages - 1) * 4096 < request.length <= mapping.pages * 4096
                    &&& mapping.flags.writable <==> request.protection & 2 != 0
                    &&& mapping.flags.executable <==> request.protection & 4 != 0
                    &&& !mapping.flags.shared
                    &&& mapping.memory is None
                    &&& request.flags & 0x20 != 0 ==> mapping.file is None
                    &&& request.flags & 0x20 == 0 ==> mapping.file == Some(request.offset)
                },
            }
        }),
{
}

/// Where a private mapping goes, and when there is none. Bit zero of the flags
/// asks for a shared one, which needs a device; without bit one there is no
/// private one. Bits four and twenty insist on the address, and bit twenty on
/// finding nothing there.
pub proof fn law_where_a_private_mapping_goes(
    process: u64,
    request: Request,
    node: Result<(), u64>,
    user_space_end: u64,
)
    requires
        0 < request.length,
    ensures
        ({
            let next = private_mapping(process, request, node, user_space_end);
            let no_file = request.flags & 0x20 == 0 && node is Err;
            let insists = request.flags & 0x10 != 0 || request.flags & 0x10_0000 != 0;
            let end = request.address + pages_for(request.length) * 4096;
            if request.flags & 1 != 0 {
                next == Next::Answer(ENODEV)
            } else if request.flags & 2 == 0 || request.offset % 4096 != 0 {
                next == Next::Answer(EINVAL)
            } else if no_file {
                next == Next::Answer(node->Err_0)
            } else if !insists {
                next is Place
            } else if request.address == 0 || request.address % 4096 != 0 {
                next == Next::Answer(EINVAL)
            } else if end >= user_space_end {
                next == Next::Answer(ENOMEM)
            } else if request.flags & 0x10_0000 != 0 {
                next matches Next::Vacant { at, .. } && at == request.address
            } else {
                next matches Next::Release { at, .. } && at == request.address
            }
        }),
{
    let flags = request.flags;
    assert(flags & (0x10u64 | 0x10_0000u64) != 0 <==> flags & 0x10u64 != 0 || flags & 0x10_0000u64
        != 0) by (bit_vector);
}

/// A range covers a mapping exactly where no byte of the mapping is outside it.
pub proof fn law_covering_leaves_nothing_out(at: u64, pages: u64, mapping: Mapped)
    requires
        mapping.pages > 0,
    ensures
        covers(at, pages, mapping) <==> forall|byte: int|
            mapping.at <= byte < mapping.at + 4096 * mapping.pages ==> #[trigger] within(
                byte,
                at,
                pages,
            ),
{
    let first: int = mapping.at as int;
    let last: int = mapping.at + 4096 * mapping.pages - 1;
    if forall|byte: int|
        mapping.at <= byte < mapping.at + 4096 * mapping.pages ==> #[trigger] within(
            byte,
            at,
            pages,
        ) {
        assert(within(first, at, pages));
        assert(within(last, at, pages));
    }
}

/// Whether a byte is in a range of pages.
pub open spec fn within(byte: int, at: u64, pages: u64) -> bool {
    at <= byte < at + 4096 * pages
}

/// A program that has mapped nothing is offered the first place there is: one low
/// enough for half a register where the program has no more than that, and kept
/// below 0xB000_0000 there.
pub proof fn law_the_first_place(
    state: Model,
    mapping: Mapping,
    thirty_two_bit: bool,
    user_space_end: u64,
)
    requires
        !state.next.dom().contains(mapping.process),
    ensures
        ({
            let search = searching(mapping, thirty_two_bit, user_space_end);
            let (next, after) = search.offered(state);
            let bytes = mapping.pages * 4096;
            if thirty_two_bit {
                &&& 0x4000_0000 + bytes < 0xB000_0000 ==> next == Search::Look(0x4000_0000)
                    && after.next[mapping.process] == 0x4000_0000 + bytes
                &&& 0x4000_0000 + bytes >= 0xB000_0000 ==> next == Search::Full
            } else {
                &&& 0x2000_0000_0000 + bytes < user_space_end ==> next == Search::Look(
                    0x2000_0000_0000,
                ) && after.next[mapping.process] == 0x2000_0000_0000 + bytes
                &&& 0x2000_0000_0000 + bytes >= user_space_end ==> next == Search::Full
            }
        }),
{
}

/// A search offers the place where the last mapping ended, leaves the other
/// processes and every count alone, and gives up after 64 places.
pub proof fn law_a_search_goes_on_from_the_last_place(state: Model, search: PlacingModel, other: u64)
    requires
        search.tried <= 64,
        other != search.mapping.process,
        state.next.dom().contains(search.mapping.process),
    ensures
        ({
            let (next, after) = search.offered(state);
            let at = state.next[search.mapping.process];
            let end = at + search.mapping.pages * 4096;
            &&& next == Search::Look(at) <==> search.tried < 64 && end < search.limit
            &&& !(next is Look) ==> next == Search::Full && after.next[search.mapping.process] == at
            &&& next is Look ==> after.next[search.mapping.process] == end
            &&& after.next.dom().contains(other) == state.next.dom().contains(other)
            &&& state.next.dom().contains(other) ==> after.next[other] == state.next[other]
            &&& after.shared == state.shared
            &&& after.mapped == state.mapped
            &&& after.unmapped == state.unmapped
            &&& after.placed == state.placed
        }),
{
}

/// The pages of a mapping are filled in order. Page by page: a frame of zeros, or
/// the object's own page as far into it as the page is into the mapping; then the
/// file's bytes from as far behind its place; then the frame goes to the address as
/// far behind the first, for what the mapping is for.
pub proof fn law_each_page_has_its_place(filling: Filling, frame: u64)
    requires
        filling.wf(),
        filling.done < filling.mapping.pages,
    ensures
        filling.paging is Frame && filling.mapping.memory is None ==> filling.asks() == Fill::Zeros,
        filling.paging is Frame ==> (filling.mapping.memory matches Some(first) ==> filling.asks()
            == Fill::Object(
            ObjectPage { object: first.object, page: (first.page + filling.done) as u64 },
        )),
        filling.paging == Paging::Reading(frame) && filling.mapping.file->Some_0 + filling.done
            * 4096 <= u64::MAX ==> filling.asks() == (Fill::Read {
            frame,
            offset: (filling.mapping.file->Some_0 + filling.done * 4096) as u64,
        }),
        filling.paging == Paging::Mapping(frame) ==> filling.asks() == (Fill::Place {
            virt: (filling.at + filling.done * 4096) as u64,
            frame,
            flags: filling.mapping.flags,
        }),
        filling.with_frame(frame).paging == Paging::Reading(frame) <==> filling.mapping.file is Some
            && filling.mapping.memory is None,
        filling.with_frame(frame).paging is Reading || filling.with_frame(frame).paging
            == Paging::Mapping(frame),
        filling.advanced().done == filling.done + 1,
        filling.advanced().paging is Frame,
        filling.advanced().at == filling.at && filling.advanced().mapping == filling.mapping,
{
}

/// A mapping that is complete answers with its address, counts its pages, and
/// where it is a view of an object keeps that object and is remembered, behind
/// what the process had before. Nothing is recorded of other processes.
pub proof fn law_a_complete_mapping_is_recorded(filling: Filling, state: Model, other: u64)
    requires
        other != filling.mapping.process,
        state.mapped + filling.mapping.pages <= u64::MAX,
    ensures
        ({
            let after = filling.recorded(state);
            let process = filling.mapping.process;
            &&& after.mapped == state.mapped + filling.mapping.pages
            &&& after.unmapped == state.unmapped && after.placed == state.placed && after.next
                == state.next
            &&& after.held(other) == state.held(other)
            &&& filling.mapping.memory is None ==> {
                &&& filling.ends() == Fill::Answer(filling.at)
                &&& after.held(process) == state.held(process)
            }
            &&& filling.mapping.memory matches Some(first) ==> {
                &&& filling.ends() == (Fill::Keep { object: first.object, answer: filling.at })
                &&& after.held(process).len() == state.held(process).len() + 1
                &&& after.held(process).drop_last() == state.held(process)
                &&& after.held(process).last() == (Mapped {
                    at: filling.at,
                    pages: filling.mapping.pages,
                    object: first.object,
                })
            }
        }),
{
    let process = filling.mapping.process;
    if let Some(first) = filling.mapping.memory {
        let mapped = Mapped {
            at: filling.at,
            pages: filling.mapping.pages,
            object: first.object,
        };
        assert(state.held(process).push(mapped).drop_last() =~= state.held(process));
    }
}

/// A change of protection goes over the pages in order, each 4096 bytes behind the
/// last, all to the same flags, and ends with zero; it stops where the program's
/// half ends.
pub proof fn law_protecting_goes_page_by_page(protecting: Protecting, user_space_end: u64)
    ensures
        ({
            let step = protecting.next(user_space_end);
            let virt = protecting.address + protecting.page * 4096;
            &&& protecting.page >= protecting.pages <==> step == Protect::Answer(0)
            &&& protecting.page < protecting.pages && virt >= user_space_end ==> step
                == Protect::Answer(ENOMEM)
            &&& protecting.page < protecting.pages && virt < user_space_end ==> step
                == (Protect::Page { virt: virt as u64, flags: protecting.flags })
        }),
{
}

/// A page is 4096 bytes, one call maps 256 megabytes at most, and a search tries
/// 64 places.
pub proof fn law_how_large_things_are()
    ensures
        PAGE == 4096,
        MAX_MMAP == 256 * 1024 * 1024,
        ATTEMPTS == 64,
{
}

} // verus!
