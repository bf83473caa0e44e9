//! Memory.
use nexus_kernel::compat::error::{EBADF, EEXIST, EINVAL, EIO, ENODEV, ENOMEM, ENOSYS};
use nexus_kernel::compat::linux_memory::{
    fill, flag, forget, insisted, is_free, mmap, mprotect, munmap, page_flags, place, release,
    released, statistics, vacant, write_into, Fill, Filling, Mapping, Memory, Next, ObjectPage,
    PageFlags, Placing, Protect, Request, Search, State, MMAP_BASE, MMAP_BASE32,
};

const END: u64 = 0x8000_0000_0000;

/// The second page of the first place.
const SECOND: u64 = MMAP_BASE + 4096;

fn request(length: u64, protection: u64, flags: u64) -> Request {
    Request { address: 0x40_0000, length, protection, flags, offset: 0 }
}

fn anonymous(length: u64, protection: u64) -> Next {
    mmap(Some(7), request(length, protection, 0x22), None, Err(EBADF), END)
}

fn plain(pages: u64) -> Mapping {
    Mapping {
        process: 7,
        pages,
        flags: PageFlags { writable: true, executable: false, shared: false },
        file: None,
        memory: None,
    }
}

/// A search that has come to the place it looked at first.
fn placed(state: &mut State, mapping: Mapping) -> Placing {
    let pages = mapping.pages as usize;
    let (mut search, first) = place(state, mapping, false, END);
    assert_eq!(first, Search::Look(MMAP_BASE));
    assert_eq!(search.looked(state, &vec![true; pages]), Search::At(MMAP_BASE));
    search
}

/// Map a page that takes one step more than its frame: what follows.
fn map_one(state: &mut State, filling: &mut Filling, frame: u64) -> Fill {
    assert!(matches!(filling.framed(Some(frame)), Fill::Place { .. }));
    filling.mapped(state, true)
}

#[test]
fn no_page_is_both_writable_and_executable() {
    assert!(page_flags(7).is_none());
    assert!(page_flags(6).is_none());
    let read = page_flags(1).unwrap();
    assert!(!read.writable && !read.executable && !read.shared);
    let write = page_flags(3).unwrap();
    assert!(write.writable && !write.executable);
    let execute = page_flags(5).unwrap();
    assert!(!execute.writable && execute.executable);
}

#[test]
fn anonymous_memory_is_placed() {
    match anonymous(4097, 3) {
        Next::Place { mapping } => {
            assert_eq!(mapping.pages, 2);
            assert_eq!(mapping.process, 7);
            assert!(mapping.file.is_none() && mapping.memory.is_none());
        }
        _ => panic!("not placed"),
    }
}

fn answer(next: Next) -> u64 {
    match next {
        Next::Answer(answer) => answer,
        _ => panic!("no answer"),
    }
}

#[test]
fn mappings_that_cannot_be() {
    assert_eq!(answer(mmap(None, request(1, 1, 0x22), None, Err(EBADF), END)), ENOSYS);
    assert_eq!(answer(anonymous(0, 1)), EINVAL);
    assert_eq!(answer(anonymous(0x1000_0001, 1)), EINVAL);
    assert_eq!(answer(anonymous(4096, 7)), EINVAL);
    assert_eq!(answer(anonymous(4096, 2)), EINVAL);
    assert_eq!(answer(mmap(Some(7), request(1, 1, 0x21), None, Err(EBADF), END)), ENODEV);
    assert_eq!(answer(mmap(Some(7), request(1, 1, 0x20), None, Err(EBADF), END)), EINVAL);
    assert_eq!(answer(mmap(Some(7), request(1, 1, 0x02), None, Err(EBADF), END)), EBADF);
}

#[test]
fn a_mapping_the_caller_insists_on() {
    let fixed = request(8192, 3, flag::PRIVATE | flag::ANONYMOUS | flag::FIXED);
    let (at, mapping) = match mmap(Some(7), fixed, None, Err(EBADF), END) {
        Next::Release { at, mapping } => (at, mapping),
        _ => panic!("not released first"),
    };
    assert_eq!(at, 0x40_0000);
    let mut state = State::new();
    let (mut filling, first) = insisted(&mut state, at, mapping);
    assert_eq!(first, Fill::Zeros);
    let place = filling.framed(Some(0x9000));
    assert!(matches!(place, Fill::Place { virt: 0x40_0000, frame: 0x9000, .. }));
    assert_eq!(filling.mapped(&mut state, true), Fill::Zeros);
    let place = filling.framed(Some(0xA000));
    assert!(matches!(place, Fill::Place { virt: 0x40_1000, frame: 0xA000, .. }));
    assert_eq!(filling.mapped(&mut state, true), Fill::Answer(0x40_0000));
    assert_eq!(statistics(&state), (2, 0, 1));
}

#[test]
fn places_a_caller_cannot_insist_on() {
    let flags = flag::PRIVATE | flag::ANONYMOUS | flag::FIXED;
    let mut odd = request(4096, 3, flags);
    odd.address = 0x40_0001;
    assert_eq!(answer(mmap(Some(7), odd, None, Err(EBADF), END)), EINVAL);
    let mut none = request(4096, 3, flags);
    none.address = 0;
    assert_eq!(answer(mmap(Some(7), none, None, Err(EBADF), END)), EINVAL);
    let mut high = request(4096, 3, flags);
    high.address = END - 4096;
    assert_eq!(answer(mmap(Some(7), high, None, Err(EBADF), END)), ENOMEM);
}

#[test]
fn a_place_that_has_to_be_empty() {
    let flags = flag::PRIVATE | flag::ANONYMOUS | flag::FIXED_NOREPLACE;
    let (at, mapping) = match mmap(Some(7), request(4096, 3, flags), None, Err(EBADF), END) {
        Next::Vacant { at, mapping } => (at, mapping),
        _ => panic!("not looked at"),
    };
    assert_eq!(answer(vacant(&[false], at, plain(1))), EEXIST);
    assert!(matches!(vacant(&[true], at, mapping), Next::Release { at: 0x40_0000, .. }));
    assert!(is_free(&[true, true]));
    assert!(!is_free(&[true, false]));
}

#[test]
fn a_file_is_copied_into_its_pages() {
    let mut file = request(8192, 1, flag::PRIVATE);
    file.offset = 4096;
    let mapping = match mmap(Some(7), file, None, Ok(()), END) {
        Next::Place { mapping } => mapping,
        _ => panic!("not placed"),
    };
    assert_eq!(mapping.file, Some(4096));
    let mut state = State::new();
    let (mut filling, first) = fill(placed(&mut state, mapping)).ok().unwrap();
    assert_eq!(first, Fill::Zeros);
    assert_eq!(filling.framed(Some(0x9000)), Fill::Read { frame: 0x9000, offset: 4096 });
    let place = filling.read(true);
    assert!(matches!(place, Fill::Place { virt: MMAP_BASE, frame: 0x9000, .. }));
    assert_eq!(filling.mapped(&mut state, true), Fill::Zeros);
    assert_eq!(filling.framed(Some(0xA000)), Fill::Read { frame: 0xA000, offset: 8192 });
    // The frame goes back where the file cannot be read or the page not mapped.
    let mut other = filling;
    assert_eq!(filling.read(false), Fill::Free { frame: 0xA000, answer: EIO });
    assert!(matches!(other.read(true), Fill::Place { virt: SECOND, .. }));
    let failed = other.mapped(&mut state, false);
    assert_eq!(failed, Fill::Free { frame: 0xA000, answer: ENOMEM });
}

#[test]
fn memory_with_a_descriptor_is_shared_and_kept() {
    let memory = Some(Memory { object: 55, pages: 3 });
    let shared = request(8192, 3, flag::SHARED);
    let mapping = match mmap(Some(7), shared, memory, Err(EBADF), END) {
        Next::Place { mapping } => mapping,
        _ => panic!("not placed"),
    };
    assert!(mapping.flags.shared);
    let mut state = State::new();
    let (mut filling, first) = fill(placed(&mut state, mapping)).ok().unwrap();
    assert_eq!(first, Fill::Object(ObjectPage { object: 55, page: 0 }));
    let second = map_one(&mut state, &mut filling, 0x9000);
    assert_eq!(second, Fill::Object(ObjectPage { object: 55, page: 1 }));
    // The frames are the object's: none of them goes back.
    let mut other = filling;
    assert!(matches!(other.framed(Some(0xA000)), Fill::Place { .. }));
    assert_eq!(other.mapped(&mut state, false), Fill::Answer(ENOMEM));
    let mut short = filling;
    assert_eq!(short.framed(None), Fill::Answer(EINVAL));
    let last = map_one(&mut state, &mut filling, 0xA000);
    assert_eq!(last, Fill::Keep { object: 55, answer: MMAP_BASE });
    let kept = forget(&mut state, 7);
    assert_eq!(kept.len(), 1);
    assert_eq!((kept[0].at, kept[0].pages, kept[0].object), (MMAP_BASE, 2, 55));
    assert!(forget(&mut state, 7).is_empty());
}

#[test]
fn a_view_past_the_end_of_memory_is_refused() {
    let memory = Some(Memory { object: 55, pages: 1 });
    let past = mmap(Some(7), request(8192, 3, flag::SHARED), memory, Err(EBADF), END);
    assert_eq!(answer(past), EINVAL);
    let mut late = request(4096, 3, flag::SHARED);
    late.offset = 1;
    let memory = Some(Memory { object: 55, pages: 1 });
    assert_eq!(answer(mmap(Some(7), late, memory, Err(EBADF), END)), EINVAL);
}

#[test]
fn no_memory_for_a_page() {
    let mut state = State::new();
    let (mut filling, _) = fill(placed(&mut state, plain(2))).ok().unwrap();
    assert_eq!(filling.framed(None), Fill::Answer(ENOMEM));
    let (full, next) = place(&mut state, plain(2), false, MMAP_BASE);
    assert_eq!(next, Search::Full);
    assert_eq!(fill(full).err(), Some(ENOMEM));
}

#[test]
fn places_do_not_overlap() {
    let mut state = State::new();
    let (mut search, first) = place(&mut state, plain(2), false, END);
    assert_eq!(first, Search::Look(MMAP_BASE));
    assert_eq!(search.looked(&mut state, &[true, false]), Search::Look(MMAP_BASE + 8192));
    assert_eq!(search.looked(&mut state, &[true, true]), Search::At(MMAP_BASE + 8192));
    // The next mapping is looked for after that.
    let (_, next) = place(&mut state, plain(1), false, END);
    assert_eq!(next, Search::Look(MMAP_BASE + 16384));
    let narrow = Mapping { process: 8, ..plain(1) };
    let (_, narrow) = place(&mut state, narrow, true, END);
    assert_eq!(narrow, Search::Look(MMAP_BASE32));
    // There is no room above the limit.
    let wide = Mapping { process: 9, ..plain(0x7_0001) };
    let (_, wide) = place(&mut state, wide, true, END);
    assert_eq!(wide, Search::Full);
}

#[test]
fn a_search_gives_up_after_so_many_places() {
    let mut state = State::new();
    let (mut patient, mut next) = place(&mut state, plain(1), false, END);
    for look in 0..64 {
        assert_eq!(next, Search::Look(MMAP_BASE + look * 4096));
        next = patient.looked(&mut state, &[false]);
    }
    assert_eq!(next, Search::Full);
    assert_eq!(fill(patient).err(), Some(ENOMEM));
}

#[test]
fn memory_goes_where_every_page_was_absent() {
    // Something is mapped in the middle of the first place.
    let mapped = MMAP_BASE + 4096;
    let mapping = match anonymous(3 * 4096, 3) {
        Next::Place { mapping } => mapping,
        _ => panic!("not placed"),
    };
    let mut state = State::new();
    let (mut search, mut next) = place(&mut state, mapping, false, END);
    while let Search::Look(at) = next {
        let absent: Vec<bool> = (0..3).map(|page| at + page * 4096 != mapped).collect();
        next = search.looked(&mut state, &absent);
    }
    assert_eq!(next, Search::At(MMAP_BASE + 3 * 4096));
    let (mut filling, mut step) = fill(search).ok().unwrap();
    let mut filled = Vec::new();
    while step == Fill::Zeros {
        match filling.framed(Some(0x9000)) {
            Fill::Place { virt, flags, .. } => {
                assert!(flags.writable && !flags.executable && !flags.shared);
                filled.push(virt);
            }
            _ => panic!("something is read into it"),
        }
        step = filling.mapped(&mut state, true);
    }
    assert_eq!(step, Fill::Answer(MMAP_BASE + 12288));
    assert_eq!(filled, vec![MMAP_BASE + 12288, MMAP_BASE + 16384, MMAP_BASE + 20480]);
    assert!(!filled.contains(&mapped));
}

#[test]
fn a_range_is_taken_out_page_by_page() {
    assert_eq!(munmap(false, 0x1000, 1).err(), Some(ENOSYS));
    assert_eq!(munmap(true, 0x1001, 1).err(), Some(EINVAL));
    assert_eq!(munmap(true, 0x1000, 0).err(), Some(EINVAL));
    let mut range = munmap(true, 0x1000, 8193).ok().unwrap();
    assert_eq!(range.next(END), Some(0x1000));
    assert!(range.unmapped(true, false));
    assert_eq!(range.next(END), Some(0x2000));
    assert!(!range.unmapped(true, true));
    assert_eq!(range.next(END), Some(0x3000));
    assert!(!range.unmapped(false, false));
    assert_eq!(range.next(END), None);
    let mut state = State::new();
    assert!(released(&mut state, 7, range).is_empty());
    assert_eq!(statistics(&state), (0, 2, 0));
}

#[test]
fn only_a_whole_view_is_let_go_of() {
    let mut state = State::new();
    let mapping = Mapping {
        memory: Some(ObjectPage { object: 55, page: 0 }),
        flags: PageFlags { writable: true, executable: false, shared: true },
        ..plain(2)
    };
    let (mut filling, _) = fill(placed(&mut state, mapping)).ok().unwrap();
    map_one(&mut state, &mut filling, 0x9000);
    map_one(&mut state, &mut filling, 0xA000);
    let mut part = release(MMAP_BASE, 1);
    part.unmapped(true, true);
    assert!(released(&mut state, 7, part).is_empty());
    let mut whole = release(MMAP_BASE, 2);
    whole.unmapped(true, true);
    whole.unmapped(true, true);
    assert_eq!(released(&mut state, 7, whole).len(), 1);
}

#[test]
fn protection_is_changed_or_refused_at_the_hole() {
    assert_eq!(mprotect(false, 0x1000, 1, 1, END).err(), Some(ENOSYS));
    assert_eq!(mprotect(true, 0x1001, 1, 1, END).err(), Some(EINVAL));
    assert_eq!(mprotect(true, 0x1000, 1, 7, END).err(), Some(EINVAL));
    let (mut change, first) = mprotect(true, 0x1000, 4097, 1, END).ok().unwrap();
    assert!(matches!(first, Protect::Page { virt: 0x1000, .. }));
    assert!(matches!(change.changed(true, END), Protect::Page { virt: 0x2000, .. }));
    assert!(matches!(change.changed(true, END), Protect::Answer(0)));
    let (mut hole, _) = mprotect(true, 0x1000, 4097, 1, END).ok().unwrap();
    assert!(matches!(hole.changed(false, END), Protect::Answer(ENOMEM)));
}

#[test]
fn a_write_is_cut_at_the_pages() {
    let pieces = write_into(0x1FF0, 0x1020);
    let cut: Vec<(u64, u64, u64, u64)> =
        pieces.iter().map(|piece| (piece.page, piece.within, piece.from, piece.take)).collect();
    assert_eq!(
        cut,
        vec![(0x1000, 0xFF0, 0, 0x10), (0x2000, 0, 0x10, 0x1000), (0x3000, 0, 0x1010, 0x10)]
    );
    assert!(write_into(0x1000, 0).is_empty());
}
