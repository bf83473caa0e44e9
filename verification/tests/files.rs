//! Files and paths.
use nexus_kernel::compat::error::{
    EACCES, EAGAIN, EBADF, EEXIST, EFAULT, EINTR, EINVAL, EIO, EISDIR, ENAMETOOLONG, ENOENT,
    ENOMEM, ENOSPC, ENOTDIR, ENOTEMPTY, EPIPE, ERANGE, ESPIPE,
};
use nexus_kernel::compat::linux_files;
use nexus_kernel::compat::linux_files::path::{
    errno, file_exists, install, install_directory, install_file, path_of, read_file, root, split,
    walk, Installing, Kind, Root, Step, StoreError,
};
use nexus_kernel::compat::linux_files::{
    close, closed, console_at, describe, drawn, dup, dup2, duplicated, duplicated_at, faccessat,
    fill_stat, forget, forget_memfds, fstat, ftruncate, getcwd, getdents64, getrandom, is_cwd,
    lseek, memfd_create, memfd_created, mkdirat, newfstatat, node_of, open_count, open_rights,
    openat, opened, opened_at, pipe2, pread64, read, read_done, read_pipe, sized, stored,
    to_console, unlinkat, walked, write_done, write_most, write_pipe, Asked, Copying, Descriptor,
    Duplicating, Entry, Object, Opened, Opening, PipeError, Reached, Reading, Rights, Sizing,
    State, Writing,
};

use nexus_kernel::compat::{linux_display, linux_poll};

const CWD: u64 = 0xFFFF_FF9C;

fn file(handle: u32) -> Result<Descriptor, u64> {
    Ok(Descriptor::File { kind: Kind::File, readable: true, writable: true, handle })
}

fn directory() -> Result<Opened, u64> {
    Ok(Opened { process: 7, handle: 4, kind: Kind::Directory })
}

fn open_file() -> Result<Opened, u64> {
    Ok(Opened { process: 7, handle: 4, kind: Kind::File })
}

fn opened_state() -> State {
    let mut state = State::new();
    assert_eq!(opened_at(&mut state, Some(7), 4, 2, Some(100)), 4);
    state
}

#[test]
fn only_the_low_half_of_a_directory_is_looked_at() {
    assert!(is_cwd(0xFFFF_FF9C));
    assert!(is_cwd(0xFFFF_FFFF_FFFF_FF9C));
    assert!(!is_cwd(3));
}

#[test]
fn descriptors_are_what_their_handles_lead_to() {
    assert!(matches!(describe(1, false, None), Ok(Descriptor::Console(1))));
    assert!(matches!(describe(3, true, Some(Object::Pipe)), Ok(Descriptor::Pipe)));
    assert_eq!(describe(3, true, None).err(), Some(EBADF));
    assert!(matches!(describe(3, true, Some(Object::Console(2))), Ok(Descriptor::Console(2))));
    assert!(matches!(describe(3, true, Some(Object::Socket)), Ok(Descriptor::Socket)));
    assert_eq!(describe(1 << 32, true, Some(Object::Pipe)).err(), Some(EBADF));
    assert!(opened(4, Some(7), Some(Kind::File)).is_ok());
    assert_eq!(opened(4, Some(7), None).err(), Some(EBADF));
    assert_eq!(opened(4, None, Some(Kind::File)).err(), Some(EBADF));
    assert_eq!(node_of(4, Some(7), Some(Kind::Directory)).err(), Some(EISDIR));
    assert_eq!(node_of(4, Some(7), Some(Kind::File)), Ok(()));
}

#[test]
fn streams_go_to_the_log() {
    assert_eq!(to_console(1, b"hi\n\n"), Ok((4, 2)));
    assert_eq!(to_console(2, b"hi"), Ok((2, 2)));
    assert_eq!(to_console(0, b"hi").err(), Some(EBADF));
}

#[test]
fn a_copy_starts_where_the_original_is() {
    let mut state = opened_state();
    read_done(&mut state, 7, 4, 0, true, 0x10, Ok(vec![0; 30]));
    // The copy may do what the descriptor may.
    assert_eq!(dup(4, true, file(4)), Copying::Handle { handle: 4, rights: Asked::Same });
    let kept = Rights { read: true, write: true, close: true, transfer: false };
    let console = dup(1, true, Ok(Descriptor::Console(1)));
    assert_eq!(console, Copying::Console { stream: 1, rights: kept });
    assert_eq!(dup(4, false, file(4)), Copying::Answer(EBADF));
    assert_eq!(write_most(Ok(Descriptor::Console(1))), 512);
    assert_eq!(write_most(file(4)), 65_536);
    assert_eq!(dup(4, true, Err(EBADF)), Copying::Answer(EBADF));
    assert_eq!(duplicated(&mut state, 7, 4, Some(5)), 5);
    assert_eq!(open_count(&state), 2);
    let at = Ok(Opened { process: 7, handle: 5, kind: Kind::File });
    assert_eq!(lseek(&mut state, at, 0, 1, Ok(100)), 30);
    assert!(matches!(dup2(4, 4, true, file(4)), Duplicating::Answer(4)));
    assert!(matches!(dup2(4, 1, true, file(4)), Duplicating::Answer(EINVAL)));
    assert_eq!(
        dup2(4, 9, true, file(4)),
        Duplicating::Handle { handle: 4, to: 9, rights: Asked::Same }
    );
    assert_eq!(duplicated_at(&mut state, 7, 4, 9, Some(9)), 9);
    assert_eq!(console_at(Some(9)), 9);
}

#[test]
fn pipes() {
    let (first, second) = pipe2(0, true, true).ok().unwrap();
    assert!(first.read && !first.write && first.transfer && first.close);
    assert!(!second.read && second.write);
    assert_eq!(pipe2(0o4000, true, true).err(), Some(EINVAL));
    assert!(pipe2(0o2_000_000, true, true).is_ok());
    assert_eq!(pipe2(0, true, false).err(), Some(EFAULT));
    assert_eq!(pipe2(0, false, true).err(), Some(EBADF));
    assert_eq!(read_pipe(0x10, Ok(vec![1, 2])).answer, 2);
    assert_eq!(read_pipe(0x10, Err(PipeError::Cancelled)).answer, EINTR);
    assert_eq!(read_pipe(0x10, Err(PipeError::WrongEnd)).answer, EBADF);
    assert_eq!(write_pipe(Err(PipeError::NoReader)), EPIPE);
    assert_eq!(write_pipe(Ok(9)), 9);
}

#[test]
fn memory_gets_its_size_once() {
    let mut state = State::new();
    assert_eq!(memfd_create(1, b"name\0", 1, true), Ok(()));
    assert_eq!(memfd_create(1, b"name\0", 2, true).err(), Some(EINVAL));
    assert_eq!(memfd_create(1, b"name", 0, true).err(), Some(EFAULT));
    assert_eq!(memfd_created(&mut state, 7, 4), 4);
    let next = ftruncate(&state, Some(7), 4, 8192, None);
    assert!(matches!(next, Sizing::Make { handle: 4, length: 8192 }));
    assert_eq!(sized(&mut state, 7, 4, true, true), 0);
    assert_eq!(sized(&mut state, 7, 4, false, true), ENOMEM);
    assert!(matches!(ftruncate(&state, Some(7), 4, 8192, Some(8192)), Sizing::Answer(0)));
    assert!(matches!(ftruncate(&state, Some(7), 4, 4096, Some(8192)), Sizing::Answer(EINVAL)));
    memfd_created(&mut state, 7, 5);
    forget_memfds(&mut state, 7);
    assert!(matches!(ftruncate(&state, Some(7), 5, 8192, None), Sizing::Answer(_)));
}

#[test]
fn opening() {
    assert!(matches!(openat(CWD, b"/dev/nexus/display\0"), Opening::Window));
    match openat(CWD, b"/etc/x\0") {
        Opening::Walk(path) => assert_eq!(path, b"/etc/x".to_vec()),
        _ => panic!("not walked"),
    }
    assert!(matches!(openat(CWD, b"/etc/x"), Opening::Answer(EFAULT)));
    assert!(matches!(walked(b"/a", 0, Ok(Kind::File)), Reached::Use));
    assert!(matches!(walked(b"/a", 0, Err(ENOENT)), Reached::Answer(ENOENT)));
    match walked(b"/d/a", 0o101, Err(ENOENT)) {
        Reached::Create { directory, name, as_directory } => {
            assert_eq!((directory, name, as_directory), (b"/d".to_vec(), b"a".to_vec(), false));
        }
        _ => panic!("not made"),
    }
    assert!(matches!(walked(b"/a", 0o301, Ok(Kind::File)), Reached::Answer(EEXIST)));
    assert!(matches!(walked(b"/a", 0o1001, Ok(Kind::File)), Reached::Truncate));
    assert!(matches!(walked(b"/a", 1, Ok(Kind::Directory)), Reached::Answer(EISDIR)));
    assert!(matches!(walked(b"/a", 0o200000, Ok(Kind::File)), Reached::Answer(ENOTDIR)));
    assert!(open_rights(0).read && !open_rights(0).write);
    assert!(open_rights(2).write);
    let mut state = State::new();
    assert_eq!(opened_at(&mut state, None, 4, 0, None), EBADF);
    assert_eq!(opened_at(&mut state, Some(7), 4, 0o2001, Some(100)), 4);
    assert_eq!(lseek(&mut state, open_file(), 0, 1, Ok(100)), 100);
}

#[test]
fn closing() {
    let mut state = opened_state();
    let mut windows = linux_display::State::new();
    let mut waits = linux_poll::State::new();
    let surface = linux_display::Surface { object: 1, size: 64 };
    let given = linux_display::Given { surface, width: 4, height: 4 };
    assert_eq!(linux_display::opened(&mut windows, 7, given, Some(4)), 4);
    assert_eq!(linux_poll::created(&mut waits, 7, 9), 9);
    let event = [1u8, 0, 0, 0, 5, 0, 0, 0, 0, 0, 0, 0];
    assert_eq!(linux_poll::control(&mut waits, Some(7), 9, 1, 4, 1, Some(&event)), 0);
    let first = close(&mut state, &mut windows, &mut waits, Some(7), 1);
    assert_eq!(first, Err(0));
    assert_eq!(open_count(&state), 1);
    assert!(linux_display::is_window(&windows, 7, 4));
    let second = close(&mut state, &mut windows, &mut waits, Some(7), 4);
    assert_eq!(second, Ok(4));
    assert_eq!(open_count(&state), 0);
    assert!(!linux_display::is_window(&windows, 7, 4));
    let watched = linux_poll::wait(&waits, 9, 8, Some(7), true).ok().unwrap();
    assert!(watched.is_empty());
    assert_eq!(closed(true), 0);
    assert_eq!(closed(false), EBADF);
    assert_eq!(close(&mut state, &mut windows, &mut waits, None, 4), Err(EBADF));
}

#[test]
fn reading_moves_and_reading_at_does_not() {
    let mut state = opened_state();
    let next = read(&state, Some(7), file(4), 10, true);
    assert!(matches!(next, Reading::File { at: 0, length: 10 }));
    let reply = read_done(&mut state, 7, 4, 0, true, 0x40, Ok(vec![9; 10]));
    assert_eq!((reply.answer, reply.writes[0].at), (10, 0x40));
    let next = read(&state, Some(7), file(4), 100_000, true);
    assert!(matches!(next, Reading::File { at: 10, length: 65536 }));
    let there = pread64(&state, Some(7), file(4), 5, true, 50);
    assert!(matches!(there, Reading::File { at: 50, length: 5 }));
    read_done(&mut state, 7, 4, 50, false, 0x40, Ok(vec![9; 5]));
    assert!(matches!(read(&state, Some(7), file(4), 1, true), Reading::File { at: 10, .. }));
    let failed = read_done(&mut state, 7, 4, 0, true, 0x40, Err(StoreError::Medium));
    assert_eq!(failed.answer, EIO);
    assert!(matches!(read(&state, Some(7), Ok(Descriptor::Console(0)), 5, true), Reading::Answer(0)));
    assert!(matches!(read(&state, Some(7), Ok(Descriptor::Pipe), 5, true), Reading::Pipe(5)));
    assert!(matches!(read(&state, Some(7), Ok(Descriptor::Socket), 5, true), Reading::Socket));
    assert!(matches!(read(&state, Some(7), file(4), 5, false), Reading::Answer(EFAULT)));
    let pipe = pread64(&state, Some(7), Ok(Descriptor::Pipe), 5, true, 0);
    assert!(matches!(pipe, Reading::Answer(ESPIPE)));
}

#[test]
fn writing() {
    let mut state = opened_state();
    let next = linux_files::write(&state, Some(7), file(4), 10, true);
    assert!(matches!(next, Writing::File { at: 0, length: 10 }));
    assert_eq!(write_done(&mut state, 7, 4, 0, Ok(10)), 10);
    assert!(matches!(linux_files::write(&state, Some(7), file(4), 1, true), Writing::File { at: 10, .. }));
    assert_eq!(write_done(&mut state, 7, 4, 10, Err(StoreError::NoSpace)), ENOSPC);
    let read_only =
        Ok(Descriptor::File { kind: Kind::File, readable: true, writable: false, handle: 4 });
    assert!(matches!(linux_files::write(&state, Some(7), read_only, 1, true), Writing::Answer(EBADF)));
    let console = linux_files::write(&state, Some(7), Ok(Descriptor::Console(1)), 600, true);
    assert!(matches!(console, Writing::Console { stream: 1, length: 512 }));
    assert!(matches!(linux_files::write(&state, Some(7), Ok(Descriptor::Pipe), 5, true), Writing::Pipe(5)));
    assert!(matches!(linux_files::write(&state, Some(7), Err(EBADF), 5, true), Writing::Answer(EBADF)));
}

#[test]
fn seeking() {
    let mut state = opened_state();
    assert_eq!(lseek(&mut state, open_file(), 40, 0, Ok(100)), 40);
    // A seek by nothing stays.
    assert_eq!(lseek(&mut state, open_file(), 0, 1, Ok(100)), 40);
    assert_eq!(lseek(&mut state, open_file(), (-10i64) as u64, 1, Ok(100)), 30);
    assert_eq!(lseek(&mut state, open_file(), (-10i64) as u64, 2, Ok(100)), 90);
    assert_eq!(lseek(&mut state, open_file(), 50, 2, Ok(100)), 150);
    assert_eq!(lseek(&mut state, open_file(), (-1i64) as u64, 0, Ok(100)), EINVAL);
    assert_eq!(lseek(&mut state, open_file(), 0, 3, Ok(100)), EINVAL);
    assert_eq!(lseek(&mut state, Err(EBADF), 0, 0, Ok(100)), EBADF);
    assert_eq!(lseek(&mut state, open_file(), 0, 2, Err(StoreError::Medium)), EIO);
}

#[test]
fn a_stat_says_what_is_known() {
    let reply = fill_stat(Kind::File, Some(0x1234), 0x40, true);
    assert_eq!((reply.answer, reply.writes[0].bytes.len()), (0, 144));
    let bytes = &reply.writes[0].bytes;
    assert_eq!(&bytes[24..28], &0o100_644u32.to_le_bytes());
    assert_eq!(&bytes[48..56], &0x1234u64.to_le_bytes());
    let folder = fill_stat(Kind::Directory, None, 0x40, true);
    assert_eq!(&folder.writes[0].bytes[24..28], &0o040_755u32.to_le_bytes());
    assert_eq!(fill_stat(Kind::File, None, 0x40, false).answer, EFAULT);
    assert_eq!(fstat(Err(EBADF), None, 0x40, true).answer, EBADF);
    assert_eq!(newfstatat(CWD, b"/a\0"), Ok(b"/a".to_vec()));
    assert_eq!(newfstatat(5, b"a\0").err(), Some(EINVAL));
    assert_eq!(faccessat(CWD, b"/a\0"), Ok(b"/a".to_vec()));
}

#[test]
fn names_are_made_and_taken_out() {
    assert_eq!(mkdirat(CWD, b"/d/e\0"), Ok((b"/d".to_vec(), b"e".to_vec())));
    assert_eq!(unlinkat(CWD, b"e\0"), Ok((b"".to_vec(), b"e".to_vec())));
    assert_eq!(stored(Ok(())), 0);
    assert_eq!(stored(Err(StoreError::NotEmpty)), ENOTEMPTY);
    let cwd = getcwd(0x40, 2, true);
    assert_eq!((cwd.answer, cwd.writes[0].bytes.clone()), (2, b"/\0".to_vec()));
    assert_eq!(getcwd(0x40, 1, true).answer, ERANGE);
    assert_eq!(getcwd(0x40, 2, false).answer, EFAULT);
}

fn entries() -> Result<Vec<Entry>, StoreError> {
    Ok(vec![
        Entry { inode: 1, kind: Kind::File, name: b"one".to_vec() },
        Entry { inode: 2, kind: Kind::Directory, name: b"directory".to_vec() },
        Entry { inode: 3, kind: Kind::File, name: b"three".to_vec() },
    ])
}

#[test]
fn a_listing_is_resumed_where_it_stopped() {
    let mut state = State::new();
    opened_at(&mut state, Some(7), 4, 0, None);
    // Nineteen bytes, the name and a zero, in eights: 24, 32 and 32.
    let first = getdents64(&mut state, directory(), 0x40, 60, true, entries());
    assert_eq!(first.answer, 56);
    let bytes = &first.writes[0].bytes;
    assert_eq!(&bytes[0..8], &1u64.to_le_bytes());
    assert_eq!(&bytes[16..18], &24u16.to_le_bytes());
    assert_eq!(bytes[18], 8);
    assert_eq!(&bytes[19..23], b"one\0");
    assert_eq!(&bytes[24 + 16..24 + 18], &32u16.to_le_bytes());
    assert_eq!(bytes[24 + 18], 4);
    let second = getdents64(&mut state, directory(), 0x40, 60, true, entries());
    assert_eq!(second.answer, 32);
    assert_eq!(&second.writes[0].bytes[0..8], &3u64.to_le_bytes());
    assert_eq!(getdents64(&mut state, directory(), 0x40, 60, true, entries()).answer, 0);
    let mut whole = State::new();
    opened_at(&mut whole, Some(7), 4, 0, None);
    let all = getdents64(&mut whole, directory(), 0x40, 1000, true, entries());
    let mut pieces = bytes.clone();
    pieces.extend_from_slice(&second.writes[0].bytes);
    assert_eq!(all.writes[0].bytes, pieces);
}

#[test]
fn listings_that_cannot_be() {
    let mut state = State::new();
    opened_at(&mut state, Some(7), 4, 0, None);
    assert_eq!(getdents64(&mut state, directory(), 0x40, 20, true, entries()).answer, EINVAL);
    assert_eq!(getdents64(&mut state, open_file(), 0x40, 99, true, entries()).answer, ENOTDIR);
    assert_eq!(getdents64(&mut state, directory(), 0x40, 99, false, entries()).answer, EFAULT);
    let broken = Err(StoreError::Medium);
    assert_eq!(getdents64(&mut state, directory(), 0x40, 99, true, broken).answer, EIO);
}

#[test]
fn an_ended_process_has_no_positions() {
    let mut state = opened_state();
    opened_at(&mut state, Some(8), 4, 0, None);
    forget(&mut state, 7);
    assert_eq!(open_count(&state), 1);
}

#[test]
fn random_bytes() {
    assert_eq!(getrandom(16, true), Ok(16));
    assert_eq!(getrandom(16, false).err(), Some(EFAULT));
    assert_eq!(getrandom(0, true), Err(0));
    assert_eq!(drawn(0x40, Some(vec![1, 2])).answer, 2);
    assert_eq!(drawn(0x40, None).answer, EAGAIN);
}

#[test]
fn store_errors_keep_their_meaning() {
    assert_eq!(errno(StoreError::NotFound), ENOENT);
    assert_eq!(errno(StoreError::Exists), EEXIST);
    assert_eq!(errno(StoreError::WrongKind), ENOTDIR);
    assert_eq!(errno(StoreError::BadName), ENAMETOOLONG);
    assert_eq!(errno(StoreError::NotEmpty), ENOTEMPTY);
    assert_eq!(errno(StoreError::NoSpace), ENOSPC);
    assert_eq!(errno(StoreError::NoInodes), ENOSPC);
    assert_eq!(errno(StoreError::TooLarge), ENOSPC);
    assert_eq!(errno(StoreError::Medium), EIO);
}

#[test]
fn paths_end_in_a_zero() {
    assert_eq!(path_of(b"/a\0b"), Ok(b"/a".to_vec()));
    assert_eq!(path_of(b"/a").err(), Some(EFAULT));
    let long = vec![b'a'; 4096];
    assert_eq!(path_of(&long).err(), Some(ENAMETOOLONG));
    assert_eq!(path_of(b"\0"), Ok(vec![]));
    // What is not text is not a path.
    assert_eq!(path_of(b"/\xFF\0").err(), Some(EINVAL));
    assert_eq!(path_of(b"/\xC3\xA9\0"), Ok(vec![0x2F, 0xC3, 0xA9]));
}

fn names(path: &[u8]) -> Result<Vec<Vec<u8>>, u64> {
    let mut steps = walk(path);
    let mut seen = Vec::new();
    loop {
        match steps.next() {
            Step::Child(name) => {
                seen.push(name);
                if let Some(reason) = steps.opened(Ok(())) {
                    return Err(reason);
                }
            }
            Step::Refused(reason) => return Err(reason),
            Step::Reached => return Ok(seen),
        }
    }
}

#[test]
fn a_walk_never_climbs() {
    assert_eq!(names(b"/a//./b/"), Ok(vec![b"a".to_vec(), b"b".to_vec()]));
    assert_eq!(names(b"a/b"), Ok(vec![b"a".to_vec(), b"b".to_vec()]));
    assert_eq!(names(b"/"), Ok(vec![]));
    assert_eq!(names(b"/a/../b").err(), Some(EACCES));
    let mut long = b"/".to_vec();
    long.extend_from_slice(&[b'a'; 256]);
    assert_eq!(names(&long).err(), Some(ENAMETOOLONG));
    let mut missing = walk(b"/a/b");
    assert!(matches!(missing.next(), Step::Child(name) if name == b"a"));
    assert_eq!(missing.opened(Err(StoreError::NotFound)), Some(ENOENT));
}

#[test]
fn paths_are_taken_apart() {
    assert_eq!(split(b"/a/b/"), Ok((b"/a".to_vec(), b"b".to_vec())));
    assert_eq!(split(b"b"), Ok((b"".to_vec(), b"b".to_vec())));
    assert!(split(b"/").is_err());
    let (mut steps, name) = install(b"/bin/tool").ok().unwrap();
    assert_eq!(name, b"tool".to_vec());
    assert!(matches!(steps.next(), Step::Child(name) if name == b"bin"));
}

#[test]
fn the_root_and_what_is_installed_in_it() {
    assert!(matches!(root(Ok(Kind::Directory)), Root::Use));
    assert!(matches!(root(Ok(Kind::File)), Root::Refused(ENOTDIR)));
    assert!(matches!(root(Err(StoreError::NotFound)), Root::Create));
    assert!(matches!(root(Err(StoreError::Medium)), Root::Refused(EIO)));
    assert!(matches!(install_directory(Ok(Kind::Directory)), Installing::Use));
    assert!(matches!(install_directory(Ok(Kind::File)), Installing::Refused(ENOTDIR)));
    assert!(matches!(install_directory(Err(StoreError::NotFound)), Installing::Create));
    assert!(matches!(install_file(Ok(Kind::File)), Installing::Use));
    assert!(matches!(install_file(Ok(Kind::Directory)), Installing::Refused(EISDIR)));
    assert_eq!(read_file(Ok(Kind::File)), Ok(()));
    assert_eq!(read_file(Ok(Kind::Directory)).err(), Some(EISDIR));
    assert!(file_exists(Ok(Kind::File)));
    assert!(!file_exists(Ok(Kind::Directory)));
    assert!(!file_exists(Err(ENOENT)));
}

#[test]
fn a_copy_moves_apart() {
    let mut state = opened_state();
    assert_eq!(lseek(&mut state, open_file(), 30, 0, Ok(100)), 30);
    assert_eq!(duplicated(&mut state, 7, 4, Some(5)), 5);
    let copy = || Ok(Opened { process: 7, handle: 5, kind: Kind::File });
    assert_eq!(lseek(&mut state, copy(), 0, 1, Ok(100)), 30);
    assert_eq!(lseek(&mut state, copy(), 10, 1, Ok(100)), 40);
    assert_eq!(lseek(&mut state, open_file(), 0, 1, Ok(100)), 30);
    assert_eq!(lseek(&mut state, open_file(), 5, 0, Ok(100)), 5);
    assert_eq!(lseek(&mut state, copy(), 0, 1, Ok(100)), 40);
}

fn opened_names(path: &[u8]) -> Vec<Vec<u8>> {
    let mut walk = walk(path);
    let mut names = Vec::new();
    loop {
        match walk.next() {
            Step::Child(name) => {
                names.push(name);
                walk.opened(Ok(()));
            }
            Step::Reached => return names,
            Step::Refused(number) => panic!("refused with {number}"),
        }
    }
}

#[test]
fn what_is_installed_is_where_it_is_read() {
    for path in [&b"/usr/./lib//libc.so"[..], b"usr/lib/libc.so/", b"init"] {
        let (mut directories, name) = install(path).ok().unwrap();
        let mut names = Vec::new();
        while let Step::Child(name) = directories.next() {
            names.push(name);
            directories.opened(Ok(()));
        }
        names.push(name);
        assert_eq!(names, opened_names(path));
    }
}

#[test]
fn what_is_made_is_taken_out() {
    let bytes = b"/a//b/.//c/\0";
    let made = mkdirat(CWD, bytes);
    assert_eq!(made, unlinkat(CWD, bytes));
    let (directory, name) = made.ok().unwrap();
    let mut place = opened_names(&directory);
    place.push(name);
    assert_eq!(place, opened_names(&faccessat(CWD, bytes).ok().unwrap()));
    assert_eq!(stored(Err(StoreError::NotFound)), ENOENT);
    assert_eq!(mkdirat(3, bytes), Err(EINVAL));
    assert_eq!(unlinkat(3, bytes), Err(EINVAL));
}
