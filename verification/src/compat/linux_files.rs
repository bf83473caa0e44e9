//! Files and descriptors, for a program built for Linux.
//!
//! A descriptor is a handle of the system underneath, except the three a
//! program starts with. What is kept here is where each one has got to, and
//! which of them are memory that has not been given a size.
//!
//! A call that needs the store or the handle table in its middle is cut there:
//! one function says what is to be done, and the next takes the outcome.
use vstd::prelude::*;

use crate::bytes::{le16, le32, le64, put_bytes, put_u16, put_u32, put_u64, put_zeros};
use crate::compat::error::{
    EAGAIN, EBADF, EEXIST, EFAULT, EINTR, EINVAL, EISDIR, ENOENT, ENOMEM, ENOTDIR, EPIPE, ERANGE,
    ESPIPE,
};
use crate::compat::linux_files::path::{
    errno, error_number, path_in, path_of, path_view, split, split_in, split_view, Kind,
    StoreError, MAX_PATH,
};
#[allow(unused_imports)]
use crate::compat::linux_files::path::{
    law_a_split_path_leads_to_its_name, place_of, place_under,
};
use crate::compat::reply::Reply;
use crate::compat::{linux_display, linux_poll};
use crate::count::{count, counted};
use crate::pairs::Pairs;

pub mod law;
pub mod path;

verus! {

/// Open for writing.
pub const WRONLY: u64 = 0o1;

/// Open for reading and writing.
pub const RDWR: u64 = 0o2;

/// Make it if it is not there.
pub const CREAT: u64 = 0o100;

/// Be the one that makes it.
pub const EXCL: u64 = 0o200;

/// Empty it.
pub const TRUNC: u64 = 0o1000;

/// Start at its end.
pub const APPEND: u64 = 0o2000;

/// It has to be a directory.
pub const DIRECTORY: u64 = 0o200000;

/// Close it when another program is started.
pub const CLOEXEC: u64 = 0o2_000_000;

/// The same, for memory with a descriptor on it.
pub const MEMFD_CLOEXEC: u64 = 0x0001;

/// Seek from the start.
pub const SEEK_SET: u64 = 0;

/// Seek from where the descriptor is.
pub const SEEK_CUR: u64 = 1;

/// Seek from the end.
pub const SEEK_END: u64 = 2;

/// What stands in place of a directory descriptor to mean the working
/// directory, as the thirty-two bits a program loads it with: minus a hundred.
pub const AT_FDCWD: u32 = 0xFFFF_FF9C;

/// The first descriptor a program starts with.
pub const STDIN: u64 = 0;

/// The second.
pub const STDOUT: u64 = 1;

/// The third.
pub const STDERR: u64 = 2;

/// The first descriptor that is a handle.
pub const FIRST_HANDLE: u32 = 3;

/// The most a single read or write moves.
pub const MAX_TRANSFER: u64 = 65536;

/// The most one write to the log takes.
pub const MAX_CONSOLE: u64 = 512;

/// The stream number that memory without a size is parked under.
pub const EMPTY_MEMFD: u8 = 200;

/// The largest handle there is.
pub const MAX_HANDLE: u64 = 0xFFFF_FFFF;

/// Bytes in a `struct stat`.
pub const STAT_SIZE: u64 = 144;

/// A directory's mode: one that everyone may read and enter.
pub const MODE_DIRECTORY: u32 = 0o040_755;

/// A file's mode: one that everyone may read.
pub const MODE_FILE: u32 = 0o100_644;

/// What a directory is listed as.
pub const LISTED_DIRECTORY: u8 = 4;

/// What a file is listed as.
pub const LISTED_FILE: u8 = 8;

/// Bytes of a directory record before the name.
pub const RECORD_HEAD: usize = 19;

/// Where descriptors have got to, and which have no size.
pub struct State {
    positions: Pairs,
    empty: Pairs,
}

/// The same, as a value.
#[verifier::ext_equal]
pub struct Model {
    /// Where each open descriptor has got to, by process and handle.
    pub positions: Map<(u64, u64), u64>,
    /// The descriptors that are memory without a size, by process and handle.
    pub empty: Set<(u64, u64)>,
}

impl Model {
    /// Where a descriptor has got to.
    pub open spec fn position(self, process: u64, handle: u32) -> u64 {
        if self.positions.dom().contains((process, handle as u64)) {
            self.positions[(process, handle as u64)]
        } else {
            0
        }
    }

    /// The same with a descriptor moved.
    pub open spec fn moved(self, process: u64, handle: u32, to: u64) -> Model {
        Model { positions: self.positions.insert((process, handle as u64), to), ..self }
    }
}

impl View for State {
    type V = Model;

    closed spec fn view(&self) -> Model {
        Model { positions: self.positions@, empty: self.empty@.dom() }
    }
}

impl State {
    /// The tables are in order.
    pub closed spec fn wf(&self) -> bool {
        self.positions.wf() && self.empty.wf()
    }

    /// Nothing is open.
    pub fn new() -> (state: Self)
        ensures
            state.wf(),
            state@ == (Model { positions: Map::empty(), empty: Set::empty() }),
    {
        let state = State { positions: Pairs::new(), empty: Pairs::new() };
        assert(state@.empty =~= Set::empty());
        state
    }

    /// Where a descriptor has got to.
    fn position(&self, process: u64, handle: u32) -> (at: u64)
        requires
            self.wf(),
        ensures
            at == self@.position(process, handle),
    {
        match self.positions.get(process, handle as u64) {
            Some(at) => at,
            None => 0,
        }
    }

    /// Move a descriptor.
    fn set_position(&mut self, process: u64, handle: u32, to: u64)
        requires
            old(self).wf(),
        ensures
            final(self).wf(),
            final(self)@ == old(self)@.moved(process, handle, to),
    {
        self.positions.set(process, handle as u64, to);
    }
}

/// Forget every position a process held. Called when it ends.
pub fn forget(state: &mut State, process: u64)
    requires
        old(state).wf(),
    ensures
        final(state).wf(),
        final(state)@ == (Model {
            positions: old(state)@.positions.remove_keys(
                Set::new(|key: (u64, u64)| key.0 == process),
            ),
            ..old(state)@
        }),
{
    state.positions.forget(process);
}

/// Forget a process's memory without a size. Called when it ends.
pub fn forget_memfds(state: &mut State, process: u64)
    requires
        old(state).wf(),
    ensures
        final(state).wf(),
        final(state)@ == (Model {
            empty: old(state)@.empty.difference(Set::new(|key: (u64, u64)| key.0 == process)),
            ..old(state)@
        }),
{
    state.empty.forget(process);
    assert(state@.empty =~= old(state)@.empty.difference(
        Set::new(|key: (u64, u64)| key.0 == process),
    ));
}

/// How many descriptors have a position.
pub fn open_count(state: &State) -> (many: usize)
    requires
        state.wf(),
    ensures
        many == state@.positions.dom().len(),
{
    state.positions.len()
}

/// Whether a directory argument means the working directory.
///
/// It is an `int`, and a program loads it with a thirty-two bit move that leaves
/// the rest of the register zero, so only the low half is looked at.
pub fn is_cwd(directory: u64) -> (cwd: bool)
    ensures
        cwd == (directory % 0x1_0000_0000 == AT_FDCWD),
{
    directory % 0x1_0000_0000 == AT_FDCWD as u64
}

/// What a handle leads to.
#[derive(Clone, Copy, PartialEq, Eq, Structural, Debug)]
pub enum Object {
    /// A file or directory, and what its handle may be used for.
    Node { kind: Kind, readable: bool, writable: bool },
    Pipe,
    Console(u8),
    Socket,
    /// Memory, and its size.
    Memory(u64),
    Other,
}

/// What a descriptor turned out to name.
#[derive(Clone, Copy, PartialEq, Eq, Structural, Debug)]
pub enum Descriptor {
    /// The machine's log: one of the three, or a duplicate of one of them.
    Console(u8),
    /// A file or directory, and what its handle may be used for.
    File { kind: Kind, readable: bool, writable: bool, handle: u32 },
    Pipe,
    Socket,
    Other,
}

/// What a descriptor names, given the process and what its handle leads to.
pub open spec fn described(
    descriptor: u64,
    has_process: bool,
    object: Option<Object>,
) -> Result<Descriptor, u64> {
    if descriptor <= STDERR {
        Ok(Descriptor::Console(descriptor as u8))
    } else if descriptor > MAX_HANDLE || !has_process {
        Err(EBADF)
    } else {
        match object {
            None => Err(EBADF),
            Some(Object::Node { kind, readable, writable }) => Ok(
                Descriptor::File { kind, readable, writable, handle: descriptor as u32 },
            ),
            Some(Object::Pipe) => Ok(Descriptor::Pipe),
            Some(Object::Socket) => Ok(Descriptor::Socket),
            Some(Object::Console(stream)) => if stream == EMPTY_MEMFD {
                Ok(Descriptor::Other)
            } else {
                Ok(Descriptor::Console(stream))
            },
            Some(Object::Memory(_)) | Some(Object::Other) => Ok(Descriptor::Other),
        }
    }
}

/// Work out what a descriptor is.
pub fn describe(descriptor: u64, has_process: bool, object: Option<Object>) -> (found: Result<
    Descriptor,
    u64,
>)
    ensures
        found == described(descriptor, has_process, object),
{
    if descriptor <= STDERR {
        return Ok(Descriptor::Console(descriptor as u8));
    }
    if descriptor > MAX_HANDLE {
        return Err(EBADF);
    }
    if !has_process {
        return Err(EBADF);
    }
    match object {
        None => Err(EBADF),
        Some(Object::Node { kind, readable, writable }) => Ok(
            Descriptor::File { kind, readable, writable, handle: descriptor as u32 },
        ),
        Some(Object::Pipe) => Ok(Descriptor::Pipe),
        Some(Object::Socket) => Ok(Descriptor::Socket),
        Some(Object::Console(stream)) => if stream == EMPTY_MEMFD {
            Ok(Descriptor::Other)
        } else {
            Ok(Descriptor::Console(stream))
        },
        Some(Object::Memory(_)) => Ok(Descriptor::Other),
        Some(Object::Other) => Ok(Descriptor::Other),
    }
}

/// A file a call may go on with.
#[derive(Clone, Copy, PartialEq, Eq, Structural, Debug)]
pub struct Opened {
    pub process: u64,
    pub handle: u32,
    pub kind: Kind,
}

/// The file a descriptor names, if its handle may be read.
pub open spec fn opened_as(descriptor: u64, process: Option<u64>, node: Option<Kind>) -> Result<
    Opened,
    u64,
> {
    if descriptor <= STDERR || descriptor > MAX_HANDLE || process is None || node is None {
        Err(EBADF)
    } else {
        Ok(
            Opened {
                process: process.unwrap(),
                handle: descriptor as u32,
                kind: node.unwrap(),
            },
        )
    }
}

/// The file a descriptor names.
///
/// `node` is what its handle leads to, if that is a file or directory the handle
/// may read.
pub fn opened(descriptor: u64, process: Option<u64>, node: Option<Kind>) -> (found: Result<
    Opened,
    u64,
>)
    ensures
        found == opened_as(descriptor, process, node),
{
    if descriptor <= STDERR || descriptor > MAX_HANDLE {
        return Err(EBADF);
    }
    match (process, node) {
        (Some(process), Some(kind)) => Ok(Opened { process, handle: descriptor as u32, kind }),
        _ => Err(EBADF),
    }
}

/// The file a descriptor names, for mapping it: a directory is refused.
pub fn node_of(descriptor: u64, process: Option<u64>, node: Option<Kind>) -> (found: Result<
    (),
    u64,
>)
    ensures
        found == match opened_as(descriptor, process, node) {
            Err(reason) => Err::<(), u64>(reason),
            Ok(opened) => if opened.kind == Kind::Directory {
                Err(EISDIR)
            } else {
                Ok(())
            },
        },
{
    match opened(descriptor, process, node) {
        Err(reason) => Err(reason),
        Ok(opened) => match opened.kind {
            Kind::Directory => Err(EISDIR),
            Kind::File => Ok(()),
        },
    }
}

/// What a write to one of a program's streams comes to: the answer, and how many
/// of the bytes go into the log. The newlines at the end do not, because the log
/// adds its own.
pub fn to_console(stream: u8, bytes: &[u8]) -> (outcome: Result<(u64, usize), u64>)
    ensures
        match outcome {
            Err(reason) => stream != STDOUT && stream != STDERR && reason == EBADF,
            Ok((answer, kept)) => {
                &&& stream == STDOUT || stream == STDERR
                &&& answer == bytes@.len()
                &&& kept <= bytes@.len()
                &&& kept > 0 ==> bytes@[kept - 1] != 0x0A
                &&& forall|i: int| kept <= i < bytes@.len() ==> bytes@[i] == 0x0A
            },
        },
{
    if stream as u64 != STDOUT && stream as u64 != STDERR {
        return Err(EBADF);
    }
    let mut kept: usize = bytes.len();
    while kept > 0 && bytes[kept - 1] == 0x0A
        invariant
            kept <= bytes@.len(),
            forall|i: int| kept <= i < bytes@.len() ==> bytes@[i] == 0x0A,
        decreases kept,
    {
        kept -= 1;
    }
    Ok((bytes.len() as u64, kept))
}

/// What a handle may be used for.
#[derive(Clone, Copy, PartialEq, Eq, Structural, Debug)]
pub struct Rights {
    pub read: bool,
    pub write: bool,
    pub close: bool,
    /// It may be sent to another program.
    pub transfer: bool,
}

/// What rights a copy of a handle is asked to have.
#[derive(Clone, Copy, PartialEq, Eq, Structural, Debug)]
pub enum Asked {
    /// Those the handle has.
    Same,
    /// These, of those it has.
    Only(Rights),
}

/// What a console, a wait set or a descriptor of memory that has no size may be
/// used for: it stays with the program that made it.
pub open spec fn private_rights() -> Rights {
    Rights { read: true, write: true, close: true, transfer: false }
}

/// Everything a handle can be used for.
pub open spec fn all_rights() -> Rights {
    Rights { read: true, write: true, close: true, transfer: true }
}

/// What a console, a wait set or a descriptor of memory that has no size may be
/// used for.
pub fn kept_rights() -> (rights: Rights)
    ensures
        rights == private_rights(),
{
    Rights { read: true, write: true, close: true, transfer: false }
}

/// What a socket or a memory object may be used for: everything.
pub fn shared_rights() -> (rights: Rights)
    ensures
        rights == all_rights(),
{
    Rights { read: true, write: true, close: true, transfer: true }
}

/// What a descriptor is, for the purpose of copying it.
#[derive(Clone, Copy, PartialEq, Eq, Structural, Debug)]
pub enum Duplicable {
    Console(u8),
    Handle(u32),
}

/// The same, as the value a description comes to.
pub open spec fn copyable(descriptor: u64, found: Result<Descriptor, u64>) -> Result<
    Duplicable,
    u64,
> {
    match found {
        Err(reason) => Err(reason),
        Ok(Descriptor::Console(stream)) => Ok(Duplicable::Console(stream)),
        Ok(_) => if descriptor > MAX_HANDLE {
            Err(EBADF)
        } else {
            Ok(Duplicable::Handle(descriptor as u32))
        },
    }
}

/// What a descriptor is, for the purpose of copying it.
pub fn duplicable(descriptor: u64, found: Result<Descriptor, u64>) -> (copy: Result<
    Duplicable,
    u64,
>)
    ensures
        copy == copyable(descriptor, found),
{
    match found {
        Err(reason) => Err(reason),
        Ok(Descriptor::Console(stream)) => Ok(Duplicable::Console(stream)),
        Ok(_) => if descriptor > MAX_HANDLE {
            Err(EBADF)
        } else {
            Ok(Duplicable::Handle(descriptor as u32))
        },
    }
}

/// What `dup` is to do next.
#[derive(Clone, Copy, PartialEq, Eq, Structural, Debug)]
pub enum Copying {
    Answer(u64),
    /// Make a handle for a console of this stream, with these rights, and answer
    /// it.
    Console { stream: u8, rights: Rights },
    /// Duplicate the handle with these rights, and go on with [`duplicated`].
    Handle { handle: u32, rights: Asked },
}

/// `dup(fd)`: a second descriptor for the same thing, which may do the same.
pub fn dup(descriptor: u64, has_process: bool, found: Result<Descriptor, u64>) -> (next: Copying)
    ensures
        next == if !has_process {
            Copying::Answer(EBADF)
        } else {
            match copyable(descriptor, found) {
                Err(reason) => Copying::Answer(reason),
                Ok(Duplicable::Console(stream)) => Copying::Console {
                    stream,
                    rights: private_rights(),
                },
                Ok(Duplicable::Handle(handle)) => Copying::Handle { handle, rights: Asked::Same },
            }
        },
{
    if !has_process {
        return Copying::Answer(EBADF);
    }
    match duplicable(descriptor, found) {
        Err(reason) => Copying::Answer(reason),
        Ok(Duplicable::Console(stream)) => Copying::Console { stream, rights: kept_rights() },
        Ok(Duplicable::Handle(handle)) => Copying::Handle { handle, rights: Asked::Same },
    }
}

/// Finish `dup`: the copy starts where the original is.
pub fn duplicated(state: &mut State, process: u64, handle: u32, copy: Option<u32>) -> (answer: u64)
    requires
        old(state).wf(),
    ensures
        final(state).wf(),
        match copy {
            None => answer == EBADF && final(state)@ == old(state)@,
            Some(copy) => {
                &&& answer == copy as u64
                &&& final(state)@ == old(state)@.moved(
                    process,
                    copy,
                    old(state)@.position(process, handle),
                )
            },
        },
{
    match copy {
        None => EBADF,
        Some(copy) => {
            let at: u64 = state.position(process, handle);
            state.set_position(process, copy, at);
            copy as u64
        },
    }
}

/// What `dup2` is to do next.
#[derive(Clone, Copy, PartialEq, Eq, Structural, Debug)]
pub enum Duplicating {
    Answer(u64),
    /// Make a handle for a console of this stream, with these rights; duplicate
    /// it at `to` with the same, close it, and answer what [`console_at`] says.
    Console { stream: u8, to: u32, rights: Rights },
    /// Duplicate `handle` at `to` with these rights, and go on with
    /// [`duplicated_at`].
    Handle { handle: u32, to: u32, rights: Asked },
}

/// `dup2(from, to)` and `dup3(from, to, flags)`.
///
/// Onto itself it does nothing. The three a program starts with cannot be
/// replaced.
pub fn dup2(from: u64, to: u64, has_process: bool, found: Result<Descriptor, u64>) -> (next:
    Duplicating)
    ensures
        next == if from == to {
            match found {
                Ok(_) => Duplicating::Answer(to),
                Err(reason) => Duplicating::Answer(reason),
            }
        } else if to > MAX_HANDLE || to <= STDERR {
            Duplicating::Answer(EINVAL)
        } else if !has_process {
            Duplicating::Answer(EBADF)
        } else {
            match copyable(from, found) {
                Err(reason) => Duplicating::Answer(reason),
                Ok(Duplicable::Console(stream)) => Duplicating::Console {
                    stream,
                    to: to as u32,
                    rights: private_rights(),
                },
                Ok(Duplicable::Handle(handle)) => Duplicating::Handle {
                    handle,
                    to: to as u32,
                    rights: Asked::Same,
                },
            }
        },
{
    if from == to {
        return match found {
            Ok(_) => Duplicating::Answer(to),
            Err(reason) => Duplicating::Answer(reason),
        };
    }
    if to > MAX_HANDLE || to <= STDERR {
        return Duplicating::Answer(EINVAL);
    }
    if !has_process {
        return Duplicating::Answer(EBADF);
    }
    match duplicable(from, found) {
        Err(reason) => Duplicating::Answer(reason),
        Ok(Duplicable::Console(stream)) => Duplicating::Console {
            stream,
            to: to as u32,
            rights: kept_rights(),
        },
        Ok(Duplicable::Handle(handle)) => Duplicating::Handle {
            handle,
            to: to as u32,
            rights: Asked::Same,
        },
    }
}

/// What `dup2` of a console answers.
pub fn console_at(placed: Option<u32>) -> (answer: u64)
    ensures
        answer == match placed {
            Some(at) => at as u64,
            None => EBADF,
        },
{
    match placed {
        Some(at) => at as u64,
        None => EBADF,
    }
}

/// Finish `dup2` of a handle: what was at the number is gone, and the copy
/// starts where the original is.
pub fn duplicated_at(
    state: &mut State,
    process: u64,
    handle: u32,
    to: u32,
    placed: Option<u32>,
) -> (answer: u64)
    requires
        old(state).wf(),
        handle != to,
    ensures
        final(state).wf(),
        match placed {
            None => answer == EBADF && final(state)@ == old(state)@,
            Some(at) => {
                &&& answer == at as u64
                &&& final(state)@ == old(state)@.moved(
                    process,
                    to,
                    old(state)@.position(process, handle),
                )
            },
        },
{
    match placed {
        None => EBADF,
        Some(at) => {
            state.positions.remove(process, to as u64);
            let was: u64 = state.position(process, handle);
            state.set_position(process, to, was);
            assert(state@.positions =~= old(state)@.moved(process, to, was).positions);
            at as u64
        },
    }
}

/// The rights of the two ends of a pipe: the first is read and the second
/// written, and either may be sent on.
pub open spec fn pipe_rights() -> (Rights, Rights) {
    (
        Rights { read: true, write: false, close: true, transfer: true },
        Rights { read: false, write: true, close: true, transfer: true },
    )
}

/// `pipe2(ends, flags)`: a refusal, or the rights of the two ends.
///
/// A pipe that does not wait is refused: a program that asked for one and got
/// the other would hang where it had arranged not to.
pub fn pipe2(flags: u64, has_process: bool, ends_in_range: bool) -> (ends: Result<
    (Rights, Rights),
    u64,
>)
    ensures
        ends == if flags & !CLOEXEC != 0 {
            Err::<(Rights, Rights), u64>(EINVAL)
        } else if !has_process {
            Err(EBADF)
        } else if !ends_in_range {
            Err(EFAULT)
        } else {
            Ok(pipe_rights())
        },
{
    if flags & !CLOEXEC != 0 {
        return Err(EINVAL);
    }
    if !has_process {
        return Err(EBADF);
    }
    if !ends_in_range {
        return Err(EFAULT);
    }
    Ok(
        (
            Rights { read: true, write: false, close: true, transfer: true },
            Rights { read: false, write: true, close: true, transfer: true },
        ),
    )
}

/// `memfd_create(name, flags)`: a refusal, or leave to make a descriptor parked
/// under [`EMPTY_MEMFD`].
///
/// `name_bytes` are the bytes the program has at `name`, which is read only to
/// find out that it can be.
pub fn memfd_create(name: u64, name_bytes: &[u8], flags: u64, has_process: bool) -> (made: Result<
    (),
    u64,
>)
    requires
        name_bytes@.len() <= MAX_PATH,
    ensures
        made == if flags & !MEMFD_CLOEXEC != 0 {
            Err::<(), u64>(EINVAL)
        } else if name != 0 && path_in(name_bytes@) is Err {
            Err(EFAULT)
        } else if !has_process {
            Err(EBADF)
        } else {
            Ok(())
        },
{
    if flags & !MEMFD_CLOEXEC != 0 {
        return Err(EINVAL);
    }
    if name != 0 && path_of(name_bytes).is_err() {
        return Err(EFAULT);
    }
    if !has_process {
        return Err(EBADF);
    }
    Ok(())
}

/// Remember that a descriptor is memory without a size.
pub fn memfd_created(state: &mut State, process: u64, handle: u32) -> (answer: u64)
    requires
        old(state).wf(),
    ensures
        final(state).wf(),
        answer == handle as u64,
        final(state)@ == (Model {
            empty: old(state)@.empty.insert((process, handle as u64)),
            ..old(state)@
        }),
{
    state.empty.set(process, handle as u64, 0);
    assert(state@.empty =~= old(state)@.empty.insert((process, handle as u64)));
    handle as u64
}

/// What `ftruncate` is to do next.
#[derive(Clone, Copy, PartialEq, Eq, Structural, Debug)]
pub enum Sizing {
    Answer(u64),
    /// Make this much memory, put it at the handle, and go on with [`sized`].
    Make { handle: u32, length: u64 },
}

/// `ftruncate(fd, length)`.
///
/// Memory gets its size once. Asking for the size it has changes nothing, and
/// any other is refused; so is sizing anything else.
pub fn ftruncate(
    state: &State,
    process: Option<u64>,
    descriptor: u64,
    length: u64,
    memory: Option<u64>,
) -> (next: Sizing)
    requires
        state.wf(),
    ensures
        next == if process is None || descriptor > MAX_HANDLE {
            Sizing::Answer(EBADF)
        } else if !state@.empty.contains((process.unwrap(), descriptor)) {
            if memory == Some(length) {
                Sizing::Answer(0)
            } else {
                Sizing::Answer(EINVAL)
            }
        } else if length == 0 {
            Sizing::Answer(EINVAL)
        } else {
            Sizing::Make { handle: descriptor as u32, length }
        },
{
    let process: u64 = match process {
        Some(process) => process,
        None => return Sizing::Answer(EBADF),
    };
    if descriptor > MAX_HANDLE {
        return Sizing::Answer(EBADF);
    }
    if state.empty.get(process, descriptor).is_none() {
        return match memory {
            Some(size) => if size == length {
                Sizing::Answer(0)
            } else {
                Sizing::Answer(EINVAL)
            },
            None => Sizing::Answer(EINVAL),
        };
    }
    if length == 0 {
        return Sizing::Answer(EINVAL);
    }
    Sizing::Make { handle: descriptor as u32, length }
}

/// Finish `ftruncate`: whether there was memory, and whether it went to the
/// handle.
pub fn sized(state: &mut State, process: u64, handle: u32, made: bool, placed: bool) -> (answer: u64)
    requires
        old(state).wf(),
    ensures
        final(state).wf(),
        if made && placed {
            &&& answer == 0
            &&& final(state)@ == Model {
                empty: old(state)@.empty.remove((process, handle as u64)),
                ..old(state)@
            }
        } else {
            answer == ENOMEM && final(state)@ == old(state)@
        },
{
    if !made || !placed {
        return ENOMEM;
    }
    state.empty.remove(process, handle as u64);
    assert(state@.empty =~= old(state)@.empty.remove((process, handle as u64)));
    0
}

/// What `openat` is to do first.
#[derive(Debug)]
pub enum Opening {
    Answer(u64),
    /// It is the window: open one.
    Window,
    /// Walk this path, and go on with [`walked`].
    Walk(Vec<u8>),
}

/// `openat(dirfd, path, flags, mode)`.
///
/// The device is looked for before the walk, which could otherwise make an
/// ordinary file of its name.
pub fn openat(directory: u64, bytes: &[u8]) -> (next: Opening)
    requires
        bytes@.len() <= MAX_PATH,
    ensures
        if directory % 0x1_0000_0000 != AT_FDCWD {
            next == Opening::Answer(EINVAL)
        } else {
            match path_in(bytes@) {
                Err(reason) => next == Opening::Answer(reason),
                Ok(path) => if crate::compat::linux_display::names_device(path) {
                    next == Opening::Window
                } else {
                    next matches Opening::Walk(walked) && walked@ == path
                },
            }
        },
{
    if !is_cwd(directory) {
        return Opening::Answer(EINVAL);
    }
    match path_of(bytes) {
        Err(reason) => Opening::Answer(reason),
        Ok(path) => if crate::compat::linux_display::is_device(path.as_slice()) {
            Opening::Window
        } else {
            Opening::Walk(path)
        },
    }
}

/// What `openat` is to do once the walk is over.
#[derive(Debug)]
pub enum Reached {
    Answer(u64),
    /// Empty the file, and use it.
    Truncate,
    Use,
    /// Walk to the directory, make the name in it, and use that.
    Create { directory: Vec<u8>, name: Vec<u8>, as_directory: bool },
}

/// Whether the flags ask for writing.
pub open spec fn writing(flags: u64) -> bool {
    flags & (WRONLY | RDWR) != 0
}

/// Go on with `openat`: what the walk reached, or why it did not.
///
/// A missing name is an error only where the caller did not ask for it to be
/// made.
pub fn walked(path: &[u8], flags: u64, reached: Result<Kind, u64>) -> (next: Reached)
    ensures
        match reached {
            Err(reason) => if reason == ENOENT && flags & CREAT != 0 {
                match split_in(path@) {
                    Err(refused) => next == Reached::Answer(refused),
                    Ok((parent, last)) => {
                        &&& next matches Reached::Create { directory, name, as_directory }
                        &&& directory@ == parent
                        &&& name@ == last
                        &&& as_directory == (flags & DIRECTORY != 0)
                    },
                }
            } else {
                next == Reached::Answer(reason)
            },
            Ok(kind) => if flags & CREAT != 0 && flags & EXCL != 0 {
                next == Reached::Answer(EEXIST)
            } else if flags & DIRECTORY != 0 && kind == Kind::File {
                next == Reached::Answer(ENOTDIR)
            } else if kind == Kind::Directory && writing(flags) {
                next == Reached::Answer(EISDIR)
            } else if flags & TRUNC != 0 && kind == Kind::File {
                next == Reached::Truncate
            } else {
                next == Reached::Use
            },
        },
{
    match reached {
        Err(reason) => {
            if reason == ENOENT && flags & CREAT != 0 {
                match split(path) {
                    Err(refused) => Reached::Answer(refused),
                    Ok((directory, name)) => Reached::Create {
                        directory,
                        name,
                        as_directory: flags & DIRECTORY != 0,
                    },
                }
            } else {
                Reached::Answer(reason)
            }
        },
        Ok(kind) => {
            let is_directory: bool = match kind {
                Kind::Directory => true,
                Kind::File => false,
            };
            if flags & CREAT != 0 && flags & EXCL != 0 {
                return Reached::Answer(EEXIST);
            }
            if flags & DIRECTORY != 0 && !is_directory {
                return Reached::Answer(ENOTDIR);
            }
            if is_directory && flags & (WRONLY | RDWR) != 0 {
                return Reached::Answer(EISDIR);
            }
            if flags & TRUNC != 0 && !is_directory {
                return Reached::Truncate;
            }
            Reached::Use
        },
    }
}

/// The rights a file is opened with: written only if it was asked for.
pub fn open_rights(flags: u64) -> (rights: Rights)
    ensures
        rights == (Rights { read: true, write: writing(flags), close: true, transfer: true }),
        rights.write <==> flags % 4 != 0,
{
    proof {
        law::law_the_access_bits_decide(flags);
    }
    Rights { read: true, write: flags & (WRONLY | RDWR) != 0, close: true, transfer: true }
}

/// Finish `openat`: the file is open as `handle`, or there is no process to open
/// it in.
pub fn opened_at(
    state: &mut State,
    process: Option<u64>,
    handle: u32,
    flags: u64,
    size: Option<u64>,
) -> (answer: u64)
    requires
        old(state).wf(),
    ensures
        final(state).wf(),
        match process {
            None => answer == EBADF && final(state)@ == old(state)@,
            Some(process) => {
                &&& answer == handle as u64
                &&& final(state)@ == old(state)@.moved(
                    process,
                    handle,
                    if flags & APPEND != 0 {
                        match size {
                            Some(size) => size,
                            None => 0,
                        }
                    } else {
                        0
                    },
                )
            },
        },
{
    let process: u64 = match process {
        Some(process) => process,
        None => return EBADF,
    };
    let start: u64 = if flags & APPEND != 0 {
        match size {
            Some(size) => size,
            None => 0,
        }
    } else {
        0
    };
    state.set_position(process, handle, start);
    handle as u64
}

/// Whether `close` has a handle to close: the three a program starts with are not
/// handles.
pub open spec fn closes(process: Option<u64>, descriptor: u64) -> bool {
    STDERR < descriptor <= MAX_HANDLE && process is Some
}

/// The positions once a descriptor is closed.
pub open spec fn files_without(before: Model, process: Option<u64>, descriptor: u64) -> Model {
    if closes(process, descriptor) {
        Model { positions: before.positions.remove((process.unwrap(), descriptor)), ..before }
    } else {
        before
    }
}

/// The windows once a descriptor is closed.
pub open spec fn windows_without(
    before: linux_display::Model,
    process: Option<u64>,
    descriptor: u64,
) -> linux_display::Model {
    if process is Some && descriptor <= MAX_HANDLE {
        linux_display::Model {
            windows: before.windows.remove((process.unwrap(), descriptor as u32)),
            ..before
        }
    } else {
        before
    }
}

/// What is waited for once a descriptor is closed.
pub open spec fn waits_without(
    before: linux_poll::Model,
    process: Option<u64>,
    descriptor: u64,
) -> linux_poll::Model {
    if closes(process, descriptor) && before.sets.dom().contains(process.unwrap()) {
        linux_poll::Model {
            sets: before.sets.insert(
                process.unwrap(),
                linux_poll::without(before.sets[process.unwrap()], descriptor),
            ),
            ..before
        }
    } else {
        before
    }
}

/// `close(fd)`: an answer, or the handle to close; [`closed`] finishes.
///
/// What is kept of the descriptor goes with it: its position, its window, and
/// every watch on it. The three a program starts with are not handles, and
/// closing one does nothing to them.
pub fn close(
    state: &mut State,
    windows: &mut linux_display::State,
    waits: &mut linux_poll::State,
    process: Option<u64>,
    descriptor: u64,
) -> (closing: Result<u32, u64>)
    requires
        old(state).wf(),
        old(windows).wf(),
        old(waits).wf(),
    ensures
        final(state).wf(),
        final(windows).wf(),
        final(waits).wf(),
        closing == if descriptor <= STDERR {
            Err::<u32, u64>(0)
        } else if !closes(process, descriptor) {
            Err(EBADF)
        } else {
            Ok(descriptor as u32)
        },
        final(state)@ == files_without(old(state)@, process, descriptor),
        final(windows)@ == windows_without(old(windows)@, process, descriptor),
        final(waits)@ == waits_without(old(waits)@, process, descriptor),
{
    if let Some(process) = process {
        if descriptor <= MAX_HANDLE {
            linux_display::close(windows, process, descriptor as u32);
        }
    }
    if descriptor <= STDERR {
        return Err(0);
    }
    let process: u64 = match process {
        Some(process) => process,
        None => return Err(EBADF),
    };
    if descriptor > MAX_HANDLE {
        return Err(EBADF);
    }
    state.positions.remove(process, descriptor);
    linux_poll::forget_descriptor(waits, process, descriptor as u32);
    Ok(descriptor as u32)
}

/// What `close` answers once the handle has been closed, or was not one.
pub fn closed(was_open: bool) -> (answer: u64)
    ensures
        answer == if was_open {
            0
        } else {
            EBADF
        },
{
    if was_open {
        0
    } else {
        EBADF
    }
}

/// What a read is to do next.
#[derive(Clone, Copy, PartialEq, Eq, Structural, Debug)]
pub enum Reading {
    Answer(u64),
    /// Read up to this many bytes of the pipe, and finish with [`read_pipe`].
    Pipe(u64),
    /// Receive on the socket.
    Socket,
    /// Read this many bytes of the file from here, and finish with [`read_done`].
    File { at: u64, length: u64 },
}

/// The lesser of two.
pub open spec fn lesser(left: u64, right: u64) -> u64 {
    if left < right {
        left
    } else {
        right
    }
}

fn least(left: u64, right: u64) -> (smaller: u64)
    ensures
        smaller == lesser(left, right),
{
    if left < right {
        left
    } else {
        right
    }
}

/// What a read of `wanted` bytes comes to. `offset` is where to read from
/// without moving, if the call says.
pub open spec fn read_plan(
    state: Model,
    process: Option<u64>,
    found: Result<Descriptor, u64>,
    wanted: u64,
    in_range: bool,
    offset: Option<u64>,
) -> Reading {
    match found {
        Err(reason) => Reading::Answer(reason),
        Ok(Descriptor::Console(stream)) => if stream == STDIN {
            Reading::Answer(0)
        } else {
            Reading::Answer(EBADF)
        },
        Ok(Descriptor::Pipe) => if offset is Some {
            Reading::Answer(ESPIPE)
        } else if wanted == 0 {
            Reading::Answer(0)
        } else if !in_range {
            Reading::Answer(EFAULT)
        } else {
            Reading::Pipe(lesser(wanted, MAX_TRANSFER))
        },
        Ok(Descriptor::Socket) => if offset is Some {
            Reading::Answer(ESPIPE)
        } else {
            Reading::Socket
        },
        Ok(Descriptor::Other) => Reading::Answer(EBADF),
        Ok(Descriptor::File { kind, readable, writable, handle }) => if process is None
            || !readable {
            Reading::Answer(EBADF)
        } else if kind == Kind::Directory {
            Reading::Answer(EISDIR)
        } else if wanted == 0 {
            Reading::Answer(0)
        } else if !in_range {
            Reading::Answer(EFAULT)
        } else {
            Reading::File {
                at: match offset {
                    Some(at) => at,
                    None => state.position(process.unwrap(), handle),
                },
                length: lesser(wanted, MAX_TRANSFER),
            }
        },
    }
}

fn read_at(
    state: &State,
    process: Option<u64>,
    found: Result<Descriptor, u64>,
    wanted: u64,
    in_range: bool,
    offset: Option<u64>,
) -> (next: Reading)
    requires
        state.wf(),
    ensures
        next == read_plan(state@, process, found, wanted, in_range, offset),
{
    let (kind, readable, handle) = match found {
        Err(reason) => return Reading::Answer(reason),
        Ok(Descriptor::Console(stream)) => {
            return if stream as u64 == STDIN {
                Reading::Answer(0)
            } else {
                Reading::Answer(EBADF)
            };
        },
        Ok(Descriptor::Pipe) => {
            if offset.is_some() {
                return Reading::Answer(ESPIPE);
            }
            if wanted == 0 {
                return Reading::Answer(0);
            }
            if !in_range {
                return Reading::Answer(EFAULT);
            }
            return Reading::Pipe(least(wanted, MAX_TRANSFER));
        },
        Ok(Descriptor::Socket) => {
            return if offset.is_some() {
                Reading::Answer(ESPIPE)
            } else {
                Reading::Socket
            };
        },
        Ok(Descriptor::Other) => return Reading::Answer(EBADF),
        Ok(Descriptor::File { kind, readable, writable: _, handle }) => (kind, readable, handle),
    };
    let process: u64 = match process {
        Some(process) => process,
        None => return Reading::Answer(EBADF),
    };
    if !readable {
        return Reading::Answer(EBADF);
    }
    match kind {
        Kind::Directory => return Reading::Answer(EISDIR),
        Kind::File => {},
    }
    if wanted == 0 {
        return Reading::Answer(0);
    }
    if !in_range {
        return Reading::Answer(EFAULT);
    }
    let at: u64 = match offset {
        Some(at) => at,
        None => state.position(process, handle),
    };
    Reading::File { at, length: least(wanted, MAX_TRANSFER) }
}

/// `read(fd, buffer, count)`.
///
/// `in_range` says whether the program has as many bytes as are to be moved.
/// Standard input reads as the end of a file.
pub fn read(
    state: &State,
    process: Option<u64>,
    found: Result<Descriptor, u64>,
    wanted: u64,
    in_range: bool,
) -> (next: Reading)
    requires
        state.wf(),
    ensures
        next == read_plan(state@, process, found, wanted, in_range, None),
{
    read_at(state, process, found, wanted, in_range, None)
}

/// `pread64(fd, buffer, count, offset)`: a read that does not move the
/// descriptor.
pub fn pread64(
    state: &State,
    process: Option<u64>,
    found: Result<Descriptor, u64>,
    wanted: u64,
    in_range: bool,
    offset: u64,
) -> (next: Reading)
    requires
        state.wf(),
    ensures
        next == if offset > 0x7FFF_FFFF_FFFF_FFFF {
            Reading::Answer(EINVAL)
        } else {
            read_plan(state@, process, found, wanted, in_range, Some(offset))
        },
{
    if offset > 0x7FFF_FFFF_FFFF_FFFF {
        return Reading::Answer(EINVAL);
    }
    read_at(state, process, found, wanted, in_range, Some(offset))
}

/// Finish a read of a file. `moves` says whether the descriptor moves with it.
pub fn read_done(
    state: &mut State,
    process: u64,
    handle: u32,
    at: u64,
    moves: bool,
    buffer: u64,
    outcome: Result<Vec<u8>, StoreError>,
) -> (reply: Reply)
    requires
        old(state).wf(),
    ensures
        final(state).wf(),
        match outcome {
            Err(error) => reply.is_plain(error_number(error)) && final(state)@ == old(state)@,
            Ok(taken) => {
                &&& reply.is_writing(taken@.len() as u64, buffer, taken@)
                &&& final(state)@ == if moves {
                    old(state)@.moved(process, handle, counted(at, taken@.len() as u64))
                } else {
                    old(state)@
                }
            },
        },
{
    match outcome {
        Err(error) => Reply::plain(errno(error)),
        Ok(taken) => {
            let length: u64 = taken.len() as u64;
            if moves {
                state.set_position(process, handle, count(at, length));
            }
            Reply::writing(length, buffer, taken)
        },
    }
}

/// Why a pipe refused something.
#[derive(Clone, Copy, PartialEq, Eq, Structural, Debug)]
pub enum PipeError {
    WrongEnd,
    NoReader,
    Cancelled,
}

/// Finish a read of a pipe.
pub fn read_pipe(buffer: u64, outcome: Result<Vec<u8>, PipeError>) -> (reply: Reply)
    ensures
        match outcome {
            Ok(taken) => reply.is_writing(taken@.len() as u64, buffer, taken@),
            Err(PipeError::Cancelled) => reply.is_plain(EINTR),
            Err(_) => reply.is_plain(EBADF),
        },
{
    match outcome {
        Ok(taken) => Reply::writing(taken.len() as u64, buffer, taken),
        Err(PipeError::Cancelled) => Reply::plain(EINTR),
        Err(_) => Reply::plain(EBADF),
    }
}

/// Finish a write to a pipe.
pub fn write_pipe(outcome: Result<u64, PipeError>) -> (answer: u64)
    ensures
        answer == match outcome {
            Ok(written) => written,
            Err(PipeError::WrongEnd) => EBADF,
            Err(PipeError::NoReader) => EPIPE,
            Err(PipeError::Cancelled) => EINTR,
        },
{
    match outcome {
        Ok(written) => written,
        Err(PipeError::WrongEnd) => EBADF,
        Err(PipeError::NoReader) => EPIPE,
        Err(PipeError::Cancelled) => EINTR,
    }
}

/// What a write is to do next.
#[derive(Clone, Copy, PartialEq, Eq, Structural, Debug)]
pub enum Writing {
    Answer(u64),
    /// Write this many bytes to the log, as [`to_console`] says.
    Console { stream: u8, length: u64 },
    /// Write this many bytes to the pipe, and finish with [`write_pipe`].
    Pipe(u64),
    /// Send on the socket.
    Socket,
    /// Write this many bytes to the file from here, and finish with
    /// [`write_done`].
    File { at: u64, length: u64 },
}

/// How many bytes a write to a descriptor looks at, at most.
pub open spec fn write_limit(found: Result<Descriptor, u64>) -> u64 {
    match found {
        Ok(Descriptor::Console(_)) => MAX_CONSOLE,
        _ => MAX_TRANSFER,
    }
}

/// How many bytes a write to a descriptor looks at, at most.
pub fn write_most(found: Result<Descriptor, u64>) -> (most: u64)
    ensures
        most == write_limit(found),
{
    match found {
        Ok(Descriptor::Console(_)) => MAX_CONSOLE,
        _ => MAX_TRANSFER,
    }
}

/// `write(fd, buffer, count)`, whatever the descriptor turns out to be.
///
/// `in_range` says whether the program has as many bytes as are to be moved.
pub fn write(
    state: &State,
    process: Option<u64>,
    found: Result<Descriptor, u64>,
    wanted: u64,
    in_range: bool,
) -> (next: Writing)
    requires
        state.wf(),
    ensures
        next == match found {
            Err(reason) => Writing::Answer(reason),
            Ok(Descriptor::Console(stream)) => if stream == STDIN {
                Writing::Answer(EBADF)
            } else if wanted == 0 {
                Writing::Answer(0)
            } else if !in_range {
                Writing::Answer(EFAULT)
            } else {
                Writing::Console { stream, length: lesser(wanted, MAX_CONSOLE) }
            },
            Ok(Descriptor::Pipe) => if wanted == 0 {
                Writing::Answer(0)
            } else if !in_range {
                Writing::Answer(EFAULT)
            } else {
                Writing::Pipe(lesser(wanted, MAX_TRANSFER))
            },
            Ok(Descriptor::Socket) => Writing::Socket,
            Ok(Descriptor::Other) => Writing::Answer(EBADF),
            Ok(Descriptor::File { kind, readable, writable, handle }) => if process is None
                || !writable {
                Writing::Answer(EBADF)
            } else if kind == Kind::Directory {
                Writing::Answer(EISDIR)
            } else if wanted == 0 {
                Writing::Answer(0)
            } else if !in_range {
                Writing::Answer(EFAULT)
            } else {
                Writing::File {
                    at: state@.position(process.unwrap(), handle),
                    length: lesser(wanted, MAX_TRANSFER),
                }
            },
        },
{
    let (kind, writable, handle) = match found {
        Err(reason) => return Writing::Answer(reason),
        Ok(Descriptor::Console(stream)) => return write_console(stream, wanted, in_range),
        Ok(Descriptor::Pipe) => {
            if wanted == 0 {
                return Writing::Answer(0);
            }
            if !in_range {
                return Writing::Answer(EFAULT);
            }
            return Writing::Pipe(least(wanted, MAX_TRANSFER));
        },
        Ok(Descriptor::Socket) => return Writing::Socket,
        Ok(Descriptor::Other) => return Writing::Answer(EBADF),
        Ok(Descriptor::File { kind, readable: _, writable, handle }) => (kind, writable, handle),
    };
    let process: u64 = match process {
        Some(process) => process,
        None => return Writing::Answer(EBADF),
    };
    if !writable {
        return Writing::Answer(EBADF);
    }
    match kind {
        Kind::Directory => return Writing::Answer(EISDIR),
        Kind::File => {},
    }
    if wanted == 0 {
        return Writing::Answer(0);
    }
    if !in_range {
        return Writing::Answer(EFAULT);
    }
    Writing::File { at: state.position(process, handle), length: least(wanted, MAX_TRANSFER) }
}

/// What a write to the log is to do.
pub fn write_console(stream: u8, wanted: u64, in_range: bool) -> (next: Writing)
    ensures
        next == if stream == STDIN {
            Writing::Answer(EBADF)
        } else if wanted == 0 {
            Writing::Answer(0)
        } else if !in_range {
            Writing::Answer(EFAULT)
        } else {
            Writing::Console { stream, length: lesser(wanted, MAX_CONSOLE) }
        },
{
    if stream as u64 == STDIN {
        return Writing::Answer(EBADF);
    }
    if wanted == 0 {
        return Writing::Answer(0);
    }
    if !in_range {
        return Writing::Answer(EFAULT);
    }
    Writing::Console { stream, length: least(wanted, MAX_CONSOLE) }
}

/// Finish a write to a file.
pub fn write_done(
    state: &mut State,
    process: u64,
    handle: u32,
    at: u64,
    outcome: Result<u64, StoreError>,
) -> (answer: u64)
    requires
        old(state).wf(),
    ensures
        final(state).wf(),
        match outcome {
            Err(error) => answer == error_number(error) && final(state)@ == old(state)@,
            Ok(written) => {
                &&& answer == written
                &&& final(state)@ == old(state)@.moved(process, handle, counted(at, written))
            },
        },
{
    match outcome {
        Err(error) => errno(error),
        Ok(written) => {
            state.set_position(process, handle, count(at, written));
            written
        },
    }
}

/// A register read as a signed number.
pub open spec fn signed(value: u64) -> int {
    if value > 0x7FFF_FFFF_FFFF_FFFF {
        value - 0x1_0000_0000_0000_0000
    } else {
        value as int
    }
}

fn as_signed(value: u64) -> (number: i128)
    ensures
        number == signed(value),
{
    if value > 0x7FFF_FFFF_FFFF_FFFF {
        value as i128 - 0x1_0000_0000_0000_0000i128
    } else {
        value as i128
    }
}

/// Where a seek starts, or what it answers instead.
pub open spec fn seek_from(position: u64, whence: u64, size: Result<u64, StoreError>) -> Result<
    int,
    u64,
> {
    if whence == SEEK_SET {
        Ok(0)
    } else if whence == SEEK_CUR {
        Ok(signed(position))
    } else if whence == SEEK_END {
        match size {
            Ok(size) => Ok(signed(size)),
            Err(error) => Err(error_number(error)),
        }
    } else {
        Err(EINVAL)
    }
}

/// `lseek(fd, offset, whence)`.
///
/// A position before the start is an error; one past the end is allowed.
pub fn lseek(
    state: &mut State,
    found: Result<Opened, u64>,
    offset: u64,
    whence: u64,
    size: Result<u64, StoreError>,
) -> (answer: u64)
    requires
        old(state).wf(),
    ensures
        final(state).wf(),
        match found {
            Err(reason) => answer == reason && final(state)@ == old(state)@,
            Ok(opened) => match seek_from(
                old(state)@.position(opened.process, opened.handle),
                whence,
                size,
            ) {
                Err(reason) => answer == reason && final(state)@ == old(state)@,
                Ok(from) => {
                    let to = from + signed(offset);
                    if 0 <= to <= 0x7FFF_FFFF_FFFF_FFFF {
                        &&& answer == to
                        &&& final(state)@ == old(state)@.moved(
                            opened.process,
                            opened.handle,
                            to as u64,
                        )
                    } else {
                        answer == EINVAL && final(state)@ == old(state)@
                    }
                },
            },
        },
{
    let opened: Opened = match found {
        Ok(opened) => opened,
        Err(reason) => return reason,
    };
    let from: i128 = if whence == SEEK_SET {
        0
    } else if whence == SEEK_CUR {
        as_signed(state.position(opened.process, opened.handle))
    } else if whence == SEEK_END {
        match size {
            Ok(size) => as_signed(size),
            Err(error) => return errno(error),
        }
    } else {
        return EINVAL;
    };
    let to: i128 = from + as_signed(offset);
    if to < 0 || to > 0x7FFF_FFFF_FFFF_FFFFi128 {
        return EINVAL;
    }
    state.set_position(opened.process, opened.handle, to as u64);
    to as u64
}

/// Zero bytes.
pub open spec fn zeros(many: nat) -> Seq<u8> {
    Seq::new(many, |i: int| 0u8)
}

/// A `struct stat`. Fields there is no answer for are zero.
pub open spec fn stat_bytes(kind: Kind, size: u64) -> Seq<u8> {
    zeros(16) + le64(
        if kind == Kind::Directory {
            2
        } else {
            1
        },
    ) + le32(
        if kind == Kind::Directory {
            MODE_DIRECTORY
        } else {
            MODE_FILE
        },
    ) + zeros(20) + le64(size) + le64(4096) + le64(((size + 511) / 512) as u64) + zeros(72)
}

/// Fill in a `struct stat`, if the program has room for one.
pub fn fill_stat(kind: Kind, size: Option<u64>, out: u64, in_range: bool) -> (reply: Reply)
    ensures
        if in_range {
            reply.is_writing(
                0,
                out,
                stat_bytes(
                    kind,
                    match size {
                        Some(size) => size,
                        None => 0,
                    },
                ),
            )
        } else {
            reply.is_plain(EFAULT)
        },
{
    if !in_range {
        return Reply::plain(EFAULT);
    }
    let size: u64 = match size {
        Some(size) => size,
        None => 0,
    };
    let links: u64 = match kind {
        Kind::Directory => 2,
        Kind::File => 1,
    };
    let mode: u32 = match kind {
        Kind::Directory => MODE_DIRECTORY,
        Kind::File => MODE_FILE,
    };
    let blocks: u64 = if size % 512 == 0 {
        size / 512
    } else {
        size / 512 + 1
    };
    let mut fields: Vec<u8> = Vec::new();
    put_zeros(&mut fields, 16);
    put_u64(&mut fields, links);
    put_u32(&mut fields, mode);
    put_zeros(&mut fields, 20);
    put_u64(&mut fields, size);
    put_u64(&mut fields, 4096);
    put_u64(&mut fields, blocks);
    put_zeros(&mut fields, 72);
    assert(fields@ =~= stat_bytes(kind, size));
    Reply::writing(0, out, fields)
}

/// `fstat(fd, statbuf)`.
pub fn fstat(found: Result<Opened, u64>, size: Option<u64>, out: u64, in_range: bool) -> (reply:
    Reply)
    ensures
        match found {
            Err(reason) => reply.is_plain(reason),
            Ok(opened) => if in_range {
                reply.is_writing(
                    0,
                    out,
                    stat_bytes(
                        opened.kind,
                        match size {
                            Some(size) => size,
                            None => 0,
                        },
                    ),
                )
            } else {
                reply.is_plain(EFAULT)
            },
        },
{
    match found {
        Err(reason) => Reply::plain(reason),
        Ok(opened) => fill_stat(opened.kind, size, out, in_range),
    }
}

/// The path in an argument pair, or why there is none.
pub open spec fn named_path(directory: u64, bytes: Seq<u8>) -> Result<Seq<u8>, u64> {
    if directory % 0x1_0000_0000 != AT_FDCWD {
        Err(EINVAL)
    } else {
        path_in(bytes)
    }
}

fn name_path(directory: u64, bytes: &[u8]) -> (path: Result<Vec<u8>, u64>)
    requires
        bytes@.len() <= MAX_PATH,
    ensures
        path_view(path) == named_path(directory, bytes@),
{
    if !is_cwd(directory) {
        return Err(EINVAL);
    }
    path_of(bytes)
}

/// `newfstatat(dirfd, path, statbuf, flags)`, which is also `stat` and `lstat`:
/// a refusal, or the path to walk before [`fill_stat`].
///
/// There are no symbolic links in the store, so the three cannot differ.
pub fn newfstatat(directory: u64, bytes: &[u8]) -> (path: Result<Vec<u8>, u64>)
    requires
        bytes@.len() <= MAX_PATH,
    ensures
        path_view(path) == named_path(directory, bytes@),
{
    name_path(directory, bytes)
}

/// `faccessat(dirfd, path, mode, flags)` and `access(path, mode)`: a refusal, or
/// the path to walk. A walk that gets there answers zero.
pub fn faccessat(directory: u64, bytes: &[u8]) -> (path: Result<Vec<u8>, u64>)
    requires
        bytes@.len() <= MAX_PATH,
    ensures
        path_view(path) == named_path(directory, bytes@),
{
    name_path(directory, bytes)
}

/// The directory and name in an argument pair, or why there are none.
pub open spec fn named_split(directory: u64, bytes: Seq<u8>) -> Result<(Seq<u8>, Seq<u8>), u64> {
    match named_path(directory, bytes) {
        Err(reason) => Err(reason),
        Ok(path) => split_in(path),
    }
}

fn name_split(directory: u64, bytes: &[u8]) -> (parts: Result<(Vec<u8>, Vec<u8>), u64>)
    requires
        bytes@.len() <= MAX_PATH,
    ensures
        split_view(parts) == named_split(directory, bytes@),
{
    match name_path(directory, bytes) {
        Err(reason) => Err(reason),
        Ok(path) => split(path.as_slice()),
    }
}

/// `mkdirat(dirfd, path, mode)`: a refusal, or the directory to walk to and the
/// name to make in it.
pub fn mkdirat(directory: u64, bytes: &[u8]) -> (parts: Result<(Vec<u8>, Vec<u8>), u64>)
    requires
        bytes@.len() <= MAX_PATH,
    ensures
        split_view(parts) == named_split(directory, bytes@),
{
    name_split(directory, bytes)
}

/// `unlinkat(dirfd, path, flags)`, which is also `unlink` and `rmdir`: a refusal,
/// or the directory to walk to and the name to take out of it.
pub fn unlinkat(directory: u64, bytes: &[u8]) -> (parts: Result<(Vec<u8>, Vec<u8>), u64>)
    requires
        bytes@.len() <= MAX_PATH,
    ensures
        split_view(parts) == named_split(directory, bytes@),
{
    name_split(directory, bytes)
}

/// What a call that changes the store answers.
pub fn stored(outcome: Result<(), StoreError>) -> (answer: u64)
    ensures
        answer == match outcome {
            Ok(()) => 0,
            Err(error) => error_number(error),
        },
{
    match outcome {
        Ok(()) => 0,
        Err(error) => errno(error),
    }
}

/// `getcwd(buffer, size)`. Always the root, with its terminator counted.
pub fn getcwd(buffer: u64, size: u64, in_range: bool) -> (reply: Reply)
    ensures
        if size < 2 {
            reply.is_plain(ERANGE)
        } else if !in_range {
            reply.is_plain(EFAULT)
        } else {
            reply.is_writing(2, buffer, seq![0x2Fu8, 0u8])
        },
{
    if size < 2 {
        return Reply::plain(ERANGE);
    }
    if !in_range {
        return Reply::plain(EFAULT);
    }
    let mut path: Vec<u8> = Vec::new();
    path.push(0x2F);
    path.push(0);
    assert(path@ =~= seq![0x2Fu8, 0u8]);
    Reply::writing(2, buffer, path)
}

/// One entry of a directory.
#[derive(Debug)]
pub struct Entry {
    pub inode: u32,
    pub kind: Kind,
    pub name: Vec<u8>,
}

/// Bytes in the record of a name this long: a multiple of eight.
pub open spec fn record_length(name: nat) -> nat {
    (RECORD_HEAD + name + 1 + 7) as nat / 8 * 8
}

/// The record of an entry; `next` is what to seek to for the one after it.
pub open spec fn record(entry: Entry, next: nat) -> Seq<u8> {
    le64(entry.inode as u64) + le64(next as u64) + le16(
        record_length(entry.name@.len()) as u16,
    ) + seq![
        if entry.kind == Kind::Directory {
            LISTED_DIRECTORY
        } else {
            LISTED_FILE
        },
    ] + entry.name@ + zeros(
        (record_length(entry.name@.len()) - RECORD_HEAD - entry.name@.len()) as nat,
    )
}

/// How far a listing from `at` gets in `room` bytes: whole records only.
pub open spec fn listed_to(entries: Seq<Entry>, at: nat, room: nat) -> nat
    decreases entries.len() - at,
{
    if at < entries.len() && record_length(entries[at as int].name@.len()) <= room {
        listed_to(
            entries,
            at + 1,
            (room - record_length(entries[at as int].name@.len())) as nat,
        )
    } else {
        at
    }
}

/// The records of the entries in `from..to`.
pub open spec fn records(entries: Seq<Entry>, from: nat, to: nat) -> Seq<u8>
    decreases to - from,
{
    if from >= to {
        Seq::empty()
    } else {
        records(entries, from, (to - 1) as nat) + record(entries[to - 1], to)
    }
}

/// What a call that lists from an entry on answers, with so much room.
pub open spec fn listing_answer(entries: Seq<Entry>, from: nat, room: nat) -> u64 {
    let to = listed_to(entries, from, room);
    if from >= entries.len() {
        0
    } else if to > from {
        total_length(entries, from, to) as u64
    } else {
        EINVAL
    }
}

fn put_record(out: &mut Vec<u8>, entry: &Entry, next: u64)
    requires
        entry.name@.len() <= MAX_TRANSFER,
    ensures
        final(out)@ == old(out)@ + record(*entry, next as nat),
{
    let length: usize = (RECORD_HEAD + entry.name.len() + 8) / 8 * 8;
    assert(length == record_length(entry.name@.len()));
    let ghost before = out@;
    put_u64(out, entry.inode as u64);
    put_u64(out, next);
    put_u16(out, #[verifier::truncate] (length as u16));
    out.push(match entry.kind {
        Kind::Directory => LISTED_DIRECTORY,
        Kind::File => LISTED_FILE,
    });
    put_bytes(out, entry.name.as_slice());
    put_zeros(out, length - RECORD_HEAD - entry.name.len());
    assert(out@ =~= before + record(*entry, next as nat));
}

proof fn lemma_records_length(entries: Seq<Entry>, from: nat, to: nat)
    requires
        from <= to <= entries.len(),
    ensures
        records(entries, from, to).len() == total_length(entries, from, to),
    decreases to - from,
{
    if from < to {
        lemma_records_length(entries, from, (to - 1) as nat);
    }
}

/// Bytes in the records of the entries in `from..to`.
pub open spec fn total_length(entries: Seq<Entry>, from: nat, to: nat) -> nat
    decreases to - from,
{
    if from >= to {
        0
    } else {
        total_length(entries, from, (to - 1) as nat) + record_length(entries[to - 1].name@.len())
    }
}

/// `getdents64(fd, buffer, count)`.
///
/// As many whole entries as fit, and the rest for the next call. A buffer too
/// small for the next entry is an error, because zero means that there is none.
pub fn getdents64(
    state: &mut State,
    found: Result<Opened, u64>,
    buffer: u64,
    wanted: u64,
    in_range: bool,
    listing: Result<Vec<Entry>, StoreError>,
) -> (reply: Reply)
    requires
        old(state).wf(),
    ensures
        final(state).wf(),
        match found {
            Err(reason) => reply.is_plain(reason) && final(state)@ == old(state)@,
            Ok(opened) => if opened.kind == Kind::File {
                reply.is_plain(ENOTDIR) && final(state)@ == old(state)@
            } else if wanted == 0 {
                reply.is_plain(EINVAL) && final(state)@ == old(state)@
            } else if !in_range {
                reply.is_plain(EFAULT) && final(state)@ == old(state)@
            } else {
                match listing {
                    Err(error) => reply.is_plain(error_number(error)) && final(state)@ == old(
                        state,
                    )@,
                    Ok(entries) => {
                        let from = old(state)@.position(opened.process, opened.handle) as nat;
                        let room = lesser(wanted, MAX_TRANSFER) as nat;
                        let to = listed_to(entries@, from, room);
                        if from < entries@.len() && to > from {
                            &&& reply.is_writing(
                                listing_answer(entries@, from, room),
                                buffer,
                                records(entries@, from, to),
                            )
                            &&& final(state)@ == old(state)@.moved(
                                opened.process,
                                opened.handle,
                                to as u64,
                            )
                        } else {
                            &&& reply.is_plain(listing_answer(entries@, from, room))
                            &&& final(state)@ == old(state)@
                        }
                    },
                }
            },
        },
{
    let opened: Opened = match found {
        Ok(opened) => opened,
        Err(reason) => return Reply::plain(reason),
    };
    match opened.kind {
        Kind::File => return Reply::plain(ENOTDIR),
        Kind::Directory => {},
    }
    let room: u64 = least(wanted, MAX_TRANSFER);
    if room == 0 {
        return Reply::plain(EINVAL);
    }
    if !in_range {
        return Reply::plain(EFAULT);
    }
    let entries: Vec<Entry> = match listing {
        Ok(entries) => entries,
        Err(error) => return Reply::plain(errno(error)),
    };
    let start: u64 = state.position(opened.process, opened.handle);
    if start >= entries.len() as u64 {
        return Reply::plain(0);
    }
    let mut out: Vec<u8> = Vec::new();
    let mut done: usize = start as usize;
    assert(out@ =~= records(entries@, start as nat, done as nat));
    while done < entries.len() && entries[done].name.len() as u64 <= room && out.len()
        + (RECORD_HEAD + entries[done].name.len() + 8) / 8 * 8 <= room as usize
        invariant
            start <= done <= entries@.len(),
            room <= MAX_TRANSFER,
            out@.len() <= room,
            out@ == records(entries@, start as nat, done as nat),
            out@.len() == total_length(entries@, start as nat, done as nat),
            listed_to(entries@, done as nat, (room - out@.len()) as nat) == listed_to(
                entries@,
                start as nat,
                room as nat,
            ),
        decreases entries@.len() - done,
    {
        put_record(&mut out, &entries[done], done as u64 + 1);
        done += 1;
    }
    assert(done == listed_to(entries@, start as nat, room as nat));
    if out.len() == 0 {
        proof {
            if done > start {
                lemma_records_length(entries@, start as nat, done as nat);
                assert(record_length(entries@[done - 1].name@.len()) > 0);
            }
        }
        return Reply::plain(EINVAL);
    }
    state.set_position(opened.process, opened.handle, done as u64);
    Reply::writing(out.len() as u64, buffer, out)
}

/// `getrandom(buffer, count, flags)`: an answer, or how many bytes to draw;
/// [`drawn`] finishes.
pub fn getrandom(wanted: u64, in_range: bool) -> (length: Result<u64, u64>)
    ensures
        length == if wanted == 0 {
            Err::<u64, u64>(0)
        } else if !in_range {
            Err(EFAULT)
        } else {
            Ok(lesser(wanted, MAX_TRANSFER))
        },
{
    if wanted == 0 {
        return Err(0);
    }
    if !in_range {
        return Err(EFAULT);
    }
    Ok(least(wanted, MAX_TRANSFER))
}

/// Finish `getrandom`: the bytes that were drawn, or that the generator is not
/// ready.
pub fn drawn(buffer: u64, bytes: Option<Vec<u8>>) -> (reply: Reply)
    ensures
        match bytes {
            None => reply.is_plain(EAGAIN),
            Some(bytes) => reply.is_writing(bytes@.len() as u64, buffer, bytes@),
        },
{
    match bytes {
        None => Reply::plain(EAGAIN),
        Some(bytes) => Reply::writing(bytes.len() as u64, buffer, bytes),
    }
}

proof fn lemma_total_shift(entries: Seq<Entry>, from: nat, to: nat)
    requires
        from < to <= entries.len(),
    ensures
        total_length(entries, from, to) == record_length(entries[from as int].name@.len())
            + total_length(entries, from + 1, to),
    decreases to - from,
{
    if from + 1 < to {
        lemma_total_shift(entries, from, (to - 1) as nat);
    } else {
        assert(total_length(entries, from, from) == 0);
        assert(total_length(entries, to, to) == 0);
    }
}

/// A listing never gives more than there is room for, and stops only where the
/// directory ends or the next entry does not fit.
pub proof fn law_listing_fits(entries: Seq<Entry>, from: nat, room: nat)
    requires
        from <= entries.len(),
    ensures
        ({
            let to = listed_to(entries, from, room);
            &&& from <= to <= entries.len()
            &&& records(entries, from, to).len() == total_length(entries, from, to)
            &&& total_length(entries, from, to) <= room
            &&& to < entries.len() ==> total_length(entries, from, to) + record_length(
                entries[to as int].name@.len(),
            ) > room
        }),
    decreases entries.len() - from,
{
    let to = listed_to(entries, from, room);
    if from < entries.len() && record_length(entries[from as int].name@.len()) <= room {
        let left = (room - record_length(entries[from as int].name@.len())) as nat;
        law_listing_fits(entries, from + 1, left);
        lemma_total_shift(entries, from, to);
    }
    lemma_records_length(entries, from, to);
}

/// A directory read in several calls comes out as it would in one: a call that
/// starts where the one before it stopped leaves nothing out and repeats
/// nothing.
pub proof fn law_listing_resumes(entries: Seq<Entry>, from: nat, between: nat, to: nat)
    requires
        from <= between <= to <= entries.len(),
    ensures
        records(entries, from, between) + records(entries, between, to) == records(
            entries,
            from,
            to,
        ),
    decreases to - between,
{
    if between == to {
        assert(records(entries, between, to) =~= Seq::empty());
        assert(records(entries, from, between) + Seq::<u8>::empty() =~= records(
            entries,
            from,
            between,
        ));
    } else {
        law_listing_resumes(entries, from, between, (to - 1) as nat);
        assert(records(entries, from, between) + records(entries, between, to) =~= (records(
            entries,
            from,
            between,
        ) + records(entries, between, (to - 1) as nat)) + record(entries[to - 1], to));
    }
}

/// Every record is as long as it says and starts the next one on an eight-byte
/// boundary.
pub proof fn law_records_are_aligned(entry: Entry, next: nat)
    ensures
        record(entry, next).len() == record_length(entry.name@.len()),
        record(entry, next).len() % 8 == 0,
{
    let many = entry.name@.len();
    let length = record_length(many);
    assert(length % 8 == 0 && length >= RECORD_HEAD + many + 1);
    let head = le64(entry.inode as u64) + le64(next as u64) + le16(length as u16) + seq![
        if entry.kind == Kind::Directory {
            LISTED_DIRECTORY
        } else {
            LISTED_FILE
        },
    ];
    assert(head.len() == RECORD_HEAD);
    let tail = zeros((length - RECORD_HEAD - many) as nat);
    assert(record(entry, next) == head + entry.name@ + tail);
}

/// A process that has ended has no positions, and nobody else's have moved.
pub proof fn law_ended_process_has_no_positions(before: Model, process: u64, other: u64, handle: u32)
    ensures
        ({
            let after = Model {
                positions: before.positions.remove_keys(
                    Set::new(|key: (u64, u64)| key.0 == process),
                ),
                ..before
            };
            &&& after.position(process, handle) == 0
            &&& other != process ==> after.position(other, handle) == before.position(
                other,
                handle,
            )
        }),
{
}

/// A seek to where a descriptor already is, counted from there, leaves it: the
/// distance zero from the current position is the position.
pub proof fn law_seek_by_nothing_stays(position: u64, size: Result<u64, StoreError>)
    requires
        position <= 0x7FFF_FFFF_FFFF_FFFF,
    ensures
        seek_from(position, SEEK_CUR, size) == Ok::<int, u64>(position as int),
        signed(0) == 0,
{
}

/// Where a run of listing calls stands after so many of them, each with its own
/// room.
pub open spec fn listing_at(entries: Seq<Entry>, rooms: Seq<nat>, calls: nat) -> nat
    decreases calls,
{
    if calls == 0 {
        0
    } else {
        let from = listing_at(entries, rooms, (calls - 1) as nat);
        if from < entries.len() {
            listed_to(entries, from, rooms[calls - 1])
        } else {
            from
        }
    }
}

/// What the calls have given so far, put end to end.
pub open spec fn listing_given(entries: Seq<Entry>, rooms: Seq<nat>, calls: nat) -> Seq<u8>
    decreases calls,
{
    if calls == 0 {
        Seq::empty()
    } else {
        listing_given(entries, rooms, (calls - 1) as nat) + records(
            entries,
            listing_at(entries, rooms, (calls - 1) as nat),
            listing_at(entries, rooms, calls),
        )
    }
}

/// A directory listed from its start, in however many calls and with whatever
/// room each has, comes out whole: what the calls gave so far is the records of
/// the entries so far, each once and in order; no call gives more than it has
/// room for; an entry that does not fit is an error and is not passed over; and
/// the answer is zero only once every entry was given.
pub proof fn law_a_listing_comes_out_whole(entries: Seq<Entry>, rooms: Seq<nat>, calls: nat)
    requires
        calls <= rooms.len(),
        forall|i: int| 0 <= i < rooms.len() ==> 0 < #[trigger] rooms[i] <= MAX_TRANSFER,
    ensures
        listing_at(entries, rooms, calls) <= entries.len(),
        listing_given(entries, rooms, calls) == records(
            entries,
            0,
            listing_at(entries, rooms, calls),
        ),
        calls > 0 ==> ({
            let from = listing_at(entries, rooms, (calls - 1) as nat);
            let to = listing_at(entries, rooms, calls);
            let answer = listing_answer(entries, from, rooms[calls - 1]);
            &&& from <= to
            &&& records(entries, from, to).len() <= rooms[calls - 1]
            &&& to > from ==> answer == records(entries, from, to).len()
            &&& answer == EINVAL <==> from < entries.len() && to == from
            &&& answer == 0 <==> from == entries.len()
            &&& answer == 0 ==> listing_given(entries, rooms, calls) == records(
                entries,
                0,
                entries.len(),
            )
        }),
    decreases calls,
{
    if calls == 0 {
        assert(records(entries, 0, 0) =~= Seq::empty());
    } else {
        let from = listing_at(entries, rooms, (calls - 1) as nat);
        let to = listing_at(entries, rooms, calls);
        law_a_listing_comes_out_whole(entries, rooms, (calls - 1) as nat);
        law_listing_fits(entries, from, rooms[calls - 1]);
        law_listing_resumes(entries, 0, from, to);
        if from == to {
            assert(records(entries, from, to) =~= Seq::empty());
        } else {
            lemma_records_length(entries, from, to);
            lemma_total_shift(entries, from, to);
        }
    }
}

/// What a handle stands for, and what it may be used for.
pub struct Held {
    pub object: u64,
    pub rights: Rights,
}

/// A table of handles once one of them was duplicated under a number.
pub open spec fn with_copy(table: Map<u32, Held>, handle: u32, rights: Asked, copy: u32) -> Map<
    u32,
    Held,
> {
    let from = table[handle];
    table.insert(
        copy,
        match rights {
            Asked::Same => from,
            Asked::Only(only) => Held {
                object: from.object,
                rights: Rights {
                    read: from.rights.read && only.read,
                    write: from.rights.write && only.write,
                    close: from.rights.close && only.close,
                    transfer: from.rights.transfer && only.transfer,
                },
            },
        },
    )
}

/// A copy of a descriptor that is a handle stands for the same thing and may do
/// the same, under a number that nothing else has; nothing else in the table
/// changes. `copy` is a number the table had free.
pub proof fn law_a_copy_stands_for_the_same(
    table: Map<u32, Held>,
    descriptor: u64,
    found: Descriptor,
    copy: u32,
)
    requires
        !(found is Console),
        descriptor <= MAX_HANDLE,
        table.dom().contains(descriptor as u32),
        !table.dom().contains(copy),
    ensures
        copyable(descriptor, Ok(found)) == Ok::<Duplicable, u64>(
            Duplicable::Handle(descriptor as u32),
        ),
        copy != descriptor as u32,
        ({
            let after = with_copy(table, descriptor as u32, Asked::Same, copy);
            &&& after[copy] == table[descriptor as u32]
            &&& after.dom() == table.dom().insert(copy)
            &&& forall|other: u32|
                table.dom().contains(other) ==> #[trigger] after[other] == table[other]
        }),
{
}

/// A copy of a descriptor starts where the descriptor is, and from then on each
/// moves for itself: nothing that is read, written or sought through one moves
/// the other, and closing either leaves the other where it was. `to` is wherever
/// one of the two is moved to.
pub proof fn law_a_copy_moves_apart(
    before: Model,
    process: u64,
    handle: u32,
    copy: u32,
    to: u64,
    size: Result<u64, StoreError>,
)
    requires
        handle != copy,
    ensures
        ({
            let at = before.position(process, handle);
            let after = before.moved(process, copy, at);
            &&& after.position(process, copy) == at
            &&& after.position(process, handle) == at
            &&& at <= 0x7FFF_FFFF_FFFF_FFFF ==> seek_from(
                after.position(process, copy),
                SEEK_CUR,
                size,
            ) == Ok::<int, u64>(at as int)
            &&& after.moved(process, copy, to).position(process, handle) == at
            &&& after.moved(process, handle, to).position(process, copy) == at
            &&& files_without(after, Some(process), copy as u64).position(process, handle) == at
            &&& files_without(after, Some(process), handle as u64).position(process, copy) == at
        }),
{
    if before.position(process, handle) <= 0x7FFF_FFFF_FFFF_FFFF {
        law_seek_by_nothing_stays(before.position(process, handle), size);
    }
}

/// A descriptor that was closed has no position and no window, it is no set of
/// watches, and no set of its process watches it.
/// Every other descriptor, and every other process, is as it was; and closing one
/// of the three a program starts with leaves all of the positions and watches.
pub proof fn law_a_closed_descriptor_leaves_nothing(
    files: Model,
    windows: linux_display::Model,
    waits: linux_poll::Model,
    process: u64,
    descriptor: u64,
    owner: u64,
    other: u64,
)
    requires
        descriptor <= MAX_HANDLE,
        other <= MAX_HANDLE,
        (owner, other) != (process, descriptor),
    ensures
        ({
            let files_after = files_without(files, Some(process), descriptor);
            let windows_after = windows_without(windows, Some(process), descriptor);
            let waits_after = waits_without(waits, Some(process), descriptor);
            &&& descriptor > STDERR ==> {
                &&& !files_after.positions.dom().contains((process, descriptor))
                &&& waits_after.sets.dom().contains(process) ==> {
                    &&& !waits_after.sets[process].dom().contains(descriptor)
                    &&& forall|set: u64|
                        waits_after.sets[process].dom().contains(set)
                            ==> !(#[trigger] waits_after.sets[process][set]).dom().contains(
                            descriptor,
                        )
                }
            }
            &&& descriptor <= STDERR ==> files_after == files && waits_after == waits
            &&& !windows_after.windows.dom().contains((process, descriptor as u32))
            &&& files_after.position(owner, other as u32) == files.position(owner, other as u32)
            &&& windows_after.windows.dom().contains((owner, other as u32))
                == windows.windows.dom().contains((owner, other as u32))
            &&& windows.windows.dom().contains((owner, other as u32))
                ==> windows_after.windows[(owner, other as u32)] == windows.windows[(
                owner,
                other as u32,
            )]
            &&& owner != process ==> {
                &&& waits_after.sets.dom().contains(owner) == waits.sets.dom().contains(owner)
                &&& waits.sets.dom().contains(owner) ==> waits_after.sets[owner]
                    == waits.sets[owner]
            }
            &&& owner == process && waits.sets.dom().contains(process)
                && waits.sets[process].dom().contains(other) ==> {
                &&& waits_after.sets[process].dom().contains(other)
                &&& forall|watched: u64|
                    watched != descriptor ==> (
                    #[trigger] waits_after.sets[process][other].dom().contains(watched)
                        == waits.sets[process][other].dom().contains(watched))
            }
        }),
{
}

/// What `mkdirat` makes, `unlinkat` takes out again: both name the place the path
/// leads to, which is where `faccessat` looks, so what is there afterwards is
/// what was there before. Both refuse a directory argument that is not the
/// working directory. `places` is every place of the root that holds something.
pub proof fn law_what_was_made_is_taken_out(
    places: Set<Seq<Seq<u8>>>,
    directory: u64,
    bytes: Seq<u8>,
)
    ensures
        directory % 0x1_0000_0000 != AT_FDCWD ==> named_split(directory, bytes) == Err::<
            (Seq<u8>, Seq<u8>),
            u64,
        >(EINVAL) && named_path(directory, bytes) == Err::<Seq<u8>, u64>(EINVAL),
        named_split(directory, bytes) matches Ok((parent, name)) ==> {
            let place = place_under(parent, name);
            let made = places.insert(place);
            &&& named_path(directory, bytes) matches Ok(path) && place_of(path) == place
            &&& made.contains(place)
            &&& !made.remove(place).contains(place)
            &&& !places.contains(place) ==> made.remove(place) == places
        },
        error_number(StoreError::NotFound) == ENOENT,
{
    if named_split(directory, bytes) is Ok {
        let (parent, name) = named_split(directory, bytes).unwrap();
        let path = named_path(directory, bytes).unwrap();
        law_a_split_path_leads_to_its_name(path);
        let place = place_under(parent, name);
        if !places.contains(place) {
            assert(places.insert(place).remove(place) =~= places);
        }
    }
}

} // verus!
