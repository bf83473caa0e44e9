//! What a program counts on when it works with files, in its own numbers: the
//! bits it opens a file with, what its descriptors name, how far a call moves,
//! and what stands where in the structures it reads.
use vstd::prelude::*;

#[allow(unused_imports)]
use super::{
    all_rights, closes, copyable, described, files_without, lesser, named_path, named_split,
    opened_as, pipe_rights, private_rights, read_plan, record, record_length, seek_from, signed,
    stat_bytes, with_copy, write_limit, writing, zeros, Asked, Descriptor, Duplicable, Entry, Held,
    Kind, Model, Object, Opened, Reading, Rights, APPEND, CLOEXEC, CREAT, DIRECTORY, EXCL,
    MAX_HANDLE, MEMFD_CLOEXEC, TRUNC,
};
#[allow(unused_imports)]
use super::path::{error_number, path_in, split_in, StoreError};
#[allow(unused_imports)]
use crate::bytes::{le16, le32, le64, lemma_numbers_among_bytes, u16_at, u32_at, u64_at};
#[allow(unused_imports)]
use crate::compat::error::{EBADF, EFAULT, EINVAL, EISDIR, ESPIPE};

verus! {

/// Whether a file is opened to be written is said by the two lowest bits of the
/// flags and by nothing else: 1 for writing alone, 2 for both, 0 for reading.
pub proof fn law_the_access_bits_decide(flags: u64)
    ensures
        writing(flags) <==> flags % 4 != 0,
{
    assert(flags & (1u64 | 2u64) != 0 <==> flags % 4 != 0) by (bit_vector);
}

/// A flag that is none of the two, such as to create the file or to empty it,
/// leaves whether it may be written as it was.
pub proof fn law_other_flags_grant_nothing(flags: u64, others: u64)
    requires
        others % 4 == 0,
    ensures
        writing(flags | others) <==> writing(flags),
{
    assert(others % 4 == 0 ==> ((flags | others) & (1u64 | 2u64) != 0 <==> flags & (1u64 | 2u64)
        != 0)) by (bit_vector);
}

/// The other bits of the flags of `open`, and the one flag of a pipe and of memory
/// with a descriptor on it.
pub proof fn law_flags_of_an_open()
    ensures
        CREAT == 0x40,
        EXCL == 0x80,
        TRUNC == 0x200,
        APPEND == 0x400,
        DIRECTORY == 0x1_0000,
        CLOEXEC == 0x8_0000,
        MEMFD_CLOEXEC == 1,
        MAX_HANDLE == 0xFFFF_FFFF,
{
}

/// The first three descriptors are the console's, whatever the process has. Every
/// other is a handle of the process, and names what the handle does; a console that
/// stands for memory not made yet is no console. What names nothing is a bad
/// descriptor.
pub proof fn law_what_a_descriptor_names(
    descriptor: u64,
    has_process: bool,
    kind: Kind,
    readable: bool,
    writable: bool,
    stream: u8,
    object: u64,
)
    ensures
        descriptor < 3 ==> forall|any: Option<Object>|
            #![trigger described(descriptor, has_process, any)]
            described(descriptor, has_process, any) == Ok::<Descriptor, u64>(
                Descriptor::Console(descriptor as u8),
            ),
        descriptor >= 3 && (descriptor >= 0x1_0000_0000 || !has_process) ==> forall|
            any: Option<Object>,
        |
            #![trigger described(descriptor, has_process, any)]
            described(descriptor, has_process, any) == Err::<Descriptor, u64>(EBADF),
        3 <= descriptor < 0x1_0000_0000 && has_process ==> {
            &&& described(descriptor, true, None) == Err::<Descriptor, u64>(EBADF)
            &&& described(descriptor, true, Some(Object::Node { kind, readable, writable })) == Ok::<
                Descriptor,
                u64,
            >(Descriptor::File { kind, readable, writable, handle: descriptor as u32 })
            &&& described(descriptor, true, Some(Object::Pipe)) == Ok::<Descriptor, u64>(
                Descriptor::Pipe,
            )
            &&& described(descriptor, true, Some(Object::Socket)) == Ok::<Descriptor, u64>(
                Descriptor::Socket,
            )
            &&& described(descriptor, true, Some(Object::Memory(object))) == Ok::<Descriptor, u64>(
                Descriptor::Other,
            )
            &&& described(descriptor, true, Some(Object::Other)) == Ok::<Descriptor, u64>(
                Descriptor::Other,
            )
            &&& stream != 200 ==> described(descriptor, true, Some(Object::Console(stream))) == Ok::<
                Descriptor,
                u64,
            >(Descriptor::Console(stream))
            &&& described(descriptor, true, Some(Object::Console(200))) == Ok::<Descriptor, u64>(
                Descriptor::Other,
            )
        },
{
}

/// A descriptor names an open file only where it is a handle of a process that
/// leads to one, and then it is that handle of that process.
pub proof fn law_an_open_file(descriptor: u64, process: Option<u64>, node: Option<Kind>)
    ensures
        opened_as(descriptor, process, node) is Ok <==> 3 <= descriptor < 0x1_0000_0000 && process
            is Some && node is Some,
        opened_as(descriptor, process, node) matches Ok(opened) ==> Some(opened.process) == process
            && opened.handle == descriptor && Some(opened.kind) == node,
        opened_as(descriptor, process, node) matches Err(reason) ==> reason == EBADF,
{
}

/// What can be copied: a console as a console, and everything else by its handle.
pub proof fn law_what_can_be_copied(descriptor: u64, found: Result<Descriptor, u64>)
    ensures
        found matches Err(reason) ==> copyable(descriptor, found) == Err::<Duplicable, u64>(reason),
        found matches Ok(Descriptor::Console(stream)) ==> copyable(descriptor, found) == Ok::<
            Duplicable,
            u64,
        >(Duplicable::Console(stream)),
        found is Ok && !(found->Ok_0 is Console) && descriptor < 0x1_0000_0000 ==> copyable(
            descriptor,
            found,
        ) == Ok::<Duplicable, u64>(Duplicable::Handle(descriptor as u32)),
        found is Ok && !(found->Ok_0 is Console) && descriptor >= 0x1_0000_0000 ==> copyable(
            descriptor,
            found,
        ) == Err::<Duplicable, u64>(EBADF),
{
}

/// What a program may do with what it is given: one end of a pipe can only be read
/// and the other only be written, a console cannot be handed on, and everything can
/// be closed.
pub proof fn law_what_may_be_done()
    ensures
        ({
            let (reading, writing) = pipe_rights();
            &&& reading.read && !reading.write && reading.close && reading.transfer
            &&& !writing.read && writing.write && writing.close && writing.transfer
        }),
        private_rights().read && private_rights().write && private_rights().close
            && !private_rights().transfer,
        all_rights().read && all_rights().write && all_rights().close && all_rights().transfer,
{
}

/// A copy that is asked for with fewer rights has no right that was not there and
/// none that was not asked for, and stands for the same thing.
pub proof fn law_a_copy_gains_nothing(
    table: Map<u32, Held>,
    handle: u32,
    only: Rights,
    copy: u32,
)
    ensures
        ({
            let from = table[handle];
            let made = with_copy(table, handle, Asked::Only(only), copy)[copy];
            &&& made.object == from.object
            &&& made.rights.read <==> from.rights.read && only.read
            &&& made.rights.write <==> from.rights.write && only.write
            &&& made.rights.close <==> from.rights.close && only.close
            &&& made.rights.transfer <==> from.rights.transfer && only.transfer
        }),
{
}

/// The smaller of two is one of them, and neither is smaller.
pub proof fn law_the_smaller_of_two(left: u64, right: u64)
    ensures
        lesser(left, right) <= left,
        lesser(left, right) <= right,
        lesser(left, right) == left || lesser(left, right) == right,
{
}

/// A read of a file starts where the program is in it, or where it said, and asks
/// for what was wanted, up to 65536 bytes. A directory is not read, nor a file that
/// may not be.
pub proof fn law_a_read_of_a_file(
    state: Model,
    process: Option<u64>,
    kind: Kind,
    readable: bool,
    writable: bool,
    handle: u32,
    wanted: u64,
    in_range: bool,
    offset: Option<u64>,
)
    ensures
        ({
            let file = Descriptor::File { kind, readable, writable, handle };
            let plan = read_plan(state, process, Ok(file), wanted, in_range, offset);
            &&& plan is File <==> process is Some && readable && kind == Kind::File && wanted > 0
                && in_range
            &&& plan matches Reading::File { at, length } ==> {
                &&& offset matches Some(from) ==> at == from
                &&& offset is None ==> at == state.position(process.unwrap(), handle)
                &&& length == if wanted <= 65536 {
                    wanted
                } else {
                    65536
                }
            }
            &&& process is None || !readable ==> plan == Reading::Answer(EBADF)
            &&& process is Some && readable && kind == Kind::Directory ==> plan == Reading::Answer(
                EISDIR,
            )
            &&& process is Some && readable && kind == Kind::File && wanted == 0 ==> plan
                == Reading::Answer(0)
            &&& process is Some && readable && kind == Kind::File && wanted > 0 && !in_range ==> plan
                == Reading::Answer(EFAULT)
        }),
{
}

/// A read of anything else: the console's input is at its end and its outputs are
/// not read; a pipe and a socket have no places to read at.
pub proof fn law_a_read_of_anything_else(
    state: Model,
    process: Option<u64>,
    stream: u8,
    reason: u64,
    wanted: u64,
    in_range: bool,
    offset: u64,
)
    ensures
        read_plan(state, process, Err(reason), wanted, in_range, None) == Reading::Answer(reason),
        stream == 0 ==> read_plan(
            state,
            process,
            Ok(Descriptor::Console(stream)),
            wanted,
            in_range,
            None,
        ) == Reading::Answer(0),
        stream != 0 ==> read_plan(
            state,
            process,
            Ok(Descriptor::Console(stream)),
            wanted,
            in_range,
            None,
        ) == Reading::Answer(EBADF),
        read_plan(state, process, Ok(Descriptor::Pipe), wanted, in_range, Some(offset))
            == Reading::Answer(ESPIPE),
        read_plan(state, process, Ok(Descriptor::Socket), wanted, in_range, Some(offset))
            == Reading::Answer(ESPIPE),
        read_plan(state, process, Ok(Descriptor::Socket), wanted, in_range, None)
            == Reading::Socket,
        read_plan(state, process, Ok(Descriptor::Other), wanted, in_range, None) == Reading::Answer(
            EBADF,
        ),
        read_plan(state, process, Ok(Descriptor::Pipe), 0, in_range, None) == Reading::Answer(0),
        wanted > 0 && !in_range ==> read_plan(
            state,
            process,
            Ok(Descriptor::Pipe),
            wanted,
            in_range,
            None,
        ) == Reading::Answer(EFAULT),
        wanted > 0 && in_range ==> read_plan(
            state,
            process,
            Ok(Descriptor::Pipe),
            wanted,
            in_range,
            None,
        ) == Reading::Pipe(
            if wanted <= 65536 {
                wanted
            } else {
                65536
            },
        ),
{
}

/// One write takes 512 bytes to the console and 65536 to anything else.
pub proof fn law_how_much_is_written(found: Result<Descriptor, u64>)
    ensures
        found is Ok && found->Ok_0 is Console ==> write_limit(found) == 512,
        !(found is Ok && found->Ok_0 is Console) ==> write_limit(found) == 65536,
{
}

/// Where a program is in a file is what was last set for that descriptor of that
/// process, and zero where nothing was; setting one leaves the others.
pub proof fn law_positions_are_apart(
    before: Model,
    process: u64,
    handle: u32,
    to: u64,
    owner: u64,
    other: u32,
)
    ensures
        before.moved(process, handle, to).position(process, handle) == to,
        (owner, other) != (process, handle) ==> before.moved(process, handle, to).position(
            owner,
            other,
        ) == before.position(owner, other),
        !before.positions.dom().contains((owner, other as u64)) ==> before.position(owner, other)
            == 0,
        before.moved(process, handle, to).empty == before.empty,
{
}

/// A number of a register read as a signed one differs from it by nothing or by two
/// to the sixty-fourth, and is the one of the two in the range of signed numbers.
pub proof fn law_signed_numbers(value: u64)
    ensures
        signed(value) == value || signed(value) == value - 0x1_0000_0000_0000_0000,
        -0x8000_0000_0000_0000 <= signed(value) < 0x8000_0000_0000_0000,
{
}

/// Where a seek counts from: 0 from the start, 1 from where the program is, 2 from
/// the end, and nothing else.
pub proof fn law_where_a_seek_counts_from(position: u64, whence: u64, size: u64)
    requires
        position <= 0x7FFF_FFFF_FFFF_FFFF,
        size <= 0x7FFF_FFFF_FFFF_FFFF,
    ensures
        seek_from(position, 0, Ok(size)) == Ok::<int, u64>(0),
        seek_from(position, 1, Ok(size)) == Ok::<int, u64>(position as int),
        seek_from(position, 2, Ok(size)) == Ok::<int, u64>(size as int),
        whence > 2 ==> seek_from(position, whence, Ok(size)) == Err::<int, u64>(EINVAL),
{
}

/// What a program reads in a `struct stat`: how many names there are, what kind of
/// thing it is and who may use it, its size, and that in blocks of 512 bytes, each
/// at its place. Everything else is zero.
pub proof fn law_stat_fields(kind: Kind, size: u64)
    ensures
        ({
            let bytes = stat_bytes(kind, size);
            &&& bytes.len() == 144
            &&& u64_at(bytes, 16) == if kind == Kind::Directory {
                2u64
            } else {
                1
            }
            &&& u32_at(bytes, 24) == if kind == Kind::Directory {
                0o040755u32
            } else {
                0o100644
            }
            &&& u64_at(bytes, 48) == size
            &&& u64_at(bytes, 56) == 4096
            &&& u64_at(bytes, 64) * 512 >= size
            &&& (u64_at(bytes, 64) - 1) * 512 < size
            &&& forall|i: int| 0 <= i < 16 ==> #[trigger] bytes[i] == 0
            &&& forall|i: int| 28 <= i < 48 ==> #[trigger] bytes[i] == 0
            &&& forall|i: int| 72 <= i < 144 ==> #[trigger] bytes[i] == 0
        }),
{
    let bytes = stat_bytes(kind, size);
    let names: u64 = if kind == Kind::Directory {
        2
    } else {
        1
    };
    let mode: u32 = if kind == Kind::Directory {
        0o040755
    } else {
        0o100644
    };
    lemma_numbers_among_bytes(bytes, 16);
    lemma_numbers_among_bytes(bytes, 24);
    lemma_numbers_among_bytes(bytes, 48);
    lemma_numbers_among_bytes(bytes, 56);
    lemma_numbers_among_bytes(bytes, 64);
    assert(bytes.subrange(16, 24) =~= le64(names));
    assert(bytes.subrange(24, 28) =~= le32(mode));
    assert(bytes.subrange(48, 56) =~= le64(size));
    assert(bytes.subrange(56, 64) =~= le64(4096));
    assert(bytes.subrange(64, 72) =~= le64(((size + 511) / 512) as u64));
}

/// What a program reads of one entry of a directory: which file it is, where the
/// next call goes on, how long the entry is, whether it is a directory or a file,
/// and the name with a zero behind it. An entry is the shortest that ends at a
/// multiple of eight.
pub proof fn law_entry_fields(entry: Entry, next: nat)
    requires
        entry.name@.len() <= 60_000,
        next <= u64::MAX,
    ensures
        ({
            let bytes = record(entry, next);
            let name = entry.name@.len();
            &&& u64_at(bytes, 0) == entry.inode
            &&& u64_at(bytes, 8) == next
            &&& u16_at(bytes, 16) == bytes.len()
            &&& bytes[18] == if entry.kind == Kind::Directory {
                4u8
            } else {
                8
            }
            &&& bytes.subrange(19, 19 + name as int) == entry.name@
            &&& bytes.len() % 8 == 0
            &&& 20 + name <= bytes.len() < 28 + name
            &&& forall|i: int| 19 + name <= i < bytes.len() ==> #[trigger] bytes[i] == 0
        }),
{
    let bytes = record(entry, next);
    let name = entry.name@.len();
    lemma_numbers_among_bytes(bytes, 0);
    lemma_numbers_among_bytes(bytes, 8);
    lemma_numbers_among_bytes(bytes, 16);
    assert(bytes.subrange(0, 8) =~= le64(entry.inode as u64));
    assert(bytes.subrange(8, 16) =~= le64(next as u64));
    assert(bytes.subrange(16, 18) =~= le16(record_length(name) as u16));
    assert(bytes.subrange(19, 19 + name as int) =~= entry.name@);
}

/// A path is looked for from the working directory, which a program names by minus
/// one hundred in thirty-two bits; from no other directory.
pub proof fn law_paths_start_in_one_place(directory: u64, bytes: Seq<u8>)
    ensures
        directory % 0x1_0000_0000 == 0x1_0000_0000 - 100 ==> {
            &&& named_path(directory, bytes) == path_in(bytes)
            &&& path_in(bytes) matches Ok(path) ==> named_split(directory, bytes) == split_in(path)
        },
        directory % 0x1_0000_0000 != 0x1_0000_0000 - 100 ==> {
            &&& named_path(directory, bytes) == Err::<Seq<u8>, u64>(EINVAL)
            &&& named_split(directory, bytes) == Err::<(Seq<u8>, Seq<u8>), u64>(EINVAL)
        },
{
}

/// What can be closed: any handle of a process but the first three descriptors,
/// which stay. Closing one forgets where the program was in it.
pub proof fn law_what_can_be_closed(before: Model, process: Option<u64>, descriptor: u64)
    ensures
        closes(process, descriptor) <==> 3 <= descriptor < 0x1_0000_0000 && process is Some,
        closes(process, descriptor) ==> files_without(before, process, descriptor).position(
            process.unwrap(),
            descriptor as u32,
        ) == 0,
        files_without(before, process, descriptor).empty == before.empty,
{
}

} // verus!
