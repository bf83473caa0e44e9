//! What the disk is told, in the device's own numbers: kind 0 reads, kind 1
//! writes and kind 4 flushes, a sector is 512 bytes, and a request is a header, the
//! bytes and a status.
use vstd::prelude::*;

#[allow(unused_imports)]
use super::{
    agreeing, as_sector, flush_steps, header_steps, length_checked, offers_flush, on_disk,
    request_refused, submit_steps, transfer_refused, transfer_steps, verdict, BlockError, Bringing,
    Completion, Disk, Found, Model, Stage, Turn, Waiting, HANDOFF_SPINS, MAX_QUEUE, NUMBER,
    SUBSYSTEM,
};
#[allow(unused_imports)]
use crate::drivers::port::{Heard, PortWrite, Want};
#[allow(unused_imports)]
use crate::drivers::virtio::{layout_of, order_of, Look, Step, COMPLETION_SPINS};

verus! {

/// The header of a request names its kind and the sector that was asked for,
/// whatever the kind is: the kind in its first four bytes, the sector in its last
/// eight. The status starts as a value no device gives.
pub proof fn law_the_header_names_the_sector(disk: Disk, kind: u32, sector: u64, length: u32)
    requires
        disk.wf(),
    ensures
        ({
            let steps = transfer_steps(disk, kind, sector, length);
            &&& steps[0] == (Step::Word { at: disk.scratch, word: kind })
            &&& steps[1] == (Step::Word { at: (disk.scratch + 4) as u64, word: 0 })
            &&& steps[2] == (Step::Long { at: (disk.scratch + 8) as u64, long: sector })
            &&& steps[3] == (Step::Byte { at: (disk.scratch + 1024) as u64, byte: 0xFF })
        }),
{
}

/// A read and a write of one sector name one place on the disk, and requests for
/// two sectors name two.
pub proof fn law_what_is_written_is_where_it_is_read(
    disk: Disk,
    sector: u64,
    other: u64,
    length: u32,
)
    requires
        disk.wf(),
    ensures
        transfer_steps(disk, 0, sector, length)[2] == transfer_steps(disk, 1, sector, length)[2],
        transfer_steps(disk, 0, sector, length)[2] == transfer_steps(disk, 1, other, length)[2]
            ==> sector == other,
{
}

/// A read, descriptor by descriptor: the header, which the device reads; the bytes,
/// which it writes; and the status, which it writes. Each but the last says that
/// another follows.
pub proof fn law_a_read_request(disk: Disk, sector: u64, length: u32)
    requires
        disk.wf(),
    ensures
        ({
            let steps = transfer_steps(disk, 0, sector, length);
            let queue = disk.queue as int;
            &&& steps.len() == 16
            &&& steps[0] == (Step::Word { at: disk.scratch, word: 0 })
            &&& steps[4] == (Step::Long { at: queue as u64, long: disk.scratch })
            &&& steps[5] == (Step::Word { at: (queue + 8) as u64, word: 16 })
            &&& steps[6] == (Step::Half { at: (queue + 12) as u64, half: 1 })
            &&& steps[7] == (Step::Half { at: (queue + 14) as u64, half: 1 })
            &&& steps[8] == (Step::Long {
                at: (queue + 16) as u64,
                long: (disk.scratch + 4096) as u64,
            })
            &&& steps[9] == (Step::Word { at: (queue + 24) as u64, word: length })
            &&& steps[10] == (Step::Half { at: (queue + 28) as u64, half: 3 })
            &&& steps[11] == (Step::Half { at: (queue + 30) as u64, half: 2 })
            &&& steps[12] == (Step::Long {
                at: (queue + 32) as u64,
                long: (disk.scratch + 1024) as u64,
            })
            &&& steps[13] == (Step::Word { at: (queue + 40) as u64, word: 1 })
            &&& steps[14] == (Step::Half { at: (queue + 44) as u64, half: 2 })
            &&& steps[15] == (Step::Half { at: (queue + 46) as u64, half: 0 })
        }),
{
}

/// A write: the bytes are put into the scratch page first, and the device reads
/// them from there. Otherwise it is a read's three descriptors.
pub proof fn law_a_write_request(disk: Disk, sector: u64, length: u32)
    requires
        disk.wf(),
    ensures
        ({
            let steps = transfer_steps(disk, 1, sector, length);
            let reading = transfer_steps(disk, 0, sector, length);
            &&& steps.len() == 17
            &&& steps[0] == (Step::Word { at: disk.scratch, word: 1 })
            &&& steps[4] == (Step::Data {
                at: (disk.scratch + 4096) as u64,
                length: length as u64,
            })
            &&& steps[11] == (Step::Half { at: (disk.queue + 28) as u64, half: 1 })
            &&& forall|i: int| 1 <= i < 4 ==> #[trigger] steps[i] == reading[i]
            &&& forall|i: int|
                5 <= i < 17 && i != 11 ==> #[trigger] steps[i] == reading[i - 1]
        }),
{
}

/// A flush carries no bytes: the header of kind four, and the status.
pub proof fn law_a_flush_request(disk: Disk)
    requires
        disk.wf(),
    ensures
        ({
            let steps = flush_steps(disk);
            let queue = disk.queue as int;
            &&& steps.len() == 12
            &&& steps[0] == (Step::Word { at: disk.scratch, word: 4 })
            &&& steps[1] == (Step::Word { at: (disk.scratch + 4) as u64, word: 0 })
            &&& steps[2] == (Step::Long { at: (disk.scratch + 8) as u64, long: 0 })
            &&& steps[3] == (Step::Byte { at: (disk.scratch + 1024) as u64, byte: 0xFF })
            &&& steps[4] == (Step::Long { at: queue as u64, long: disk.scratch })
            &&& steps[5] == (Step::Word { at: (queue + 8) as u64, word: 16 })
            &&& steps[6] == (Step::Half { at: (queue + 12) as u64, half: 1 })
            &&& steps[7] == (Step::Half { at: (queue + 14) as u64, half: 1 })
            &&& steps[8] == (Step::Long {
                at: (queue + 16) as u64,
                long: (disk.scratch + 1024) as u64,
            })
            &&& steps[9] == (Step::Word { at: (queue + 24) as u64, word: 1 })
            &&& steps[10] == (Step::Half { at: (queue + 28) as u64, half: 2 })
            &&& steps[11] == (Step::Half { at: (queue + 30) as u64, half: 0 })
        }),
{
}

/// A request is handed over as the first descriptor, in the slot the index has
/// come to, and the device is told through the register at sixteen.
pub proof fn law_handing_a_request_over(disk: Disk, index: u16)
    requires
        disk.wf(),
    ensures
        ({
            let steps = submit_steps(disk, index);
            let ring = disk.queue + 16 * disk.queue_size;
            &&& steps.len() == 6
            &&& steps[0] == (Step::Half {
                at: (ring + 4 + 2 * (index % disk.queue_size)) as u64,
                half: 0,
            })
            &&& steps[3] == (Step::Half {
                at: (ring + 2) as u64,
                half: if index == 65535 {
                    0
                } else {
                    (index + 1) as u16
                },
            })
            &&& steps[5] == Step::Port(
                PortWrite::Word { port: (disk.port + 16) as u16, word: 0 },
            )
        }),
{
}

/// A request carries between one and eight whole sectors.
pub proof fn law_whole_sectors(bytes: nat)
    ensures
        length_checked(bytes) is Ok <==> exists|sectors: nat|
            1 <= sectors <= 8 && bytes == #[trigger] in_bytes(sectors),
        length_checked(bytes) matches Ok(sectors) ==> bytes == 512 * sectors && 1 <= sectors <= 8,
        length_checked(bytes) matches Err(error) ==> error == BlockError::BadLength,
{
    if length_checked(bytes) is Ok {
        assert(bytes == in_bytes((bytes / 512) as nat));
    }
}

/// How many bytes so many sectors are.
pub open spec fn in_bytes(sectors: nat) -> nat {
    512 * sectors
}

/// What is refused: a length that is not whole sectors first, a request without a
/// disk, and one that is not on it from its first sector to its last. Nothing else
/// is.
pub proof fn law_what_is_refused(state: Model, sector: u64, length: nat)
    ensures
        length_checked(length) is Err ==> request_refused(state, sector, length) == Some(
            BlockError::BadLength,
        ),
        length_checked(length) is Ok && state.disk is None ==> request_refused(state, sector, length)
            == Some(BlockError::NoDevice),
        length_checked(length) is Ok ==> (state.disk matches Some(disk) ==> {
            &&& 512 * sector + length <= 512 * disk.capacity ==> request_refused(
                state,
                sector,
                length,
            ) is None
            &&& 512 * sector + length > 512 * disk.capacity ==> request_refused(
                state,
                sector,
                length,
            ) == Some(BlockError::OutOfRange)
        }),
{
}

/// A status of zero is a success, and every other is the device's own failure.
pub proof fn law_a_status(status: u8)
    ensures
        verdict(0) is Ok,
        status != 0 ==> verdict(status) == Err::<(), BlockError>(BlockError::Failed(status)),
{
}

/// A sector is 512 bytes: those that were given, and zeros.
pub proof fn law_a_sector_is_filled_up(bytes: Seq<u8>, i: int)
    requires
        0 <= i < 512,
    ensures
        as_sector(bytes).len() == 512,
        i < bytes.len() ==> as_sector(bytes)[i] == bytes[i],
        i >= bytes.len() ==> as_sector(bytes)[i] == 0,
{
}

/// What was found becomes the disk: as many sectors as the two halves of the number
/// say, the low one first.
pub proof fn law_what_was_found_is_the_disk(found: Found)
    ensures
        found.disk().capacity == found.low + 0x1_0000_0000 * found.high,
        found.disk().port == found.port,
        found.disk().queue == found.queue,
        found.disk().queue_size == found.queue_size,
        found.disk().scratch == found.scratch,
        found.disk().flushes == found.flushes,
        found.disk().layout == layout_of(found.queue_size),
{
}

/// Flushing is bit nine of what a device offers; it is agreed to exactly where it is
/// offered, and nothing else is.
pub proof fn law_flushing_is_agreed_to(port: u16, offered: u32)
    requires
        port <= 0xFFE0,
    ensures
        offers_flush(offered) <==> offered & 0x200 != 0,
        agreeing(port, offers_flush(offered)) == seq![
            PortWrite::Long { port: (port + 4) as u16, long: offered & 0x200 },
            PortWrite::Word { port: (port + 14) as u16, word: 0 },
        ],
{
    assert(((offered / 512) % 2 == 1 <==> offered & 0x200 != 0) && (offered & 0x200u32 == 0
        || offered & 0x200u32 == 0x200)) by (bit_vector);
}

/// What bringing a disk up reads and asks for, in order: what the device offers, the
/// size of its queue, memory for the queue and for the scratch pages, and the two
/// halves of how many sectors it has.
pub proof fn law_what_bringing_up_asks(bringing: Bringing)
    requires
        bringing.wf(),
    ensures
        ({
            let port = bringing.found.port;
            &&& bringing.stage is Offer ==> bringing.turn() == Turn::Want(Want::Read32(port))
            &&& bringing.stage is Size ==> bringing.turn() == Turn::Want(
                Want::Read16((port + 12) as u16),
            )
            &&& bringing.stage is Queue ==> bringing.turn() == Turn::Want(
                Want::Block(bringing.order),
            )
            &&& bringing.stage is Scratch ==> bringing.turn() == Turn::Want(Want::Block(1))
            &&& bringing.stage is Low ==> bringing.turn() == Turn::Want(
                Want::Read32((port + 20) as u16),
            )
            &&& bringing.stage is High ==> bringing.turn() == Turn::Want(
                Want::Read32((port + 24) as u16),
            )
            &&& bringing.stage is Up ==> bringing.turn() == Turn::Up(
                (bringing.found.low + 0x1_0000_0000 * bringing.found.high) as u64,
            )
            &&& bringing.stage matches Stage::Down(error, _) ==> bringing.turn() == Turn::Down(error)
        }),
{
}

/// What is made of each answer: it is kept where it belongs and nothing else
/// changes. A queue of no entries or of more than 256 cannot be used.
pub proof fn law_what_is_made_of_an_answer(bringing: Bringing, value: u32, block: u64)
    ensures
        ({
            let read = bringing.told(Heard::Read(value));
            let found = bringing.found;
            &&& bringing.stage is Offer ==> read.stage is Size && read.found == (Found {
                flushes: value & 0x200 != 0,
                ..found
            })
            &&& bringing.stage is Size && 1 <= value <= 256 ==> read.stage is Queue && read.found
                == (Found { queue_size: value as u16, ..found }) && read.order == order_of(
                layout_of(value as u16).bytes as nat,
            ) as u32
            &&& bringing.stage is Size && !(1 <= value <= 256) ==> read.stage == Stage::Down(
                BlockError::QueueTooLarge(value as u16),
                false,
            )
            &&& bringing.stage is Low ==> read.stage is High && read.found == (Found {
                low: value,
                ..found
            })
            &&& bringing.stage is High ==> read.stage is Up && read.found == (Found {
                high: value,
                ..found
            })
        }),
        ({
            let given = bringing.told(Heard::Block(Some(block)));
            let none = bringing.told(Heard::Block(None));
            let found = bringing.found;
            &&& bringing.stage is Queue ==> given.stage is Scratch && given.found == (Found {
                queue: block,
                ..found
            }) && none.stage == Stage::Down(BlockError::OutOfMemory, false)
            &&& bringing.stage is Scratch ==> given.stage is Low && given.found == (Found {
                scratch: block,
                ..found
            }) && none.stage == Stage::Down(BlockError::OutOfMemory, true)
        }),
{
    law_flushing_is_agreed_to(0, value);
}

/// How a request that is not answered is waited for: it is looked at 400000 times,
/// then slept on where a thread can sleep, and otherwise looked at 50000000 times
/// more before it is given up.
pub proof fn law_how_a_request_is_waited_for(completion: Completion, blocking: bool)
    requires
        completion.wf(),
    ensures
        HANDOFF_SPINS == 400_000,
        ({
            let (next, look) = completion.unanswered(blocking);
            &&& completion.waiting matches Waiting::Handoff(left) ==> {
                &&& look == Look::Again
                &&& left > 1 ==> next == Waiting::Handoff((left - 1) as u32)
                &&& left == 1 && blocking ==> next == Waiting::Blocking(false)
                &&& left == 1 && !blocking ==> next == Waiting::Spinning(0)
            }
            &&& completion.waiting is Blocking ==> look == Look::Sleep(completion.generation) && next
                == Waiting::Blocking(true)
            &&& completion.waiting matches Waiting::Spinning(spins) ==> {
                &&& spins < 49_999_999 ==> look == Look::Again && next == Waiting::Spinning(
                    (spins + 1) as u32,
                )
                &&& spins == 49_999_999 ==> look == Look::TimedOut
            }
        }),
        completion.polled() <==> completion.waiting != Waiting::Blocking(true),
{
}

/// A disk is the second subsystem, or the device with its older number.
pub proof fn law_what_a_disk_is()
    ensures
        SUBSYSTEM == 2,
        NUMBER == 0x1001,
        MAX_QUEUE == 256,
{
}

/// A transfer is made where it moves a sector at least and its last one is on the
/// disk; elsewhere it is out of range, and without a disk there is no device.
pub proof fn law_when_a_transfer_is_made(state: Model, sector: u64, sectors: nat)
    ensures
        state.disk is None ==> transfer_refused(state, sector, 512 * sectors) == Some(
            BlockError::NoDevice,
        ),
        state.disk matches Some(disk) ==> {
            &&& sectors > 0 && sector + sectors - 1 < disk.capacity ==> transfer_refused(
                state,
                sector,
                512 * sectors,
            ) is None
            &&& sectors == 0 || sector + sectors - 1 >= disk.capacity ==> transfer_refused(
                state,
                sector,
                512 * sectors,
            ) == Some(BlockError::OutOfRange)
        },
{
}

} // verus!
