//! A check that a disk can be read and written.
//!
//! A block that is not the first is read and compared with what a disk made for
//! this holds. Then the last block is written, the first one is read again, so
//! that the data page cannot simply still hold what was written and a write that
//! went to the wrong place shows, and the last is read back.
use vstd::prelude::*;

use crate::bytes::{put_bytes, same_bytes};

verus! {

/// The block that is read: not the first, which is what a driver that does
/// nothing would give.
pub const PROBE: u64 = 5;

/// `NEXUS USB SECTOR 000005`: what it holds.
pub const EXPECTED: [u8; 23] = [
    0x4E, 0x45, 0x58, 0x55, 0x53, 0x20, 0x55, 0x53, 0x42, 0x20, 0x53, 0x45, 0x43, 0x54, 0x4F, 0x52,
    0x20, 0x30, 0x30, 0x30, 0x30, 0x30, 0x35,
];

/// `NEXUS WROTE THIS OVER USB`: what is written.
pub const MARKER: [u8; 25] = [
    0x4E, 0x45, 0x58, 0x55, 0x53, 0x20, 0x57, 0x52, 0x4F, 0x54, 0x45, 0x20, 0x54, 0x48, 0x49, 0x53,
    0x20, 0x4F, 0x56, 0x45, 0x52, 0x20, 0x55, 0x53, 0x42,
];

/// How far a check has got.
#[derive(Debug, Clone, Copy, PartialEq, Eq, Structural)]
pub enum Stage {
    /// The first read of the probe.
    Probing,
    /// The write of the last block.
    Writing,
    /// The second read of the probe.
    Clearing,
    /// The read of the last block.
    ReadingBack,
}

/// What to do, or what came of the check.
#[derive(Debug)]
pub enum Check {
    /// Read this block.
    Read(u64),
    /// Put these bytes in the data page, and write this block.
    Write(u64, Vec<u8>),
    /// The disk can be read and written.
    Works,
    /// The disk is too small, or its blocks are of another size.
    OddShape,
    /// A read or a write failed.
    CouldNot(Stage),
    /// What was read is not what should be there.
    WrongContents(Stage),
}

/// What is written: the marker, and dots.
pub open spec fn marked_block() -> Seq<u8> {
    MARKER@ + Seq::new(487, |i: int| 0x2Eu8)
}

/// Start a check.
pub fn verify(blocks: u64, block_size: u32) -> (first: (Stage, Check))
    ensures
        first.0 == Stage::Probing,
        first.1 == if blocks < 8 || block_size != 512 {
            Check::OddShape
        } else {
            Check::Read(PROBE)
        },
{
    if blocks < 8 || block_size != 512 {
        return (Stage::Probing, Check::OddShape);
    }
    (Stage::Probing, Check::Read(PROBE))
}

fn starts_with(bytes: &[u8], start: &[u8]) -> (starts: bool)
    requires
        start@.len() <= bytes@.len(),
    ensures
        starts == (bytes@.take(start@.len() as int) == start@),
{
    let part = crate::bytes::copy_range(bytes, 0, start.len());
    assert(part@ =~= bytes@.take(start@.len() as int));
    same_bytes(part.as_slice(), start)
}

/// Go on with a check, given whether the last transfer was made, and the data
/// page.
pub fn verify_next(stage: &mut Stage, blocks: u64, made: bool, bytes: &[u8]) -> (next: Check)
    requires
        blocks >= 8,
        bytes@.len() >= 512,
    ensures
        if !made {
            next == Check::CouldNot(*old(stage)) && *final(stage) == *old(stage)
        } else {
            match *old(stage) {
                Stage::Probing => if bytes@.take(23) == EXPECTED@ {
                    &&& *final(stage) == Stage::Writing
                    &&& next matches Check::Write(block, written) && block == blocks - 1
                        && written@ == marked_block()
                } else {
                    next == Check::WrongContents(Stage::Probing) && *final(stage) == *old(stage)
                },
                Stage::Writing => next == Check::Read(PROBE) && *final(stage) == Stage::Clearing,
                Stage::Clearing => if bytes@.take(23) == EXPECTED@ {
                    next == Check::Read((blocks - 1) as u64) && *final(stage)
                        == Stage::ReadingBack
                } else {
                    next == Check::WrongContents(Stage::Clearing) && *final(stage) == *old(stage)
                },
                Stage::ReadingBack => {
                    &&& *final(stage) == *old(stage)
                    &&& next == if bytes@.take(25) == MARKER@ {
                        Check::Works
                    } else {
                        Check::WrongContents(Stage::ReadingBack)
                    }
                },
            }
        },
{
    if !made {
        return Check::CouldNot(*stage);
    }
    match *stage {
        Stage::Probing => {
            if !starts_with(bytes, &EXPECTED) {
                return Check::WrongContents(Stage::Probing);
            }
            let mut block: Vec<u8> = Vec::new();
            put_bytes(&mut block, &MARKER);
            let mut at: usize = 0;
            while at < 487
                invariant
                    at <= 487,
                    block@ == MARKER@ + Seq::new(at as nat, |i: int| 0x2Eu8),
                decreases 487 - at,
            {
                block.push(0x2E);
                at += 1;
                assert(block@ =~= MARKER@ + Seq::new(at as nat, |i: int| 0x2Eu8));
            }
            *stage = Stage::Writing;
            Check::Write(blocks - 1, block)
        },
        Stage::Writing => {
            *stage = Stage::Clearing;
            Check::Read(PROBE)
        },
        Stage::Clearing => {
            if !starts_with(bytes, &EXPECTED) {
                return Check::WrongContents(Stage::Clearing);
            }
            *stage = Stage::ReadingBack;
            Check::Read(blocks - 1)
        },
        Stage::ReadingBack => {
            if starts_with(bytes, &MARKER) {
                Check::Works
            } else {
                Check::WrongContents(Stage::ReadingBack)
            }
        },
    }
}

/// What is written is a whole block, and not what the probe holds: a page that
/// still held the probe would not pass for it.
pub proof fn law_the_marker_is_not_the_probe()
    ensures
        marked_block().len() == 512,
        MARKER@.take(23) != EXPECTED@,
{
    assert(MARKER@[6] != EXPECTED@[6]);
    assert(MARKER@.take(23)[6] != EXPECTED@[6]);
}

/// What a disk is tried with: block five starts with `NEXUS USB SECTOR 000005`, and
/// what is written is `NEXUS WROTE THIS OVER USB` with dots behind it.
pub proof fn law_what_a_disk_is_tried_with()
    ensures
        PROBE == 5,
        EXPECTED@ == seq![0x4Eu8, 0x45, 0x58, 0x55, 0x53, 0x20, 0x55, 0x53, 0x42, 0x20] + seq![
            0x53u8, 0x45, 0x43, 0x54, 0x4F, 0x52, 0x20, 0x30, 0x30, 0x30, 0x30, 0x30, 0x35,
        ],
        marked_block().take(25) == seq![
            0x4Eu8, 0x45, 0x58, 0x55, 0x53, 0x20, 0x57, 0x52, 0x4F, 0x54, 0x45, 0x20, 0x54,
        ] + seq![0x48u8, 0x49, 0x53, 0x20, 0x4F, 0x56, 0x45, 0x52, 0x20, 0x55, 0x53, 0x42],
        forall|i: int| 25 <= i < 512 ==> #[trigger] marked_block()[i] == 0x2E,
{
    assert(EXPECTED@ =~= seq![0x4Eu8, 0x45, 0x58, 0x55, 0x53, 0x20, 0x55, 0x53, 0x42, 0x20] + seq![
        0x53u8, 0x45, 0x43, 0x54, 0x4F, 0x52, 0x20, 0x30, 0x30, 0x30, 0x30, 0x30, 0x35,
    ]);
    assert(marked_block().take(25) =~= seq![
        0x4Eu8, 0x45, 0x58, 0x55, 0x53, 0x20, 0x57, 0x52, 0x4F, 0x54, 0x45, 0x20, 0x54,
    ] + seq![0x48u8, 0x49, 0x53, 0x20, 0x4F, 0x56, 0x45, 0x52, 0x20, 0x55, 0x53, 0x42]);
}

} // verus!
