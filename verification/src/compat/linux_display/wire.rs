//! The words the compositor's protocol uses.
use vstd::prelude::*;

verus! {

/// `shown`: the frame is on screen, and the surface is the program's again.
pub const SHOWN: [u8; 5] = [0x73, 0x68, 0x6F, 0x77, 0x6E];

/// `size`: a new surface and the size of it follow.
pub const RESIZED: [u8; 4] = [0x73, 0x69, 0x7A, 0x65];

/// `damaged`: the program has drawn, and the rectangle it touched follows.
pub const DAMAGED: [u8; 7] = [0x64, 0x61, 0x6D, 0x61, 0x67, 0x65, 0x64];

} // verus!
