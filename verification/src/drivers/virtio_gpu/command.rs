//! What a display is told, and what it answers.
use vstd::prelude::*;

use crate::bytes::{put_u32, put_u64};
#[allow(unused_imports)]
use crate::bytes::{le32, le64};

verus! {

pub const GET_DISPLAY_INFO: u32 = 0x0100;

pub const RESOURCE_CREATE_2D: u32 = 0x0101;

pub const SET_SCANOUT: u32 = 0x0103;

pub const RESOURCE_FLUSH: u32 = 0x0104;

pub const TRANSFER_TO_HOST_2D: u32 = 0x0105;

pub const RESOURCE_ATTACH_BACKING: u32 = 0x0106;

/// The answer to most commands: it was done.
pub const OK_NODATA: u32 = 0x1100;

/// The answer to the question how large the display is.
pub const OK_DISPLAY_INFO: u32 = 0x1101;

/// Blue, green, red and a byte that is ignored.
pub const FORMAT_BGRX: u32 = 2;

/// Bytes of the header of every command.
pub const HEADER: usize = 24;

/// The one resource that is made.
pub const SCREEN: u32 = 1;

/// The header of a command: what it is, no flags, no fence, no context and
/// padding.
pub open spec fn header_bytes(kind: u32) -> Seq<u8> {
    le32(kind) + le32(0) + le64(0) + le32(0) + le32(0)
}

/// A rectangle, as four numbers.
pub open spec fn rectangle_bytes(x: u32, y: u32, width: u32, height: u32) -> Seq<u8> {
    le32(x) + le32(y) + le32(width) + le32(height)
}

/// A command that makes a resource of a size.
pub open spec fn create_bytes(width: u32, height: u32) -> Seq<u8> {
    header_bytes(RESOURCE_CREATE_2D) + le32(SCREEN) + le32(FORMAT_BGRX) + le32(width) + le32(height)
}

/// A command that gives the resource its memory, in one piece.
pub open spec fn attach_bytes(frame: u64, bytes: u32) -> Seq<u8> {
    header_bytes(RESOURCE_ATTACH_BACKING) + le32(SCREEN) + le32(1) + le64(frame) + le32(bytes)
        + le32(0)
}

/// A command that has the first display show the resource.
pub open spec fn scanout_bytes(width: u32, height: u32) -> Seq<u8> {
    header_bytes(SET_SCANOUT) + rectangle_bytes(0, 0, width, height) + le32(0) + le32(SCREEN)
}

/// A command that has the device copy a rectangle out of memory.
pub open spec fn transfer_bytes(x: u32, y: u32, width: u32, height: u32, offset: u64) -> Seq<u8> {
    header_bytes(TRANSFER_TO_HOST_2D) + rectangle_bytes(x, y, width, height) + le64(offset) + le32(
        SCREEN,
    ) + le32(0)
}

/// A command that has the device show a rectangle it has copied.
pub open spec fn show_bytes(x: u32, y: u32, width: u32, height: u32) -> Seq<u8> {
    header_bytes(RESOURCE_FLUSH) + rectangle_bytes(x, y, width, height) + le32(SCREEN) + le32(0)
}

/// The header of a command.
pub fn header(kind: u32) -> (out: Vec<u8>)
    ensures
        out@ == header_bytes(kind),
{
    let mut out: Vec<u8> = Vec::new();
    put_u32(&mut out, kind);
    put_u32(&mut out, 0);
    put_u64(&mut out, 0);
    put_u32(&mut out, 0);
    put_u32(&mut out, 0);
    assert(out@ =~= header_bytes(kind));
    out
}

/// Append a rectangle.
pub fn rectangle(out: &mut Vec<u8>, x: u32, y: u32, width: u32, height: u32)
    ensures
        final(out)@ == old(out)@ + rectangle_bytes(x, y, width, height),
{
    put_u32(out, x);
    put_u32(out, y);
    put_u32(out, width);
    put_u32(out, height);
    assert(out@ =~= old(out)@ + rectangle_bytes(x, y, width, height));
}

/// Make a resource of a size.
pub fn create(width: u32, height: u32) -> (out: Vec<u8>)
    ensures
        out@ == create_bytes(width, height),
{
    let mut out = header(RESOURCE_CREATE_2D);
    put_u32(&mut out, SCREEN);
    put_u32(&mut out, FORMAT_BGRX);
    put_u32(&mut out, width);
    put_u32(&mut out, height);
    out
}

/// Give the resource its memory.
pub fn attach(frame: u64, bytes: u32) -> (out: Vec<u8>)
    ensures
        out@ == attach_bytes(frame, bytes),
{
    let mut out = header(RESOURCE_ATTACH_BACKING);
    put_u32(&mut out, SCREEN);
    put_u32(&mut out, 1);
    put_u64(&mut out, frame);
    put_u32(&mut out, bytes);
    put_u32(&mut out, 0);
    out
}

/// Have the first display show the resource.
pub fn scanout(width: u32, height: u32) -> (out: Vec<u8>)
    ensures
        out@ == scanout_bytes(width, height),
{
    let mut out = header(SET_SCANOUT);
    rectangle(&mut out, 0, 0, width, height);
    put_u32(&mut out, 0);
    put_u32(&mut out, SCREEN);
    out
}

/// Have the device copy a rectangle out of memory.
pub fn transfer(x: u32, y: u32, width: u32, height: u32, offset: u64) -> (out: Vec<u8>)
    ensures
        out@ == transfer_bytes(x, y, width, height, offset),
{
    let mut out = header(TRANSFER_TO_HOST_2D);
    rectangle(&mut out, x, y, width, height);
    put_u64(&mut out, offset);
    put_u32(&mut out, SCREEN);
    put_u32(&mut out, 0);
    out
}

/// Have the device show a rectangle it has copied.
pub fn show(x: u32, y: u32, width: u32, height: u32) -> (out: Vec<u8>)
    ensures
        out@ == show_bytes(x, y, width, height),
{
    let mut out = header(RESOURCE_FLUSH);
    rectangle(&mut out, x, y, width, height);
    put_u32(&mut out, SCREEN);
    put_u32(&mut out, 0);
    out
}

/// Every command fits in front of its answer, so none is refused for its length.
pub proof fn law_commands_fit(
    kind: u32,
    x: u32,
    y: u32,
    width: u32,
    height: u32,
    frame: u64,
    bytes: u32,
    offset: u64,
)
    ensures
        header_bytes(kind).len() == HEADER,
        create_bytes(width, height).len() == 40,
        attach_bytes(frame, bytes).len() == 48,
        scanout_bytes(width, height).len() == 48,
        transfer_bytes(x, y, width, height, offset).len() == 56,
        show_bytes(x, y, width, height).len() == 48,
{
}

} // verus!
