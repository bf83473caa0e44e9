//! What the display is told, in the device's own numbers: which register is where,
//! what each command holds at which place, and what its answers mean.
use vstd::prelude::*;

#[allow(unused_imports)]
use super::command::{
    attach_bytes, create_bytes, header_bytes, rectangle_bytes, scanout_bytes, show_bytes,
    transfer_bytes,
};
#[allow(unused_imports)]
use super::{
    asking, band_colour, can_ask, display_size, is_display, is_done, is_queue_size, pixel_at,
    register64, screen_after, screen_bytes, BringUp, Gpu, Pages, Screen, Stage, Wanted, Window,
    Windows, CAPABILITY, RESET_LOOKS,
};
#[allow(unused_imports)]
use crate::bytes::{le32, le64, lemma_numbers_among_bytes, u32_at, u64_at};
#[allow(unused_imports)]
use crate::drivers::pci::Device;
#[allow(unused_imports)]
use crate::drivers::virtio::Step;

verus! {

/// A command starts with 24 bytes: its number, and zeros.
pub proof fn law_a_command_starts_with_its_number(kind: u32)
    ensures
        header_bytes(kind).len() == 24,
        u32_at(header_bytes(kind), 0) == kind,
        forall|i: int| 4 <= i < 24 ==> #[trigger] header_bytes(kind)[i] == 0,
{
    let bytes = header_bytes(kind);
    lemma_numbers_among_bytes(bytes, 0);
    assert(bytes.subrange(0, 4) =~= le32(kind));
    assert(forall|at: int| 0 <= at < 4 ==> #[trigger] le32(0)[at] == 0) by {
        assert(0u32 as u8 == 0u8 && (0u32 >> 8) as u8 == 0u8 && (0u32 >> 16) as u8 == 0u8 && (0u32
            >> 24) as u8 == 0u8 && 0u64 as u8 == 0u8 && (0u64 >> 8) as u8 == 0u8 && (0u64 >> 16) as u8
            == 0u8 && (0u64 >> 24) as u8 == 0u8 && (0u64 >> 32) as u8 == 0u8 && (0u64 >> 40) as u8
            == 0u8 && (0u64 >> 48) as u8 == 0u8 && (0u64 >> 56) as u8 == 0u8) by (bit_vector);
    }
    assert(forall|at: int| 0 <= at < 8 ==> #[trigger] le64(0)[at] == 0) by {
        assert((0u64 >> 8) as u8 == 0u8 && (0u64 >> 16) as u8 == 0u8 && (0u64 >> 24) as u8 == 0u8 && (
        0u64 >> 32) as u8 == 0u8 && (0u64 >> 40) as u8 == 0u8 && (0u64 >> 48) as u8 == 0u8 && (0u64
            >> 56) as u8 == 0u8 && 0u64 as u8 == 0u8) by (bit_vector);
    }
}

/// Making the screen's picture, command 0x101: it is number one, four bytes a pixel
/// with blue first, and as large as the screen.
pub proof fn law_making_the_picture(width: u32, height: u32)
    ensures
        ({
            let bytes = create_bytes(width, height);
            &&& u32_at(bytes, 0) == 0x101
            &&& u32_at(bytes, 24) == 1
            &&& u32_at(bytes, 28) == 2
            &&& u32_at(bytes, 32) == width
            &&& u32_at(bytes, 36) == height
        }),
{
    let bytes = create_bytes(width, height);
    lemma_words_in(bytes);
    assert(bytes.subrange(0, 4) =~= le32(0x101));
    assert(bytes.subrange(24, 28) =~= le32(1));
    assert(bytes.subrange(28, 32) =~= le32(2));
    assert(bytes.subrange(32, 36) =~= le32(width));
    assert(bytes.subrange(36, 40) =~= le32(height));
}

/// Giving the picture its memory, command 0x106: one piece, at this address and of
/// this length.
pub proof fn law_giving_the_picture_memory(frame: u64, length: u32)
    ensures
        ({
            let bytes = attach_bytes(frame, length);
            &&& u32_at(bytes, 0) == 0x106
            &&& u32_at(bytes, 24) == 1
            &&& u32_at(bytes, 28) == 1
            &&& u64_at(bytes, 32) == frame
            &&& u32_at(bytes, 40) == length
        }),
{
    let bytes = attach_bytes(frame, length);
    lemma_words_in(bytes);
    assert(bytes.subrange(0, 4) =~= le32(0x106));
    assert(bytes.subrange(24, 28) =~= le32(1));
    assert(bytes.subrange(28, 32) =~= le32(1));
    assert(bytes.subrange(32, 40) =~= le64(frame));
    assert(bytes.subrange(40, 44) =~= le32(length));
}

/// Putting the picture on the screen, command 0x103: all of it, on the first screen.
pub proof fn law_putting_the_picture_on_the_screen(width: u32, height: u32)
    ensures
        ({
            let bytes = scanout_bytes(width, height);
            &&& u32_at(bytes, 0) == 0x103
            &&& u32_at(bytes, 24) == 0
            &&& u32_at(bytes, 28) == 0
            &&& u32_at(bytes, 32) == width
            &&& u32_at(bytes, 36) == height
            &&& u32_at(bytes, 40) == 0
            &&& u32_at(bytes, 44) == 1
        }),
{
    let bytes = scanout_bytes(width, height);
    lemma_words_in(bytes);
    assert(bytes.subrange(0, 4) =~= le32(0x103));
    assert(bytes.subrange(24, 28) =~= le32(0));
    assert(bytes.subrange(28, 32) =~= le32(0));
    assert(bytes.subrange(32, 36) =~= le32(width));
    assert(bytes.subrange(36, 40) =~= le32(height));
    assert(bytes.subrange(40, 44) =~= le32(0));
    assert(bytes.subrange(44, 48) =~= le32(1));
}

/// Handing a part of the picture over, command 0x105: the rectangle, and where in the
/// memory its first pixel is.
pub proof fn law_handing_a_part_over(x: u32, y: u32, width: u32, height: u32, offset: u64)
    ensures
        ({
            let bytes = transfer_bytes(x, y, width, height, offset);
            &&& u32_at(bytes, 0) == 0x105
            &&& u32_at(bytes, 24) == x
            &&& u32_at(bytes, 28) == y
            &&& u32_at(bytes, 32) == width
            &&& u32_at(bytes, 36) == height
            &&& u64_at(bytes, 40) == offset
            &&& u32_at(bytes, 48) == 1
        }),
{
    let bytes = transfer_bytes(x, y, width, height, offset);
    lemma_words_in(bytes);
    assert(bytes.subrange(0, 4) =~= le32(0x105));
    assert(bytes.subrange(24, 28) =~= le32(x));
    assert(bytes.subrange(28, 32) =~= le32(y));
    assert(bytes.subrange(32, 36) =~= le32(width));
    assert(bytes.subrange(36, 40) =~= le32(height));
    assert(bytes.subrange(40, 48) =~= le64(offset));
    assert(bytes.subrange(48, 52) =~= le32(1));
}

/// Showing a part of the picture, command 0x104: the same rectangle.
pub proof fn law_showing_a_part(x: u32, y: u32, width: u32, height: u32)
    ensures
        ({
            let bytes = show_bytes(x, y, width, height);
            &&& u32_at(bytes, 0) == 0x104
            &&& u32_at(bytes, 24) == x
            &&& u32_at(bytes, 28) == y
            &&& u32_at(bytes, 32) == width
            &&& u32_at(bytes, 36) == height
            &&& u32_at(bytes, 40) == 1
        }),
{
    let bytes = show_bytes(x, y, width, height);
    lemma_words_in(bytes);
    assert(bytes.subrange(0, 4) =~= le32(0x104));
    assert(bytes.subrange(24, 28) =~= le32(x));
    assert(bytes.subrange(28, 32) =~= le32(y));
    assert(bytes.subrange(32, 36) =~= le32(width));
    assert(bytes.subrange(36, 40) =~= le32(height));
    assert(bytes.subrange(40, 44) =~= le32(1));
}

proof fn lemma_words_in(bytes: Seq<u8>)
    ensures
        forall|at: int, value: u32|
            #![trigger u32_at(bytes, at), le32(value)]
            0 <= at && at + 4 <= bytes.len() && bytes.subrange(at, at + 4) == le32(value) ==> u32_at(
                bytes,
                at,
            ) == value,
        forall|at: int, value: u64|
            #![trigger u64_at(bytes, at), le64(value)]
            0 <= at && at + 8 <= bytes.len() && bytes.subrange(at, at + 8) == le64(value) ==> u64_at(
                bytes,
                at,
            ) == value,
{
    assert forall|at: int, value: u32|
        #![trigger u32_at(bytes, at), le32(value)]
        0 <= at && at + 4 <= bytes.len() && bytes.subrange(at, at + 4) == le32(value) implies u32_at(
        bytes,
        at,
    ) == value by {
        lemma_numbers_among_bytes(bytes, at);
    }
    assert forall|at: int, value: u64|
        #![trigger u64_at(bytes, at), le64(value)]
        0 <= at && at + 8 <= bytes.len() && bytes.subrange(at, at + 8) == le64(value) implies u64_at(
        bytes,
        at,
    ) == value by {
        lemma_numbers_among_bytes(bytes, at);
    }
}

/// Where a pixel is in the memory: four bytes for each before it, line by line.
pub proof fn law_where_a_pixel_is(width: u32, x: u32, y: u32)
    ensures
        pixel_at(width, 0, 0) == 0,
        pixel_at(width, x, y) == 4 * x + pixel_at(width, 0, y),
        y < u32::MAX ==> pixel_at(width, x, (y + 1) as u32) == pixel_at(width, x, y) + 4 * width,
{
    assert((y + 1) * width == y * width + width) by (nonlinear_arith);
    assert(0 * width == 0) by (nonlinear_arith);
}

/// What the first screen is, in the answer to the question: as large as it says,
/// where it says that it is on.
pub proof fn law_what_the_screen_is(kind: Option<u32>, reply: Seq<u8>)
    ensures
        display_size(kind, reply) is Some <==> kind == Some(0x1101u32) && u32_at(reply, 32) != 0
            && u32_at(reply, 36) != 0 && u32_at(reply, 40) != 0,
        display_size(kind, reply) matches Some((width, height)) ==> width == u32_at(reply, 32)
            && height == u32_at(reply, 36),
        is_done(kind) <==> kind == Some(0x1100u32),
{
}

/// A screen is made by asking for its size, finding memory for it, making a picture
/// of that size, giving it the memory and putting it on the screen, each after the
/// answer that the last was done.
pub proof fn law_how_a_screen_is_made(gpu: Gpu, kind: Option<u32>, reply: Seq<u8>)
    ensures
        screen_bytes(gpu, Screen::Asking) == Some(header_bytes(0x100)),
        screen_bytes(gpu, Screen::Creating) == Some(create_bytes(gpu.width, gpu.height)),
        gpu.width * gpu.height * 4 < 0x1_0000_0000 ==> screen_bytes(gpu, Screen::Attaching) == Some(
            attach_bytes(gpu.frame, (gpu.width * gpu.height * 4) as u32),
        ),
        screen_bytes(gpu, Screen::Showing) == Some(scanout_bytes(gpu.width, gpu.height)),
        screen_bytes(gpu, Screen::Made) is None,
        display_size(kind, reply) matches Some((width, height)) ==> screen_after(
            Screen::Asking,
            kind,
            reply,
        ) == Some(Screen::Allocating(width, height)),
        display_size(kind, reply) is None ==> screen_after(Screen::Asking, kind, reply) is None,
        kind == Some(0x1100u32) ==> {
            &&& screen_after(Screen::Creating, kind, reply) == Some(Screen::Attaching)
            &&& screen_after(Screen::Attaching, kind, reply) == Some(Screen::Showing)
            &&& screen_after(Screen::Showing, kind, reply) == Some(Screen::Made)
        },
        kind != Some(0x1100u32) ==> {
            &&& screen_after(Screen::Creating, kind, reply) is None
            &&& screen_after(Screen::Attaching, kind, reply) is None
            &&& screen_after(Screen::Showing, kind, reply) is None
        },
{
    if gpu.width * gpu.height * 4 < 0x1_0000_0000 {
        assert(gpu.width * gpu.height >= 0) by (nonlinear_arith)
            requires
                gpu.width >= 0,
                gpu.height >= 0,
        ;
    }
}

/// How the display is asked: the command at the start of the scratch page, which it
/// reads; room for the answer 2048 bytes behind it, which it writes; one entry, and
/// word that it is there.
pub proof fn law_how_the_display_is_asked(gpu: Gpu, request: usize, reply: usize, index: u16)
    requires
        gpu.wf(),
        request <= 2048,
        reply <= 2048,
    ensures
        can_ask(request, reply) <==> reply >= 4,
        ({
            let steps = asking(gpu, request, reply, index);
            let queue = gpu.pages.queue as int;
            let answer = (gpu.pages.scratch + 2048) as u64;
            &&& steps.len() == 15
            &&& steps[0] == (Step::Data { at: gpu.pages.scratch, length: request as u64 })
            &&& steps[1] == (Step::Zeros { at: answer, many: reply as u64 })
            &&& steps[2] == (Step::Long { at: queue as u64, long: gpu.pages.scratch })
            &&& steps[3] == (Step::Word { at: (queue + 8) as u64, word: request as u32 })
            &&& steps[4] == (Step::Half { at: (queue + 12) as u64, half: 1 })
            &&& steps[5] == (Step::Half { at: (queue + 14) as u64, half: 1 })
            &&& steps[6] == (Step::Long { at: (queue + 16) as u64, long: answer })
            &&& steps[7] == (Step::Word { at: (queue + 24) as u64, word: reply as u32 })
            &&& steps[8] == (Step::Half { at: (queue + 28) as u64, half: 2 })
            &&& steps[9] == (Step::Half { at: (queue + 30) as u64, half: 0 })
            &&& steps[10] == (Step::Half {
                at: (gpu.pages.available + 4 + 2 * (index % gpu.size)) as u64,
                half: 0,
            })
            &&& steps[11] == Step::Fence
            &&& steps[12] == (Step::Half {
                at: (gpu.pages.available + 2) as u64,
                half: if index == 65535 {
                    0
                } else {
                    (index + 1) as u16
                },
            })
            &&& steps[13] == Step::Fence
            &&& steps[14] == (Step::Register16 { register: gpu.notify, value16: 0 })
        }),
{
}

/// A display's windows by their kinds: 1 for the registers every device has, 2 for
/// where it is told, 3 for what it interrupts with, 4 for its own; any other kind is
/// none.
pub proof fn law_windows_by_kind(windows: Windows, kind: u8, window: Window, device: Device)
    ensures
        kind == 1 ==> windows.with(kind, window) == (Windows { common: Some(window), ..windows }),
        kind == 2 ==> windows.with(kind, window) == (Windows { notify: Some(window), ..windows }),
        kind == 3 ==> windows.with(kind, window) == (Windows { isr: Some(window), ..windows }),
        kind == 4 ==> windows.with(kind, window) == (Windows { device: Some(window), ..windows }),
        kind == 0 || kind > 4 ==> windows.with(kind, window) == windows,
        is_display(device) <==> device.vendor == 0x1AF4 && device.device == 0x1050,
        CAPABILITY == 9,
        RESET_LOOKS == 100_000,
{
}

/// A queue has one, two, four, eight, sixteen, 32 or 64 entries.
pub proof fn law_sizes_of_a_queue(size: u16)
    ensures
        is_queue_size(size) <==> size == 1 || size == 2 || size == 4 || size == 8 || size == 16
            || size == 32 || size == 64,
        is_queue_size(size) ==> 0x1_0000int % (size as int) == 0,
{
}

/// A number of 64 bits goes into two registers, the low half first.
pub proof fn law_two_halves(at: u64, value: u64)
    requires
        at <= u64::MAX - 4,
    ensures
        register64(at, value).len() == 2,
        register64(at, value)[0] matches Step::Register32 { register: first, value32: low }
            && register64(at, value)[1] matches Step::Register32 { register: second, value32: high }
            && first == at && second == at + 4 && low + 0x1_0000_0000 * high == value,
{
}

/// What bringing a display up does in answer to each register: a device that has
/// reset is seen and has a driver; one that offers the second word's first feature is
/// told that alone; one that accepts is asked for its queues; and the first of them
/// is taken, with 64 entries at most.
pub proof fn law_what_bringing_up_does(bring: BringUp, value: u32)
    requires
        bring.wf(),
    ensures
        ({
            let (stage, steps, wanted) = bring.after(value);
            let base = bring.common as int;
            let status = |value8: u8| Step::Register8 { register: (base + 0x14) as u64, value8 };
            let set = |at: int, value32: u32|
                Step::Register32 { register: (base + at) as u64, value32 };
            &&& bring.stage is Resetting && value == 0 ==> {
                &&& stage is Offering
                &&& steps == seq![status(1), status(3), set(0, 1)]
                &&& wanted == Wanted::Read32((base + 4) as u64)
            }
            &&& bring.stage is Offering && value % 2 == 1 ==> {
                &&& stage is Accepting
                &&& steps == seq![set(8, 0), set(12, 0), set(8, 1), set(12, 1), status(11)]
                &&& wanted == Wanted::Read8((base + 0x14) as u64)
            }
            &&& bring.stage is Accepting && (value / 8) % 2 == 1 ==> {
                &&& stage is Counting
                &&& steps.len() == 0
                &&& wanted == Wanted::Read16((base + 0x12) as u64)
            }
            &&& bring.stage is Counting && value > 0 ==> {
                &&& stage is Sizing
                &&& steps == seq![Step::Register16 { register: (base + 0x16) as u64, value16: 0 }]
                &&& wanted == Wanted::Read16((base + 0x18) as u64)
            }
            &&& bring.stage is Sizing && value >= 64 ==> stage == Stage::Placing(64) && wanted
                == Wanted::Pages
            &&& bring.stage is Sizing && value < 64 && is_queue_size(value as u16) ==> stage
                == Stage::Placing(value as u16) && wanted == Wanted::Pages
            &&& bring.stage matches Stage::Notifying(size, pages) ==> {
                &&& steps == seq![status(15)]
                &&& wanted matches Wanted::Ready(gpu) && gpu.common == bring.common && gpu.pages
                    == pages && gpu.size == size && gpu.isr == bring.isr && gpu.seen == 0
                &&& bring.notify + value * bring.multiplier <= u64::MAX ==> (wanted
                    matches Wanted::Ready(gpu) ==> gpu.notify == bring.notify + value
                    * bring.multiplier)
            }
            &&& wanted is Failed ==> steps == seq![status(128)]
        }),
        ({
            let failed = bring.after(value).2 is Failed;
            &&& bring.stage == Stage::Resetting(1) && value != 0 ==> failed
            &&& bring.stage is Offering && value % 2 == 0 ==> failed
            &&& bring.stage is Accepting && (value / 8) % 2 == 0 ==> failed
            &&& bring.stage is Counting && value == 0 ==> failed
            &&& bring.stage is Sizing && value < 64 && !is_queue_size(value as u16) ==> failed
            &&& bring.stage is Placing ==> failed
        }),
        ({
            let (stage, steps, wanted) = bring.after(value);
            bring.stage matches Stage::Resetting(left) ==> (value != 0 && left > 1 ==> stage
                == Stage::Resetting((left - 1) as u32) && steps.len() == 0 && wanted
                == Wanted::Read8((bring.common + 0x14) as u64))
        }),
{
    if bring.stage is Notifying {
        assert(bring.notify + value * bring.multiplier >= 0) by (nonlinear_arith)
            requires
                bring.notify >= 0,
                value >= 0,
                bring.multiplier >= 0,
        ;
    }
}

/// Where a queue is placed: the addresses of its three parts in the registers at
/// 0x20, 0x28 and 0x30, its size at 0x18, and it is enabled last, at 0x1C.
pub proof fn law_where_a_queue_is_placed(bring: BringUp, size: u16, pages: Pages)
    requires
        bring.wf(),
    ensures
        ({
            let steps = bring.placing(size, pages);
            let base = bring.common as int;
            &&& steps.subrange(0, 2) == register64((base + 0x20) as u64, pages.queue)
            &&& steps.subrange(2, 4) == register64((base + 0x28) as u64, pages.available)
            &&& steps.subrange(4, 6) == register64((base + 0x30) as u64, pages.used)
            &&& steps[6] == (Step::Register16 { register: (base + 0x18) as u64, value16: size })
            &&& steps[7] == (Step::Half { at: pages.available, half: 1 })
            &&& steps[8] == Step::Fence
            &&& steps[9] == (Step::Register16 { register: (base + 0x1C) as u64, value16: 1 })
        }),
{
    let steps = bring.placing(size, pages);
    let base = bring.common as int;
    assert(steps.subrange(0, 2) =~= register64((base + 0x20) as u64, pages.queue));
    assert(steps.subrange(2, 4) =~= register64((base + 0x28) as u64, pages.available));
    assert(steps.subrange(4, 6) =~= register64((base + 0x30) as u64, pages.used));
}

/// The bands of the test picture are red, green and blue.
pub proof fn law_the_colours_of_the_bands(height: u32, y: int)
    ensures
        y < height / 3 ==> band_colour(height, y) == 0xFF_0000,
        height / 3 <= y < 2 * (height / 3) ==> band_colour(height, y) == 0xFF00,
        2 * (height / 3) <= y ==> band_colour(height, y) == 0xFF,
{
}

} // verus!
