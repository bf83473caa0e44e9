//! What a program and the compositor count on when they share a window: what
//! stands where in the structures, what a message says, and which number each
//! event has.
use vstd::prelude::*;

#[allow(unused_imports)]
use super::{
    absorbed, behind, damage, event, four, frame_end, front, gone, is_resize, large_enough,
    names_device, outside, overdue, queued, refreshed, replaced, request, stride, wire, Event,
    Message, Model, Surface, WindowModel,
};
#[allow(unused_imports)]
use crate::bytes::{le32, lemma_numbers_among_bytes, u32_at};
#[allow(unused_imports)]
use crate::compat::error::ETIMEDOUT;

verus! {

/// The numbers of the events and of the three requests.
pub proof fn law_numbers_of_events_and_requests()
    ensures
        event::NONE == 0,
        event::CHARACTER == 1,
        event::KEY == 2,
        event::RESIZED == 3,
        event::CLOSED == 4,
        request::INFO == 0x4E58_0001,
        request::PRESENT == 0x4E58_0002,
        request::EVENT == 0x4E58_0003,
{
}

/// The window's device is `/dev/nexus/display`.
pub proof fn law_the_name_of_the_device(path: Seq<u8>)
    ensures
        names_device(path) <==> path == seq![
            0x2Fu8, 0x64, 0x65, 0x76, 0x2F, 0x6E, 0x65, 0x78, 0x75, 0x73, 0x2F, 0x64, 0x69, 0x73,
            0x70, 0x6C, 0x61, 0x79,
        ],
{
    assert(super::PATH@ =~= seq![
        0x2Fu8, 0x64, 0x65, 0x76, 0x2F, 0x6E, 0x65, 0x78, 0x75, 0x73, 0x2F, 0x64, 0x69, 0x73, 0x70,
        0x6C, 0x61, 0x79,
    ]);
}

/// Four numbers stand one behind the other, four bytes each.
pub proof fn law_four_numbers(a: u32, b: u32, c: u32, d: u32)
    ensures
        four(a, b, c, d).len() == 16,
        u32_at(four(a, b, c, d), 0) == a,
        u32_at(four(a, b, c, d), 4) == b,
        u32_at(four(a, b, c, d), 8) == c,
        u32_at(four(a, b, c, d), 12) == d,
{
    let bytes = four(a, b, c, d);
    lemma_numbers_among_bytes(bytes, 0);
    lemma_numbers_among_bytes(bytes, 4);
    lemma_numbers_among_bytes(bytes, 8);
    lemma_numbers_among_bytes(bytes, 12);
    assert(bytes.subrange(0, 4) =~= le32(a));
    assert(bytes.subrange(4, 8) =~= le32(b));
    assert(bytes.subrange(8, 12) =~= le32(c));
    assert(bytes.subrange(12, 16) =~= le32(d));
}

/// A window needs four bytes for each of its pixels and has at least one; a line of
/// it is four bytes for each pixel across.
pub proof fn law_four_bytes_a_pixel(width: u32, height: u32, size: u64)
    ensures
        large_enough(width, height, size) <==> width >= 1 && height >= 1 && width * height * 4
            <= size,
        width < 0x4000_0000 ==> stride(width) == 4 * width,
        width >= 0x4000_0000 ==> stride(width) == 0xFFFF_FFFF,
{
}

/// What is presented is a rectangle: the corner across and down, and the size across
/// and down. It may not reach past the window on either side.
pub proof fn law_a_rectangle(x: u32, y: u32, width: u32, height: u32, window: WindowModel)
    ensures
        outside(four(x, y, width, height), window) <==> x + width > window.width || y + height
            > window.height,
        damage(four(x, y, width, height)) == seq![0x64u8, 0x61, 0x6D, 0x61, 0x67, 0x65, 0x64]
            + four(x, y, width, height),
{
    law_four_numbers(x, y, width, height);
    assert(wire::DAMAGED@ =~= seq![0x64u8, 0x61, 0x6D, 0x61, 0x67, 0x65, 0x64]);
}

/// A window keeps the last 64 events: one more puts the oldest out.
pub proof fn law_the_last_events_are_kept(pending: Seq<Event>, event: Event)
    requires
        pending.len() <= 64,
    ensures
        queued(pending, event).last() == event,
        pending.len() < 64 ==> queued(pending, event).len() == pending.len() + 1,
        pending.len() == 64 ==> queued(pending, event).len() == 64 && forall|i: int|
            0 <= i < 63 ==> #[trigger] queued(pending, event)[i] == pending[i + 1],
        pending.len() < 64 ==> forall|i: int|
            0 <= i < pending.len() ==> #[trigger] queued(pending, event)[i] == pending[i],
{
}

/// A window whose compositor went away is closed, and the program is told last of
/// all.
pub proof fn law_a_window_that_is_gone(window: WindowModel)
    requires
        window.pending.len() <= 64,
    ensures
        gone(window).closed,
        gone(window).pending.last() == (Event { kind: 4, value: 0 }),
        gone(window).surface == window.surface,
        gone(window).width == window.width && gone(window).height == window.height,
{
}

/// What a message that is no resize and not `shown` says, where it has five bytes:
/// a first byte of one is a character, whose number follows; any other first byte is
/// itself the key. A shorter one says nothing, and `shown` is for somebody else.
pub proof fn law_what_a_message_says(window: WindowModel, message: Message)
    requires
        window.pending.len() < 64,
        !is_resize(message),
    ensures
        ({
            let bytes = message.bytes@;
            let after = absorbed(window, message);
            let shown = seq![0x73u8, 0x68, 0x6F, 0x77, 0x6E];
            &&& bytes == shown || bytes.len() < 5 ==> after == window
            &&& bytes != shown && bytes.len() >= 5 ==> {
                &&& after.pending.len() == window.pending.len() + 1
                &&& bytes[0] == 1 ==> after.pending.last() == (Event {
                    kind: 1,
                    value: u32_at(bytes, 1),
                })
                &&& bytes[0] != 1 ==> after.pending.last() == (Event {
                    kind: 2,
                    value: bytes[0] as u32,
                })
                &&& after.surface == window.surface && after.width == window.width && after.height
                    == window.height && after.closed == window.closed
            }
        }),
{
    assert(wire::SHOWN@ =~= seq![0x73u8, 0x68, 0x6F, 0x77, 0x6E]);
}

/// A resize is the word `size` with the new size behind it and one piece of memory:
/// the window takes both and the program is told, or, where the memory is missing or
/// too small, the window is gone.
pub proof fn law_a_resize(window: WindowModel, message: Message)
    ensures
        is_resize(message) <==> message.handles == 1 && message.bytes@.len() >= 12
            && message.bytes@.take(4) == seq![0x73u8, 0x69, 0x7A, 0x65],
        is_resize(message) && message.bytes@.len() >= 12 ==> {
            let width = u32_at(message.bytes@, 4);
            let height = u32_at(message.bytes@, 8);
            let after = absorbed(window, message);
            &&& message.memory is None ==> after == gone(window)
            &&& message.memory matches Some(memory) ==> {
                &&& !large_enough(width, height, memory.size) ==> after == gone(window)
                &&& large_enough(width, height, memory.size) ==> {
                    &&& after.surface == memory
                    &&& after.width == width
                    &&& after.height == height
                    &&& after.closed == window.closed
                    &&& after.pending == queued(window.pending, Event { kind: 3, value: 0 })
                }
            }
        },
{
    assert(wire::RESIZED@ =~= seq![0x73u8, 0x69, 0x7A, 0x65]);
    assert(wire::SHOWN@.len() == 5);
}

/// The next event is the oldest, and it is taken out; without one there is number
/// zero. A message is looked at only where no event is waiting.
pub proof fn law_the_oldest_event_is_next(window: WindowModel, message: &Message)
    ensures
        window.pending.len() > 0 ==> {
            &&& front(window) == window.pending[0]
            &&& behind(window).pending == window.pending.drop_first()
            &&& refreshed(window, Some(message)) == window
        },
        window.pending.len() == 0 ==> {
            &&& front(window) == (Event { kind: 0, value: 0 })
            &&& behind(window) == window
            &&& refreshed(window, Some(message)) == absorbed(window, *message)
        },
        refreshed(window, None) == window,
        behind(window).surface == window.surface && behind(window).width == window.width
            && behind(window).height == window.height && behind(window).closed == window.closed,
{
}

/// A frame is waited for ten seconds.
pub proof fn law_ten_seconds_for_a_frame(now: u64, deadline: u64)
    ensures
        now <= u64::MAX - 10_000 ==> frame_end(now) == now + 10_000,
        now > u64::MAX - 10_000 ==> frame_end(now) == u64::MAX,
        overdue(now, deadline) == if now >= deadline {
            Some(ETIMEDOUT)
        } else {
            None
        },
{
}

/// A change to a window changes that window, where there is one, and no other.
pub proof fn law_a_change_is_to_one_window(
    state: Model,
    key: (u64, u32),
    other: (u64, u32),
    window: WindowModel,
)
    requires
        other != key,
    ensures
        ({
            let after = replaced(state, key, window);
            &&& after.windows.dom() == state.windows.dom()
            &&& state.windows.dom().contains(key) ==> after.windows[key] == window
            &&& state.windows.dom().contains(other) ==> after.windows[other] == state.windows[other]
            &&& after.presented == state.presented
            &&& after.delivered == state.delivered
        }),
{
    assert(replaced(state, key, window).windows.dom() =~= state.windows.dom());
}

} // verus!
