//! What a program counts on when it waits for descriptors, in its own numbers:
//! 1 for something to read, 4 for room to write, 8 for an error, 0x10 for an end
//! that went away, and 0x20 for a number that names nothing.
use vstd::prelude::*;

#[allow(unused_imports)]
use super::{
    all_revents, answers_at, can_be_watched, control_refused, counts, deadline, event_bits,
    events_bytes, events_of, interest_in, nonzero, revents, shown, slept, verdict, wait_refused,
    waited_on, watching_in, when_wide, without, Event, Interest, Model, Patience, Readiness, Seen,
    Verdict, Watching,
};
#[allow(unused_imports)]
use crate::bytes::{le16, le32, le64, lemma_numbers_among_bytes, u16_at, u32_at, u64_at};
#[allow(unused_imports)]
use crate::compat::error::{EBADF, EFAULT, EINTR, EINVAL, ENOSYS};

verus! {

/// What a stream shows: 1 exactly where it can be read or the other end is gone,
/// so that the program reads and finds out; 4 exactly where it can be written;
/// 0x10 exactly where the other end is gone; and nothing else.
pub proof fn law_a_stream_shows(readable: bool, writable: bool, connected: bool)
    ensures
        ({
            let bits = shown(Readiness::Stream { readable, writable, connected });
            &&& bits & 1 != 0 <==> readable || !connected
            &&& bits & 4 != 0 <==> writable
            &&& bits & 0x10 != 0 <==> !connected
            &&& bits & !0x15u16 == 0
        }),
{
    lemma_bits_shown(readable, writable, !connected);
}

/// What the ends of a pipe show: the one that writes 4 exactly where there is
/// room, and 8 exactly where nobody reads; the one that reads 1 exactly where there
/// is something or nobody will write again, and 0x10 exactly in the second case.
pub proof fn law_a_pipe_shows(room: bool, readers_open: bool, queued: bool, writers_open: bool)
    ensures
        ({
            let writing = shown(Readiness::WritingEnd { room, readers_open });
            let reading = shown(Readiness::ReadingEnd { queued, writers_open });
            &&& writing & 4 != 0 <==> room
            &&& writing & 8 != 0 <==> !readers_open
            &&& writing & !0x0Cu16 == 0
            &&& reading & 1 != 0 <==> queued || !writers_open
            &&& reading & 0x10 != 0 <==> !writers_open
            &&& reading & !0x11u16 == 0
        }),
{
    lemma_bits_shown(room, !readers_open, false);
    lemma_bits_shown(queued, false, !writers_open);
}

/// What a channel shows: always room to write, 1 exactly where a message is
/// waiting, and 0x10 exactly where the other end is gone. A listener shows 1
/// exactly where somebody wants to connect.
pub proof fn law_a_channel_shows(queued: bool, peer_open: bool, ready: bool)
    ensures
        ({
            let channel = shown(Readiness::Channel { queued, peer_open });
            &&& channel & 4 != 0
            &&& channel & 1 != 0 <==> queued
            &&& channel & 0x10 != 0 <==> !peer_open
            &&& channel & !0x15u16 == 0
        }),
        shown(Readiness::Listener { ready }) == if ready {
            1u16
        } else {
            0
        },
{
    lemma_bits_shown(queued, true, !peer_open);
}

/// What the rest shows: the console can be read from as its first stream and
/// written to as the others, a file is always ready for both, and a number that
/// names nothing shows that.
pub proof fn law_the_rest_shows(stream: u8)
    ensures
        stream == 0 ==> shown(Readiness::Console(stream)) == 1,
        stream != 0 ==> shown(Readiness::Console(stream)) == 4,
        shown(Readiness::File) == 5,
        shown(Readiness::Idle) == 0,
        shown(Readiness::Other) == 4,
        shown(Readiness::Invalid) == 0x20,
{
    lemma_words(0, 0, 0, 0, 0, 0);
}

/// The bits of every combination of what is shown.
proof fn lemma_bits_shown(first: bool, second: bool, third: bool)
    ensures
        ({
            let bits = crate::compat::linux_poll::when(first, 1) | crate::compat::linux_poll::when(second, 4) | crate::compat::linux_poll::when(third, 0x10u16 | 1u16);
            &&& bits & 1 != 0 <==> first || third
            &&& bits & 4 != 0 <==> second
            &&& bits & 0x10 != 0 <==> third
            &&& bits & !0x15u16 == 0
        }),
        ({
            let bits = crate::compat::linux_poll::when(first, 4) | crate::compat::linux_poll::when(second, 8);
            &&& bits & 4 != 0 <==> first
            &&& bits & 8 != 0 <==> second
            &&& bits & !0x0Cu16 == 0
        }),
        ({
            let bits = crate::compat::linux_poll::when(first, 1) | crate::compat::linux_poll::when(third, 0x10u16 | 1u16);
            &&& bits & 1 != 0 <==> first || third
            &&& bits & 0x10 != 0 <==> third
            &&& bits & !0x11u16 == 0
        }),
        ({
            let bits = 4u16 | crate::compat::linux_poll::when(first, 1) | crate::compat::linux_poll::when(third, 0x10);
            &&& bits & 4 != 0
            &&& bits & 1 != 0 <==> first
            &&& bits & 0x10 != 0 <==> third
            &&& bits & !0x15u16 == 0
        }),
{
    let p = crate::compat::linux_poll::when(first, 1);
    let q = crate::compat::linux_poll::when(second, 4);
    let r = crate::compat::linux_poll::when(third, 0x10u16 | 1u16);
    let s = crate::compat::linux_poll::when(first, 4);
    let t = crate::compat::linux_poll::when(second, 8);
    let u = crate::compat::linux_poll::when(third, 0x10);
    assert((p == 0 || p == 1) && (q == 0 || q == 4) && (r == 0 || r == 0x10u16 | 1u16) && (s == 0
        || s == 4) && (t == 0 || t == 8) && (u == 0 || u == 0x10) ==> (((p | q | r) & 1 != 0 <==> p
        != 0 || r != 0) && ((p | q | r) & 4 != 0 <==> q != 0) && ((p | q | r) & 0x10 != 0 <==> r
        != 0) && (p | q | r) & !0x15u16 == 0 && ((s | t) & 4 != 0 <==> s != 0) && ((s | t) & 8 != 0
        <==> t != 0) && (s | t) & !0x0Cu16 == 0 && ((p | r) & 1 != 0 <==> p != 0 || r != 0) && ((p
        | r) & 0x10 != 0 <==> r != 0) && (p | r) & !0x11u16 == 0 && (4u16 | p | u) & 4 != 0 && ((
    4u16 | p | u) & 1 != 0 <==> p != 0) && ((4u16 | p | u) & 0x10 != 0 <==> u != 0) && (4u16 | p
        | u) & !0x15u16 == 0 && 0x10u16 | 1u16 != 0)) by (bit_vector);
}

/// What the bits of words come to: `now` and `asked` are any two, and the others
/// each one bit or none.
proof fn lemma_words(now: u16, asked: u16, reads: u32, writes: u32, ended: u32, failed: u32)
    by (bit_vector)
    requires
        reads == 0 || reads == 1,
        writes == 0 || writes == 4,
        ended == 0 || ended == 0x10,
        failed == 0 || failed == 8,
    ensures
        1u16 | 4u16 == 5u16,
        ({
            let told = now & (asked | 8u16 | 0x10u16 | 0x20u16);
            &&& told & 1 != 0 <==> now & 1 != 0 && asked & 1 != 0
            &&& told & 4 != 0 <==> now & 4 != 0 && asked & 4 != 0
            &&& told & 8 != 0 <==> now & 8 != 0
            &&& told & 0x10 != 0 <==> now & 0x10 != 0
            &&& told & 0x20 != 0 <==> now & 0x20 != 0
            &&& told & !now == 0
            &&& told & !(asked | 0x38u16) == 0
        }),
        ({
            let bits = reads | writes | ended | failed;
            &&& bits & 1 != 0 <==> reads != 0
            &&& bits & 4 != 0 <==> writes != 0
            &&& bits & 8 != 0 <==> failed != 0
            &&& bits & 0x10 != 0 <==> ended != 0
            &&& bits & !0x1Du32 == 0
        }),
{
}

/// What can change while a program waits for it: the ends of a pipe, a channel, a
/// listener and a stream. Everything else is what it is.
pub proof fn law_what_can_be_watched(readiness: Readiness)
    ensures
        can_be_watched(readiness) <==> {
            ||| readiness is WritingEnd
            ||| readiness is ReadingEnd
            ||| readiness is Channel
            ||| readiness is Listener
            ||| readiness is Stream
        },
{
}

/// What a program is told of a descriptor: what it asked for, where that is so
/// now; an error, an end that went away and a number that names nothing always; and
/// nothing that is not so. Of an entry that names no descriptor it is told nothing.
pub proof fn law_told_what_was_asked(watching: Watching, now: u16)
    ensures
        watching.descriptor is None ==> revents(watching, now) == 0,
        watching.descriptor is Some ==> {
            let told = revents(watching, now);
            &&& told & 1 != 0 <==> now & 1 != 0 && watching.asked & 1 != 0
            &&& told & 4 != 0 <==> now & 4 != 0 && watching.asked & 4 != 0
            &&& told & 8 != 0 <==> now & 8 != 0
            &&& told & 0x10 != 0 <==> now & 0x10 != 0
            &&& told & 0x20 != 0 <==> now & 0x20 != 0
            &&& told & !now == 0
            &&& told & !(watching.asked | 0x38) == 0
        },
{
    lemma_words(now, watching.asked, 0, 0, 0, 0);
}

/// The answers to `poll` stand in the order of the list, one for each entry, and
/// what `poll` returns is how many of them say something.
pub proof fn law_answers_are_counted(watching: Seq<Watching>, now: Seq<u16>, i: int)
    requires
        watching.len() == now.len(),
        0 <= i < watching.len(),
    ensures
        all_revents(watching, now).len() == watching.len(),
        all_revents(watching, now)[i] == revents(watching[i], now[i]),
        nonzero(all_revents(watching, now)) <= watching.len(),
        revents(watching[i], now[i]) != 0 ==> nonzero(all_revents(watching, now)) > 0,
{
    lemma_nonzero(all_revents(watching, now), i);
}

/// Of a list of answers none is counted that is zero, and every one that is not.
pub proof fn law_one_more_answer(bits: Seq<u16>, last: u16)
    ensures
        nonzero(Seq::empty()) == 0,
        last == 0 ==> nonzero(bits.push(last)) == nonzero(bits),
        last != 0 ==> nonzero(bits.push(last)) == nonzero(bits) + 1,
{
    assert(bits.push(last).drop_last() =~= bits);
}

proof fn lemma_nonzero(bits: Seq<u16>, i: int)
    requires
        0 <= i < bits.len(),
    ensures
        nonzero(bits) <= bits.len(),
        bits[i] != 0 ==> nonzero(bits) > 0,
    decreases bits.len(),
{
    reveal_with_fuel(nonzero, 2);
    if i < bits.len() - 1 {
        lemma_nonzero(bits.drop_last(), i);
    } else if bits.len() > 1 {
        lemma_nonzero(bits.drop_last(), 0);
    }
}

/// An entry of the list for `poll` is eight bytes: the descriptor in the first
/// four, what is asked in the next two, and the answer goes into the last two. A
/// descriptor below zero names nothing.
pub proof fn law_an_entry_is_eight_bytes(bytes: Seq<u8>, at: u64, bits: Seq<u16>, i: int)
    requires
        0 <= i,
        8 * i + 8 <= bytes.len(),
        i < bits.len(),
        at + 8 * bits.len() <= u64::MAX,
    ensures
        watching_in(bytes).len() == bytes.len() / 8,
        u32_at(bytes, 8 * i) < 0x8000_0000 ==> watching_in(bytes)[i].descriptor == Some(
            u32_at(bytes, 8 * i) as u64,
        ),
        u32_at(bytes, 8 * i) >= 0x8000_0000 ==> watching_in(bytes)[i].descriptor is None,
        watching_in(bytes)[i].asked == u16_at(bytes, 8 * i + 4),
        answers_at(at, bits).len() == bits.len(),
        answers_at(at, bits)[i].0 == at + 8 * i + 6,
        answers_at(at, bits)[i].1 == le16(bits[i]),
{
}

/// A wait without an end has no deadline. Any other ends as many ticks from now as
/// its milliseconds take at the clock's rate, a part of a tick left out.
pub proof fn law_a_deadline(milliseconds: i64, rate: u64, ticks: u64)
    ensures
        deadline(milliseconds, rate, ticks) is None <==> milliseconds < 0 || rate == 0,
        deadline(milliseconds, rate, ticks) matches Some(end) ==> {
            &&& end >= ticks
            &&& milliseconds * rate <= u64::MAX && ticks + milliseconds * rate <= u64::MAX ==> {
                &&& (end - ticks) * 1000 <= milliseconds * rate
                &&& milliseconds * rate < (end - ticks + 1) * 1000
            }
        },
{
    if milliseconds >= 0 {
        assert(milliseconds * rate >= 0) by (nonlinear_arith)
            requires
                milliseconds >= 0,
                rate >= 0,
        ;
    }
}

/// When a wait goes on: nothing was found, the program was willing to wait, it has
/// not been told to stop, and the time has not come. What was found is the answer
/// before anything else; being told to stop is an error; the rest is zero.
pub proof fn law_when_a_wait_goes_on(found: u64, patience: Patience)
    ensures
        ({
            let late = patience.deadline is Some && patience.ticks >= patience.deadline->Some_0;
            &&& verdict(found, patience) == Verdict::Sleep <==> found == 0 && patience.timeout != 0
                && !patience.cancelled && !late
            &&& found > 0 ==> verdict(found, patience) == Verdict::Answer(found)
            &&& found == 0 && patience.timeout == 0 ==> verdict(found, patience) == Verdict::Answer(0)
            &&& found == 0 && patience.timeout != 0 && patience.cancelled ==> verdict(
                found,
                patience,
            ) == Verdict::Answer(EINTR)
            &&& found == 0 && !patience.cancelled && late ==> verdict(found, patience)
                == Verdict::Answer(0)
        }),
{
}

/// A call that finds something at once counts as one that did not wait, and one
/// that has something to sleep on, the first time it does, as one that did.
pub proof fn law_what_is_counted(before: Model, found: u64, members: nat, patience: Patience)
    requires
        before.immediate < u64::MAX,
        before.waited < u64::MAX,
    ensures
        counts(before, found, patience).immediate == before.immediate + if found > 0
            && !patience.blocked {
            1int
        } else {
            0
        },
        counts(before, found, patience).sets == before.sets,
        slept(before, members, patience.blocked).waited == before.waited + if members > 0
            && !patience.blocked {
            1int
        } else {
            0
        },
        slept(before, members, patience.blocked).sets == before.sets,
{
}

/// A program sleeps on every descriptor it named that can change, and on no other,
/// in the order it named them.
pub proof fn law_sleeping_on_what_can_change(seen: Seq<Seen>, last: Seen)
    ensures
        waited_on(Seq::empty()).len() == 0,
        can_be_watched(last.readiness) ==> waited_on(seen.push(last)) == waited_on(seen).push(
            last.descriptor,
        ),
        !can_be_watched(last.readiness) ==> waited_on(seen.push(last)) == waited_on(seen),
{
    assert(seen.push(last).drop_last() =~= seen);
}

/// What an event of a set shows: what the program takes an interest in, where that
/// is so now; an end that went away and an error always; and nothing else. A
/// descriptor that names nothing any more shows an error.
pub proof fn law_an_event_shows(want: Interest, now: u16)
    ensures
        ({
            let bits = event_bits(want, now);
            &&& now & 0x20 != 0 ==> bits == 8
            &&& now & 0x20 == 0 ==> {
                &&& bits & 1 != 0 <==> now & 1 != 0 && want.events & 1 != 0
                &&& bits & 4 != 0 <==> now & 4 != 0 && want.events & 4 != 0
                &&& bits & 8 != 0 <==> now & 8 != 0
                &&& bits & 0x10 != 0 <==> now & 0x10 != 0
                &&& bits & !0x1Du32 == 0
            }
        }),
{
    let reads = when_wide(now & 1 != 0 && want.events & 1 != 0, 1);
    let writes = when_wide(now & 4 != 0 && want.events & 4 != 0, 4);
    let ended = when_wide(now & 0x10 != 0, 0x10);
    let failed = when_wide(now & 8 != 0, 8);
    lemma_words(0, 0, reads, writes, ended, failed);
}

/// Every event that is reported says something, and is one of the set's: it has
/// the bits and the data of a descriptor that is in it.
pub proof fn law_every_event_has_its_interest(
    interests: Seq<(u64, Interest)>,
    now: Seq<u16>,
    upto: nat,
    most: nat,
    which: int,
)
    requires
        upto <= interests.len(),
        interests.len() == now.len(),
        0 <= which < events_of(interests, now, upto, most).len(),
    ensures
        ({
            let event = events_of(interests, now, upto, most)[which];
            &&& event.bits != 0
            &&& exists|i: int|
                0 <= i < upto && event.bits == event_bits((#[trigger] interests[i]).1, now[i])
                    && event.data == interests[i].1.data
        }),
    decreases upto,
{
    if upto > 0 {
        let before = events_of(interests, now, (upto - 1) as nat, most);
        if which < before.len() {
            law_every_event_has_its_interest(interests, now, (upto - 1) as nat, most, which);
        } else {
            assert(interests[upto - 1] == interests[upto - 1]);
        }
    }
}

/// An event is twelve bytes: the bits in the first four, and the program's own
/// number in the next eight, where it stands in an interest too. What a program is
/// told can be handed back as an interest.
pub proof fn law_an_event_is_twelve_bytes(events: Seq<Event>, last: Event)
    ensures
        events_bytes(Seq::empty()).len() == 0,
        events_bytes(events.push(last)) == events_bytes(events) + events_bytes(seq![last]),
        events_bytes(seq![last]).len() == 12,
        u32_at(events_bytes(seq![last]), 0) == last.bits,
        u64_at(events_bytes(seq![last]), 4) == last.data,
        interest_in(events_bytes(seq![last])) == (Interest { events: last.bits, data: last.data }),
{
    let one = seq![last];
    let bytes = le32(last.bits) + le64(last.data);
    reveal_with_fuel(events_bytes, 2);
    assert(one.drop_last() =~= Seq::empty());
    assert(events_bytes(one) =~= bytes);
    assert(events.push(last).drop_last() =~= events);
    assert(events_bytes(events.push(last)) =~= events_bytes(events) + bytes);
    lemma_numbers_among_bytes(bytes, 0);
    lemma_numbers_among_bytes(bytes, 4);
    assert(bytes.subrange(0, 4) =~= le32(last.bits));
    assert(bytes.subrange(4, 12) =~= le64(last.data));
}

/// When a change to a set is refused before the set is looked at. Operation one
/// adds, two takes out and three changes; a set is not put into itself, what names
/// nothing is not put in, and reporting a change only once is not to be had.
pub proof fn law_when_a_change_is_refused(
    process: Option<u64>,
    set: u64,
    operation: u64,
    descriptor: u64,
    now: u16,
    bytes: Option<Seq<u8>>,
)
    ensures
        ({
            let refused = control_refused(process, set, operation, descriptor, now, bytes);
            let gone = (operation == 1 || operation == 3) && now & 0x20 != 0;
            if process is None {
                refused == Some(ENOSYS)
            } else if set >= 0x1_0000_0000 || descriptor >= 0x1_0000_0000 || (descriptor != set
                && gone) {
                refused == Some(EBADF)
            } else if descriptor == set {
                refused == Some(EINVAL)
            } else if operation == 2 {
                refused is None
            } else if bytes is None {
                refused == Some(EFAULT)
            } else {
                &&& refused is Some <==> u32_at(bytes.unwrap(), 0) & 0x8000_0000 != 0
                &&& refused is Some ==> refused == Some(EINVAL)
            }
        }),
{
}

/// When a wait on a set is refused: for no events or for more than 64, without a
/// process, for a number that cannot be a descriptor, and where the events cannot
/// be written.
pub proof fn law_when_a_wait_is_refused(set: u64, most: u64, process: Option<u64>, in_range: bool)
    ensures
        wait_refused(set, most, process, in_range) is None <==> 1 <= most <= 64 && process is Some
            && set < 0x1_0000_0000 && in_range,
        !(1 <= most <= 64) ==> wait_refused(set, most, process, in_range) == Some(EINVAL),
        1 <= most <= 64 && process is None ==> wait_refused(set, most, process, in_range) == Some(
            ENOSYS,
        ),
        1 <= most <= 64 && process is Some && set >= 0x1_0000_0000 ==> wait_refused(
            set,
            most,
            process,
            in_range,
        ) == Some(EBADF),
        1 <= most <= 64 && process is Some && set < 0x1_0000_0000 && !in_range ==> wait_refused(
            set,
            most,
            process,
            in_range,
        ) == Some(EFAULT),
{
}

/// A closed descriptor goes out of every set, and as a set; nothing else is
/// forgotten.
pub proof fn law_closing_forgets_nothing_else(
    sets: Map<u64, Map<u64, Interest>>,
    descriptor: u64,
    set: u64,
    other: u64,
)
    requires
        set != descriptor,
        other != descriptor,
    ensures
        without(sets, descriptor).dom().contains(set) <==> sets.dom().contains(set),
        sets.dom().contains(set) ==> {
            &&& without(sets, descriptor)[set].dom().contains(other) <==> sets[set].dom().contains(
                other,
            )
            &&& sets[set].dom().contains(other) ==> without(sets, descriptor)[set][other]
                == sets[set][other]
        },
{
}

/// A set that is put in place is that process's, holds what was put into it, and
/// leaves every other set of every process alone.
pub proof fn law_a_set_is_one_process_s(
    before: Model,
    process: u64,
    set: u64,
    interests: Map<u64, Interest>,
    owner: u64,
    other: u64,
)
    requires
        owner != process || other != set,
    ensures
        ({
            let after = before.with(process, set, interests);
            &&& after.has(process, set)
            &&& after.owned(process)[set] == interests
            &&& after.has(owner, other) <==> before.has(owner, other)
            &&& before.has(owner, other) ==> after.owned(owner)[other] == before.owned(owner)[other]
            &&& after.waited == before.waited
            &&& after.immediate == before.immediate
        }),
{
}

} // verus!
