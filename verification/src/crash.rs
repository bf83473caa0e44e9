//! Crash reports: what ended, why, and somewhere it survives.
//!
//! A report is made where nothing may block, so it goes into one of a fixed
//! number of slots; an ordinary thread later takes what is there and writes it
//! out. The next boot reads the reports back.
use vstd::prelude::*;

use crate::bytes::{copy_range, put_bytes};
use crate::count::{count, counted};
use crate::text::{is_utf8, put_decimal};
#[allow(unused_imports)]
use crate::text::digits;

verus! {

/// How many reports are held before they are written out.
pub const PENDING: usize = 8;

/// The most of a process's name that is kept.
pub const NAME: usize = 32;

/// The most of what ended it that is kept.
pub const WHAT: usize = 48;

/// How many reports of earlier boots are shown.
pub const SHOWN: usize = 4;

/// `crash`: the directory reports are kept in.
pub const DIRECTORY: [u8; 5] = [0x63, 0x72, 0x61, 0x73, 0x68];

/// One report.
#[derive(Debug)]
pub struct Report {
    pub process: u64,
    /// The name, as far as there is room for it.
    pub name: Vec<u8>,
    /// What ended it, as far as there is room for it.
    pub what: Vec<u8>,
    pub ticks: u64,
}

/// The same, as a value.
#[verifier::ext_equal]
pub struct ReportModel {
    pub process: u64,
    pub name: Seq<u8>,
    pub what: Seq<u8>,
    pub ticks: u64,
}

impl View for Report {
    type V = ReportModel;

    open spec fn view(&self) -> ReportModel {
        ReportModel {
            process: self.process,
            name: self.name@,
            what: self.what@,
            ticks: self.ticks,
        }
    }
}

/// What is waiting to be written, and the counts.
pub struct State {
    slots: Vec<Option<Report>>,
    recorded: u64,
    written: u64,
    dropped: u64,
}

/// The same, as a value.
#[verifier::ext_equal]
pub struct Model {
    pub slots: Seq<Option<ReportModel>>,
    /// Faults recorded.
    pub recorded: u64,
    /// Reports written.
    pub written: u64,
    /// Reports dropped for want of room.
    pub dropped: u64,
}

/// A slot, as a value.
pub open spec fn slot_view(slot: Option<Report>) -> Option<ReportModel> {
    match slot {
        Some(report) => Some(report@),
        None => None,
    }
}

impl View for State {
    type V = Model;

    closed spec fn view(&self) -> Model {
        Model {
            slots: Seq::new(self.slots@.len(), |i: int| slot_view(self.slots@[i])),
            recorded: self.recorded,
            written: self.written,
            dropped: self.dropped,
        }
    }
}

/// Slots that hold nothing.
pub open spec fn empty() -> Seq<Option<ReportModel>> {
    Seq::new(PENDING as nat, |i: int| None)
}

/// Where the first slot that holds nothing is, from a place on; as many as there
/// are where all hold something.
pub open spec fn first_free(slots: Seq<Option<ReportModel>>, from: int) -> int
    decreases slots.len() - from,
{
    if from >= slots.len() || slots[from] is None {
        from
    } else {
        first_free(slots, from + 1)
    }
}

/// The reports in the slots from a place on, in order.
pub open spec fn held(slots: Seq<Option<ReportModel>>, from: int) -> Seq<ReportModel>
    decreases slots.len() - from,
{
    if from >= slots.len() {
        Seq::empty()
    } else {
        match slots[from] {
            Some(report) => seq![report] + held(slots, from + 1),
            None => held(slots, from + 1),
        }
    }
}

/// As much of a text as there is room for.
pub open spec fn kept(text: Seq<u8>, room: usize) -> Seq<u8> {
    if text.len() <= room {
        text
    } else {
        text.take(room as int)
    }
}

fn keep(text: &[u8], room: usize) -> (part: Vec<u8>)
    ensures
        part@ == kept(text@, room),
{
    let most: usize = if text.len() <= room {
        text.len()
    } else {
        room
    };
    let part = copy_range(text, 0, most);
    assert(part@ =~= kept(text@, room));
    part
}

impl State {
    /// As many slots as there are.
    pub closed spec fn wf(&self) -> bool {
        self.slots@.len() == PENDING
    }

    /// Nothing waiting.
    pub fn new() -> (state: Self)
        ensures
            state.wf(),
            state@ == (Model { slots: empty(), recorded: 0, written: 0, dropped: 0 }),
    {
        let state = State { slots: empty_slots(), recorded: 0, written: 0, dropped: 0 };
        assert(state@.slots =~= empty());
        state
    }
}

fn empty_slots() -> (slots: Vec<Option<Report>>)
    ensures
        slots@.len() == PENDING,
        forall|i: int| 0 <= i < PENDING ==> #[trigger] slots@[i] is None,
{
    let mut slots: Vec<Option<Report>> = Vec::new();
    while slots.len() < PENDING
        invariant
            slots@.len() <= PENDING,
            forall|i: int| 0 <= i < slots@.len() ==> #[trigger] slots@[i] is None,
        decreases PENDING - slots@.len(),
    {
        slots.push(None);
    }
    slots
}

/// Note that a process was ended by a fault, in the first slot that is free.
pub fn record(state: &mut State, process: u64, name: &[u8], what: &[u8], ticks: u64)
    requires
        old(state).wf(),
    ensures
        final(state).wf(),
        ({
            let at = first_free(old(state)@.slots, 0);
            final(state)@ == if at >= PENDING {
                Model { dropped: counted(old(state)@.dropped, 1), ..old(state)@ }
            } else {
                Model {
                    slots: old(state)@.slots.update(
                        at,
                        Some(
                            ReportModel {
                                process,
                                name: kept(name@, NAME),
                                what: kept(what@, WHAT),
                                ticks,
                            },
                        ),
                    ),
                    recorded: counted(old(state)@.recorded, 1),
                    ..old(state)@
                }
            }
        }),
{
    let mut at: usize = 0;
    let mut searching: bool = true;
    while searching && at < state.slots.len()
        invariant
            state.wf(),
            state@ == old(state)@,
            at <= PENDING,
            first_free(state@.slots, 0) == first_free(state@.slots, at as int),
            !searching ==> at < PENDING && state@.slots[at as int] is None,
        decreases PENDING - at + if searching {
            1int
        } else {
            0
        },
    {
        assert(state@.slots[at as int] == slot_view(state.slots@[at as int]));
        if state.slots[at].is_none() {
            searching = false;
        } else {
            at += 1;
        }
    }
    if at >= PENDING {
        state.dropped = count(state.dropped, 1);
        assert(state@.slots =~= old(state)@.slots);
        return;
    }
    let report = Report { process, name: keep(name, NAME), what: keep(what, WHAT), ticks };
    let ghost model = report@;
    state.slots.set(at, Some(report));
    state.recorded = count(state.recorded, 1);
    assert(state@.slots =~= old(state)@.slots.update(at as int, Some(model)));
}

/// Take whatever is waiting, to be written with nothing held; [`written`] counts
/// it.
pub fn flush(state: &mut State) -> (taken: Vec<Report>)
    requires
        old(state).wf(),
    ensures
        final(state).wf(),
        taken@.map_values(|report: Report| report@) == held(old(state)@.slots, 0),
        final(state)@ == (Model { slots: empty(), ..old(state)@ }),
{
    let ghost slots = state@.slots;
    let mut taken: Vec<Report> = Vec::new();
    let mut at: usize = 0;
    assert(taken@.map_values(|report: Report| report@) =~= Seq::empty());
    assert(Seq::<ReportModel>::empty() + held(slots, 0) =~= held(slots, 0));
    while at < PENDING
        invariant
            at <= PENDING,
            state.wf(),
            slots.len() == PENDING,
            state@ == (Model { slots: state@.slots, ..old(state)@ }),
            forall|i: int| 0 <= i < at ==> #[trigger] state.slots@[i] is None,
            forall|i: int|
                at <= i < PENDING ==> slot_view(#[trigger] state.slots@[i]) == slots[i],
            held(slots, 0) == taken@.map_values(|report: Report| report@) + held(slots, at as int),
        decreases PENDING - at,
    {
        let ghost before = taken@.map_values(|report: Report| report@);
        let mut slot: Option<Report> = None;
        assert(slot_view(state.slots@[at as int]) == slots[at as int]);
        std::mem::swap(&mut slot, &mut state.slots[at]);
        match slot {
            Some(report) => {
                let ghost model = report@;
                taken.push(report);
                assert(taken@.map_values(|report: Report| report@) =~= before.push(model));
                assert(before + (seq![model] + held(slots, at + 1)) =~= before.push(model) + held(
                    slots,
                    at + 1,
                ));
            },
            None => {},
        }
        at += 1;
    }
    assert(state@.slots =~= empty());
    assert(taken@.map_values(|report: Report| report@) + Seq::<ReportModel>::empty()
        =~= taken@.map_values(|report: Report| report@));
    taken
}

/// How many of the first are true.
pub open spec fn trues(outcomes: Seq<bool>) -> nat
    decreases outcomes.len(),
{
    if outcomes.len() == 0 {
        0
    } else {
        trues(outcomes.drop_last()) + if outcomes.last() {
            1nat
        } else {
            0
        }
    }
}

/// Count the reports that reached the filesystem, and give how many.
pub fn written(state: &mut State, outcomes: &[bool]) -> (many: usize)
    requires
        old(state).wf(),
    ensures
        final(state).wf(),
        many == trues(outcomes@),
        final(state)@ == (Model {
            written: counted(old(state)@.written, many as u64),
            ..old(state)@
        }),
{
    let mut many: usize = 0;
    let mut at: usize = 0;
    assert(outcomes@.take(0) =~= Seq::empty());
    while at < outcomes.len()
        invariant
            at <= outcomes@.len(),
            many <= at,
            many == trues(outcomes@.take(at as int)),
        decreases outcomes@.len() - at,
    {
        assert(outcomes@.take(at + 1).drop_last() =~= outcomes@.take(at as int));
        if outcomes[at] {
            many += 1;
        }
        at += 1;
    }
    assert(outcomes@.take(at as int) =~= outcomes@);
    state.written = count(state.written, many as u64);
    assert(state@.slots =~= old(state)@.slots);
    many
}

/// A text, or a question mark where it is not one.
pub open spec fn readable(text: Seq<u8>) -> Seq<u8> {
    if vstd::utf8::valid_utf8(text) {
        text
    } else {
        seq![0x3Fu8]
    }
}

/// `process `.
pub const PROCESS: [u8; 8] = [0x70, 0x72, 0x6F, 0x63, 0x65, 0x73, 0x73, 0x20];

/// A newline and `ended by `.
pub const ENDED: [u8; 10] = [0x0A, 0x65, 0x6E, 0x64, 0x65, 0x64, 0x20, 0x62, 0x79, 0x20];

/// A newline and `at `.
pub const AT: [u8; 4] = [0x0A, 0x61, 0x74, 0x20];

/// ` ticks` and a newline.
pub const TICKS: [u8; 7] = [0x20, 0x74, 0x69, 0x63, 0x6B, 0x73, 0x0A];

/// `.txt`.
pub const SUFFIX: [u8; 4] = [0x2E, 0x74, 0x78, 0x74];

/// What is written of a report: three lines, which say what ended, what ended it
/// and when.
pub open spec fn body(report: ReportModel) -> Seq<u8> {
    PROCESS@ + digits(report.process as nat) + seq![0x20u8, 0x22u8] + readable(report.name) + seq![
        0x22u8,
    ] + ENDED@ + readable(report.what) + AT@ + digits(report.ticks as nat) + TICKS@
}

fn put_readable(out: &mut Vec<u8>, text: &[u8])
    ensures
        final(out)@ == old(out)@ + readable(text@),
{
    if is_utf8(text) {
        put_bytes(out, text);
    } else {
        out.push(0x3F);
        assert(out@ =~= old(out)@ + readable(text@));
    }
}

/// What is written of a report.
pub fn contents(report: &Report) -> (text: Vec<u8>)
    ensures
        text@ == body(report@),
{
    let mut text: Vec<u8> = Vec::new();
    put_bytes(&mut text, &PROCESS);
    put_decimal(&mut text, report.process);
    text.push(0x20);
    text.push(0x22);
    put_readable(&mut text, report.name.as_slice());
    text.push(0x22);
    put_bytes(&mut text, &ENDED);
    put_readable(&mut text, report.what.as_slice());
    put_bytes(&mut text, &AT);
    put_decimal(&mut text, report.ticks);
    put_bytes(&mut text, &TICKS);
    assert(text@ =~= body(report@));
    text
}

/// The name of the file a report is written to.
pub fn file_name(report: &Report) -> (name: Vec<u8>)
    ensures
        name@ == digits(report.process as nat) + SUFFIX@,
{
    let mut name: Vec<u8> = Vec::new();
    put_decimal(&mut name, report.process);
    put_bytes(&mut name, &SUFFIX);
    assert(name@ =~= digits(report.process as nat) + SUFFIX@);
    name
}

/// What previous boots left behind: how many of so many reports to show. A
/// machine that never crashed has nothing to say.
pub fn report_previous(entries: Option<usize>) -> (show: Option<usize>)
    ensures
        show == match entries {
            None => None,
            Some(0) => None,
            Some(many) => if many < SHOWN {
                Some(many)
            } else {
                Some(SHOWN)
            },
        },
{
    match entries {
        None => None,
        Some(many) => if many == 0 {
            None
        } else if many < SHOWN {
            Some(many)
        } else {
            Some(SHOWN)
        },
    }
}

/// Where a line ends, from a place on: at a newline, or at the end.
pub open spec fn line_end(text: Seq<u8>, from: int) -> int
    decreases text.len() - from,
{
    if from >= text.len() || text[from] == 0x0A {
        from
    } else {
        line_end(text, from + 1)
    }
}

/// A line of a text that starts at a place, and nothing where there is no such
/// line. A carriage return before the newline is part of the ending.
pub open spec fn line_at(text: Seq<u8>, from: int, index: nat) -> Seq<u8>
    decreases index,
{
    if from >= text.len() {
        Seq::empty()
    } else {
        let end = line_end(text, from);
        if index > 0 {
            line_at(text, end + 1, (index - 1) as nat)
        } else if end < text.len() && end > from && text[end - 1] == 0x0D {
            text.subrange(from, end - 1)
        } else {
            text.subrange(from, end)
        }
    }
}

fn end_of_line(text: &[u8], from: usize) -> (end: usize)
    requires
        from <= text@.len(),
    ensures
        end == line_end(text@, from as int),
        from <= end <= text@.len(),
{
    let mut end: usize = from;
    while end < text.len() && text[end] != 0x0A
        invariant
            from <= end <= text@.len(),
            line_end(text@, from as int) == line_end(text@, end as int),
        decreases text@.len() - end,
    {
        end += 1;
    }
    end
}

fn line(text: &[u8], start: usize, end: usize) -> (out: Vec<u8>)
    requires
        start <= end <= text@.len(),
        end == line_end(text@, start as int),
    ensures
        out@ == line_at(text@, start as int, 0),
{
    if start >= text.len() {
        return Vec::new();
    }
    if end < text.len() && end > start && text[end - 1] == 0x0D {
        copy_range(text, start, end - 1)
    } else {
        copy_range(text, start, end)
    }
}

/// The first two lines of a report, for the log.
pub fn first_lines(text: &[u8]) -> (lines: (Vec<u8>, Vec<u8>))
    ensures
        lines.0@ == line_at(text@, 0, 0),
        lines.1@ == line_at(text@, 0, 1),
{
    let end: usize = end_of_line(text, 0);
    let first = line(text, 0, end);
    if end >= text.len() {
        assert(line_at(text@, end + 1, 0) =~= Seq::empty());
        return (first, Vec::new());
    }
    let start: usize = end + 1;
    let second = line(text, start, end_of_line(text, start));
    (first, second)
}

/// Where a path's first name ends.
pub open spec fn first_slash(path: Seq<u8>, from: int) -> int
    decreases path.len() - from,
{
    if from >= path.len() || path[from] == 0x2F {
        from
    } else {
        first_slash(path, from + 1)
    }
}

/// The directory and the name of a path to a report.
pub fn split(path: &[u8]) -> (parts: Option<(Vec<u8>, Vec<u8>)>)
    ensures
        ({
            let at = first_slash(path@, 0);
            match parts {
                None => at >= path@.len(),
                Some((directory, name)) => at < path@.len() && directory@ == path@.take(at)
                    && name@ == path@.skip(at + 1),
            }
        }),
{
    let mut at: usize = 0;
    while at < path.len() && path[at] != 0x2F
        invariant
            at <= path@.len(),
            first_slash(path@, 0) == first_slash(path@, at as int),
        decreases path@.len() - at,
    {
        at += 1;
    }
    if at >= path.len() {
        return None;
    }
    let directory = copy_range(path, 0, at);
    let name = copy_range(path, at + 1, path.len());
    assert(directory@ =~= path@.take(at as int));
    assert(name@ =~= path@.skip(at + 1));
    Some((directory, name))
}

/// Read one report back: what the file holds, if that is text.
pub fn read(bytes: Option<Vec<u8>>) -> (text: Option<Vec<u8>>)
    ensures
        text == match bytes {
            Some(bytes) => if vstd::utf8::valid_utf8(bytes@) {
                Some(bytes)
            } else {
                None
            },
            None => None,
        },
{
    match bytes {
        Some(bytes) => if is_utf8(bytes.as_slice()) {
            Some(bytes)
        } else {
            None
        },
        None => None,
    }
}

/// Faults recorded, reports written, and reports dropped for want of room.
pub fn statistics(state: &State) -> (counts: (u64, u64, u64))
    ensures
        counts == (state@.recorded, state@.written, state@.dropped),
{
    (state.recorded, state.written, state.dropped)
}

proof fn lemma_held_update(
    slots: Seq<Option<ReportModel>>,
    at: int,
    report: ReportModel,
    from: int,
)
    requires
        0 <= from <= at < slots.len(),
        slots[at] is None,
    ensures
        held(slots.update(at, Some(report)), from).len() == held(slots, from).len() + 1,
        held(slots.update(at, Some(report)), from).contains(report),
    decreases slots.len() - from,
{
    let after = slots.update(at, Some(report));
    if from == at {
        lemma_held_same(slots, after, from + 1);
        assert(held(after, from)[0] == report);
    } else {
        lemma_held_update(slots, at, report, from + 1);
        let rest = held(after, from + 1);
        let i = choose|i: int| 0 <= i < rest.len() && rest[i] == report;
        match after[from] {
            Some(first) => {
                assert((seq![first] + rest)[i + 1] == report);
            },
            None => {},
        }
    }
}

proof fn lemma_held_same(
    left: Seq<Option<ReportModel>>,
    right: Seq<Option<ReportModel>>,
    from: int,
)
    requires
        0 <= from,
        left.len() == right.len(),
        forall|i: int| from <= i < left.len() ==> left[i] == right[i],
    ensures
        held(left, from) == held(right, from),
    decreases left.len() - from,
{
    if from < left.len() {
        lemma_held_same(left, right, from + 1);
    }
}

proof fn lemma_first_free(slots: Seq<Option<ReportModel>>, from: int)
    requires
        0 <= from <= slots.len(),
    ensures
        from <= first_free(slots, from) <= slots.len(),
        first_free(slots, from) < slots.len() ==> slots[first_free(slots, from)] is None,
        forall|i: int| from <= i < first_free(slots, from) ==> slots[i] is Some,
    decreases slots.len() - from,
{
    if from < slots.len() && slots[from] is Some {
        lemma_first_free(slots, from + 1);
    }
}

/// A report that was recorded is among those that the next flush takes, and
/// takes the place of none.
pub proof fn law_a_report_waits_for_the_flush(
    slots: Seq<Option<ReportModel>>,
    report: ReportModel,
)
    requires
        first_free(slots, 0) < slots.len(),
    ensures
        ({
            let after = slots.update(first_free(slots, 0), Some(report));
            &&& held(after, 0).contains(report)
            &&& held(after, 0).len() == held(slots, 0).len() + 1
        }),
{
    lemma_first_free(slots, 0);
    lemma_held_update(slots, first_free(slots, 0), report, 0);
}

proof fn lemma_all_held(slots: Seq<Option<ReportModel>>, from: int)
    requires
        0 <= from <= slots.len(),
        forall|i: int| from <= i < slots.len() ==> slots[i] is Some,
    ensures
        held(slots, from).len() == slots.len() - from,
    decreases slots.len() - from,
{
    if from < slots.len() {
        lemma_all_held(slots, from + 1);
    }
}

/// A report is dropped only when as many as there is room for are waiting.
pub proof fn law_reports_are_dropped_only_when_full(slots: Seq<Option<ReportModel>>)
    requires
        slots.len() == PENDING,
        first_free(slots, 0) >= PENDING,
    ensures
        held(slots, 0).len() == PENDING,
{
    lemma_first_free(slots, 0);
    lemma_all_held(slots, 0);
}

proof fn lemma_line_end(text: Seq<u8>, from: int)
    requires
        0 <= from <= text.len(),
    ensures
        from <= line_end(text, from) <= text.len(),
        line_end(text, from) < text.len() ==> text[line_end(text, from)] == 0x0A,
    decreases text.len() - from,
{
    if from < text.len() && text[from] != 0x0A {
        lemma_line_end(text, from + 1);
    }
}

/// A line holds no newline.
pub proof fn law_lines_hold_no_newline(text: Seq<u8>, index: nat)
    ensures
        !line_at(text, 0, index).contains(0x0A),
{
    lemma_line(text, 0, index);
}

proof fn lemma_line(text: Seq<u8>, from: int, index: nat)
    requires
        0 <= from,
    ensures
        !line_at(text, from, index).contains(0x0A),
    decreases index,
{
    if from < text.len() {
        lemma_line_end(text, from);
        if index > 0 {
            lemma_line(text, line_end(text, from) + 1, (index - 1) as nat);
        } else {
            let out = line_at(text, from, 0);
            assert forall|i: int| 0 <= i < out.len() implies out[i] != 0x0A by {
                lemma_before_end(text, from, from + i);
            }
        }
    }
}

proof fn lemma_before_end(text: Seq<u8>, from: int, at: int)
    requires
        0 <= from <= at < line_end(text, from),
        from <= text.len(),
    ensures
        at < text.len(),
        text[at] != 0x0A,
    decreases text.len() - from,
{
    lemma_line_end(text, from);
    if at > from {
        lemma_before_end(text, from + 1, at);
    }
}

/// How much is kept: eight reports at a time, the first 32 bytes of a name and the
/// first 48 of what happened.
pub proof fn law_how_much_is_kept(text: Seq<u8>, room: usize)
    ensures
        PENDING == 8,
        NAME == 32,
        WHAT == 48,
        SHOWN == 4,
        text.len() <= room ==> kept(text, room) == text,
        text.len() > room ==> kept(text, room).len() == room && kept(text, room) == text.take(
            room as int,
        ),
        empty().len() == 8,
        forall|i: int| 0 <= i < 8 ==> #[trigger] empty()[i] is None,
{
}

/// A report goes into the first free place: every one before it is taken.
pub proof fn law_the_first_free_place(slots: Seq<Option<ReportModel>>)
    ensures
        0 <= first_free(slots, 0) <= slots.len(),
        first_free(slots, 0) < slots.len() ==> slots[first_free(slots, 0)] is None,
        forall|i: int| 0 <= i < first_free(slots, 0) ==> #[trigger] slots[i] is Some,
{
    lemma_first_free(slots, 0);
}

/// What is taken out comes in the order of its places, with the free ones left out.
pub proof fn law_reports_come_in_order(slots: Seq<Option<ReportModel>>, last: Option<ReportModel>)
    ensures
        held(Seq::empty(), 0) == Seq::<ReportModel>::empty(),
        last is None ==> held(slots.push(last), 0) == held(slots, 0),
        last matches Some(report) ==> held(slots.push(last), 0) == held(slots, 0).push(report),
{
    lemma_held_pushed(slots, last, 0);
}

proof fn lemma_held_pushed(
    slots: Seq<Option<ReportModel>>,
    last: Option<ReportModel>,
    from: int,
)
    requires
        0 <= from <= slots.len(),
    ensures
        last is None ==> held(slots.push(last), from) == held(slots, from),
        last matches Some(report) ==> held(slots.push(last), from) == held(slots, from).push(
            report,
        ),
    decreases slots.len() - from,
{
    reveal_with_fuel(held, 2);
    if from < slots.len() {
        lemma_held_pushed(slots, last, from + 1);
        assert(slots.push(last)[from] == slots[from]);
        if let (Some(first), Some(report)) = (slots[from], last) {
            assert(seq![first] + held(slots, from + 1).push(report) =~= (seq![first] + held(
                slots,
                from + 1,
            )).push(report));
        }
    } else if let Some(report) = last {
        assert(seq![report] + Seq::<ReportModel>::empty() =~= Seq::<ReportModel>::empty().push(
            report,
        ));
    }
}

/// Each outcome that is true counts once.
pub proof fn law_what_was_written_counts(outcomes: Seq<bool>)
    ensures
        trues(Seq::empty()) == 0,
        trues(outcomes.push(true)) == trues(outcomes) + 1,
        trues(outcomes.push(false)) == trues(outcomes),
{
    assert(outcomes.push(true).drop_last() =~= outcomes);
    assert(outcomes.push(false).drop_last() =~= outcomes);
}

/// What a report reads like: `process 7 "shell"`, then `ended by` and what ended it,
/// then `at` and the time in `ticks`, each on a line of its own. What is no text is
/// shown as a question mark.
pub proof fn law_what_a_report_reads_like(report: ReportModel, text: Seq<u8>)
    ensures
        body(report) == seq![0x70u8, 0x72, 0x6F, 0x63, 0x65, 0x73, 0x73, 0x20] + digits(
            report.process as nat,
        ) + seq![0x20u8, 0x22] + readable(report.name) + seq![0x22u8] + seq![
            0x0Au8, 0x65, 0x6E, 0x64, 0x65, 0x64, 0x20, 0x62, 0x79, 0x20,
        ] + readable(report.what) + seq![0x0Au8, 0x61, 0x74, 0x20] + digits(report.ticks as nat)
            + seq![0x20u8, 0x74, 0x69, 0x63, 0x6B, 0x73, 0x0A],
        SUFFIX@ == seq![0x2Eu8, 0x74, 0x78, 0x74],
        DIRECTORY@ == seq![0x63u8, 0x72, 0x61, 0x73, 0x68],
        vstd::utf8::valid_utf8(text) ==> readable(text) == text,
        !vstd::utf8::valid_utf8(text) ==> readable(text) == seq![0x3Fu8],
{
    assert(PROCESS@ =~= seq![0x70u8, 0x72, 0x6F, 0x63, 0x65, 0x73, 0x73, 0x20]);
    assert(ENDED@ =~= seq![0x0Au8, 0x65, 0x6E, 0x64, 0x65, 0x64, 0x20, 0x62, 0x79, 0x20]);
    assert(AT@ =~= seq![0x0Au8, 0x61, 0x74, 0x20]);
    assert(TICKS@ =~= seq![0x20u8, 0x74, 0x69, 0x63, 0x6B, 0x73, 0x0A]);
    assert(SUFFIX@ =~= seq![0x2Eu8, 0x74, 0x78, 0x74]);
    assert(DIRECTORY@ =~= seq![0x63u8, 0x72, 0x61, 0x73, 0x68]);
}

/// A line goes up to its newline or to the end of the text. A carriage return in front
/// of the newline does not belong to it, and the next line starts behind the newline.
pub proof fn law_a_line_ends_at_its_newline(line: Seq<u8>, rest: Seq<u8>, index: nat)
    requires
        !line.contains(0x0A),
    ensures
        line_at(line, 0, 0) == line,
        line.len() > 0 && line.last() == 0x0D ==> line_at(line.push(0x0A) + rest, 0, 0)
            == line.drop_last(),
        line.len() == 0 || line.last() != 0x0D ==> line_at(line.push(0x0A) + rest, 0, 0) == line,
        line_at(line.push(0x0A) + rest, 0, index + 1) == line_at(rest, 0, index),
        line_at(line, 0, index + 1) == Seq::<u8>::empty(),
{
    let text = line.push(0x0A) + rest;
    lemma_end_found(line, 0, line.len() as int);
    lemma_end_found(text, 0, line.len() as int);
    assert(line.subrange(0, line.len() as int) =~= line);
    assert(text.subrange(0, line.len() as int) =~= line);
    if line.len() > 0 {
        assert(text.subrange(0, line.len() - 1) =~= line.drop_last());
    }
    assert(text.skip((line.len() + 1) as int) =~= rest);
    lemma_lines_behind(text, (line.len() + 1) as int, 0, index);
    reveal_with_fuel(line_at, 2);
}

proof fn lemma_end_found(text: Seq<u8>, from: int, end: int)
    requires
        0 <= from <= end <= text.len(),
        forall|i: int| from <= i < end ==> text[i] != 0x0A,
        end == text.len() || text[end] == 0x0A,
    ensures
        line_end(text, from) == end,
    decreases end - from,
{
    if from < end {
        lemma_end_found(text, from + 1, end);
    }
}

proof fn lemma_lines_behind(text: Seq<u8>, start: int, from: int, index: nat)
    requires
        0 <= start <= text.len(),
        0 <= from,
    ensures
        line_at(text, start + from, index) == line_at(text.skip(start), from, index),
    decreases index,
{
    let rest = text.skip(start);
    if start + from < text.len() {
        lemma_end_behind(text, start, from);
        let end = line_end(rest, from);
        lemma_line_end(rest, from);
        if index > 0 {
            lemma_lines_behind(text, start, end + 1, (index - 1) as nat);
        } else {
            assert(rest.subrange(from, end) =~= text.subrange(start + from, start + end));
            if end > from {
                assert(rest.subrange(from, end - 1) =~= text.subrange(
                    start + from,
                    start + end - 1,
                ));
            }
        }
    }
}

proof fn lemma_end_behind(text: Seq<u8>, start: int, from: int)
    requires
        0 <= start,
        0 <= from,
        start + from <= text.len(),
    ensures
        line_end(text, start + from) == start + line_end(text.skip(start), from),
    decreases text.len() - start - from,
{
    if start + from < text.len() && text[start + from] != 0x0A {
        lemma_end_behind(text, start, from + 1);
    }
}

/// A path is split at its first slash.
pub proof fn law_the_first_slash(path: Seq<u8>)
    ensures
        0 <= first_slash(path, 0) <= path.len(),
        first_slash(path, 0) < path.len() ==> path[first_slash(path, 0)] == 0x2F,
        !path.take(first_slash(path, 0)).contains(0x2F),
{
    lemma_first_slash(path, 0);
}

proof fn lemma_first_slash(path: Seq<u8>, from: int)
    requires
        0 <= from <= path.len(),
    ensures
        from <= first_slash(path, from) <= path.len(),
        first_slash(path, from) < path.len() ==> path[first_slash(path, from)] == 0x2F,
        forall|i: int| from <= i < first_slash(path, from) ==> path[i] != 0x2F,
    decreases path.len() - from,
{
    if from < path.len() && path[from] != 0x2F {
        lemma_first_slash(path, from + 1);
    }
}

} // verus!
