//! What the status panel says.
//!
//! Which figures are shown, in which order, and in which unit. Every word is the
//! key of a translated text, and every figure is an argument of one.
use vstd::prelude::*;

use crate::bytes::copy_bytes;
use crate::text::put_three_digits;
#[allow(unused_imports)]
use crate::text::three_digits;

verus! {

/// What the machine is at the moment.
#[derive(Debug)]
pub struct Figures {
    pub uptime_ms: u64,
    /// Free and managed frames of memory, once there is an allocator.
    pub frames: Option<(u64, u64)>,
    pub heap_used: u64,
    pub heap_total: u64,
    pub threads: u64,
    pub running: u64,
    pub ready: u64,
    pub sleeping: u64,
    pub processors: u64,
    pub switches: u64,
    pub timer_hz: u64,
    pub timer_ticks: u64,
    pub timer: TimerSource,
    /// Total and free bytes of the filesystem, if there is one.
    pub storage: Option<(u64, u64)>,
    /// What the language calls itself.
    pub language: Vec<u8>,
    /// What has been typed.
    pub typed: Vec<u8>,
}

/// What drives the timer.
#[derive(Debug, Clone, Copy, PartialEq, Eq, Structural)]
pub enum TimerSource {
    LocalApic,
    Pit,
    Nothing,
}

/// A figure in a text.
#[derive(Debug)]
pub enum Figure {
    Number(u64),
    Words(Vec<u8>),
}

/// A figure, as a value.
pub enum FigureModel {
    Number(u64),
    Words(Seq<u8>),
}

impl View for Figure {
    type V = FigureModel;

    open spec fn view(&self) -> FigureModel {
        match self {
            Figure::Number(number) => FigureModel::Number(*number),
            Figure::Words(words) => FigureModel::Words(words@),
        }
    }
}

/// A figure and the name it goes by in a text.
#[derive(Debug)]
pub struct Argument {
    pub name: &'static str,
    pub figure: Figure,
}

impl View for Argument {
    type V = (Seq<char>, FigureModel);

    open spec fn view(&self) -> (Seq<char>, FigureModel) {
        (self.name@, self.figure@)
    }
}

/// What a row says.
#[derive(Debug)]
pub enum Value {
    /// A translated text.
    Text(&'static str),
    /// A translated text with figures in it.
    Format(&'static str, Vec<Argument>),
    /// Just this.
    Literal(Vec<u8>),
}

/// The same, as a value.
pub enum ValueModel {
    Text(Seq<char>),
    Format(Seq<char>, Seq<(Seq<char>, FigureModel)>),
    Literal(Seq<u8>),
}

impl View for Value {
    type V = ValueModel;

    open spec fn view(&self) -> ValueModel {
        match self {
            Value::Text(key) => ValueModel::Text(key@),
            Value::Format(key, arguments) => ValueModel::Format(
                key@,
                Seq::new(arguments@.len(), |i: int| arguments@[i]@),
            ),
            Value::Literal(words) => ValueModel::Literal(words@),
        }
    }
}

/// One row: the key of its label, and what it says.
#[derive(Debug)]
pub struct StatusRow {
    pub label: &'static str,
    pub value: Value,
}

impl View for StatusRow {
    type V = (Seq<char>, ValueModel);

    open spec fn view(&self) -> (Seq<char>, ValueModel) {
        (self.label@, self.value@)
    }
}

/// Rows, as values.
pub open spec fn rows_view(rows: Seq<StatusRow>) -> Seq<(Seq<char>, ValueModel)> {
    Seq::new(rows.len(), |i: int| rows[i]@)
}

/// A named number.
pub open spec fn number(name: Seq<char>, value: int) -> (Seq<char>, FigureModel) {
    (name, FigureModel::Number(value as u64))
}

/// Frames, as megabytes.
pub open spec fn frames_mb(frames: u64) -> int {
    frames * 4096 / 1_048_576
}

/// What drives the timer, as it is shown.
pub open spec fn source_name(source: TimerSource) -> Seq<u8> {
    match source {
        TimerSource::LocalApic => seq![0x41u8, 0x50u8, 0x49u8, 0x43u8],
        TimerSource::Pit => seq![0x50u8, 0x49u8, 0x54u8],
        TimerSource::Nothing => seq![0x2Du8],
    }
}

/// What the panel says of the memory.
pub open spec fn memory_value(figures: Figures) -> ValueModel {
    match figures.frames {
        Some((free, managed)) => ValueModel::Format(
            "value.memory"@,
            seq![number("free"@, frames_mb(free)), number("total"@, frames_mb(managed))],
        ),
        None => ValueModel::Text("value.unavailable"@),
    }
}

/// What the panel says of the filesystem.
pub open spec fn storage_value(figures: Figures) -> ValueModel {
    match figures.storage {
        Some((total, free)) => ValueModel::Format(
            "value.storage"@,
            seq![
                number("free"@, free as int / 1_048_576),
                number("total"@, total as int / 1_048_576),
            ],
        ),
        None => ValueModel::Text("value.unavailable"@),
    }
}

/// What the panel says of what was typed.
pub open spec fn input_value(figures: Figures) -> ValueModel {
    if figures.typed@.len() == 0 {
        ValueModel::Text("value.input_empty"@)
    } else {
        ValueModel::Format("value.input"@, seq![("text"@, FigureModel::Words(figures.typed@))])
    }
}

/// What the panel says: ten rows, in this order.
pub open spec fn panel(figures: Figures) -> Seq<(Seq<char>, ValueModel)> {
    seq![
        (
            "status.uptime"@,
            ValueModel::Format(
                "value.uptime"@,
                seq![
                    number("seconds"@, figures.uptime_ms as int / 1000),
                    (
                        "millis"@,
                        FigureModel::Words(three_digits((figures.uptime_ms % 1000) as nat)),
                    ),
                ],
            ),
        ),
        ("status.memory"@, memory_value(figures)),
        (
            "status.heap"@,
            ValueModel::Format(
                "value.heap"@,
                seq![
                    number("used"@, figures.heap_used as int / 1024),
                    number("total"@, figures.heap_total as int / 1024),
                ],
            ),
        ),
        (
            "status.threads"@,
            ValueModel::Format(
                "value.threads"@,
                seq![
                    number("total"@, figures.threads as int),
                    number("running"@, figures.running as int),
                    number("ready"@, figures.ready as int),
                    number("sleeping"@, figures.sleeping as int),
                ],
            ),
        ),
        (
            "status.processors"@,
            ValueModel::Format(
                "value.processors"@,
                seq![number("online"@, figures.processors as int)],
            ),
        ),
        (
            "status.switches"@,
            ValueModel::Format(
                "value.switches"@,
                seq![number("count"@, figures.switches as int)],
            ),
        ),
        (
            "status.timer"@,
            ValueModel::Format(
                "value.timer"@,
                seq![
                    number("hz"@, figures.timer_hz as int),
                    number("ticks"@, figures.timer_ticks as int),
                    ("source"@, FigureModel::Words(source_name(figures.timer))),
                ],
            ),
        ),
        ("status.storage"@, storage_value(figures)),
        ("status.language"@, ValueModel::Literal(figures.language@)),
        ("status.input"@, input_value(figures)),
    ]
}

fn named(name: &'static str, value: u64) -> (argument: Argument)
    ensures
        argument@ == number(name@, value as int),
{
    Argument { name, figure: Figure::Number(value) }
}

fn format_one(key: &'static str, first: Argument) -> (value: Value)
    ensures
        value@ == ValueModel::Format(key@, seq![first@]),
{
    let mut arguments: Vec<Argument> = Vec::new();
    arguments.push(first);
    let value = Value::Format(key, arguments);
    assert(value@->Format_1 =~= seq![first@]);
    value
}

fn format_two(key: &'static str, first: Argument, second: Argument) -> (value: Value)
    ensures
        value@ == ValueModel::Format(key@, seq![first@, second@]),
{
    let mut arguments: Vec<Argument> = Vec::new();
    arguments.push(first);
    arguments.push(second);
    let value = Value::Format(key, arguments);
    assert(value@->Format_1 =~= seq![first@, second@]);
    value
}

fn timer_words(source: TimerSource) -> (words: Vec<u8>)
    ensures
        words@ == source_name(source),
{
    let mut words: Vec<u8> = Vec::new();
    match source {
        TimerSource::LocalApic => {
            words.push(0x41);
            words.push(0x50);
            words.push(0x49);
            words.push(0x43);
        },
        TimerSource::Pit => {
            words.push(0x50);
            words.push(0x49);
            words.push(0x54);
        },
        TimerSource::Nothing => {
            words.push(0x2D);
        },
    }
    assert(words@ =~= source_name(source));
    words
}

fn memory_row(figures: &Figures) -> (value: Value)
    requires
        figures.frames matches Some((free, managed)) ==> free * 4096 <= u64::MAX && managed * 4096
            <= u64::MAX,
    ensures
        value@ == memory_value(*figures),
{
    match figures.frames {
        Some((free, managed)) => format_two(
            "value.memory",
            named("free", free * 4096 / 1_048_576),
            named("total", managed * 4096 / 1_048_576),
        ),
        None => Value::Text("value.unavailable"),
    }
}

fn threads_row(figures: &Figures) -> (value: Value)
    ensures
        value@ == ValueModel::Format(
            "value.threads"@,
            seq![
                number("total"@, figures.threads as int),
                number("running"@, figures.running as int),
                number("ready"@, figures.ready as int),
                number("sleeping"@, figures.sleeping as int),
            ],
        ),
{
    let mut arguments: Vec<Argument> = Vec::new();
    arguments.push(named("total", figures.threads));
    arguments.push(named("running", figures.running));
    arguments.push(named("ready", figures.ready));
    arguments.push(named("sleeping", figures.sleeping));
    let value = Value::Format("value.threads", arguments);
    assert(value@->Format_1 =~= seq![
        number("total"@, figures.threads as int),
        number("running"@, figures.running as int),
        number("ready"@, figures.ready as int),
        number("sleeping"@, figures.sleeping as int),
    ]);
    value
}

fn timer_row(figures: &Figures) -> (value: Value)
    ensures
        value@ == ValueModel::Format(
            "value.timer"@,
            seq![
                number("hz"@, figures.timer_hz as int),
                number("ticks"@, figures.timer_ticks as int),
                ("source"@, FigureModel::Words(source_name(figures.timer))),
            ],
        ),
{
    let mut arguments: Vec<Argument> = Vec::new();
    arguments.push(named("hz", figures.timer_hz));
    arguments.push(named("ticks", figures.timer_ticks));
    arguments.push(
        Argument { name: "source", figure: Figure::Words(timer_words(figures.timer)) },
    );
    let value = Value::Format("value.timer", arguments);
    assert(value@->Format_1 =~= seq![
        number("hz"@, figures.timer_hz as int),
        number("ticks"@, figures.timer_ticks as int),
        ("source"@, FigureModel::Words(source_name(figures.timer))),
    ]);
    value
}

/// What the panel says of the machine at the moment.
pub fn status_rows(figures: &Figures) -> (rows: Vec<StatusRow>)
    requires
        figures.frames matches Some((free, managed)) ==> free * 4096 <= u64::MAX && managed * 4096
            <= u64::MAX,
    ensures
        rows_view(rows@) == panel(*figures),
{
    let mut millis: Vec<u8> = Vec::new();
    put_three_digits(&mut millis, figures.uptime_ms % 1000);
    assert(millis@ =~= three_digits((figures.uptime_ms % 1000) as nat));
    let uptime = format_two(
        "value.uptime",
        named("seconds", figures.uptime_ms / 1000),
        Argument { name: "millis", figure: Figure::Words(millis) },
    );
    let heap = format_two(
        "value.heap",
        named("used", figures.heap_used / 1024),
        named("total", figures.heap_total / 1024),
    );
    let storage = match figures.storage {
        Some((total, free)) => format_two(
            "value.storage",
            named("free", free / 1_048_576),
            named("total", total / 1_048_576),
        ),
        None => Value::Text("value.unavailable"),
    };
    let input = if figures.typed.len() == 0 {
        Value::Text("value.input_empty")
    } else {
        format_one(
            "value.input",
            Argument {
                name: "text",
                figure: Figure::Words(copy_bytes(figures.typed.as_slice())),
            },
        )
    };
    let mut rows: Vec<StatusRow> = Vec::new();
    rows.push(StatusRow { label: "status.uptime", value: uptime });
    rows.push(StatusRow { label: "status.memory", value: memory_row(figures) });
    rows.push(StatusRow { label: "status.heap", value: heap });
    rows.push(StatusRow { label: "status.threads", value: threads_row(figures) });
    rows.push(
        StatusRow {
            label: "status.processors",
            value: format_one("value.processors", named("online", figures.processors)),
        },
    );
    rows.push(
        StatusRow {
            label: "status.switches",
            value: format_one("value.switches", named("count", figures.switches)),
        },
    );
    rows.push(StatusRow { label: "status.timer", value: timer_row(figures) });
    rows.push(StatusRow { label: "status.storage", value: storage });
    rows.push(
        StatusRow {
            label: "status.language",
            value: Value::Literal(copy_bytes(figures.language.as_slice())),
        },
    );
    rows.push(StatusRow { label: "status.input", value: input });
    assert(rows_view(rows@) =~= panel(*figures));
    rows
}

/// The panel always has the same ten rows, whatever the figures are.
pub proof fn law_the_panel_has_ten_rows(left: Figures, right: Figures)
    ensures
        panel(left).len() == 10,
        forall|i: int| 0 <= i < 10 ==> (#[trigger] panel(left)[i]).0 == panel(right)[i].0,
{
}

/// What each row shows: every figure under its own name and in its own unit.
pub proof fn law_what_each_row_shows(figures: Figures, seconds: u64)
    requires
        1000 * seconds <= figures.uptime_ms < 1000 * seconds + 1000,
    ensures
        ({
            let rows = panel(figures);
            &&& rows[0] == ("status.uptime"@, ValueModel::Format(
                "value.uptime"@,
                seq![
                    ("seconds"@, FigureModel::Number(seconds)),
                    (
                        "millis"@,
                        FigureModel::Words(
                            three_digits((figures.uptime_ms - 1000 * seconds) as nat),
                        ),
                    ),
                ],
            ))
            &&& rows[1].0 == "status.memory"@
            &&& rows[2].0 == "status.heap"@
            &&& rows[3] == ("status.threads"@, ValueModel::Format(
                "value.threads"@,
                seq![
                    ("total"@, FigureModel::Number(figures.threads)),
                    ("running"@, FigureModel::Number(figures.running)),
                    ("ready"@, FigureModel::Number(figures.ready)),
                    ("sleeping"@, FigureModel::Number(figures.sleeping)),
                ],
            ))
            &&& rows[4] == ("status.processors"@, ValueModel::Format(
                "value.processors"@,
                seq![("online"@, FigureModel::Number(figures.processors))],
            ))
            &&& rows[5] == ("status.switches"@, ValueModel::Format(
                "value.switches"@,
                seq![("count"@, FigureModel::Number(figures.switches))],
            ))
            &&& rows[6] == ("status.timer"@, ValueModel::Format(
                "value.timer"@,
                seq![
                    ("hz"@, FigureModel::Number(figures.timer_hz)),
                    ("ticks"@, FigureModel::Number(figures.timer_ticks)),
                    ("source"@, FigureModel::Words(source_name(figures.timer))),
                ],
            ))
            &&& rows[7].0 == "status.storage"@
            &&& rows[8] == ("status.language"@, ValueModel::Literal(figures.language@))
            &&& rows[9].0 == "status.input"@
        }),
        source_name(TimerSource::LocalApic) == seq![0x41u8, 0x50, 0x49, 0x43],
        source_name(TimerSource::Pit) == seq![0x50u8, 0x49, 0x54],
        source_name(TimerSource::Nothing) == seq![0x2Du8],
{
}

/// In which unit sizes are shown: the heap in units of 1024 bytes, memory and storage
/// in units of 1024 times that, each rounded down. A page of memory is 4096 bytes.
pub proof fn law_in_which_unit_sizes_are_shown(
    figures: Figures,
    free: u64,
    total: u64,
    shown_free: u64,
    shown_total: u64,
)
    ensures
        ({
            let shown = seq![
                ("free"@, FigureModel::Number(shown_free)),
                ("total"@, FigureModel::Number(shown_total)),
            ];
            let used = seq![
                ("used"@, FigureModel::Number(shown_free)),
                ("total"@, FigureModel::Number(shown_total)),
            ];
            let rows = panel(figures);
            &&& figures.frames == Some((free, total)) && 256 * shown_free <= free < 256 * shown_free
                + 256 && 256 * shown_total <= total < 256 * shown_total + 256 ==> rows[1].1
                == ValueModel::Format("value.memory"@, shown)
            &&& figures.frames is None ==> rows[1].1 == ValueModel::Text("value.unavailable"@)
            &&& 1024 * shown_free <= figures.heap_used < 1024 * shown_free + 1024 && 1024
                * shown_total <= figures.heap_total < 1024 * shown_total + 1024 ==> rows[2].1
                == ValueModel::Format("value.heap"@, used)
            &&& figures.storage == Some((total, free)) && 1_048_576 * shown_free <= free < 1_048_576
                * shown_free + 1_048_576 && 1_048_576 * shown_total <= total < 1_048_576
                * shown_total + 1_048_576 ==> rows[7].1 == ValueModel::Format(
                "value.storage"@,
                shown,
            )
            &&& figures.storage is None ==> rows[7].1 == ValueModel::Text("value.unavailable"@)
            &&& figures.typed@.len() == 0 ==> rows[9].1 == ValueModel::Text("value.input_empty"@)
            &&& figures.typed@.len() > 0 ==> rows[9].1 == ValueModel::Format(
                "value.input"@,
                seq![("text"@, FigureModel::Words(figures.typed@))],
            )
        }),
{
}

} // verus!
