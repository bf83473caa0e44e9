//! The real-time clock.
//!
//! The chip is read once: the time it gives and the ticks since are the time
//! afterwards. It advances its registers one at a time, so a reading counts only
//! when the next one agrees; and it may keep its figures as decimal digits, so
//! what they mean depends on how it says they are kept.
use vstd::prelude::*;

verus! {

/// Where the register number is written.
pub const ADDRESS: u16 = 0x70;

/// Where the value is read.
pub const DATA: u16 = 0x71;

/// The registers, in the order they are read: how the others are encoded, and
/// the second, minute, hour, day, month and year.
pub const REGISTERS: [u8; 7] = [0x0B, 0x00, 0x02, 0x04, 0x07, 0x08, 0x09];

/// The register that says whether an update is in progress.
pub const STATUS_A: u8 = 0x0A;

/// How many readings are tried before the clock is given up.
pub const TRIES: u32 = 16;

/// What goes to the index port for a register: the top bit would turn off
/// interrupts that cannot be masked.
pub fn index_of(register: u8) -> (index: u8)
    ensures
        index == register % 0x80,
{
    register % 0x80
}

/// Whether the chip is part way through advancing its registers.
pub fn updating(status_a: u8) -> (busy: bool)
    ensures
        busy == (status_a >= 0x80),
{
    status_a >= 0x80
}

/// What the registers held.
#[derive(Debug, Clone, Copy, PartialEq, Eq, Structural)]
pub struct Raw {
    pub second: u8,
    pub minute: u8,
    pub hour: u8,
    pub day: u8,
    pub month: u8,
    pub year: u8,
}

/// Readings until two in a row agree.
pub struct Settling {
    previous: Option<Raw>,
    tries: u32,
}

/// The same, as a value.
pub struct SettlingModel {
    pub previous: Option<Raw>,
    pub tries: u32,
}

impl View for Settling {
    type V = SettlingModel;

    closed spec fn view(&self) -> SettlingModel {
        SettlingModel { previous: self.previous, tries: self.tries }
    }
}

/// What a reading comes to.
#[derive(Debug, Clone, Copy, PartialEq, Eq, Structural)]
pub enum Settled {
    /// It agrees with the one before.
    Yes,
    /// Read again.
    Again,
    /// The clock would not settle.
    Never,
}

impl Settling {
    /// No more readings than there are tries.
    pub open spec fn wf(&self) -> bool {
        self@.tries < TRIES
    }

    /// No reading yet.
    pub fn new() -> (settling: Self)
        ensures
            settling.wf(),
            settling@ == (SettlingModel { previous: None, tries: 0 }),
    {
        Settling { previous: None, tries: 0 }
    }

    /// Take in a reading.
    pub fn sampled(&mut self, raw: Raw) -> (settled: Settled)
        requires
            old(self).wf(),
        ensures
            if old(self)@.previous == Some(raw) {
                settled == Settled::Yes && final(self)@ == old(self)@
            } else {
                &&& final(self)@.previous == Some(raw)
                &&& final(self)@.tries == old(self)@.tries + 1
                &&& settled == if final(self)@.tries < TRIES {
                    Settled::Again
                } else {
                    Settled::Never
                }
            },
            settled == Settled::Again ==> final(self).wf(),
    {
        let same: bool = match self.previous {
            Some(previous) => previous == raw,
            None => false,
        };
        if same {
            return Settled::Yes;
        }
        self.previous = Some(raw);
        self.tries = self.tries + 1;
        if self.tries < TRIES {
            Settled::Again
        } else {
            Settled::Never
        }
    }
}

/// How the figures are kept.
#[derive(Debug, Clone, Copy, PartialEq, Eq, Structural)]
pub struct Encoding {
    /// As numbers, rather than as decimal digits.
    pub binary: bool,
    /// With hours up to twenty-three, rather than twelve.
    pub twenty_four_hour: bool,
    /// In the half of the day that starts at noon, where the hours are twelve.
    pub afternoon: bool,
}

/// How the figures are kept, from the status register and the hour.
pub fn encoding(status_b: u8, hour: u8) -> (encoding: Encoding)
    ensures
        encoding.binary == ((status_b / 4) % 2 == 1),
        encoding.twenty_four_hour == ((status_b / 2) % 2 == 1),
        encoding.afternoon == (!encoding.twenty_four_hour && hour >= 0x80),
{
    let twenty_four_hour: bool = (status_b / 2) % 2 == 1;
    Encoding {
        binary: (status_b / 4) % 2 == 1,
        twenty_four_hour,
        afternoon: !twenty_four_hour && hour >= 0x80,
    }
}

/// The figures to be read as numbers or as decimal digits: the hour without the
/// bit for the afternoon, which is not part of its digits.
pub fn figures(raw: Raw) -> (figures: Raw)
    ensures
        figures == (Raw { hour: raw.hour % 0x80, ..raw }),
{
    Raw {
        second: raw.second,
        minute: raw.minute,
        hour: raw.hour % 0x80,
        day: raw.day,
        month: raw.month,
        year: raw.year,
    }
}

/// A date and a time of day.
#[derive(Debug, Clone, Copy, PartialEq, Eq, Structural)]
pub struct Time {
    pub second: u8,
    pub minute: u8,
    pub hour: u8,
    pub day: u8,
    pub month: u8,
    pub year: u16,
}

/// The hour of a day of twenty-four, from the hour that was read.
pub open spec fn hour_of(encoding: Encoding, hour: u8) -> u8 {
    if encoding.afternoon && hour < 12 {
        (hour + 12) as u8
    } else if !encoding.afternoon && !encoding.twenty_four_hour && hour == 12 {
        0
    } else {
        hour
    }
}

/// The year from its two digits: there is no century to be relied on.
pub open spec fn year_of(year: u8) -> u16 {
    if year < 70 {
        (year + 2000) as u16
    } else {
        (year + 1900) as u16
    }
}

/// Whether it is a date.
pub open spec fn is_date(time: Time) -> bool {
    1 <= time.month <= 12 && 1 <= time.day <= 31 && time.hour <= 23
}

/// The time that was read.
pub open spec fn time_of(encoding: Encoding, numbers: Raw) -> Time {
    Time {
        second: numbers.second,
        minute: numbers.minute,
        hour: hour_of(encoding, numbers.hour),
        day: numbers.day,
        month: numbers.month,
        year: year_of(numbers.year),
    }
}

/// The time that was read, from the figures as numbers, if it is a date.
pub fn read_time(encoding: Encoding, numbers: Raw) -> (time: Option<Time>)
    ensures
        time == if is_date(time_of(encoding, numbers)) {
            Some(time_of(encoding, numbers))
        } else {
            None
        },
{
    let hour: u8 = if encoding.afternoon && numbers.hour < 12 {
        numbers.hour + 12
    } else if !encoding.afternoon && !encoding.twenty_four_hour && numbers.hour == 12 {
        0
    } else {
        numbers.hour
    };
    let year: u16 = if numbers.year < 70 {
        numbers.year as u16 + 2000
    } else {
        numbers.year as u16 + 1900
    };
    if numbers.month == 0 || numbers.month > 12 || numbers.day == 0 || numbers.day > 31 || hour > 23 {
        return None;
    }
    Some(
        Time {
            second: numbers.second,
            minute: numbers.minute,
            hour,
            day: numbers.day,
            month: numbers.month,
            year,
        },
    )
}

/// What the clock said.
pub struct State {
    present: bool,
    boot_unix: u64,
    boot_ticks: u64,
}

/// The same, as a value.
pub struct Model {
    /// Whether a clock was found.
    pub present: bool,
    /// What it said, as seconds since 1970.
    pub boot_unix: u64,
    /// The ticks when it said it.
    pub boot_ticks: u64,
}

impl View for State {
    type V = Model;

    closed spec fn view(&self) -> Model {
        Model { present: self.present, boot_unix: self.boot_unix, boot_ticks: self.boot_ticks }
    }
}

impl State {
    /// No clock.
    pub fn new() -> (state: Self)
        ensures
            state@ == (Model { present: false, boot_unix: 0, boot_ticks: 0 }),
    {
        State { present: false, boot_unix: 0, boot_ticks: 0 }
    }
}

/// Keep what the clock said, as seconds since 1970, unless it is set before
/// that.
pub fn init(state: &mut State, seconds: i64, ticks: u64)
    ensures
        final(state)@ == if seconds < 0 {
            old(state)@
        } else {
            Model { present: true, boot_unix: seconds as u64, boot_ticks: ticks }
        },
{
    if seconds < 0 {
        return;
    }
    state.boot_unix = seconds as u64;
    state.boot_ticks = ticks;
    state.present = true;
}

/// Whether the machine knows what time it is.
pub fn is_present(state: &State) -> (present: bool)
    ensures
        present == state@.present,
{
    state.present
}

/// How many whole seconds a number of ticks are.
pub open spec fn seconds_of(ticks: int, hertz: u64) -> int {
    ticks / if hertz == 0 {
        1
    } else {
        hertz as int
    }
}

/// The time now: what the clock said, and the seconds since.
pub open spec fn time_now(state: Model, ticks: u64, hertz: u64) -> int {
    state.boot_unix + seconds_of(
        if ticks < state.boot_ticks {
            0
        } else {
            ticks - state.boot_ticks
        },
        hertz,
    )
}

/// The time now, as seconds since 1970.
pub fn now(state: &State, ticks: u64, hertz: u64) -> (seconds: Option<u64>)
    requires
        time_now(state@, ticks, hertz) <= u64::MAX,
    ensures
        seconds == if state@.present {
            Some(time_now(state@, ticks, hertz) as u64)
        } else {
            None
        },
{
    if !state.present {
        return None;
    }
    let elapsed: u64 = ticks.saturating_sub(state.boot_ticks);
    let rate: u64 = if hertz == 0 {
        1
    } else {
        hertz
    };
    Some(state.boot_unix + elapsed / rate)
}

/// Midnight and noon are where they should be, and every other hour of twelve is
/// twelve later in the afternoon.
pub proof fn law_twelve_hours_make_twenty_four(encoding: Encoding, hour: u8)
    requires
        !encoding.twenty_four_hour,
        1 <= hour <= 12,
    ensures
        hour_of(encoding, hour) == (hour % 12) + if encoding.afternoon {
            12int
        } else {
            0
        },
        hour_of(encoding, hour) <= 23,
{
}

/// Time does not go backwards while the ticks do not.
pub proof fn law_time_goes_forward(state: Model, earlier: u64, later: u64, hertz: u64)
    requires
        earlier <= later,
    ensures
        time_now(state, earlier, hertz) <= time_now(state, later, hertz),
        time_now(state, state.boot_ticks, hertz) == state.boot_unix,
{
    let rate = if hertz == 0 {
        1
    } else {
        hertz as int
    };
    let from = if earlier < state.boot_ticks {
        0
    } else {
        earlier - state.boot_ticks
    };
    let to = if later < state.boot_ticks {
        0
    } else {
        later - state.boot_ticks
    };
    vstd::arithmetic::div_mod::lemma_div_is_ordered(from, to, rate);
    vstd::arithmetic::div_mod::lemma_div_basics(rate);
}

/// Where the clock is, and which of its registers hold what: how it counts, the
/// second, the minute, the hour, the day, the month and the year.
pub proof fn law_where_the_clock_is()
    ensures
        ADDRESS == 0x70,
        DATA == 0x71,
        STATUS_A == 0x0A,
        REGISTERS@ == seq![0x0Bu8, 0, 2, 4, 7, 8, 9],
        TRIES == 16,
{
    assert(REGISTERS@ =~= seq![0x0Bu8, 0, 2, 4, 7, 8, 9]);
}

/// What the clock's numbers mean: each is what it says, but for the hour of a clock of
/// twelve hours and the year, of which it has two figures: below seventy they are of
/// this century, and from there on of the last.
pub proof fn law_what_the_numbers_mean(encoding: Encoding, numbers: Raw)
    ensures
        ({
            let time = time_of(encoding, numbers);
            &&& time.second == numbers.second
            &&& time.minute == numbers.minute
            &&& time.day == numbers.day
            &&& time.month == numbers.month
            &&& numbers.year < 70 ==> time.year == 2000 + numbers.year
            &&& numbers.year >= 70 ==> time.year == 1900 + numbers.year
            &&& encoding.twenty_four_hour && !encoding.afternoon ==> time.hour == numbers.hour
            &&& is_date(time) <==> 1 <= time.month <= 12 && 1 <= time.day <= 31 && time.hour < 24
        }),
{
}

/// The time goes on by one second for every so many ticks since the clock was read.
pub proof fn law_seconds_since(state: Model, ticks: u64, hertz: u64)
    requires
        hertz > 0,
        ticks >= state.boot_ticks,
    ensures
        ({
            let passed = time_now(state, ticks, hertz) - state.boot_unix;
            passed * hertz <= ticks - state.boot_ticks < (passed + 1) * hertz
        }),
{
    let since = ticks - state.boot_ticks;
    let passed = since / hertz as int;
    vstd::arithmetic::div_mod::lemma_fundamental_div_mod(since, hertz as int);
    vstd::arithmetic::div_mod::lemma_mod_bound(since, hertz as int);
    assert((passed + 1) * hertz == passed * hertz + hertz) by (nonlinear_arith);
    assert(hertz * passed == passed * hertz) by (nonlinear_arith);
}

/// A machine that does not say how many ticks a second has counts each as one, and
/// one whose ticks lie before the clock was read has the time the clock said.
pub proof fn law_time_without_a_rate(state: Model, ticks: u64, hertz: u64)
    ensures
        ticks >= state.boot_ticks ==> time_now(state, ticks, 0) == state.boot_unix + ticks
            - state.boot_ticks,
        ticks <= state.boot_ticks ==> time_now(state, ticks, hertz) == state.boot_unix,
{
    if hertz > 0 {
        vstd::arithmetic::div_mod::lemma_div_of0(hertz as int);
    }
}

} // verus!
