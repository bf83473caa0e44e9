//! xHCI: the controller a USB device is plugged into.
//!
//! Bringing one up is a matter of stopping whatever the firmware left running,
//! resetting it, and giving its ports power. Every wait has an end, so that a
//! controller that stops answering costs a timeout.
use vstd::prelude::*;

use crate::drivers::pci::{BaseAddress, Device};
use crate::text::append_hexadecimal;
#[allow(unused_imports)]
use crate::text::hexadecimal;

pub mod law;
pub mod port;
pub mod register;

verus! {

/// The class of a USB controller.
pub const CLASS: u8 = 0x0C;

/// The subclass of a USB controller.
pub const SUBCLASS: u8 = 0x03;

/// The interface of the kind that is driven here.
pub const XHCI: u8 = 0x30;

/// How long to wait for the controller, in microseconds.
pub const PATIENCE_US: u64 = 1_000_000;

/// How long a port's connection means nothing after it was given power, in
/// milliseconds.
pub const SETTLE_MS: u64 = 20;

/// What a speed is called.
pub open spec fn called(speed: u32) -> Seq<char> {
    if speed == 1 {
        "full speed"@
    } else if speed == 2 {
        "low speed"@
    } else if speed == 3 {
        "high speed"@
    } else if speed == 4 {
        "SuperSpeed"@
    } else if speed == 5 {
        "SuperSpeed+"@
    } else {
        "an unknown speed"@
    }
}

/// What a port's speed is called.
pub fn speed_name(speed: u32) -> (name: &'static str)
    ensures
        name@ == called(speed),
{
    match speed {
        1 => "full speed",
        2 => "low speed",
        3 => "high speed",
        4 => "SuperSpeed",
        5 => "SuperSpeed+",
        _ => "an unknown speed",
    }
}

/// What the controller did not do in time.
#[derive(Debug, Clone, Copy, PartialEq, Eq, Structural)]
pub enum Stage {
    Halt,
    ComeOutOfReset,
    BecomeReady,
    /// It reported a host error rather than resetting.
    Reset,
    /// A device on it did not say what it is.
    DescribeItself,
    /// A device on it did not say what it can do.
    DescribeItsConfiguration,
}

/// Why the controller could not be brought up.
#[derive(Debug, Clone, Copy, PartialEq, Eq, Structural)]
pub enum Trouble {
    /// There is none on this machine.
    NotPresent,
    /// Its registers are among the ports, where they never are.
    NotMemoryMapped,
    /// Its registers could not be mapped.
    WouldNotMap,
    /// It did not do something in time.
    Stuck(Stage),
    /// It wants pages of another size.
    PageSize(u32),
    /// There was no memory for something it needs.
    NoMemory,
}

/// What a trouble is, in words.
pub open spec fn words(trouble: Trouble) -> Seq<char> {
    match trouble {
        Trouble::NotPresent => "there is no xHCI controller on this machine"@,
        Trouble::NotMemoryMapped =>
            "the controller's registers are in I/O space, which xHCI never uses"@,
        Trouble::WouldNotMap => "its registers could not be mapped"@,
        Trouble::Stuck(Stage::Halt) => "the controller did not halt in time"@,
        Trouble::Stuck(Stage::ComeOutOfReset) =>
            "the controller did not come out of reset in time"@,
        Trouble::Stuck(Stage::BecomeReady) => "the controller did not become ready in time"@,
        Trouble::Stuck(Stage::Reset) =>
            "the controller reported a host error rather than resetting in time"@,
        Trouble::Stuck(Stage::DescribeItself) =>
            "the controller did not describe itself in time"@,
        Trouble::Stuck(Stage::DescribeItsConfiguration) =>
            "the controller did not describe its configuration in time"@,
        Trouble::PageSize(bitmap) =>
            "the controller wants a page size this driver does not use ("@ + hexadecimal(
            bitmap as nat,
        ) + ")"@,
        Trouble::NoMemory => "there was no memory for it"@,
    }
}

impl Trouble {
    /// What it is, in words.
    pub fn text(&self) -> (text: String)
        ensures
            text@ == words(*self),
    {
        match self {
            Trouble::NotPresent => "there is no xHCI controller on this machine".to_owned(),
            Trouble::NotMemoryMapped =>
                "the controller's registers are in I/O space, which xHCI never uses".to_owned(),
            Trouble::WouldNotMap => "its registers could not be mapped".to_owned(),
            Trouble::Stuck(Stage::Halt) => "the controller did not halt in time".to_owned(),
            Trouble::Stuck(Stage::ComeOutOfReset) =>
                "the controller did not come out of reset in time".to_owned(),
            Trouble::Stuck(Stage::BecomeReady) => "the controller did not become ready in time".to_owned(),
            Trouble::Stuck(Stage::Reset) =>
                "the controller reported a host error rather than resetting in time".to_owned(),
            Trouble::Stuck(Stage::DescribeItself) =>
                "the controller did not describe itself in time".to_owned(),
            Trouble::Stuck(Stage::DescribeItsConfiguration) =>
                "the controller did not describe its configuration in time".to_owned(),
            Trouble::PageSize(bitmap) => {
                let mut text: String =
                    "the controller wants a page size this driver does not use (".to_owned();
                append_hexadecimal(&mut text, *bitmap as u64);
                text.append(")");
                text
            },
            Trouble::NoMemory => "there was no memory for it".to_owned(),
        }
    }
}

/// What is known of the controller.
#[derive(Debug, Clone, Copy, PartialEq, Eq, Structural)]
pub struct Layout {
    /// Where its operational registers are.
    pub operational: u64,
    /// Where its runtime registers are.
    pub runtime: u64,
    /// Where its doorbells are.
    pub doorbells: u64,
    /// How many ports it has.
    pub ports: u64,
    /// How many devices it can hold.
    pub slots: u64,
    /// Whether its contexts are 64 bytes rather than 32.
    pub big_contexts: bool,
}

/// The controller, and whether it was started.
pub struct State {
    present: bool,
    layout: Layout,
}

/// The same, as a value.
pub struct Model {
    pub present: bool,
    pub layout: Layout,
}

impl View for State {
    type V = Model;

    closed spec fn view(&self) -> Model {
        Model { present: self.present, layout: self.layout }
    }
}

/// Nothing known.
pub open spec fn unknown() -> Layout {
    Layout { operational: 0, runtime: 0, doorbells: 0, ports: 0, slots: 0, big_contexts: false }
}

impl State {
    /// The registers are where they can be, and the ports are no more than there
    /// can be.
    pub open spec fn wf(&self) -> bool {
        self@.layout.operational <= u64::MAX - register::WINDOW && self@.layout.ports < 256
    }

    /// No controller.
    pub fn new() -> (state: Self)
        ensures
            state.wf(),
            state@ == (Model { present: false, layout: unknown() }),
    {
        State {
            present: false,
            layout: Layout {
                operational: 0,
                runtime: 0,
                doorbells: 0,
                ports: 0,
                slots: 0,
                big_contexts: false,
            },
        }
    }
}

/// Whether this machine has a controller that works.
pub fn is_present(state: &State) -> (present: bool)
    ensures
        present == state@.present,
{
    state.present
}

/// How many ports it has.
pub fn port_count(state: &State) -> (ports: u64)
    ensures
        ports == state@.layout.ports,
{
    state.layout.ports
}

/// What is known of the controller.
pub fn layout(state: &State) -> (layout: Layout)
    ensures
        layout == state@.layout,
{
    state.layout
}

/// Where an operational register is, to be read.
pub fn read_operational(state: &State, offset: u64) -> (at: u64)
    requires
        state.wf(),
        offset < register::WINDOW,
    ensures
        at == state@.layout.operational + offset,
{
    state.layout.operational + offset
}

/// Where an operational register is, and what goes there.
pub fn write_operational(state: &State, offset: u64, value: u32) -> (store: (u64, u32))
    requires
        state.wf(),
        offset < register::WINDOW,
    ensures
        store == ((state@.layout.operational + offset) as u64, value),
{
    (state.layout.operational + offset, value)
}

/// Where a port's register is.
pub open spec fn port_at(state: Model, index: u64) -> int {
    state.layout.operational + register::PORTS + index * register::PORT_STRIDE
}

/// Where a port's register is, to be read.
pub fn read_port(state: &State, index: u64) -> (at: u64)
    requires
        state.wf(),
        index < 256,
    ensures
        at == port_at(state@, index),
{
    state.layout.operational + register::PORTS + index * register::PORT_STRIDE
}

/// Where a port's register is, and what goes there: without the bits that would
/// be cleared, so that no change is lost that nobody has looked at.
pub fn write_port(state: &State, index: u64, value: u32) -> (store: (u64, u32))
    requires
        state.wf(),
        index < 256,
    ensures
        store == (port_at(state@, index) as u64, value & !port::CHANGES),
{
    (read_port(state, index), value & !port::CHANGES)
}

/// Clear some of a port's changes, given what it reads as.
pub fn clear_port_changes(state: &State, index: u64, value: u32, which: u32) -> (store: (u64, u32))
    requires
        state.wf(),
        index < 256,
    ensures
        store == (
            port_at(state@, index) as u64,
            (value & !port::CHANGES) | (which & port::CHANGES),
        ),
{
    (read_port(state, index), (value & !port::CHANGES) | (which & port::CHANGES))
}

/// Whether a device is a USB controller of the kind that is driven here.
///
/// The older kinds are different structures rather than simpler ones, and are
/// passed over.
pub open spec fn is_controller(device: Device) -> bool {
    device.class == CLASS && device.subclass == SUBCLASS && device.interface == XHCI
}

/// The first of some devices that is a controller, wherever it stands among
/// others.
pub fn start(devices: &[Device]) -> (found: Result<usize, Trouble>)
    ensures
        match found {
            Ok(at) => {
                &&& at < devices@.len()
                &&& is_controller(devices@[at as int])
                &&& forall|i: int| 0 <= i < at ==> !is_controller(#[trigger] devices@[i])
            },
            Err(trouble) => {
                &&& trouble == Trouble::NotPresent
                &&& forall|i: int|
                    0 <= i < devices@.len() ==> !is_controller(#[trigger] devices@[i])
            },
        },
{
    let mut at: usize = 0;
    while at < devices.len()
        invariant
            at <= devices@.len(),
            forall|i: int| 0 <= i < at ==> !is_controller(#[trigger] devices@[i]),
        decreases devices@.len() - at,
    {
        let device: &Device = &devices[at];
        if device.class == CLASS && device.subclass == SUBCLASS && device.interface == XHCI {
            return Ok(at);
        }
        at += 1;
    }
    Err(Trouble::NotPresent)
}

/// Where the controller's registers are in memory.
pub fn registers(base: BaseAddress) -> (at: Result<u64, Trouble>)
    ensures
        at == match base {
            BaseAddress::Memory { base, .. } => Ok::<u64, Trouble>(base),
            BaseAddress::Port(_) => Err(Trouble::NotMemoryMapped),
        },
{
    match base {
        BaseAddress::Memory { base, .. } => Ok(base),
        BaseAddress::Port(_) => Err(Trouble::NotMemoryMapped),
    }
}

/// What the registers at the start of the window say.
#[derive(Debug, Clone, Copy, PartialEq, Eq, Structural)]
pub struct Capabilities {
    pub length: u8,
    pub params1: u32,
    pub capparams1: u32,
    pub doorbell_offset: u32,
    pub runtime_offset: u32,
}

/// What they say, as a layout.
pub open spec fn laid_out(window: u64, said: Capabilities) -> Layout {
    Layout {
        operational: (window + said.length) as u64,
        runtime: (window + (said.runtime_offset - said.runtime_offset % 32)) as u64,
        doorbells: (window + (said.doorbell_offset - said.doorbell_offset % 4)) as u64,
        ports: (said.params1 / 0x100_0000) as u64,
        slots: (said.params1 % 0x100) as u64,
        big_contexts: (said.capparams1 / 4) % 2 == 1,
    }
}

/// Keep what the registers at the start of the window say, if the window could
/// be mapped.
pub fn adopt(state: &mut State, window: Option<u64>, said: Capabilities) -> (outcome: Result<
    (),
    Trouble,
>)
    requires
        old(state).wf(),
        window matches Some(window) ==> window <= u64::MAX - 0x1_0000_0000 - register::WINDOW,
    ensures
        final(state).wf(),
        match window {
            None => outcome == Err::<(), Trouble>(Trouble::WouldNotMap) && final(state)@
                == old(state)@,
            Some(window) => outcome == Ok::<(), Trouble>(()) && final(state)@ == (Model {
                layout: laid_out(window, said),
                ..old(state)@
            }),
        },
{
    let window: u64 = match window {
        None => return Err(Trouble::WouldNotMap),
        Some(window) => window,
    };
    state.layout = Layout {
        operational: window + said.length as u64,
        runtime: window + (said.runtime_offset - said.runtime_offset % 32) as u64,
        doorbells: window + (said.doorbell_offset - said.doorbell_offset % 4) as u64,
        ports: (said.params1 / 0x100_0000) as u64,
        slots: (said.params1 % 0x100) as u64,
        big_contexts: (said.capparams1 / 4) % 2 == 1,
    };
    Ok(())
}

/// Something to do with the controller while it is reset.
#[derive(Debug, Clone, Copy, PartialEq, Eq, Structural)]
pub enum Action {
    /// Read an operational register.
    Read(u64),
    /// Write one.
    Write(u64, u32),
    /// Look at one until some of these bits are set, or the patience is over.
    UntilSet(u64, u32),
    /// Look at one until none of these bits are set, or the patience is over.
    UntilClear(u64, u32),
    /// It is reset.
    Done,
}

/// What came of it.
#[derive(Debug, Clone, Copy, PartialEq, Eq, Structural)]
pub enum Outcome {
    Done,
    /// What was read.
    Value(u32),
    /// The patience was over.
    Timeout,
}

/// How far a reset has got.
#[derive(Debug, Clone, Copy, PartialEq, Eq, Structural)]
pub enum Reset {
    /// What is running is to be read.
    Running,
    Stopping,
    Halting,
    Resetting,
    Resetted,
    Readying,
    /// The outcome is to be read.
    Checking,
    Over,
}

/// What a reset does at each stage.
pub open spec fn action_of(stage: Reset, running: u32) -> Action {
    match stage {
        Reset::Running => Action::Read(register::COMMAND),
        Reset::Stopping => Action::Write(register::COMMAND, running & !register::RUN),
        Reset::Halting => Action::UntilSet(register::STATUS, register::HALTED),
        Reset::Resetting => Action::Write(register::COMMAND, register::RESET),
        Reset::Resetted => Action::UntilClear(register::COMMAND, register::RESET),
        Reset::Readying => Action::UntilClear(register::STATUS, register::NOT_READY),
        Reset::Checking => Action::Read(register::STATUS),
        Reset::Over => Action::Done,
    }
}

/// The stage after one, given what came of it, or what the controller did not
/// do.
pub open spec fn stage_after(stage: Reset, outcome: Outcome) -> Result<Reset, Trouble> {
    match stage {
        Reset::Running => Ok(Reset::Stopping),
        Reset::Stopping => Ok(Reset::Halting),
        Reset::Halting => if outcome == Outcome::Timeout {
            Err(Trouble::Stuck(Stage::Halt))
        } else {
            Ok(Reset::Resetting)
        },
        Reset::Resetting => Ok(Reset::Resetted),
        Reset::Resetted => if outcome == Outcome::Timeout {
            Err(Trouble::Stuck(Stage::ComeOutOfReset))
        } else {
            Ok(Reset::Readying)
        },
        Reset::Readying => if outcome == Outcome::Timeout {
            Err(Trouble::Stuck(Stage::BecomeReady))
        } else {
            Ok(Reset::Checking)
        },
        Reset::Checking => if outcome matches Outcome::Value(value) && value & register::HOST_ERROR
            != 0 {
            Err(Trouble::Stuck(Stage::Reset))
        } else {
            Ok(Reset::Over)
        },
        Reset::Over => Ok(Reset::Over),
    }
}

/// What was read, if anything was.
pub open spec fn value_of(outcome: Outcome) -> u32 {
    match outcome {
        Outcome::Value(value) => value,
        _ => 0,
    }
}

/// Start a reset: it is stopped first, because the firmware may have left it
/// running, and resetting it then is not defined.
pub fn reset() -> (first: (Reset, Action))
    ensures
        first == (Reset::Running, action_of(Reset::Running, 0)),
{
    (Reset::Running, Action::Read(register::COMMAND))
}

/// Go on with a reset, given what came of the last action.
pub fn reset_next(stage: &mut Reset, outcome: Outcome) -> (next: Result<Action, Trouble>)
    ensures
        match stage_after(*old(stage), outcome) {
            Err(trouble) => next == Err::<Action, Trouble>(trouble) && *final(stage) == *old(stage),
            Ok(after) => *final(stage) == after && next == Ok::<Action, Trouble>(
                action_of(after, value_of(outcome)),
            ),
        },
{
    let value: u32 = match outcome {
        Outcome::Value(value) => value,
        _ => 0,
    };
    let late: bool = match outcome {
        Outcome::Timeout => true,
        _ => false,
    };
    match *stage {
        Reset::Running => {
            *stage = Reset::Stopping;
            Ok(Action::Write(register::COMMAND, value & !register::RUN))
        },
        Reset::Stopping => {
            *stage = Reset::Halting;
            Ok(Action::UntilSet(register::STATUS, register::HALTED))
        },
        Reset::Halting => {
            if late {
                return Err(Trouble::Stuck(Stage::Halt));
            }
            *stage = Reset::Resetting;
            Ok(Action::Write(register::COMMAND, register::RESET))
        },
        Reset::Resetting => {
            *stage = Reset::Resetted;
            Ok(Action::UntilClear(register::COMMAND, register::RESET))
        },
        Reset::Resetted => {
            if late {
                return Err(Trouble::Stuck(Stage::ComeOutOfReset));
            }
            *stage = Reset::Readying;
            Ok(Action::UntilClear(register::STATUS, register::NOT_READY))
        },
        Reset::Readying => {
            if late {
                return Err(Trouble::Stuck(Stage::BecomeReady));
            }
            *stage = Reset::Checking;
            Ok(Action::Read(register::STATUS))
        },
        Reset::Checking => {
            let failed: bool = match outcome {
                Outcome::Value(value) => value & register::HOST_ERROR != 0,
                _ => false,
            };
            if failed {
                return Err(Trouble::Stuck(Stage::Reset));
            }
            *stage = Reset::Over;
            Ok(Action::Done)
        },
        Reset::Over => Ok(Action::Done),
    }
}

/// Finish starting, given the page sizes the controller takes: everything here
/// is built in pages of four kibibytes.
pub fn started(state: &mut State, sizes: u32) -> (outcome: Result<(), Trouble>)
    requires
        old(state).wf(),
    ensures
        final(state).wf(),
        if sizes % 2 == 0 {
            outcome == Err::<(), Trouble>(Trouble::PageSize(sizes)) && final(state)@ == old(state)@
        } else {
            outcome == Ok::<(), Trouble>(()) && final(state)@ == (Model {
                present: true,
                ..old(state)@
            })
        },
{
    if sizes % 2 == 0 {
        return Err(Trouble::PageSize(sizes));
    }
    state.present = true;
    Ok(())
}

/// When a wait for the controller ends.
pub fn patience(now: u64) -> (deadline: u64)
    ensures
        deadline == if now + PATIENCE_US <= u64::MAX {
            (now + PATIENCE_US) as u64
        } else {
            u64::MAX
        },
{
    now.saturating_add(PATIENCE_US)
}

/// One look of a wait: how it ended, if it has.
pub fn wait_for(ready: bool, now: u64, deadline: u64) -> (ended: Option<bool>)
    ensures
        ended == if ready {
            Some(true)
        } else if now >= deadline {
            Some(false)
        } else {
            None
        },
{
    if ready {
        return Some(true);
    }
    if now >= deadline {
        return Some(false);
    }
    None
}

/// Give a port power, given what it reads as: what is to be written, unless it
/// has.
pub fn power(value: u32) -> (write: Option<u32>)
    ensures
        write == if value & port::POWER == 0 {
            Some(value | port::POWER)
        } else {
            None
        },
{
    if value & port::POWER == 0 {
        Some(value | port::POWER)
    } else {
        None
    }
}

/// What a port is, once it has power.
#[derive(Debug, Clone, Copy, PartialEq, Eq, Structural)]
pub enum Found {
    /// Nothing is plugged in.
    Empty,
    /// It is to be reset, by writing this; it is looked at again then.
    Reset(u32),
    /// Something is plugged in that can be used, at this speed.
    Usable(u32),
    /// Something is plugged in that cannot, at this speed.
    Disabled(u32),
}

/// The speed in a port's register.
pub open spec fn speed_of(value: u32) -> u32 {
    (value / 1024) % 16
}

/// How fast what is on a port runs, given what the port reads as. It is read
/// rather than remembered: the port is where it is true.
pub fn port_speed(value: u32) -> (speed: u32)
    ensures
        speed == speed_of(value),
        speed < 16,
{
    (value / 1024) % 16
}

/// What a port is, given what it reads as. One that has enabled itself is left
/// alone, and one that was reset already is not reset again.
pub fn look_at(value: u32, was_reset: bool) -> (found: Found)
    ensures
        found == if !was_reset && value & port::CONNECTED == 0 {
            Found::Empty
        } else if value & port::ENABLED != 0 {
            Found::Usable(speed_of(value))
        } else if was_reset {
            Found::Disabled(speed_of(value))
        } else {
            Found::Reset(value | port::RESET)
        },
{
    if !was_reset && value & port::CONNECTED == 0 {
        return Found::Empty;
    }
    let speed: u32 = (value / 1024) % 16;
    if value & port::ENABLED != 0 {
        return Found::Usable(speed);
    }
    if was_reset {
        Found::Disabled(speed)
    } else {
        Found::Reset(value | port::RESET)
    }
}

/// Something to do with the ports while they are looked at.
#[derive(Debug, Clone, Copy, PartialEq, Eq, Structural)]
pub enum Step {
    /// Read this port.
    Read(u64),
    /// Write to this port, and go on.
    Write(u64, u32),
    /// Wait for the connections to mean something.
    Settle,
    /// Wait for this port's reset to be over, or for the patience to be.
    WaitReset(u64),
    /// Clear these changes of this port.
    Clear(u64, u32),
    /// So many ports have something on them that can be used.
    Over(u64),
}

/// How far a look at the ports has got.
#[derive(Debug, Clone, Copy, PartialEq, Eq, Structural)]
pub enum At {
    /// This port's power is being read.
    Power(u64),
    /// This port has been given power.
    Powered(u64),
    Settling,
    /// This port is being read.
    Look(u64),
    /// This port is being reset.
    Resetting(u64),
    /// This port's reset is waited for.
    Waiting(u64),
    /// This port's changes are being cleared.
    Clearing(u64),
    /// This port is being read again.
    Again(u64),
    Over,
}

/// A look at the ports.
#[derive(Debug, Clone, Copy, PartialEq, Eq, Structural)]
pub struct Survey {
    pub at: At,
    pub ports: u64,
    pub usable: u64,
}

impl Survey {
    /// The port is one of them, and no more were found than looked at.
    pub open spec fn wf(self) -> bool {
        &&& self.ports < 256
        &&& match self.at {
            At::Power(index) => index < self.ports && self.usable == 0,
            At::Powered(index) => index < self.ports && self.usable == 0,
            At::Settling => self.usable == 0,
            At::Look(index) => index < self.ports && self.usable <= index,
            At::Resetting(index) => index < self.ports && self.usable <= index,
            At::Waiting(index) => index < self.ports && self.usable <= index,
            At::Clearing(index) => index < self.ports && self.usable <= index,
            At::Again(index) => index < self.ports && self.usable <= index,
            At::Over => self.usable <= self.ports,
        }
    }

    /// The look at the first port, or past them all.
    pub open spec fn looking(self, index: u64) -> (Survey, Step) {
        if index < self.ports {
            (Survey { at: At::Look(index), ..self }, Step::Read(index))
        } else {
            (Survey { at: At::Over, ..self }, Step::Over(self.usable))
        }
    }

    /// The power of a port, or the wait after the last.
    pub open spec fn powering(self, index: u64) -> (Survey, Step) {
        if index < self.ports {
            (Survey { at: At::Power(index), ..self }, Step::Read(index))
        } else {
            (Survey { at: At::Settling, ..self }, Step::Settle)
        }
    }

    /// What comes after a step, given what came of it: what was read, or whether
    /// a wait ended in time.
    pub open spec fn after(self, value: u32, in_time: bool) -> (Survey, Step) {
        match self.at {
            At::Power(index) => if value & port::POWER == 0 {
                (
                    Survey { at: At::Powered(index), ..self },
                    Step::Write(index, value | port::POWER),
                )
            } else {
                self.powering((index + 1) as u64)
            },
            At::Powered(index) => self.powering((index + 1) as u64),
            At::Settling => self.looking(0),
            At::Look(index) => if value & port::CONNECTED == 0 {
                self.looking((index + 1) as u64)
            } else if value & port::ENABLED != 0 {
                Survey { usable: (self.usable + 1) as u64, ..self }.looking((index + 1) as u64)
            } else {
                (
                    Survey { at: At::Resetting(index), ..self },
                    Step::Write(index, value | port::RESET),
                )
            },
            At::Resetting(index) => (
                Survey { at: At::Waiting(index), ..self },
                Step::WaitReset(index),
            ),
            At::Waiting(index) => if in_time {
                (
                    Survey { at: At::Clearing(index), ..self },
                    Step::Clear(index, port::RESET_CHANGE | port::CONNECT_CHANGE),
                )
            } else {
                self.looking((index + 1) as u64)
            },
            At::Clearing(index) => (Survey { at: At::Again(index), ..self }, Step::Read(index)),
            At::Again(index) => if value & port::ENABLED != 0 {
                Survey { usable: (self.usable + 1) as u64, ..self }.looking((index + 1) as u64)
            } else {
                self.looking((index + 1) as u64)
            },
            At::Over => (self, Step::Over(self.usable)),
        }
    }

    fn look(&mut self, index: u64) -> (step: Step)
        requires
            old(self).ports < 256,
            index <= old(self).ports,
            old(self).usable <= index,
        ensures
            (*final(self), step) == old(self).looking(index),
            final(self).wf(),
    {
        if index < self.ports {
            self.at = At::Look(index);
            Step::Read(index)
        } else {
            self.at = At::Over;
            Step::Over(self.usable)
        }
    }

    fn give_power(&mut self, index: u64) -> (step: Step)
        requires
            old(self).ports < 256,
            index <= old(self).ports,
            old(self).usable == 0,
        ensures
            (*final(self), step) == old(self).powering(index),
            final(self).wf(),
    {
        if index < self.ports {
            self.at = At::Power(index);
            Step::Read(index)
        } else {
            self.at = At::Settling;
            Step::Settle
        }
    }

    /// Go on, given what came of the last step: what was read, or whether a wait
    /// ended in time.
    pub fn next(&mut self, value: u32, in_time: bool) -> (step: Step)
        requires
            old(self).wf(),
        ensures
            final(self).wf(),
            (*final(self), step) == old(self).after(value, in_time),
    {
        match self.at {
            At::Power(index) => match power(value) {
                Some(wanted) => {
                    self.at = At::Powered(index);
                    Step::Write(index, wanted)
                },
                None => self.give_power(index + 1),
            },
            At::Powered(index) => self.give_power(index + 1),
            At::Settling => self.look(0),
            At::Look(index) => match look_at(value, false) {
                Found::Empty => self.look(index + 1),
                Found::Reset(wanted) => {
                    self.at = At::Resetting(index);
                    Step::Write(index, wanted)
                },
                Found::Usable(_) => {
                    self.usable = self.usable + 1;
                    self.look(index + 1)
                },
                Found::Disabled(_) => self.look(index + 1),
            },
            At::Resetting(index) => {
                self.at = At::Waiting(index);
                Step::WaitReset(index)
            },
            At::Waiting(index) => if in_time {
                self.at = At::Clearing(index);
                Step::Clear(index, port::RESET_CHANGE | port::CONNECT_CHANGE)
            } else {
                self.look(index + 1)
            },
            At::Clearing(index) => {
                self.at = At::Again(index);
                Step::Read(index)
            },
            At::Again(index) => match look_at(value, true) {
                Found::Usable(_) => {
                    self.usable = self.usable + 1;
                    self.look(index + 1)
                },
                _ => self.look(index + 1),
            },
            At::Over => Step::Over(self.usable),
        }
    }
}

/// Look at every port: power first, because a port without any reports nothing,
/// and then each in turn. The first step; there is nothing to look at without a
/// controller.
pub fn survey_ports(state: &State) -> (first: (Survey, Step))
    requires
        state.wf(),
    ensures
        first.0.wf(),
        first == if state@.present {
            Survey { at: At::Settling, ports: state@.layout.ports, usable: 0 }.powering(0)
        } else {
            (Survey { at: At::Over, ports: 0, usable: 0 }, Step::Over(0))
        },
{
    if !state.present {
        return (Survey { at: At::Over, ports: 0, usable: 0 }, Step::Over(0));
    }
    let mut survey = Survey { at: At::Settling, ports: state.layout.ports, usable: 0 };
    let step = survey.give_power(0);
    (survey, step)
}

/// What is written to a port clears no change of it, but for those that are
/// named to be cleared.
pub proof fn law_changes_are_cleared_only_by_name(value: u32, which: u32)
    ensures
        (value & !port::CHANGES) & port::CHANGES == 0,
        ((value & !port::CHANGES) | (which & port::CHANGES)) & port::CHANGES == which
            & port::CHANGES,
{
    assert((value & !0x007E_0000u32) & 0x007E_0000u32 == 0) by (bit_vector);
    assert(((value & !0x007E_0000u32) | (which & 0x007E_0000u32)) & 0x007E_0000u32 == which
        & 0x007E_0000u32) by (bit_vector);
}

/// A reset always comes to an end: after seven outcomes it is over or has failed,
/// whatever the controller does.
pub proof fn law_a_reset_ends(outcomes: spec_fn(int) -> Outcome)
    ensures
        stage_at(outcomes, 7) matches Ok(stage) ==> stage == Reset::Over,
{
    reveal_with_fuel(stage_at, 8);
}

/// The stage of a reset after so many outcomes.
pub open spec fn stage_at(outcomes: spec_fn(int) -> Outcome, many: nat) -> Result<Reset, Trouble>
    decreases many,
{
    if many == 0 {
        Ok(Reset::Running)
    } else {
        match stage_at(outcomes, (many - 1) as nat) {
            Ok(stage) => stage_after(stage, outcomes(many - 1)),
            Err(trouble) => Err(trouble),
        }
    }
}

/// A controller is told to reset only once it has said that it halted.
pub proof fn law_it_is_halted_before_it_is_reset(outcome: Outcome)
    ensures
        stage_after(Reset::Halting, outcome) == Ok::<Reset, Trouble>(Reset::Resetting) ==> outcome
            != Outcome::Timeout,
        forall|stage: Reset, other: Outcome|
            #[trigger] stage_after(stage, other) == Ok::<Reset, Trouble>(Reset::Resetting)
                ==> stage == Reset::Halting,
{
}

} // verus!
