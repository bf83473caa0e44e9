//! A virtio display.
//!
//! It speaks the modern form of virtio: where its registers are is said by
//! capabilities, and its queue is in three pieces. It is told of a rectangle in
//! two commands: one has it copy the rectangle out of memory, and one has it
//! show the copy.
//!
//! Nothing here waits for its interrupt, so it is told not to interrupt before
//! its queue is in use.
use vstd::prelude::*;

use crate::bytes::{get_u32, u32_at};
use crate::count::{count, counted};
use crate::drivers::pci::{BaseAddress, Device};
use crate::drivers::virtio::{
    order_for, put_descriptor, put_entry, put_publish, status, Look, Step, COMPLETION_SPINS, NEXT,
    VENDOR, WRITE,
};
#[allow(unused_imports)]
use crate::drivers::virtio::{descriptor_steps, entry_step, is_order_for, publish_steps};
use crate::framebuffer::PixelFormat;

pub mod command;
pub mod common;
pub mod law;

verus! {

/// The display's number.
pub const NUMBER: u16 = 0x1050;

/// What a capability of virtio calls itself.
pub const CAPABILITY: u8 = 0x09;

/// The kinds of structures that are looked for.
pub const COMMON: u8 = 1;

pub const NOTIFY: u8 = 2;

pub const ISR: u8 = 3;

pub const DEVICE: u8 = 4;

/// The driver's ring: the device is not to interrupt.
pub const NO_INTERRUPT: u16 = 1;

/// The most descriptors of the queue that are used.
pub const QUEUE_SIZE: u16 = 64;

/// How often a device is looked at that is being reset.
pub const RESET_LOOKS: u32 = 100_000;

/// Where an answer goes in the scratch page, behind the command.
pub const ANSWER_AT: u64 = 2048;

/// Bytes of an answer.
pub const ANSWER: usize = 64;

/// Where a structure is.
#[derive(Debug, Clone, Copy, PartialEq, Eq, Structural)]
pub struct Window {
    /// In which of the device's windows.
    pub bar: u8,
    pub offset: u32,
    pub length: u32,
    /// How far apart the places are where two queues are told of.
    pub multiplier: u32,
}

/// The structures that were found.
#[derive(Debug, Clone, Copy, PartialEq, Eq, Structural)]
pub struct Windows {
    pub common: Option<Window>,
    pub notify: Option<Window>,
    pub isr: Option<Window>,
    pub device: Option<Window>,
}

impl Windows {
    /// Nothing found yet.
    pub fn new() -> (windows: Self)
        ensures
            windows == (Windows { common: None, notify: None, isr: None, device: None }),
    {
        Windows { common: None, notify: None, isr: None, device: None }
    }

    /// With a capability of some kind: the last of a kind is the one kept.
    pub open spec fn with(self, kind: u8, window: Window) -> Windows {
        if kind == COMMON {
            Windows { common: Some(window), ..self }
        } else if kind == NOTIFY {
            Windows { notify: Some(window), ..self }
        } else if kind == ISR {
            Windows { isr: Some(window), ..self }
        } else if kind == DEVICE {
            Windows { device: Some(window), ..self }
        } else {
            self
        }
    }

    /// Take in a capability: its identifier, its first four words, and the fifth,
    /// which only one kind has.
    pub fn look(
        &mut self,
        identifier: u8,
        first: u32,
        bar: u32,
        offset: u32,
        length: u32,
        multiplier: u32,
    )
        ensures
            *final(self) == if identifier != CAPABILITY {
                *old(self)
            } else {
                let kind = (first / 0x100_0000) as u8;
                old(self).with(
                    kind,
                    Window {
                        bar: (bar % 0x100) as u8,
                        offset,
                        length,
                        multiplier: if kind == NOTIFY {
                            multiplier
                        } else {
                            0
                        },
                    },
                )
            },
    {
        if identifier != CAPABILITY {
            return;
        }
        let kind: u8 = (first / 0x100_0000) as u8;
        let window = Window {
            bar: (bar % 0x100) as u8,
            offset,
            length,
            multiplier: if kind == NOTIFY {
                multiplier
            } else {
                0
            },
        };
        match kind {
            COMMON => {
                self.common = Some(window);
            },
            NOTIFY => {
                self.notify = Some(window);
            },
            ISR => {
                self.isr = Some(window);
            },
            DEVICE => {
                self.device = Some(window);
            },
            _ => {},
        }
    }

    /// The two structures a display cannot be driven without.
    pub fn needed(&self) -> (needed: Option<(Window, Window)>)
        ensures
            needed == match (self.common, self.notify) {
                (Some(common), Some(notify)) => Some((common, notify)),
                _ => None,
            },
    {
        match (self.common, self.notify) {
            (Some(common), Some(notify)) => Some((common, notify)),
            _ => None,
        }
    }
}

/// Find the display among the devices.
pub fn init(devices: &[Device]) -> (found: Option<usize>)
    ensures
        match found {
            Some(at) => {
                &&& at < devices@.len()
                &&& is_display(devices@[at as int])
                &&& forall|i: int| 0 <= i < at ==> !is_display(#[trigger] devices@[i])
            },
            None => forall|i: int| 0 <= i < devices@.len() ==> !is_display(#[trigger] devices@[i]),
        },
{
    let mut at: usize = 0;
    while at < devices.len()
        invariant
            at <= devices@.len(),
            forall|i: int| 0 <= i < at ==> !is_display(#[trigger] devices@[i]),
        decreases devices@.len() - at,
    {
        if devices[at].vendor == VENDOR && devices[at].device == NUMBER {
            return Some(at);
        }
        at += 1;
    }
    None
}

/// Whether a device is a display.
pub open spec fn is_display(device: Device) -> bool {
    device.vendor == VENDOR && device.device == NUMBER
}

/// Where a structure is in memory, and how much to map: at least a page. There
/// is none where its window is among the ports, or where it would be past the
/// end of memory.
pub fn map_window(base: BaseAddress, window: Window) -> (mapped: Option<(u64, u64)>)
    ensures
        mapped == match base {
            BaseAddress::Memory { base, .. } => if base + window.offset <= u64::MAX {
                Some(
                    (
                        (base + window.offset) as u64,
                        if window.length < 4096 {
                            4096u64
                        } else {
                            window.length as u64
                        },
                    ),
                )
            } else {
                None
            },
            BaseAddress::Port(_) => None,
        },
{
    match base {
        BaseAddress::Memory { base, .. } => {
            let at: u64 = match base.checked_add(window.offset as u64) {
                None => return None,
                Some(at) => at,
            };
            let length: u64 = if window.length < 4096 {
                4096
            } else {
                window.length as u64
            };
            Some((at, length))
        },
        BaseAddress::Port(_) => None,
    }
}

/// The pages a display needs: for the three pieces of its queue, and for a
/// command and its answer.
#[derive(Debug, Clone, Copy, PartialEq, Eq, Structural)]
pub struct Pages {
    pub queue: u64,
    pub available: u64,
    pub used: u64,
    pub scratch: u64,
}

impl Pages {
    /// They are where pages can be.
    pub open spec fn wf(self) -> bool {
        &&& self.queue <= u64::MAX - 0x10_0000
        &&& self.available <= u64::MAX - 0x10_0000
        &&& self.used <= u64::MAX - 0x10_0000
        &&& self.scratch <= u64::MAX - 0x10_0000
    }
}

/// A display.
#[derive(Debug, Clone, Copy, PartialEq, Eq, Structural)]
pub struct Gpu {
    /// Where its registers are mapped.
    pub common: u64,
    /// Where it is told of its queue.
    pub notify: u64,
    pub pages: Pages,
    /// Descriptors of its queue that are used.
    pub size: u16,
    /// Where the pixels are that it shows.
    pub frame: u64,
    pub width: u32,
    pub height: u32,
    /// How far its ring has been looked at.
    pub seen: u16,
    /// Where its interrupt is acknowledged.
    pub isr: Option<u64>,
}

impl Gpu {
    /// It can be driven, and its pixels can be counted.
    pub open spec fn wf(self) -> bool {
        &&& self.common <= u64::MAX - 0x40
        &&& self.pages.wf()
        &&& 0 < self.size <= QUEUE_SIZE
        &&& self.width * self.height <= 0x1000_0000_0000_0000
    }
}

/// The display, whether it is being told something, and the counts.
pub struct State {
    gpu: Option<Gpu>,
    busy: bool,
    commands: u64,
    flushes: u64,
}

/// The same, as a value.
pub struct Model {
    pub gpu: Option<Gpu>,
    /// Whether a rectangle is being shown.
    pub busy: bool,
    /// Commands that were answered.
    pub commands: u64,
    /// Rectangles that were shown.
    pub flushes: u64,
}

impl View for State {
    type V = Model;

    closed spec fn view(&self) -> Model {
        Model { gpu: self.gpu, busy: self.busy, commands: self.commands, flushes: self.flushes }
    }
}

impl State {
    /// The display can be driven.
    pub open spec fn wf(&self) -> bool {
        self@.gpu matches Some(gpu) ==> gpu.wf()
    }

    /// No display.
    pub fn new() -> (state: Self)
        ensures
            state.wf(),
            state@ == (Model { gpu: None, busy: false, commands: 0, flushes: 0 }),
    {
        State { gpu: None, busy: false, commands: 0, flushes: 0 }
    }

    /// The display.
    pub fn gpu(&self) -> (gpu: Option<Gpu>)
        ensures
            gpu == self@.gpu,
    {
        self.gpu
    }
}

/// Where to ask the display how it is, if there is one.
pub fn status_register(state: &State) -> (at: Option<u64>)
    requires
        state.wf(),
    ensures
        at == match state@.gpu {
            Some(gpu) => Some((gpu.common + common::DEVICE_STATUS) as u64),
            None => None,
        },
{
    match state.gpu {
        Some(gpu) => Some(gpu.common + common::DEVICE_STATUS),
        None => None,
    }
}

/// Whether there is a display that runs, given what it says of itself: one that
/// failed wants to be reset.
pub fn is_present(state: &State, status: u8) -> (present: bool)
    ensures
        present == (state@.gpu is Some && (status / 4) % 2 == 1 && (status / 64) % 2 == 0),
{
    state.gpu.is_some() && (status / 4) % 2 == 1 && (status / 64) % 2 == 0
}

/// Commands that were answered, and rectangles that were shown.
pub fn statistics(state: &State) -> (counts: (u64, u64))
    ensures
        counts == (state@.commands, state@.flushes),
{
    (state.commands, state.flushes)
}

/// How far bringing a display up has got.
#[derive(Debug, Clone, Copy, PartialEq, Eq, Structural)]
pub enum Stage {
    /// It is being reset: so many looks are left.
    Resetting(u32),
    /// It was asked what it offers.
    Offering,
    /// It was asked whether it takes what was agreed to.
    Accepting,
    /// It was asked how many queues it has.
    Counting,
    /// It was asked how large its queue is.
    Sizing,
    /// The queue is to be of this size, and needs memory.
    Placing(u16),
    /// It was asked where it is told of its queue.
    Notifying(u16, Pages),
}

/// What is wanted next.
#[derive(Debug, Clone, Copy, PartialEq, Eq, Structural)]
pub enum Wanted {
    /// A byte of a register.
    Read8(u64),
    /// Two bytes of a register.
    Read16(u64),
    /// Four bytes of a register.
    Read32(u64),
    /// Memory.
    Pages,
    /// Nothing: it is up.
    Ready(Gpu),
    /// Nothing: it cannot be driven.
    Failed,
}

/// A display being brought up.
#[derive(Debug, Clone, Copy, PartialEq, Eq, Structural)]
pub struct BringUp {
    pub common: u64,
    pub notify: u64,
    pub multiplier: u32,
    pub isr: Option<u64>,
    pub stage: Stage,
}

/// Whether a queue can be of a size.
pub open spec fn is_queue_size(size: u16) -> bool {
    size == 1 || size == 2 || size == 4 || size == 8 || size == 16 || size == 32 || size == 64
}

/// The steps that write eight bytes of a register: the low half first.
pub open spec fn register64(at: u64, value: u64) -> Seq<Step> {
    seq![
        Step::Register32 { register: at, value32: (value % 0x1_0000_0000) as u32 },
        Step::Register32 { register: (at + 4) as u64, value32: (value / 0x1_0000_0000) as u32 },
    ]
}

fn put64(out: &mut Vec<Step>, at: u64, value: u64)
    requires
        at <= u64::MAX - 4,
    ensures
        final(out)@ == old(out)@ + register64(at, value),
{
    out.push(Step::Register32 { register: at, value32: (value % 0x1_0000_0000) as u32 });
    out.push(Step::Register32 { register: at + 4, value32: (value / 0x1_0000_0000) as u32 });
    assert(out@ =~= old(out)@ + register64(at, value));
}

impl BringUp {
    /// The registers are where registers can be, and a device being reset is
    /// looked at again.
    pub open spec fn wf(self) -> bool {
        &&& self.common <= u64::MAX - 0x40
        &&& match self.stage {
            Stage::Resetting(left) => 0 < left,
            Stage::Placing(size) => is_queue_size(size),
            Stage::Notifying(size, pages) => is_queue_size(size) && pages.wf(),
            _ => true,
        }
    }

    /// A register.
    pub open spec fn at(self, register: u64) -> u64 {
        (self.common + register) as u64
    }

    /// A write of how far the driver has got.
    pub open spec fn says(self, value: u8) -> Step {
        Step::Register8 { register: self.at(common::DEVICE_STATUS), value8: value }
    }

    /// A write of four bytes of a register.
    pub open spec fn sets(self, register: u64, value: u32) -> Step {
        Step::Register32 { register: self.at(register), value32: value }
    }

    /// The next stage, what to do, and what is wanted, given what was read.
    pub open spec fn after(self, value: u32) -> (Stage, Seq<Step>, Wanted) {
        let status_at = self.at(common::DEVICE_STATUS);
        let failed = (self.stage, seq![self.says(status::FAILED)], Wanted::Failed);
        match self.stage {
            Stage::Resetting(left) => if value == 0 {
                (
                    Stage::Offering,
                    seq![
                        self.says(1),
                        self.says(3),
                        self.sets(common::DEVICE_FEATURE_SELECT, 1),
                    ],
                    Wanted::Read32(self.at(common::DEVICE_FEATURE)),
                )
            } else if left > 1 {
                (
                    Stage::Resetting((left - 1) as u32),
                    Seq::<Step>::empty(),
                    Wanted::Read8(status_at),
                )
            } else {
                failed
            },
            Stage::Offering => if value % 2 == 0 {
                failed
            } else {
                (
                    Stage::Accepting,
                    seq![
                        self.sets(common::DRIVER_FEATURE_SELECT, 0),
                        self.sets(common::DRIVER_FEATURE, 0),
                        self.sets(common::DRIVER_FEATURE_SELECT, 1),
                        self.sets(common::DRIVER_FEATURE, 1),
                        self.says(11),
                    ],
                    Wanted::Read8(status_at),
                )
            },
            Stage::Accepting => if (value / 8) % 2 == 0 {
                failed
            } else {
                (
                    Stage::Counting,
                    Seq::<Step>::empty(),
                    Wanted::Read16(self.at(common::NUM_QUEUES)),
                )
            },
            Stage::Counting => if value == 0 {
                failed
            } else {
                (
                    Stage::Sizing,
                    seq![
                        Step::Register16 {
                            register: self.at(common::QUEUE_SELECT),
                            value16: 0,
                        },
                    ],
                    Wanted::Read16(self.at(common::QUEUE_SIZE)),
                )
            },
            Stage::Sizing => {
                let size = if value < 64 {
                    value as u16
                } else {
                    64
                };
                if !is_queue_size(size) {
                    failed
                } else {
                    (Stage::Placing(size), Seq::<Step>::empty(), Wanted::Pages)
                }
            },
            Stage::Placing(_) => failed,
            Stage::Notifying(size, pages) => (
                self.stage,
                seq![self.says(15)],
                Wanted::Ready(
                    Gpu {
                        common: self.common,
                        notify: (self.notify + value * self.multiplier) as u64,
                        pages,
                        size,
                        frame: 0,
                        width: 0,
                        height: 0,
                        seen: 0,
                        isr: self.isr,
                    },
                ),
            ),
        }
    }

    /// The steps that give the device its queue: where its pieces are and how
    /// large it is, that the device is not to interrupt, and only then that the
    /// queue is in use.
    pub open spec fn placing(self, size: u16, pages: Pages) -> Seq<Step> {
        register64(self.at(common::QUEUE_DESCRIPTORS), pages.queue) + register64(
            self.at(common::QUEUE_AVAILABLE),
            pages.available,
        ) + register64(self.at(common::QUEUE_USED), pages.used) + seq![
            Step::Register16 { register: self.at(common::QUEUE_SIZE), value16: size },
            Step::Half { at: pages.available, half: NO_INTERRUPT },
            Step::Fence,
            Step::Register16 { register: self.at(common::QUEUE_ENABLE), value16: 1 },
        ]
    }

    fn says_to(&self, out: &mut Vec<Step>, value: u8)
        requires
            self.common <= u64::MAX - 0x40,
        ensures
            final(out)@ == old(out)@.push(self.says(value)),
    {
        out.push(
            Step::Register8 { register: self.common + common::DEVICE_STATUS, value8: value },
        );
    }

    fn sets_to(&self, out: &mut Vec<Step>, register: u64, value: u32)
        requires
            self.common <= u64::MAX - 0x40,
            register <= 0x38,
        ensures
            final(out)@ == old(out)@.push(self.sets(register, value)),
    {
        out.push(Step::Register32 { register: self.common + register, value32: value });
    }

    /// Give the display up: the device is told so, which is the last thing it is
    /// told.
    fn fails(&self) -> (last: (Vec<Step>, Wanted))
        requires
            self.common <= u64::MAX - 0x40,
        ensures
            last.0@ == seq![self.says(status::FAILED)],
            last.1 == Wanted::Failed,
    {
        let mut steps: Vec<Step> = Vec::new();
        self.says_to(&mut steps, status::FAILED);
        assert(steps@ =~= seq![self.says(status::FAILED)]);
        (steps, Wanted::Failed)
    }

    /// Go on, given what was read.
    pub fn answered(&mut self, value: u32) -> (next: (Vec<Step>, Wanted))
        requires
            old(self).wf(),
            old(self).stage is Notifying ==> old(self).notify + value * old(self).multiplier
                <= u64::MAX,
        ensures
            final(self).wf(),
            *final(self) == (BringUp { stage: old(self).after(value).0, ..*old(self) }),
            next.0@ == old(self).after(value).1,
            next.1 == old(self).after(value).2,
    {
        let status_at: u64 = self.common + common::DEVICE_STATUS;
        let mut steps: Vec<Step> = Vec::new();
        let ghost wanted_steps = self.after(value).1;
        match self.stage {
            Stage::Resetting(left) => {
                if value == 0 {
                    self.says_to(&mut steps, status::ACKNOWLEDGE);
                    self.says_to(&mut steps, status::ACKNOWLEDGE + status::DRIVER);
                    self.sets_to(&mut steps, common::DEVICE_FEATURE_SELECT, 1);
                    assert(steps@ =~= wanted_steps);
                    self.stage = Stage::Offering;
                    (steps, Wanted::Read32(self.common + common::DEVICE_FEATURE))
                } else if left > 1 {
                    self.stage = Stage::Resetting(left - 1);
                    (steps, Wanted::Read8(status_at))
                } else {
                    self.fails()
                }
            },
            Stage::Offering => {
                if value % 2 == 0 {
                    return self.fails();
                }
                self.sets_to(&mut steps, common::DRIVER_FEATURE_SELECT, 0);
                self.sets_to(&mut steps, common::DRIVER_FEATURE, 0);
                self.sets_to(&mut steps, common::DRIVER_FEATURE_SELECT, 1);
                self.sets_to(&mut steps, common::DRIVER_FEATURE, 1);
                self.says_to(
                    &mut steps,
                    status::ACKNOWLEDGE + status::DRIVER + status::FEATURES_OK,
                );
                assert(steps@ =~= wanted_steps);
                self.stage = Stage::Accepting;
                (steps, Wanted::Read8(status_at))
            },
            Stage::Accepting => {
                if (value / 8) % 2 == 0 {
                    return self.fails();
                }
                self.stage = Stage::Counting;
                (steps, Wanted::Read16(self.common + common::NUM_QUEUES))
            },
            Stage::Counting => {
                if value == 0 {
                    return self.fails();
                }
                steps.push(
                    Step::Register16 {
                        register: self.common + common::QUEUE_SELECT,
                        value16: 0,
                    },
                );
                assert(steps@ =~= wanted_steps);
                self.stage = Stage::Sizing;
                (steps, Wanted::Read16(self.common + common::QUEUE_SIZE))
            },
            Stage::Sizing => {
                let size: u16 = if value < 64 {
                    value as u16
                } else {
                    QUEUE_SIZE
                };
                if size == 1 || size == 2 || size == 4 || size == 8 || size == 16 || size == 32
                    || size == 64 {
                    self.stage = Stage::Placing(size);
                    (steps, Wanted::Pages)
                } else {
                    self.fails()
                }
            },
            Stage::Placing(_) => self.fails(),
            Stage::Notifying(size, pages) => {
                self.says_to(
                    &mut steps,
                    status::ACKNOWLEDGE + status::DRIVER + status::FEATURES_OK + status::DRIVER_OK,
                );
                assert(steps@ =~= wanted_steps);
                assert(0 <= value * self.multiplier) by (nonlinear_arith)
                    requires
                        value >= 0,
                        self.multiplier >= 0,
                ;
                let gpu = Gpu {
                    common: self.common,
                    notify: self.notify + value as u64 * self.multiplier as u64,
                    pages,
                    size,
                    frame: 0,
                    width: 0,
                    height: 0,
                    seen: 0,
                    isr: self.isr,
                };
                (steps, Wanted::Ready(gpu))
            },
        }
    }

    /// Go on, given the memory that was wanted, if there was any.
    pub fn given(&mut self, pages: Option<Pages>) -> (next: (Vec<Step>, Wanted))
        requires
            old(self).wf(),
            pages matches Some(pages) ==> pages.wf(),
        ensures
            final(self).wf(),
            match (old(self).stage, pages) {
                (Stage::Placing(size), Some(pages)) => {
                    &&& *final(self) == (BringUp {
                        stage: Stage::Notifying(size, pages),
                        ..*old(self)
                    })
                    &&& next.0@ == old(self).placing(size, pages)
                    &&& next.1 == Wanted::Read16(old(self).at(common::QUEUE_NOTIFY_OFF))
                },
                _ => {
                    &&& *final(self) == *old(self)
                    &&& next.0@ == seq![old(self).says(status::FAILED)]
                    &&& next.1 == Wanted::Failed
                },
            },
    {
        let mut steps: Vec<Step> = Vec::new();
        match (self.stage, pages) {
            (Stage::Placing(size), Some(pages)) => {
                put64(&mut steps, self.common + common::QUEUE_DESCRIPTORS, pages.queue);
                put64(&mut steps, self.common + common::QUEUE_AVAILABLE, pages.available);
                put64(&mut steps, self.common + common::QUEUE_USED, pages.used);
                steps.push(
                    Step::Register16 {
                        register: self.common + common::QUEUE_SIZE,
                        value16: size,
                    },
                );
                steps.push(Step::Half { at: pages.available, half: NO_INTERRUPT });
                steps.push(Step::Fence);
                steps.push(
                    Step::Register16 { register: self.common + common::QUEUE_ENABLE, value16: 1 },
                );
                assert(steps@ =~= self.placing(size, pages));
                self.stage = Stage::Notifying(size, pages);
                (steps, Wanted::Read16(self.common + common::QUEUE_NOTIFY_OFF))
            },
            _ => self.fails(),
        }
    }
}

/// Start to bring a display up: it is reset, and looked at until it is.
pub fn bring_up(common_at: u64, notify: u64, multiplier: u32, isr: Option<u64>) -> (start: (
    BringUp,
    Vec<Step>,
    Wanted,
))
    requires
        common_at <= u64::MAX - 0x40,
    ensures
        start.0.wf(),
        start.0 == (BringUp {
            common: common_at,
            notify,
            multiplier,
            isr,
            stage: Stage::Resetting(RESET_LOOKS),
        }),
        start.1@ == seq![start.0.says(0)],
        start.2 == Wanted::Read8((common_at + common::DEVICE_STATUS) as u64),
{
    let bring = BringUp {
        common: common_at,
        notify,
        multiplier,
        isr,
        stage: Stage::Resetting(RESET_LOOKS),
    };
    let mut steps: Vec<Step> = Vec::new();
    bring.says_to(&mut steps, 0);
    assert(steps@ =~= seq![bring.says(0)]);
    (bring, steps, Wanted::Read8(common_at + common::DEVICE_STATUS))
}

/// The steps that send a command of some length, for an answer of some length,
/// given the driver's index.
pub open spec fn asking(gpu: Gpu, request: usize, reply: usize, index: u16) -> Seq<Step> {
    let answer = (gpu.pages.scratch + ANSWER_AT) as u64;
    seq![
        Step::Data { at: gpu.pages.scratch, length: request as u64 },
        Step::Zeros { at: answer, many: reply as u64 },
    ] + descriptor_steps(gpu.pages.queue, 0, gpu.pages.scratch, request as u32, NEXT, 1)
        + descriptor_steps(gpu.pages.queue, 1, answer, reply as u32, WRITE, 0) + seq![
        entry_step(gpu.pages.available, index, gpu.size, 0),
    ] + publish_steps(gpu.pages.available, index) + seq![
        Step::Register16 { register: gpu.notify, value16: 0 },
    ]
}

/// Whether a command can be sent: it fits in front of its answer, and the answer
/// has room for its kind.
pub open spec fn can_ask(request: usize, reply: usize) -> bool {
    request <= ANSWER_AT && reply >= 4
}

/// Send a command.
pub fn ask(gpu: &Gpu, request: usize, reply: usize, index: u16) -> (steps: Option<Vec<Step>>)
    requires
        gpu.wf(),
        reply <= 2048,
    ensures
        match steps {
            Some(steps) => can_ask(request, reply) && steps@ == asking(*gpu, request, reply, index),
            None => !can_ask(request, reply),
        },
{
    if request > ANSWER_AT as usize || reply < 4 {
        return None;
    }
    let scratch: u64 = gpu.pages.scratch;
    let answer: u64 = scratch + ANSWER_AT;
    let mut steps: Vec<Step> = Vec::new();
    steps.push(Step::Data { at: scratch, length: request as u64 });
    steps.push(Step::Zeros { at: answer, many: reply as u64 });
    put_descriptor(&mut steps, gpu.pages.queue, 0, scratch, request as u32, NEXT, 1);
    put_descriptor(&mut steps, gpu.pages.queue, 1, answer, reply as u32, WRITE, 0);
    put_entry(&mut steps, gpu.pages.available, index, gpu.size, 0);
    put_publish(&mut steps, gpu.pages.available, index);
    steps.push(Step::Register16 { register: gpu.notify, value16: 0 });
    assert(steps@ =~= asking(*gpu, request, reply, index));
    Some(steps)
}

/// A command that was sent: so many looks are left.
#[derive(Debug, Clone, Copy, PartialEq, Eq, Structural)]
pub struct Asked {
    pub seen: u16,
    pub left: u32,
}

impl Asked {
    /// Start to wait for an answer.
    pub fn new(gpu: &Gpu) -> (asked: Self)
        ensures
            asked == (Asked { seen: gpu.seen, left: COMPLETION_SPINS }),
    {
        Asked { seen: gpu.seen, left: COMPLETION_SPINS }
    }

    /// Look at the device's index.
    pub fn look(&mut self, used: u16) -> (look: Look)
        requires
            old(self).left > 0,
        ensures
            if used != old(self).seen {
                look == Look::Done && *final(self) == *old(self)
            } else if old(self).left > 1 {
                look == Look::Again && *final(self) == (Asked {
                    left: (old(self).left - 1) as u32,
                    ..*old(self)
                })
            } else {
                look == Look::TimedOut && *final(self) == *old(self)
            },
    {
        if used != self.seen {
            return Look::Done;
        }
        if self.left > 1 {
            self.left = self.left - 1;
            Look::Again
        } else {
            Look::TimedOut
        }
    }
}

/// Take an answer in, given the device's index: what kind it is.
pub fn answered(state: &mut State, gpu: &mut Gpu, used: u16, reply: &[u8]) -> (kind: u32)
    requires
        old(state).wf(),
        old(gpu).wf(),
        reply@.len() >= 4,
    ensures
        final(state).wf(),
        final(gpu).wf(),
        kind == u32_at(reply@, 0),
        *final(gpu) == (Gpu { seen: used, ..*old(gpu) }),
        final(state)@ == (Model { commands: counted(old(state)@.commands, 1), ..old(state)@ }),
{
    gpu.seen = used;
    state.commands = count(state.commands, 1);
    get_u32(reply, 0)
}

/// Whether a command was done.
pub open spec fn is_done(kind: Option<u32>) -> bool {
    kind == Some(command::OK_NODATA)
}

/// Whether a command was done, given the kind of its answer, if there was one.
pub fn expect_ok(kind: Option<u32>) -> (done: bool)
    ensures
        done == is_done(kind),
{
    match kind {
        Some(kind) => kind == command::OK_NODATA,
        None => false,
    }
}

/// How far making a screen has got.
#[derive(Debug, Clone, Copy, PartialEq, Eq, Structural)]
pub enum Screen {
    /// The display is asked how large it is.
    Asking,
    /// Memory is wanted for so many pixels.
    Allocating(u32, u32),
    Creating,
    Attaching,
    Showing,
    /// It shows the screen.
    Made,
}

/// The command of a stage, if it is one.
pub open spec fn screen_bytes(gpu: Gpu, stage: Screen) -> Option<Seq<u8>> {
    match stage {
        Screen::Asking => Some(command::header_bytes(command::GET_DISPLAY_INFO)),
        Screen::Allocating(_, _) => None,
        Screen::Creating => Some(command::create_bytes(gpu.width, gpu.height)),
        Screen::Attaching => Some(
            command::attach_bytes(
                gpu.frame,
                ((gpu.width * gpu.height * 4) % 0x1_0000_0000) as u32,
            ),
        ),
        Screen::Showing => Some(command::scanout_bytes(gpu.width, gpu.height)),
        Screen::Made => None,
    }
}

/// The command of a stage, if it is one.
pub fn make_screen(gpu: &Gpu, stage: Screen) -> (command: Option<Vec<u8>>)
    requires
        gpu.wf(),
    ensures
        match command {
            Some(command) => screen_bytes(*gpu, stage) == Some(command@),
            None => screen_bytes(*gpu, stage) is None,
        },
{
    match stage {
        Screen::Asking => Some(command::header(command::GET_DISPLAY_INFO)),
        Screen::Allocating(_, _) => None,
        Screen::Creating => Some(command::create(gpu.width, gpu.height)),
        Screen::Attaching => {
            let bytes: u64 = pixel_bytes(gpu.width, gpu.height);
            Some(command::attach(gpu.frame, (bytes % 0x1_0000_0000) as u32))
        },
        Screen::Showing => Some(command::scanout(gpu.width, gpu.height)),
        Screen::Made => None,
    }
}

fn pixel_bytes(width: u32, height: u32) -> (bytes: u64)
    requires
        width * height <= 0x1000_0000_0000_0000,
    ensures
        bytes == width * height * 4,
{
    assert(0 <= width * height) by (nonlinear_arith)
        requires
            width >= 0,
            height >= 0,
    ;
    width as u64 * height as u64 * 4
}

/// What a display says its size is, where it has one that is on.
pub open spec fn display_size(kind: Option<u32>, reply: Seq<u8>) -> Option<(u32, u32)> {
    let width = u32_at(reply, 32);
    let height = u32_at(reply, 36);
    if kind == Some(command::OK_DISPLAY_INFO) && width != 0 && height != 0 && u32_at(reply, 40)
        != 0 {
        Some((width, height))
    } else {
        None
    }
}

/// The stage after one, given its answer, or nothing where the display would
/// not.
pub open spec fn screen_after(stage: Screen, kind: Option<u32>, reply: Seq<u8>) -> Option<Screen> {
    match stage {
        Screen::Asking => match display_size(kind, reply) {
            Some((width, height)) => Some(Screen::Allocating(width, height)),
            None => None,
        },
        Screen::Creating => if is_done(kind) {
            Some(Screen::Attaching)
        } else {
            None
        },
        Screen::Attaching => if is_done(kind) {
            Some(Screen::Showing)
        } else {
            None
        },
        Screen::Showing => if is_done(kind) {
            Some(Screen::Made)
        } else {
            None
        },
        _ => None,
    }
}

/// Go on making a screen, given the kind of the answer to a stage's command, if
/// there was one, and the answer.
pub fn screen_next(stage: Screen, kind: Option<u32>, reply: &[u8]) -> (next: Option<Screen>)
    requires
        reply@.len() >= 44,
    ensures
        next == screen_after(stage, kind, reply@),
{
    match stage {
        Screen::Asking => {
            match kind {
                None => None,
                Some(kind) => {
                    let width: u32 = get_u32(reply, 32);
                    let height: u32 = get_u32(reply, 36);
                    if kind != command::OK_DISPLAY_INFO || width == 0 || height == 0 || get_u32(
                        reply,
                        40,
                    ) == 0 {
                        return None;
                    }
                    Some(Screen::Allocating(width, height))
                },
            }
        },
        Screen::Creating => if expect_ok(kind) {
            Some(Screen::Attaching)
        } else {
            None
        },
        Screen::Attaching => if expect_ok(kind) {
            Some(Screen::Showing)
        } else {
            None
        },
        Screen::Showing => if expect_ok(kind) {
            Some(Screen::Made)
        } else {
            None
        },
        _ => None,
    }
}

/// The order of the block that holds so many pixels, of four bytes each.
pub fn screen_order(width: u32, height: u32) -> (order: u32)
    requires
        width * height <= 0x1000_0000_0000_0000,
    ensures
        is_order_for(order as nat, (width * height * 4) as nat),
{
    order_for(pixel_bytes(width, height))
}

/// Give a screen the memory that was found for it.
pub fn screen_memory(gpu: &mut Gpu, width: u32, height: u32, frame: Option<u64>) -> (next: Option<
    Screen,
>)
    requires
        old(gpu).wf(),
        width * height <= 0x1000_0000_0000_0000,
    ensures
        final(gpu).wf(),
        match frame {
            Some(frame) => {
                &&& next == Some(Screen::Creating)
                &&& *final(gpu) == (Gpu { frame, width, height, ..*old(gpu) })
            },
            None => next is None && *final(gpu) == (Gpu { width, height, ..*old(gpu) }),
        },
{
    gpu.width = width;
    gpu.height = height;
    match frame {
        Some(frame) => {
            gpu.frame = frame;
            Some(Screen::Creating)
        },
        None => None,
    }
}

/// Keep a display that has a screen.
pub fn adopt(state: &mut State, gpu: Gpu)
    requires
        old(state).wf(),
        gpu.wf(),
    ensures
        final(state).wf(),
        final(state)@ == (Model { gpu: Some(gpu), ..old(state)@ }),
{
    state.gpu = Some(gpu);
}

/// Where to read to let go of the interrupt line. What is read there is not
/// looked at: the reading is what counts.
pub fn acknowledge(state: &State) -> (at: Option<u64>)
    ensures
        at == match state@.gpu {
            Some(gpu) => gpu.isr,
            None => None,
        },
{
    match state.gpu {
        Some(gpu) => gpu.isr,
        None => None,
    }
}

/// What a display shows, as a framebuffer.
#[derive(Debug, Clone, Copy, PartialEq, Eq, Structural)]
pub struct Scanout {
    pub phys_addr: u64,
    pub size: u64,
    pub width: u32,
    pub height: u32,
    pub stride: u32,
    pub bytes_per_pixel: u32,
    pub format: PixelFormat,
}

/// What the display shows, as a framebuffer without padding.
pub fn framebuffer(state: &State) -> (scanout: Option<Scanout>)
    requires
        state.wf(),
    ensures
        scanout == match state@.gpu {
            None => None,
            Some(gpu) => Some(
                Scanout {
                    phys_addr: gpu.frame,
                    size: (gpu.width * gpu.height * 4) as u64,
                    width: gpu.width,
                    height: gpu.height,
                    stride: gpu.width,
                    bytes_per_pixel: 4,
                    format: PixelFormat::Bgrx8888,
                },
            ),
        },
{
    match state.gpu {
        None => None,
        Some(gpu) => Some(
            Scanout {
                phys_addr: gpu.frame,
                size: pixel_bytes(gpu.width, gpu.height),
                width: gpu.width,
                height: gpu.height,
                stride: gpu.width,
                bytes_per_pixel: 4,
                format: PixelFormat::Bgrx8888,
            },
        ),
    }
}

/// The two commands that show a rectangle, in the order they are sent.
#[derive(Debug)]
pub struct Flush {
    pub transfer: Vec<u8>,
    pub show: Vec<u8>,
}

/// Where a pixel is in the memory of a screen.
pub open spec fn pixel_at(width: u32, x: u32, y: u32) -> int {
    (y * width + x) * 4
}

/// Show a rectangle: the commands, if there is a display and a rectangle, and
/// nothing else is being shown.
pub fn flush(state: &mut State, x: u32, y: u32, width: u32, height: u32) -> (flush: Option<Flush>)
    requires
        old(state).wf(),
        old(state)@.gpu matches Some(gpu) ==> pixel_at(gpu.width, x, y) <= u64::MAX,
    ensures
        final(state).wf(),
        match old(state)@.gpu {
            Some(gpu) if width != 0 && height != 0 => {
                &&& final(state)@ == (Model { busy: true, ..old(state)@ })
                &&& flush is None <==> old(state)@.busy
                &&& flush matches Some(flush) ==> {
                    &&& flush.transfer@ == command::transfer_bytes(
                        x,
                        y,
                        width,
                        height,
                        pixel_at(gpu.width, x, y) as u64,
                    )
                    &&& flush.show@ == command::show_bytes(x, y, width, height)
                }
            },
            _ => flush is None && final(state)@ == old(state)@,
        },
{
    let gpu: Gpu = match state.gpu {
        None => return None,
        Some(gpu) => gpu,
    };
    if width == 0 || height == 0 {
        return None;
    }
    let was_busy: bool = state.busy;
    state.busy = true;
    if was_busy {
        return None;
    }
    assert(0 <= y * gpu.width) by (nonlinear_arith)
        requires
            y >= 0,
            gpu.width >= 0,
    ;
    let offset: u64 = (y as u64 * gpu.width as u64 + x as u64) * 4;
    Some(
        Flush {
            transfer: command::transfer(x, y, width, height, offset),
            show: command::show(x, y, width, height),
        },
    )
}

/// Take in what came of showing a rectangle, and how far the display's ring has
/// been looked at.
pub fn flushed(state: &mut State, seen: u16, done: bool)
    requires
        old(state).wf(),
    ensures
        final(state).wf(),
        final(state)@ == (Model {
            gpu: match old(state)@.gpu {
                Some(gpu) => Some(Gpu { seen, ..gpu }),
                None => None,
            },
            busy: false,
            flushes: if done {
                counted(old(state)@.flushes, 1)
            } else {
                old(state)@.flushes
            },
            ..old(state)@
        }),
{
    match state.gpu {
        Some(gpu) => {
            state.gpu = Some(Gpu { seen, ..gpu });
        },
        None => {},
    }
    state.busy = false;
    if done {
        state.flushes = count(state.flushes, 1);
    }
}

/// The colours of the three bands.
pub const RED: u32 = 0x00FF_0000;

pub const GREEN: u32 = 0x0000_FF00;

pub const BLUE: u32 = 0x0000_00FF;

/// The colour of a row, of so many: three bands from the top.
pub open spec fn band_colour(height: u32, y: int) -> u32 {
    let band = height / 3;
    if y < band {
        RED
    } else if y < band * 2 {
        GREEN
    } else {
        BLUE
    }
}

/// A picture that is known: the colour of each row of the screen, if there is
/// one. The whole screen is shown afterwards.
pub fn self_test(state: &State) -> (rows: Option<Vec<u32>>)
    ensures
        match state@.gpu {
            None => rows is None,
            Some(gpu) => rows matches Some(rows) && rows@ == Seq::new(
                gpu.height as nat,
                |y: int| band_colour(gpu.height, y),
            ),
        },
{
    let gpu: Gpu = match state.gpu {
        None => return None,
        Some(gpu) => gpu,
    };
    let band: u32 = gpu.height / 3;
    let mut rows: Vec<u32> = Vec::new();
    let mut y: u32 = 0;
    while y < gpu.height
        invariant
            y <= gpu.height,
            band == gpu.height / 3,
            rows@ == Seq::new(y as nat, |y: int| band_colour(gpu.height, y)),
        decreases gpu.height - y,
    {
        rows.push(
            if y < band {
                RED
            } else if y < band * 2 {
                GREEN
            } else {
                BLUE
            },
        );
        y += 1;
        assert(rows@ =~= Seq::new(y as nat, |y: int| band_colour(gpu.height, y)));
    }
    Some(rows)
}

/// The display is told not to interrupt before its queue is in use, and a fence
/// stands between the two.
pub proof fn law_interrupts_are_refused_first(bring: BringUp, size: u16, pages: Pages)
    ensures
        bring.placing(size, pages).len() == 10,
        bring.placing(size, pages)[7] == (Step::Half { at: pages.available, half: NO_INTERRUPT }),
        bring.placing(size, pages)[8] == Step::Fence,
        bring.placing(size, pages)[9] == (Step::Register16 {
            register: bring.at(common::QUEUE_ENABLE),
            value16: 1,
        }),
{
}

/// A display that comes up went through the whole ladder: each stage is reached
/// from the one before it, and only with the answer that it asks for.
pub proof fn law_the_ladder_is_climbed(bring: BringUp, value: u32)
    ensures
        ({
            let next = bring.after(value).0;
            &&& next is Offering && next != bring.stage ==> bring.stage is Resetting && value == 0
            &&& next is Accepting && next != bring.stage ==> bring.stage is Offering && value % 2
                == 1
            &&& next is Counting && next != bring.stage ==> bring.stage is Accepting && (value / 8)
                % 2 == 1
            &&& next is Sizing && next != bring.stage ==> bring.stage is Counting && value > 0
            &&& next is Placing && next != bring.stage ==> bring.stage is Sizing && value > 0
            &&& bring.after(value).2 is Ready ==> bring.stage is Notifying
        }),
{
}

/// A display that cannot be driven is told so, and that is the last it is told.
/// One that comes up is told that its driver is ready only once its queue is in
/// use.
pub proof fn law_a_display_that_fails_is_given_up(bring: BringUp, value: u32)
    requires
        bring.wf(),
    ensures
        bring.after(value).2 is Failed ==> bring.after(value).1 == seq![
            bring.says(status::FAILED),
        ],
        bring.after(value).1.contains(bring.says(15)) ==> bring.stage is Notifying,
        bring.stage is Notifying ==> bring.after(value).1 == seq![bring.says(15)],
{
}

/// A reset ends: each look brings the end nearer.
pub proof fn law_a_reset_ends(bring: BringUp, value: u32)
    requires
        bring.wf(),
        bring.stage is Resetting,
    ensures
        match (bring.stage, bring.after(value).0) {
            (Stage::Resetting(before), Stage::Resetting(after)) => after < before
                || bring.after(value).2 is Failed,
            _ => true,
        },
{
}

/// A rectangle that is on the screen starts inside the screen's memory.
pub proof fn law_rectangles_start_on_the_screen(gpu: Gpu, x: u32, y: u32)
    requires
        x < gpu.width,
        y < gpu.height,
    ensures
        0 <= pixel_at(gpu.width, x, y),
        pixel_at(gpu.width, x, y) + 4 <= gpu.width * gpu.height * 4,
{
    assert(y * gpu.width + gpu.width <= gpu.height * gpu.width) by (nonlinear_arith)
        requires
            y + 1 <= gpu.height,
            0 <= gpu.width,
    ;
    assert(gpu.height * gpu.width == gpu.width * gpu.height) by (nonlinear_arith);
    assert(0 <= y * gpu.width) by (nonlinear_arith)
        requires
            y >= 0,
            gpu.width >= 0,
    ;
}

/// The bands are in order from the top, and each is a third of the screen but
/// for what is left over, which is the last one's.
pub proof fn law_three_bands(height: u32, y: int)
    requires
        0 <= y < height,
    ensures
        band_colour(height, y) == RED <==> y < height / 3,
        band_colour(height, y) == GREEN <==> height / 3 <= y < height / 3 * 2,
        band_colour(height, y) == BLUE <==> height / 3 * 2 <= y,
{
}

} // verus!
