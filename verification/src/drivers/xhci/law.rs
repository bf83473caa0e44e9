//! What the controller's registers mean, in its own numbers: which bit of a port is
//! what, which register is where, and how it is reset.
use vstd::prelude::*;

#[allow(unused_imports)]
use super::{
    action_of, called, is_controller, laid_out, port, port_at, register, speed_of, stage_after,
    value_of, Action, At, Capabilities, Model, Outcome, Reset, Stage, Step, Survey, Trouble,
    PATIENCE_US, SETTLE_MS,
};
#[allow(unused_imports)]
use crate::drivers::pci::Device;

verus! {

/// The bits of a port, and how long the controller is waited for.
pub proof fn law_the_bits_of_a_port()
    ensures
        port::CONNECTED == 1,
        port::ENABLED == 2,
        port::RESET == 0x10,
        port::POWER == 0x200,
        port::CONNECT_CHANGE == 0x2_0000,
        port::RESET_CHANGE == 0x20_0000,
        port::CHANGES == 0x7E_0000,
        PATIENCE_US == 1_000_000,
        SETTLE_MS == 20,
        register::LENGTH == 0,
        register::PARAMS1 == 4,
        register::CAPPARAMS1 == 0x10,
        register::DOORBELL_OFFSET == 0x14,
        register::RUNTIME_OFFSET == 0x18,
        register::PAGE_SIZE == 8,
{
}

/// What the speeds are called.
pub proof fn law_what_speeds_are_called(speed: u32, value: u32)
    ensures
        called(1) == "full speed"@,
        called(2) == "low speed"@,
        called(3) == "high speed"@,
        called(4) == "SuperSpeed"@,
        called(5) == "SuperSpeed+"@,
        speed == 0 || speed > 5 ==> called(speed) == "an unknown speed"@,
        speed_of(value) == (value / 1024) % 16,
{
}

/// Where things are: the registers behind what the first byte says, the doorbells and
/// the rest at their offsets, and how many ports and slots there are at the two ends of
/// one word. The ports' registers are sixteen bytes apart from 0x400 on.
pub proof fn law_where_things_are(window: u64, said: Capabilities, state: Model, index: u64)
    requires
        window <= u64::MAX - 0x2_0000_0000,
    ensures
        ({
            let layout = laid_out(window, said);
            &&& layout.operational == window + said.length
            &&& layout.runtime == window + said.runtime_offset - said.runtime_offset % 32
            &&& layout.doorbells == window + said.doorbell_offset - said.doorbell_offset % 4
            &&& layout.ports == said.params1 / 0x100_0000
            &&& layout.slots == said.params1 % 0x100
            &&& layout.big_contexts <==> (said.capparams1 / 4) % 2 == 1
        }),
        port_at(state, index) == state.layout.operational + 0x400 + 16 * index,
{
}

/// Which device is such a controller: one on a serial bus, for this bus, that speaks
/// this way.
pub proof fn law_which_device_is_one(device: Device)
    ensures
        is_controller(device) <==> device.class == 0x0C && device.subclass == 3 && device.interface
            == 0x30,
{
}

/// How the controller is reset: what runs is stopped, it is waited for until it has
/// halted, it is told to reset and waited for until it has and is ready, and then it is
/// asked whether that failed.
pub proof fn law_how_it_is_reset(running: u32)
    ensures
        action_of(Reset::Running, running) == Action::Read(0),
        action_of(Reset::Stopping, running) == Action::Write(0, running & !1u32),
        action_of(Reset::Halting, running) == Action::UntilSet(4, 1),
        action_of(Reset::Resetting, running) == Action::Write(0, 2),
        action_of(Reset::Resetted, running) == Action::UntilClear(0, 2),
        action_of(Reset::Readying, running) == Action::UntilClear(4, 0x800),
        action_of(Reset::Checking, running) == Action::Read(4),
        action_of(Reset::Over, running) == Action::Done,
{
}

/// What follows each step of a reset, and which step it was stuck at where it took too
/// long or failed.
pub proof fn law_what_follows_each_step(outcome: Outcome, value: u32)
    ensures
        stage_after(Reset::Running, outcome) == Ok::<Reset, Trouble>(Reset::Stopping),
        stage_after(Reset::Stopping, outcome) == Ok::<Reset, Trouble>(Reset::Halting),
        stage_after(Reset::Halting, Outcome::Done) == Ok::<Reset, Trouble>(Reset::Resetting),
        stage_after(Reset::Resetting, outcome) == Ok::<Reset, Trouble>(Reset::Resetted),
        stage_after(Reset::Resetted, Outcome::Done) == Ok::<Reset, Trouble>(Reset::Readying),
        stage_after(Reset::Readying, Outcome::Done) == Ok::<Reset, Trouble>(Reset::Checking),
        value & 4 == 0 ==> stage_after(Reset::Checking, Outcome::Value(value)) == Ok::<
            Reset,
            Trouble,
        >(Reset::Over),
        value & 4 != 0 ==> stage_after(Reset::Checking, Outcome::Value(value)) == Err::<
            Reset,
            Trouble,
        >(Trouble::Stuck(Stage::Reset)),
        stage_after(Reset::Halting, Outcome::Timeout) == Err::<Reset, Trouble>(
            Trouble::Stuck(Stage::Halt),
        ),
        stage_after(Reset::Resetted, Outcome::Timeout) == Err::<Reset, Trouble>(
            Trouble::Stuck(Stage::ComeOutOfReset),
        ),
        stage_after(Reset::Readying, Outcome::Timeout) == Err::<Reset, Trouble>(
            Trouble::Stuck(Stage::BecomeReady),
        ),
        value_of(Outcome::Value(value)) == value,
        value_of(Outcome::Done) == 0,
{
}

/// How the ports are gone over: each gets power where it has none, and they are given
/// time; then each with a device on it that is not enabled is reset, the changes that
/// makes are cleared, and it counts where it is enabled after that.
pub proof fn law_how_the_ports_are_gone_over(survey: Survey, value: u32, in_time: bool)
    requires
        survey.wf(),
    ensures
        ({
            let (after, step) = survey.after(value, in_time);
            &&& survey.at matches At::Power(index) ==> (value & 0x200 == 0 ==> step == Step::Write(
                index,
                value | 0x200,
            ) && after.at == At::Powered(index))
            &&& survey.at matches At::Power(index) ==> (value & 0x200 != 0 ==> (after, step)
                == survey.powering((index + 1) as u64))
            &&& survey.at matches At::Powered(index) ==> (after, step) == survey.powering(
                (index + 1) as u64,
            )
            &&& survey.at is Settling ==> (after, step) == survey.looking(0)
            &&& survey.at matches At::Look(index) ==> {
                &&& value & 1 == 0 ==> (after, step) == survey.looking((index + 1) as u64)
                &&& value & 1 != 0 && value & 2 != 0 ==> (after, step) == Survey {
                    usable: (survey.usable + 1) as u64,
                    ..survey
                }.looking((index + 1) as u64)
                &&& value & 1 != 0 && value & 2 == 0 ==> step == Step::Write(index, value | 0x10)
                    && after.at == At::Resetting(index) && after.usable == survey.usable
            }
            &&& survey.at matches At::Resetting(index) ==> step == Step::WaitReset(index) && after.at
                == At::Waiting(index)
            &&& survey.at matches At::Waiting(index) ==> {
                &&& in_time ==> step == Step::Clear(index, 0x20_0000u32 | 0x2_0000u32) && after.at
                    == At::Clearing(index)
                &&& !in_time ==> (after, step) == survey.looking((index + 1) as u64)
            }
            &&& survey.at matches At::Clearing(index) ==> step == Step::Read(index) && after.at
                == At::Again(index)
            &&& survey.at matches At::Again(index) ==> {
                &&& value & 2 != 0 ==> (after, step) == Survey {
                    usable: (survey.usable + 1) as u64,
                    ..survey
                }.looking((index + 1) as u64)
                &&& value & 2 == 0 ==> (after, step) == survey.looking((index + 1) as u64)
            }
        }),
{
}

/// Going on to a port reads it, and past the last one the round is over.
pub proof fn law_going_on_to_a_port(survey: Survey, index: u64)
    ensures
        index < survey.ports ==> {
            &&& survey.looking(index).1 == Step::Read(index)
            &&& survey.looking(index).0.at == At::Look(index)
            &&& survey.powering(index).1 == Step::Read(index)
            &&& survey.powering(index).0.at == At::Power(index)
        },
        index >= survey.ports ==> {
            &&& survey.looking(index).1 == Step::Over(survey.usable)
            &&& survey.powering(index).1 == Step::Settle
            &&& survey.powering(index).0.at == At::Settling
        },
        survey.looking(index).0.usable == survey.usable && survey.powering(index).0.usable
            == survey.usable,
{
}

} // verus!
