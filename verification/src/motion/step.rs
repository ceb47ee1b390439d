//! Axis state machine steps. The operator panel renders the numeric values.
use vstd::prelude::*;

verus! {

/// Axis state machine step, published in `AxisState.step`.
#[derive(Clone, Copy, Debug, Default, PartialEq, Eq, Structural)]
pub enum Step {
    /// Idle, power off.
    #[default]
    Idle,
    /// Waiting for the drive to power up.
    Enabling,
    /// Ready for a command.
    Ready,
    /// The drive was faulty while enabling; waiting for recovery.
    NotReady,
    /// Jogging in the positive direction.
    JogPos,
    /// Jogging in the negative direction.
    JogNeg,
    /// Absolute move running.
    MoveAbs,
    /// Relative move running.
    MoveRel,
    /// Velocity move running.
    MoveVel,
    /// Writing homing parameters.
    HomingWriteParam,
    /// Homing running.
    HomingExec,
    /// Setting the position.
    SetPosition,
    /// Ramping down.
    Stopping,
    /// Waiting for standstill.
    WaitStop,
    /// Error latched, waiting for a reset.
    TryReset,
}

/// The number published for a step.
pub open spec fn step_number(step: Step) -> i32 {
    match step {
        Step::Idle => 0,
        Step::Enabling => 10,
        Step::Ready => 20,
        Step::NotReady => 25,
        Step::JogPos => 30,
        Step::JogNeg => 31,
        Step::MoveAbs => 40,
        Step::MoveRel => 50,
        Step::MoveVel => 60,
        Step::HomingWriteParam => 70,
        Step::HomingExec => 71,
        Step::SetPosition => 80,
        Step::Stopping => 90,
        Step::WaitStop => 91,
        Step::TryReset => 95,
    }
}

/// The steps that an emergency stop forces into `Stopping`.
pub open spec fn motion_step(step: Step) -> bool {
    step is JogPos || step is JogNeg || step is MoveAbs || step is MoveRel || step is MoveVel
        || step is HomingWriteParam || step is HomingExec || step is SetPosition
}

impl Step {
    pub fn as_i32(self) -> (r: i32)
        ensures
            r == step_number(self),
    {
        match self {
            Step::Idle => 0,
            Step::Enabling => 10,
            Step::Ready => 20,
            Step::NotReady => 25,
            Step::JogPos => 30,
            Step::JogNeg => 31,
            Step::MoveAbs => 40,
            Step::MoveRel => 50,
            Step::MoveVel => 60,
            Step::HomingWriteParam => 70,
            Step::HomingExec => 71,
            Step::SetPosition => 80,
            Step::Stopping => 90,
            Step::WaitStop => 91,
            Step::TryReset => 95,
        }
    }

    /// The steps that an emergency stop forces into `Stopping`.
    pub fn is_motion(self) -> (r: bool)
        ensures
            r == motion_step(self),
    {
        match self {
            Step::JogPos
            | Step::JogNeg
            | Step::MoveAbs
            | Step::MoveRel
            | Step::MoveVel
            | Step::HomingWriteParam
            | Step::HomingExec
            | Step::SetPosition => true,
            _ => false,
        }
    }
}

/// Two steps never share a number: a published number identifies its step.
pub proof fn step_numbers_are_distinct(a: Step, b: Step)
    ensures
        step_number(a) == step_number(b) <==> a == b,
{
}

} // verus!
