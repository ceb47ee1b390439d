//! The vocabulary shared between the motion core and any fieldbus: per-axis
//! capability, the cyclic process image, bus state, events and errors.
//!
//! Bus-native types stay inside the adapters. Two very different buses fit
//! behind these types: hard-real-time cyclic trajectories (a fresh setpoint
//! every cycle, the trajectory runs in the motion core) and soft polling
//! (a target and limits are forwarded, the drive profiles internally).
use vstd::prelude::*;

use crate::scalar::Scalar;
use crate::text::{decimal, hexadecimal, join, numeral};
use crate::time::Duration;

verus! {

/// Index of an axis slot on one bus instance (0-based, dense).
#[derive(Clone, Copy, Debug, PartialEq, Eq, Hash, Structural)]
pub struct AxisId(pub usize);

impl AxisId {
    /// How the axis is named in messages.
    pub open spec fn text(self) -> Seq<char> {
        "axis"@ + numeral(self.0 as nat, 10)
    }

    /// How the axis is named in messages.
    pub fn to_text(self) -> (r: String)
        ensures
            r@ == self.text(),
    {
        join("axis", decimal(self.0 as u64).as_str())
    }
}

/// Cycle timing class of an axis.
#[derive(Clone, Copy, Debug, PartialEq, Eq, Structural)]
pub enum CycleClass {
    /// Hard real-time: one bus transaction every `cycle`.
    HardRt { cycle: Duration },
    /// Soft polling at `nominal`; inputs are cached between polls.
    SoftPoll { nominal: Duration },
}

/// Where the trajectory of an axis runs.
#[derive(Clone, Copy, Debug, PartialEq, Eq, Structural)]
pub enum SetpointKind {
    /// The backend consumes a fresh setpoint every cycle.
    CyclicTrajectory,
    /// The drive profiles internally toward a forwarded target.
    TargetForwarding,
}

/// Operating modes an axis supports.
#[derive(Clone, Copy, Debug, Default, PartialEq, Eq, Structural)]
pub struct OpModes {
    pub position: bool,
    pub velocity: bool,
    pub torque: bool,
    pub homing: bool,
}

/// Per-axis capability, stable once the bus has started.
#[derive(Clone, Copy, Debug, PartialEq, Eq, Structural)]
pub struct AxisCapability {
    pub cycle: CycleClass,
    pub setpoint: SetpointKind,
    pub modes: OpModes,
}

/// Drive power and health, normalised across buses.
#[derive(Clone, Copy, Debug, Default, PartialEq, Eq, Structural)]
pub enum DriveStatus {
    /// Not on the bus, or no valid inputs yet.
    #[default]
    Offline,
    /// Powered but not enabled; does not follow setpoints.
    Disabled,
    /// Enable requested, power stage not yet operational.
    Enabling,
    /// Operational: follows setpoints.
    Enabled,
    /// Quick-stop ramp active.
    QuickStop,
    /// Drive fault; `AxisIn::fault_code` carries the bus-native code.
    Fault,
}

/// Per-axis inputs, in user units.
#[derive(Clone, Copy, Debug, PartialEq, Eq, Structural)]
pub struct AxisIn {
    pub act_pos: Scalar,
    pub act_vel: Scalar,
    pub drive: DriveStatus,
    /// Bus-native fault code, 0 = none.
    pub fault_code: u32,
    pub pos_limit: bool,
    pub neg_limit: bool,
    /// The axis has a valid home reference.
    pub homed: bool,
}

/// No valid inputs yet: offline at zero, nothing asserted.
pub open spec fn axis_in_at_rest() -> AxisIn {
    AxisIn {
        act_pos: Scalar { bits: 0 },
        act_vel: Scalar { bits: 0 },
        drive: DriveStatus::Offline,
        fault_code: 0,
        pos_limit: false,
        neg_limit: false,
        homed: false,
    }
}

impl Default for AxisIn {
    fn default() -> (r: AxisIn)
        ensures
            r == axis_in_at_rest(),
    {
        AxisIn {
            act_pos: Scalar { bits: 0 },
            act_vel: Scalar { bits: 0 },
            drive: DriveStatus::Offline,
            fault_code: 0,
            pos_limit: false,
            neg_limit: false,
            homed: false,
        }
    }
}

/// Motion demand for one axis for one cycle.
#[derive(Clone, Copy, Debug, Default, PartialEq, Eq, Structural)]
pub enum Setpoint {
    /// No motion demand: hold position.
    #[default]
    Hold,
    /// Position for this cycle plus velocity feed-forward.
    CyclicPosition { pos: Scalar, vel_ff: Scalar },
    /// Velocity for this cycle.
    CyclicVelocity { vel: Scalar },
    /// The drive profiles internally toward `pos`.
    TargetPosition { pos: Scalar, vel: Scalar, acc: Scalar, dec: Scalar },
    /// Sustained velocity with drive-internal ramps.
    TargetVelocity { vel: Scalar, acc: Scalar, dec: Scalar },
    /// Run the drive's homing sequence; completion shows in `AxisIn::homed`.
    Home,
}

/// Per-axis outputs.
#[derive(Clone, Copy, Debug, PartialEq, Eq, Structural)]
pub struct AxisOut {
    /// Desired power stage state.
    pub enable: bool,
    /// Level-held fault-reset request; the adapter edges it into the drive.
    pub fault_reset: bool,
    pub setpoint: Setpoint,
}

/// Power off, nothing requested.
pub open spec fn axis_out_off() -> AxisOut {
    AxisOut { enable: false, fault_reset: false, setpoint: Setpoint::Hold }
}

impl Default for AxisOut {
    fn default() -> (r: AxisOut)
        ensures
            r == axis_out_off(),
    {
        AxisOut { enable: false, fault_reset: false, setpoint: Setpoint::Hold }
    }
}

/// Result of one cyclic exchange.
#[derive(Clone, Copy, Debug, PartialEq, Eq, Structural)]
pub struct ExchangeStatus {
    /// Every configured axis answered this cycle.
    pub all_axes_responding: bool,
    /// Inputs come from a transaction completed in this exchange.
    pub inputs_fresh: bool,
    /// Every device was in operation, and the working counter matched the value
    /// learned on entering it.
    pub working_counter_ok: bool,
    /// Where the bus paces the cycle: the wait from the exchange's start to
    /// the next one.
    pub next_cycle_wait: Option<Duration>,
}

/// Coarse bus lifecycle.
#[derive(Clone, Copy, Debug, PartialEq, Eq, Structural)]
pub enum BusState {
    Init,
    PreOp,
    SafeOp,
    Op,
}

impl BusState {
    /// The name of the state.
    pub fn name(self) -> (r: &'static str)
        ensures
            r@ == match self {
                BusState::Init => "Init"@,
                BusState::PreOp => "PreOp"@,
                BusState::SafeOp => "SafeOp"@,
                BusState::Op => "Op"@,
            },
    {
        match self {
            BusState::Init => "Init",
            BusState::PreOp => "PreOp",
            BusState::SafeOp => "SafeOp",
            BusState::Op => "Op",
        }
    }
}

/// Asynchronous bus happenings, drained from the cycle loop.
#[derive(Clone, Copy, Debug, PartialEq, Eq, Structural)]
pub enum BusEvent {
    BusStateChanged(BusState),
    /// An axis (re)appeared and delivers valid inputs.
    AxisOnline(AxisId),
    /// An axis stopped responding.
    AxisOffline(AxisId),
    /// An axis reported a fault; `code` is bus-native.
    AxisFault { axis: AxisId, code: u32 },
}

/// Fieldbus error.
#[derive(Clone, Copy, Debug, PartialEq, Eq)]
pub enum FieldbusError {
    /// Operation not available on this backend, platform or axis.
    Unsupported(&'static str),
    /// Call not valid in the current bus state.
    InvalidState(BusState),
    /// The axis index is out of range for this bus.
    NoSuchAxis(AxisId),
    /// Cyclic exchange failed.
    Exchange(&'static str),
    /// Acyclic transfer rejected; `code` is bus-native.
    Acyclic { code: u32 },
    Timeout,
}

impl FieldbusError {
    /// The error as a message.
    pub fn to_text(self) -> (r: String)
        ensures
            r@ == match self {
                FieldbusError::Unsupported(what) => "unsupported: "@ + what@,
                FieldbusError::InvalidState(BusState::Init) => "invalid bus state: "@ + "Init"@,
                FieldbusError::InvalidState(BusState::PreOp) => "invalid bus state: "@ + "PreOp"@,
                FieldbusError::InvalidState(BusState::SafeOp) => "invalid bus state: "@ + "SafeOp"@,
                FieldbusError::InvalidState(BusState::Op) => "invalid bus state: "@ + "Op"@,
                FieldbusError::NoSuchAxis(axis) => "no such axis: "@ + axis.text(),
                FieldbusError::Exchange(why) => "cyclic exchange failed: "@ + why@,
                FieldbusError::Acyclic { code } => "acyclic transfer failed, code "@ + ("0x"@
                    + numeral(code as nat, 16)),
                FieldbusError::Timeout => "timeout"@,
            },
    {
        match self {
            FieldbusError::Unsupported(what) => join("unsupported: ", what),
            FieldbusError::InvalidState(state) => join("invalid bus state: ", state.name()),
            FieldbusError::NoSuchAxis(axis) => join("no such axis: ", axis.to_text().as_str()),
            FieldbusError::Exchange(why) => join("cyclic exchange failed: ", why),
            FieldbusError::Acyclic { code } => join(
                "acyclic transfer failed, code ",
                hexadecimal(code as u64).as_str(),
            ),
            FieldbusError::Timeout => "timeout".to_owned(),
        }
    }
}

/// Address of a device parameter, off the real-time path.
#[derive(Clone, Copy, Debug, PartialEq, Eq, Structural)]
pub enum ParamAddr {
    /// Object dictionary entry.
    Object { index: u16, sub: u8 },
    /// Raw register.
    Register { addr: u16 },
}

/// Parameter and diagnostic access off the real-time path.
pub trait AcyclicAccess {
    /// Read a parameter into `buf`; returns the number of bytes read.
    fn read(&mut self, axis: AxisId, addr: ParamAddr, buf: &mut [u8]) -> Result<
        usize,
        FieldbusError,
    >;

    /// Write a parameter.
    fn write(&mut self, axis: AxisId, addr: ParamAddr, data: &[u8]) -> Result<(), FieldbusError>;
}

} // verus!
