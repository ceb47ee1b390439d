//! Per-axis state machine.
//!
//! The command word is level-held: the operator writes a whole word per
//! interaction and the daemon keeps it until the next one arrives. A held jog
//! button is a continuously set bit, releasing it clears the word.
//!
//! * A finished absolute move or homing does not restart from the still-held
//!   bit: only a fresh command word re-arms it.
//! * Leaving an error always takes the reset bit.
//! * Past enabling, a drive that is not operational for any reason raises
//!   `DRIVER_ERROR`, and a reset waits until it is operational again.
//! * While the drive owns the trajectory (homing) or does not follow
//!   setpoints (an error with the drive down), the setpoint stays on the
//!   actual position.
//! * A fresh absolute move during an absolute move re-targets it.
//!
//! The arithmetic of a motion profile is outside this module: `demand` says
//! which ramp or profile a cycle needs, and `tick` takes its outcome.
use vstd::prelude::*;

use crate::fieldbus::{AxisIn, AxisOut, DriveStatus, Setpoint};
use crate::motion::flags::{cmd, error_id, status};
use crate::motion::step::Step;
use crate::scalar::Scalar;

verus! {

/// Actual velocity below this (0.001 user units/s) counts as standing still.
pub const STANDSTILL_EPS_BITS: u64 = 0x3F50_624D_D2F1_A9FC;

/// Kinematic limits an axis enforces.
#[derive(Clone, Copy, Debug, PartialEq, Eq, Structural)]
pub struct AxisParams {
    /// Velocity clamp for every command (user units/s).
    pub max_vel: Scalar,
    /// Acceleration for jog and move ramps (user units/s²).
    pub acc: Scalar,
    /// Deceleration for move profiles (user units/s²).
    pub dec: Scalar,
    /// Deceleration for stop ramps (user units/s²).
    pub stop_dec: Scalar,
}

/// 1000 units/s, 500 units/s² up and down, 2000 units/s² to stop.
pub open spec fn default_params() -> AxisParams {
    AxisParams {
        max_vel: Scalar { bits: 0x408F_4000_0000_0000 },
        acc: Scalar { bits: 0x407F_4000_0000_0000 },
        dec: Scalar { bits: 0x407F_4000_0000_0000 },
        stop_dec: Scalar { bits: 0x409F_4000_0000_0000 },
    }
}

impl Default for AxisParams {
    fn default() -> (r: AxisParams)
        ensures
            r == default_params(),
    {
        AxisParams {
            max_vel: Scalar { bits: 0x408F_4000_0000_0000 },
            acc: Scalar { bits: 0x407F_4000_0000_0000 },
            dec: Scalar { bits: 0x407F_4000_0000_0000 },
            stop_dec: Scalar { bits: 0x409F_4000_0000_0000 },
        }
    }
}

/// One axis' slice of the latched command, decoded for a tick.
#[derive(Clone, Copy, Debug, PartialEq, Eq, Structural)]
pub struct AxisRequest {
    /// The level-held command word.
    pub word: u32,
    pub jog_vel: Scalar,
    pub move_abs_pos: Scalar,
    pub move_abs_vel: Scalar,
    /// A new command message for this axis was latched this cycle.
    pub fresh: bool,
}

/// Nothing requested.
pub open spec fn no_request() -> AxisRequest {
    AxisRequest {
        word: 0,
        jog_vel: Scalar { bits: 0 },
        move_abs_pos: Scalar { bits: 0 },
        move_abs_vel: Scalar { bits: 0 },
        fresh: false,
    }
}

impl Default for AxisRequest {
    fn default() -> (r: AxisRequest)
        ensures
            r == no_request(),
    {
        AxisRequest {
            word: 0,
            jog_vel: Scalar { bits: 0 },
            move_abs_pos: Scalar { bits: 0 },
            move_abs_vel: Scalar { bits: 0 },
            fresh: false,
        }
    }
}

impl AxisRequest {
    /// The bit is set in the command word.
    pub open spec fn asks(self, bit: u32) -> bool {
        self.word & bit != 0
    }

    fn has(&self, bit: u32) -> (r: bool)
        ensures
            r == self.asks(bit),
    {
        self.word & bit != 0
    }
}

/// Published status of one axis.
#[derive(Clone, Copy, Debug, PartialEq, Eq, Structural)]
pub struct AxisStatus {
    pub step: i32,
    pub flags: u32,
    pub error_id: i32,
    pub set_pos: Scalar,
    pub set_vel: Scalar,
}

/// The profile arithmetic one cycle needs, with its operands.
#[derive(Clone, Copy, Debug, PartialEq, Eq, Structural)]
pub enum Demand {
    /// None: the setpoint is not moved by a profile.
    Rest,
    /// Move the velocity from `vel` toward `target` at no more than `rate` per
    /// second, then move the position from `pos` by that velocity.
    Ramp { pos: Scalar, vel: Scalar, target: Scalar, rate: Scalar },
    /// One trapezoidal step from `pos` and `vel` toward rest at `target`.
    Profile { pos: Scalar, vel: Scalar, target: Scalar, vmax: Scalar, acc: Scalar, dec: Scalar },
}

/// The outcome of a demanded profile step.
#[derive(Clone, Copy, Debug, PartialEq, Eq, Structural)]
pub struct Advance {
    pub pos: Scalar,
    pub vel: Scalar,
    /// A trapezoidal move has arrived. A ramp leaves this unread.
    pub done: bool,
}

/// One axis: its step, latched error, generated setpoint and one-shot latches.
pub struct AxisControl {
    params: AxisParams,
    step: Step,
    busy: bool,
    error: bool,
    error_id: i32,
    set_pos: Scalar,
    set_vel: Scalar,
    move_target: Scalar,
    move_vmax: Scalar,
    move_abs_rearm: bool,
    home_rearm: bool,
    out_enable: bool,
    out_fault_reset: bool,
}

/// The state of one axis.
pub struct AxisModel {
    pub params: AxisParams,
    pub step: Step,
    pub busy: bool,
    /// An error is latched, with its identifier.
    pub error: bool,
    pub error_id: i32,
    /// The generated setpoint.
    pub set_pos: Scalar,
    pub set_vel: Scalar,
    /// Target and velocity limit of the running absolute move.
    pub move_target: Scalar,
    pub move_vmax: Scalar,
    /// A finished absolute move (homing) waits for a fresh word.
    pub move_abs_rearm: bool,
    pub home_rearm: bool,
    /// Requested power and fault reset.
    pub out_enable: bool,
    pub out_fault_reset: bool,
}

/// A fresh axis: idle, power off, setpoint zero.
pub open spec fn initial_axis(params: AxisParams) -> AxisModel {
    AxisModel {
        params,
        step: Step::Idle,
        busy: false,
        error: false,
        error_id: error_id::NONE,
        set_pos: Scalar { bits: 0 },
        set_vel: Scalar { bits: 0 },
        move_target: Scalar { bits: 0 },
        move_vmax: Scalar { bits: 0 },
        move_abs_rearm: false,
        home_rearm: false,
        out_enable: false,
        out_fault_reset: false,
    }
}

/// Everything that drives one tick of an axis.
pub struct TickInput {
    pub req: AxisRequest,
    /// Emergency stop, machine-wide and level-held.
    pub ems: bool,
    pub input: AxisIn,
    pub advance: Advance,
}

/// The axis with an error latched, waiting for a reset.
pub open spec fn raised(m: AxisModel, id: i32) -> AxisModel {
    AxisModel { error: true, error_id: id, step: Step::TryReset, ..m }
}

/// Setpoint velocity zero and actual velocity below the threshold.
pub open spec fn at_standstill(m: AxisModel, input: AxisIn) -> bool {
    m.set_vel.zero_valued() && input.act_vel.magnitude_of().lt(
        Scalar { bits: STANDSTILL_EPS_BITS },
    )
}

/// The drive owns the trajectory.
pub open spec fn homing_step(step: Step) -> bool {
    step is HomingWriteParam || step is HomingExec
}

/// Past enabling, the drive has to be operational.
pub open spec fn needs_drive(step: Step) -> bool {
    !(step is Idle || step is Enabling || step is NotReady)
}

/// The axis as a tick finds it: a fresh word re-arms the one-shots, and a lost
/// drive latches `DRIVER_ERROR` unless an error is latched already.
pub open spec fn on_entry(m: AxisModel, req: AxisRequest, input: AxisIn) -> AxisModel {
    let armed = AxisModel {
        out_fault_reset: false,
        move_abs_rearm: m.move_abs_rearm && !req.fresh,
        home_rearm: m.home_rearm && !req.fresh,
        ..m
    };
    if !(input.drive is Enabled) && !m.error && needs_drive(m.step) {
        raised(armed, error_id::DRIVER_ERROR)
    } else {
        armed
    }
}

/// Ramp the setpoint velocity down to zero.
pub open spec fn stop_ramp(m: AxisModel) -> Demand {
    Demand::Ramp {
        pos: m.set_pos,
        vel: m.set_vel,
        target: Scalar { bits: 0 },
        rate: m.params.stop_dec,
    }
}

/// The command bit that keeps a jog going.
pub open spec fn jog_bit(step: Step) -> u32 {
    if step is JogPos {
        cmd::JOG_POS
    } else {
        cmd::JOG_NEG
    }
}

/// The limit switch that a jog runs toward.
pub open spec fn jog_limit(step: Step, input: AxisIn) -> bool {
    if step is JogPos {
        input.pos_limit
    } else {
        input.neg_limit
    }
}

/// The velocity a jog runs at: the magnitude asked for, clamped, in the
/// direction of the step.
pub open spec fn jog_target(m: AxisModel, req: AxisRequest) -> Scalar {
    let v = req.jog_vel.magnitude_of().lesser(m.params.max_vel);
    if m.step is JogPos {
        v
    } else {
        v.negated()
    }
}

/// An absolute move cannot start at this velocity.
pub open spec fn bad_move_vel(req: AxisRequest) -> bool {
    req.move_abs_vel.le(Scalar { bits: 0 })
}

/// The axis with the request's absolute move as its target.
pub open spec fn targeted(m: AxisModel, req: AxisRequest) -> AxisModel {
    AxisModel {
        move_target: req.move_abs_pos,
        move_vmax: req.move_abs_vel.lesser(m.params.max_vel),
        ..m
    }
}

/// The profile step that this cycle needs.
pub open spec fn demand_of(m: AxisModel, req: AxisRequest, ems: bool, input: AxisIn) -> Demand {
    let e = on_entry(m, req, input);
    if ems {
        if homing_step(e.step) {
            Demand::Rest
        } else {
            stop_ramp(e)
        }
    } else {
        match e.step {
            Step::JogPos | Step::JogNeg => if !jog_limit(e.step, input) && req.asks(
                jog_bit(e.step),
            ) {
                Demand::Ramp {
                    pos: e.set_pos,
                    vel: e.set_vel,
                    target: jog_target(e, req),
                    rate: e.params.acc,
                }
            } else {
                Demand::Rest
            },
            Step::MoveAbs => if !req.asks(cmd::MOVE_ABS) || (req.fresh && bad_move_vel(req)) {
                Demand::Rest
            } else {
                let t = if req.fresh {
                    targeted(e, req)
                } else {
                    e
                };
                Demand::Profile {
                    pos: t.set_pos,
                    vel: t.set_vel,
                    target: t.move_target,
                    vmax: t.move_vmax,
                    acc: t.params.acc,
                    dec: t.params.dec,
                }
            },
            Step::Stopping | Step::TryReset => stop_ramp(e),
            _ => Demand::Rest,
        }
    }
}

/// The setpoint moved to the outcome of a profile step.
pub open spec fn advanced(m: AxisModel, advance: Advance) -> AxisModel {
    AxisModel { set_pos: advance.pos, set_vel: advance.vel, ..m }
}

/// The setpoint seated on the actual position, at rest.
pub open spec fn seated(m: AxisModel, input: AxisIn) -> AxisModel {
    AxisModel { set_pos: input.act_pos, set_vel: Scalar { bits: 0 }, ..m }
}

/// The stop ramp taken, except that an axis in error whose drive is down keeps
/// the setpoint position on the actual position.
pub open spec fn ramped_down(m: AxisModel, input: AxisIn, advance: Advance) -> AxisModel {
    let a = advanced(m, advance);
    if m.step is TryReset && !(input.drive is Enabled) {
        AxisModel { set_pos: input.act_pos, ..a }
    } else {
        a
    }
}

/// Emergency stop: ramp down, force motion steps into `Stopping`, and freeze
/// the state machine. Homing hands the axis over where it actually is.
pub open spec fn under_ems(e: AxisModel, input: AxisIn, advance: Advance) -> AxisModel {
    let held = if homing_step(e.step) {
        seated(e, input)
    } else {
        ramped_down(e, input, advance)
    };
    let step = if crate::motion::step::motion_step(e.step) {
        Step::Stopping
    } else {
        e.step
    };
    AxisModel { step, busy: !(step is Idle || step is Ready), ..held }
}

/// `Ready` dispatches one command: absolute move, then jogs away from their
/// limit, then homing.
pub open spec fn dispatched(e: AxisModel, req: AxisRequest, input: AxisIn) -> AxisModel {
    let m = AxisModel { busy: false, ..e };
    if req.asks(cmd::MOVE_ABS) && !m.move_abs_rearm {
        if bad_move_vel(req) {
            raised(m, error_id::MOVE_ABS_FAIL)
        } else {
            AxisModel { step: Step::MoveAbs, ..targeted(m, req) }
        }
    } else if req.asks(cmd::JOG_POS) && !input.pos_limit {
        AxisModel { step: Step::JogPos, ..m }
    } else if req.asks(cmd::JOG_NEG) && !input.neg_limit {
        AxisModel { step: Step::JogNeg, ..m }
    } else if req.asks(cmd::HOME) && !m.home_rearm {
        AxisModel { step: Step::HomingWriteParam, ..m }
    } else {
        m
    }
}

/// A running jog: trips on its limit, stops when released.
pub open spec fn jogged(
    e: AxisModel,
    req: AxisRequest,
    input: AxisIn,
    advance: Advance,
) -> AxisModel {
    let m = AxisModel { busy: true, ..e };
    if jog_limit(e.step, input) {
        raised(
            m,
            if e.step is JogPos {
                error_id::POSITIVE_LIMIT_TRIP
            } else {
                error_id::NEGATIVE_LIMIT_TRIP
            },
        )
    } else if !req.asks(jog_bit(e.step)) {
        AxisModel { step: Step::Stopping, ..m }
    } else {
        advanced(m, advance)
    }
}

/// A running absolute move: cancelled when released, re-targeted by a fresh
/// word, finished on arrival.
pub open spec fn moved(e: AxisModel, req: AxisRequest, advance: Advance) -> AxisModel {
    let m = AxisModel { busy: true, ..e };
    if !req.asks(cmd::MOVE_ABS) {
        AxisModel { step: Step::Stopping, ..m }
    } else if req.fresh && bad_move_vel(req) {
        raised(m, error_id::MOVE_ABS_FAIL)
    } else {
        let a = advanced(
            if req.fresh {
                targeted(m, req)
            } else {
                m
            },
            advance,
        );
        if advance.done {
            AxisModel { move_abs_rearm: true, step: Step::Stopping, ..a }
        } else {
            a
        }
    }
}

/// A running homing: finished when the drive reports the reference, cancelled
/// when released.
pub open spec fn homed(e: AxisModel, req: AxisRequest, input: AxisIn) -> AxisModel {
    let m = AxisModel { busy: true, ..seated(e, input) };
    if e.step is HomingWriteParam {
        AxisModel {
            step: if req.asks(cmd::HOME) {
                Step::HomingExec
            } else {
                Step::Stopping
            },
            ..m
        }
    } else if input.homed {
        AxisModel { home_rearm: true, step: Step::Stopping, ..m }
    } else if !req.asks(cmd::HOME) {
        AxisModel { step: Step::Stopping, ..m }
    } else {
        m
    }
}

/// A latched error: ramp down, pass a reset request on to the drive, and leave
/// for `Ready` on a reset with a healthy operational drive at standstill.
pub open spec fn recovering(
    e: AxisModel,
    req: AxisRequest,
    input: AxisIn,
    advance: Advance,
) -> AxisModel {
    let m = AxisModel {
        busy: true,
        out_fault_reset: req.asks(cmd::RESET),
        ..ramped_down(e, input, advance)
    };
    if req.asks(cmd::RESET) && input.drive is Enabled && input.fault_code == 0 && at_standstill(
        m,
        input,
    ) {
        AxisModel {
            error: false,
            error_id: error_id::NONE,
            set_pos: input.act_pos,
            step: Step::Ready,
            ..m
        }
    } else {
        m
    }
}

/// Powering up: idle until enabled, then waiting for an operational drive; a
/// drive found faulty is asked to reset. The setpoint follows the axis.
pub open spec fn powering(e: AxisModel, req: AxisRequest, input: AxisIn) -> AxisModel {
    let m = seated(e, input);
    match e.step {
        Step::Idle => AxisModel {
            out_enable: false,
            busy: false,
            step: if req.asks(cmd::ENABLE) {
                Step::Enabling
            } else {
                Step::Idle
            },
            ..m
        },
        Step::Enabling => AxisModel {
            out_enable: true,
            busy: true,
            step: if input.drive is Enabled {
                Step::Ready
            } else if input.drive is Fault {
                Step::NotReady
            } else {
                Step::Enabling
            },
            ..m
        },
        _ => AxisModel {
            out_enable: true,
            busy: true,
            out_fault_reset: true,
            step: if input.drive is Enabled && input.fault_code == 0 {
                Step::Ready
            } else {
                Step::NotReady
            },
            ..m
        },
    }
}

/// One step of the state machine, no emergency stop held.
pub open spec fn stepped(
    e: AxisModel,
    req: AxisRequest,
    input: AxisIn,
    advance: Advance,
) -> AxisModel {
    match e.step {
        Step::Idle | Step::Enabling | Step::NotReady => powering(e, req, input),
        Step::Ready => dispatched(e, req, input),
        Step::JogPos | Step::JogNeg => jogged(e, req, input, advance),
        Step::MoveAbs => moved(e, req, advance),
        Step::HomingWriteParam | Step::HomingExec => homed(e, req, input),
        Step::Stopping => AxisModel {
            busy: true,
            step: if advance.vel.zero_valued() {
                Step::WaitStop
            } else {
                Step::Stopping
            },
            ..advanced(e, advance)
        },
        Step::WaitStop => AxisModel {
            busy: true,
            step: if at_standstill(e, input) && !req.asks(cmd::STOP) {
                Step::Ready
            } else {
                Step::WaitStop
            },
            ..e
        },
        Step::TryReset => recovering(e, req, input, advance),
        Step::MoveRel | Step::MoveVel | Step::SetPosition => AxisModel {
            step: Step::Stopping,
            ..e
        },
    }
}

/// The axis after one control cycle.
pub open spec fn tick_of(m: AxisModel, t: TickInput) -> AxisModel {
    let e = on_entry(m, t.req, t.input);
    if t.ems {
        under_ems(e, t.input, t.advance)
    } else {
        stepped(e, t.req, t.input, t.advance)
    }
}

/// What the axis asks of the bus: power as requested, homing while homing
/// runs, the setpoint stream while the drive is operational, nothing else.
pub open spec fn outputs_of(m: AxisModel, input: AxisIn) -> AxisOut {
    AxisOut {
        enable: m.out_enable,
        fault_reset: m.out_fault_reset,
        setpoint: if !m.out_enable {
            Setpoint::Hold
        } else if m.step is HomingExec {
            Setpoint::Home
        } else if input.drive is Enabled {
            Setpoint::CyclicPosition { pos: m.set_pos, vel_ff: m.set_vel }
        } else {
            Setpoint::Hold
        },
    }
}

/// `bit` where the condition holds, nothing where it does not.
pub open spec fn flag_if(condition: bool, bit: u32) -> u32 {
    if condition {
        bit
    } else {
        0
    }
}

/// The status flags of an axis.
pub open spec fn status_flags(m: AxisModel, input: AxisIn) -> u32 {
    flag_if(input.drive is Enabled, status::ENABLED) | flag_if(m.busy, status::BUSY) | flag_if(
        m.error,
        status::ERROR,
    ) | flag_if(at_standstill(m, input), status::STANDSTILL) | flag_if(
        input.pos_limit,
        status::POS_LIMIT,
    ) | flag_if(input.neg_limit, status::NEG_LIMIT)
}

/// The published status of an axis.
pub open spec fn status_of(m: AxisModel, input: AxisIn) -> AxisStatus {
    AxisStatus {
        step: crate::motion::step::step_number(m.step),
        flags: status_flags(m, input),
        error_id: m.error_id,
        set_pos: m.set_pos,
        set_vel: m.set_vel,
    }
}

fn flag(condition: bool, bit: u32) -> (r: u32)
    ensures
        r == flag_if(condition, bit),
{
    if condition {
        bit
    } else {
        0
    }
}

impl View for AxisControl {
    type V = AxisModel;

    closed spec fn view(&self) -> AxisModel {
        AxisModel {
            params: self.params,
            step: self.step,
            busy: self.busy,
            error: self.error,
            error_id: self.error_id,
            set_pos: self.set_pos,
            set_vel: self.set_vel,
            move_target: self.move_target,
            move_vmax: self.move_vmax,
            move_abs_rearm: self.move_abs_rearm,
            home_rearm: self.home_rearm,
            out_enable: self.out_enable,
            out_fault_reset: self.out_fault_reset,
        }
    }
}

impl AxisControl {
    pub fn new(params: AxisParams) -> (r: AxisControl)
        ensures
            r@ == initial_axis(params),
    {
        AxisControl {
            params,
            step: Step::Idle,
            busy: false,
            error: false,
            error_id: error_id::NONE,
            set_pos: Scalar::zero(),
            set_vel: Scalar::zero(),
            move_target: Scalar::zero(),
            move_vmax: Scalar::zero(),
            move_abs_rearm: false,
            home_rearm: false,
            out_enable: false,
            out_fault_reset: false,
        }
    }

    pub fn step(&self) -> (r: Step)
        ensures
            r == self@.step,
    {
        self.step
    }

    /// Latch an error and wait for a reset.
    fn raise(&mut self, id: i32)
        ensures
            final(self)@ == raised(old(self)@, id),
    {
        self.error = true;
        self.error_id = id;
        self.step = Step::TryReset;
    }

    fn standstill(&self, input: &AxisIn) -> (r: bool)
        ensures
            r == at_standstill(self@, *input),
    {
        self.set_vel.is_zero() && input.act_vel.abs().is_less(
            Scalar { bits: STANDSTILL_EPS_BITS },
        )
    }

    /// A lost drive raises an error in this step.
    fn drive_lost(&self, input: &AxisIn) -> (r: bool)
        ensures
            r == (!(input.drive is Enabled) && !self@.error && needs_drive(self@.step)),
    {
        input.drive != DriveStatus::Enabled && !self.error && self.step != Step::Idle && self.step
            != Step::Enabling && self.step != Step::NotReady
    }

    fn jog_velocity(&self, req: &AxisRequest) -> (r: Scalar)
        ensures
            r == jog_target(self@, *req),
    {
        let v = req.jog_vel.abs().min(self.params.max_vel);
        if self.step == Step::JogPos {
            v
        } else {
            v.negate()
        }
    }

    fn jog_held(&self, req: &AxisRequest) -> (r: bool)
        ensures
            r == req.asks(jog_bit(self@.step)),
    {
        if self.step == Step::JogPos {
            req.has(cmd::JOG_POS)
        } else {
            req.has(cmd::JOG_NEG)
        }
    }

    fn jog_at_limit(&self, input: &AxisIn) -> (r: bool)
        ensures
            r == jog_limit(self@.step, *input),
    {
        if self.step == Step::JogPos {
            input.pos_limit
        } else {
            input.neg_limit
        }
    }

    fn ramp_demand(&self, target: Scalar, rate: Scalar) -> (r: Demand)
        ensures
            r == (Demand::Ramp { pos: self@.set_pos, vel: self@.set_vel, target, rate }),
    {
        Demand::Ramp { pos: self.set_pos, vel: self.set_vel, target, rate }
    }

    /// The profile step that the next `tick` with the same arguments needs.
    pub fn demand(&self, req: &AxisRequest, ems: bool, input: &AxisIn) -> (r: Demand)
        ensures
            r == demand_of(self@, *req, ems, *input),
    {
        let lost = self.drive_lost(input);
        let step = if lost {
            Step::TryReset
        } else {
            self.step
        };
        if ems {
            return if step == Step::HomingWriteParam || step == Step::HomingExec {
                Demand::Rest
            } else {
                self.ramp_demand(Scalar::zero(), self.params.stop_dec)
            };
        }
        match step {
            Step::JogPos | Step::JogNeg => {
                if !self.jog_at_limit(input) && self.jog_held(req) {
                    self.ramp_demand(self.jog_velocity(req), self.params.acc)
                } else {
                    Demand::Rest
                }
            },
            Step::MoveAbs => {
                if !req.has(cmd::MOVE_ABS) {
                    Demand::Rest
                } else if !req.fresh {
                    self.profile_demand(self.move_target, self.move_vmax)
                } else if req.move_abs_vel.is_at_most(Scalar::zero()) {
                    Demand::Rest
                } else {
                    self.profile_demand(
                        req.move_abs_pos,
                        req.move_abs_vel.min(self.params.max_vel),
                    )
                }
            },
            Step::Stopping | Step::TryReset => {
                self.ramp_demand(Scalar::zero(), self.params.stop_dec)
            },
            _ => Demand::Rest,
        }
    }

    fn profile_demand(&self, target: Scalar, vmax: Scalar) -> (r: Demand)
        ensures
            r == (Demand::Profile {
                pos: self@.set_pos,
                vel: self@.set_vel,
                target,
                vmax,
                acc: self@.params.acc,
                dec: self@.params.dec,
            }),
    {
        Demand::Profile {
            pos: self.set_pos,
            vel: self.set_vel,
            target,
            vmax,
            acc: self.params.acc,
            dec: self.params.dec,
        }
    }

    fn seat(&mut self, input: &AxisIn)
        ensures
            final(self)@ == seated(old(self)@, *input),
    {
        self.set_pos = input.act_pos;
        self.set_vel = Scalar::zero();
    }

    fn advance_to(&mut self, advance: &Advance)
        ensures
            final(self)@ == advanced(old(self)@, *advance),
    {
        self.set_pos = advance.pos;
        self.set_vel = advance.vel;
    }

    fn ramp_down(&mut self, input: &AxisIn, advance: &Advance)
        ensures
            final(self)@ == ramped_down(old(self)@, *input, *advance),
    {
        self.advance_to(advance);
        if self.step == Step::TryReset && input.drive != DriveStatus::Enabled {
            self.set_pos = input.act_pos;
        }
    }

    /// One control cycle. `advance` is the outcome of the step that `demand`
    /// asks for on the same arguments; where it asks for none, `advance` has
    /// no effect.
    pub fn tick(
        &mut self,
        req: &AxisRequest,
        ems: bool,
        input: &AxisIn,
        advance: &Advance,
    ) -> (out: AxisOut)
        ensures
            final(self)@ == tick_of(
                old(self)@,
                (TickInput { req: *req, ems, input: *input, advance: *advance }),
            ),
            out == outputs_of(final(self)@, *input),
    {
        self.out_fault_reset = false;
        if req.fresh {
            self.move_abs_rearm = false;
            self.home_rearm = false;
        }
        if self.drive_lost(input) {
            self.raise(error_id::DRIVER_ERROR);
        }
        assert(self@ == on_entry(old(self)@, *req, *input));

        if ems {
            self.hold_for_ems(input, advance);
        } else {
            self.run_step(req, input, advance);
        }
        self.outputs(input)
    }

    fn run_step(&mut self, req: &AxisRequest, input: &AxisIn, advance: &Advance)
        requires
            !old(self)@.out_fault_reset,
        ensures
            final(self)@ == stepped(old(self)@, *req, *input, *advance),
    {
        match self.step {
            Step::Idle | Step::Enabling | Step::NotReady => {
                self.power_up(req, input);
            },
            Step::Ready => {
                self.dispatch(req, input);
            },
            Step::JogPos | Step::JogNeg => {
                self.jog(req, input, advance);
            },
            Step::MoveAbs => {
                self.run_move(req, advance);
            },
            Step::HomingWriteParam | Step::HomingExec => {
                self.home(req, input);
            },
            Step::Stopping => {
                self.busy = true;
                self.advance_to(advance);
                if self.set_vel.is_zero() {
                    self.step = Step::WaitStop;
                }
            },
            Step::WaitStop => {
                self.busy = true;
                if self.standstill(input) && !req.has(cmd::STOP) {
                    self.step = Step::Ready;
                }
            },
            Step::TryReset => {
                self.recover(req, input, advance);
            },
            Step::MoveRel | Step::MoveVel | Step::SetPosition => {
                self.step = Step::Stopping;
            },
        }
    }

    fn power_up(&mut self, req: &AxisRequest, input: &AxisIn)
        requires
            !needs_drive(old(self)@.step),
            !old(self)@.out_fault_reset,
        ensures
            final(self)@ == powering(old(self)@, *req, *input),
    {
        self.seat(input);
        if self.step == Step::Idle {
            self.out_enable = false;
            self.busy = false;
            if req.has(cmd::ENABLE) {
                self.step = Step::Enabling;
            }
        } else if self.step == Step::Enabling {
            self.out_enable = true;
            self.busy = true;
            if input.drive == DriveStatus::Enabled {
                self.step = Step::Ready;
            } else if input.drive == DriveStatus::Fault {
                self.step = Step::NotReady;
            }
        } else {
            self.out_enable = true;
            self.busy = true;
            self.out_fault_reset = true;
            if input.drive == DriveStatus::Enabled && input.fault_code == 0 {
                self.step = Step::Ready;
            }
        }
    }

    fn jog(&mut self, req: &AxisRequest, input: &AxisIn, advance: &Advance)
        requires
            old(self)@.step is JogPos || old(self)@.step is JogNeg,
        ensures
            final(self)@ == jogged(old(self)@, *req, *input, *advance),
    {
        self.busy = true;
        if self.jog_at_limit(input) {
            let trip: i32 = if self.step == Step::JogPos {
                error_id::POSITIVE_LIMIT_TRIP
            } else {
                error_id::NEGATIVE_LIMIT_TRIP
            };
            self.raise(trip);
        } else if !self.jog_held(req) {
            self.step = Step::Stopping;
        } else {
            self.advance_to(advance);
        }
    }

    fn run_move(&mut self, req: &AxisRequest, advance: &Advance)
        ensures
            final(self)@ == moved(old(self)@, *req, *advance),
    {
        self.busy = true;
        if !req.has(cmd::MOVE_ABS) {
            self.step = Step::Stopping;
        } else if req.fresh && req.move_abs_vel.is_at_most(Scalar::zero()) {
            self.raise(error_id::MOVE_ABS_FAIL);
        } else {
            if req.fresh {
                self.retarget(req);
            }
            self.advance_to(advance);
            if advance.done {
                self.move_abs_rearm = true;
                self.step = Step::Stopping;
            }
        }
    }

    fn home(&mut self, req: &AxisRequest, input: &AxisIn)
        requires
            homing_step(old(self)@.step),
        ensures
            final(self)@ == homed(old(self)@, *req, *input),
    {
        self.busy = true;
        self.seat(input);
        if self.step == Step::HomingWriteParam {
            if req.has(cmd::HOME) {
                self.step = Step::HomingExec;
            } else {
                self.step = Step::Stopping;
            }
        } else if input.homed {
            self.home_rearm = true;
            self.step = Step::Stopping;
        } else if !req.has(cmd::HOME) {
            self.step = Step::Stopping;
        }
    }

    fn hold_for_ems(&mut self, input: &AxisIn, advance: &Advance)
        ensures
            final(self)@ == under_ems(old(self)@, *input, *advance),
    {
        if self.step == Step::HomingWriteParam || self.step == Step::HomingExec {
            self.seat(input);
        } else {
            self.ramp_down(input, advance);
        }
        if self.step.is_motion() {
            self.step = Step::Stopping;
        }
        self.busy = self.step != Step::Idle && self.step != Step::Ready;
    }

    fn retarget(&mut self, req: &AxisRequest)
        ensures
            final(self)@ == targeted(old(self)@, *req),
    {
        self.move_target = req.move_abs_pos;
        self.move_vmax = req.move_abs_vel.min(self.params.max_vel);
    }

    fn dispatch(&mut self, req: &AxisRequest, input: &AxisIn)
        ensures
            final(self)@ == dispatched(old(self)@, *req, *input),
    {
        self.busy = false;
        if req.has(cmd::MOVE_ABS) && !self.move_abs_rearm {
            if req.move_abs_vel.is_at_most(Scalar::zero()) {
                self.raise(error_id::MOVE_ABS_FAIL);
            } else {
                self.retarget(req);
                self.step = Step::MoveAbs;
            }
        } else if req.has(cmd::JOG_POS) && !input.pos_limit {
            self.step = Step::JogPos;
        } else if req.has(cmd::JOG_NEG) && !input.neg_limit {
            self.step = Step::JogNeg;
        } else if req.has(cmd::HOME) && !self.home_rearm {
            self.step = Step::HomingWriteParam;
        }
    }

    fn recover(&mut self, req: &AxisRequest, input: &AxisIn, advance: &Advance)
        requires
            !old(self)@.out_fault_reset,
        ensures
            final(self)@ == recovering(old(self)@, *req, *input, *advance),
    {
        self.busy = true;
        self.ramp_down(input, advance);
        if req.has(cmd::RESET) {
            self.out_fault_reset = true;
            if input.drive == DriveStatus::Enabled && input.fault_code == 0 && self.standstill(
                input,
            ) {
                self.error = false;
                self.error_id = error_id::NONE;
                self.set_pos = input.act_pos;
                self.step = Step::Ready;
            }
        }
    }

    fn outputs(&self, input: &AxisIn) -> (out: AxisOut)
        ensures
            out == outputs_of(self@, *input),
    {
        let setpoint = if !self.out_enable {
            Setpoint::Hold
        } else if self.step == Step::HomingExec {
            Setpoint::Home
        } else if input.drive == DriveStatus::Enabled {
            Setpoint::CyclicPosition { pos: self.set_pos, vel_ff: self.set_vel }
        } else {
            Setpoint::Hold
        };
        AxisOut { enable: self.out_enable, fault_reset: self.out_fault_reset, setpoint }
    }

    /// The status to publish for this axis.
    pub fn status(&self, input: &AxisIn) -> (r: AxisStatus)
        ensures
            r == status_of(self@, *input),
    {
        let flags: u32 = flag(input.drive == DriveStatus::Enabled, status::ENABLED) | flag(
            self.busy,
            status::BUSY,
        ) | flag(self.error, status::ERROR) | flag(self.standstill(input), status::STANDSTILL)
            | flag(input.pos_limit, status::POS_LIMIT) | flag(input.neg_limit, status::NEG_LIMIT);
        AxisStatus {
            step: self.step.as_i32(),
            flags,
            error_id: self.error_id,
            set_pos: self.set_pos,
            set_vel: self.set_vel,
        }
    }
}

} // verus!
