//! Simulated bus: a first-order axis model with the capability profile of a
//! cyclic-position drive, so that the whole control path runs without hardware.
//!
//! The arithmetic of the model is outside this module: `demand` says which
//! motion a cycle needs, and `exchange` takes its outcome.
use std::collections::VecDeque;
use vstd::prelude::*;

use crate::fieldbus::{
    AcyclicAccess, AxisCapability, AxisId, AxisIn, AxisOut, BusEvent, BusState, CycleClass,
    DriveStatus, ExchangeStatus, FieldbusError, OpModes, ParamAddr, Setpoint, SetpointKind,
};
use crate::scalar::Scalar;
use crate::time::Duration;

verus! {

/// Below this (0.000001 user units/s) a damped velocity counts as zero.
pub const REST_EPS_BITS: u64 = 0x3EB0_C6F7_A0B5_ED8D;

/// Object does not exist, as drives report it.
pub const NO_SUCH_OBJECT: u32 = 0x0602_0000;

/// Model tuning.
#[derive(Clone, Copy, Debug, PartialEq, Eq, Structural)]
pub struct SimConfig {
    pub axes: usize,
    /// Exchange period, also the integration step.
    pub cycle: Duration,
    /// First-order tracking time constant (s).
    pub tau: Scalar,
    /// Cycles spent enabling before the power stage is ready.
    pub enable_delay_cycles: u32,
    /// Speed of the simulated homing motion (user units/s).
    pub home_vel: Scalar,
    /// Distance the homing motion covers in one cycle.
    pub home_step: Scalar,
}

/// Four axes at 2 ms, 0.03 s tracking, 5 cycles to enable, homing at 50 units/s.
pub open spec fn default_sim() -> SimConfig {
    SimConfig {
        axes: 4,
        cycle: Duration { nanos: 2_000_000 },
        tau: Scalar { bits: 0x3F9E_B851_EB85_1EB8 },
        enable_delay_cycles: 5,
        home_vel: Scalar { bits: 0x4049_0000_0000_0000 },
        home_step: Scalar { bits: 0x3FB9_9999_9999_999A },
    }
}

impl Default for SimConfig {
    fn default() -> (r: SimConfig)
        ensures
            r == default_sim(),
    {
        SimConfig {
            axes: 4,
            cycle: Duration { nanos: 2_000_000 },
            tau: Scalar { bits: 0x3F9E_B851_EB85_1EB8 },
            enable_delay_cycles: 5,
            home_vel: Scalar { bits: 0x4049_0000_0000_0000 },
            home_step: Scalar { bits: 0x3FB9_9999_9999_999A },
        }
    }
}

/// One simulated axis.
#[derive(Clone, Copy, Debug, PartialEq, Eq)]
pub struct SimAxis {
    pub pos: Scalar,
    pub vel: Scalar,
    pub enabled: bool,
    pub enable_cnt: u32,
    pub fault_code: u32,
    pub homed: bool,
    /// Limit switch positions, where there are switches.
    pub neg_limit_at: Option<Scalar>,
    pub pos_limit_at: Option<Scalar>,
}

/// An axis at zero, off.
pub open spec fn axis_at_rest() -> SimAxis {
    SimAxis {
        pos: Scalar { bits: 0 },
        vel: Scalar { bits: 0 },
        enabled: false,
        enable_cnt: 0,
        fault_code: 0,
        homed: false,
        neg_limit_at: None,
        pos_limit_at: None,
    }
}

/// The motion one cycle of the model needs, with its operands. `k` below is the
/// tracking gain `dt / (tau + dt)`.
#[derive(Clone, Copy, Debug, PartialEq, Eq, Structural)]
pub enum SimDemand {
    /// None.
    Rest,
    /// Velocity toward zero by `k`, then position by that velocity.
    Damp { pos: Scalar, vel: Scalar },
    /// Position toward `target` by `k`, velocity from the distance made.
    Track { pos: Scalar, target: Scalar },
    /// Velocity toward `target` by `k`, then position by that velocity.
    Follow { pos: Scalar, vel: Scalar, target: Scalar },
    /// Position by the velocity `vel`.
    Glide { pos: Scalar, vel: Scalar },
}

/// The outcome of a motion.
#[derive(Clone, Copy, Debug, PartialEq, Eq, Structural)]
pub struct SimAdvance {
    pub pos: Scalar,
    pub vel: Scalar,
}

/// The axis after a fault reset request was taken.
pub open spec fn after_fault_reset(ax: SimAxis, out: AxisOut) -> SimAxis {
    if out.fault_reset {
        SimAxis { fault_code: 0, ..ax }
    } else {
        ax
    }
}

/// The axis follows setpoints this cycle.
pub open spec fn follows(ax: SimAxis, out: AxisOut) -> bool {
    out.enable && after_fault_reset(ax, out).fault_code == 0 && ax.enabled
}

/// Homing arrives this cycle.
pub open spec fn home_reached(ax: SimAxis, cfg: SimConfig) -> bool {
    ax.pos.magnitude_of().le(cfg.home_step)
}

/// The velocity of the homing motion, toward zero.
pub open spec fn home_velocity(ax: SimAxis, cfg: SimConfig) -> Scalar {
    if (Scalar { bits: 0 }).lt(ax.pos) {
        cfg.home_vel.negated()
    } else {
        cfg.home_vel
    }
}

/// The motion that this cycle needs.
pub open spec fn sim_demand_of(ax: SimAxis, out: AxisOut, cfg: SimConfig) -> SimDemand {
    if !follows(ax, out) {
        SimDemand::Rest
    } else {
        match out.setpoint {
            Setpoint::Hold => SimDemand::Damp { pos: ax.pos, vel: ax.vel },
            Setpoint::CyclicPosition { pos, .. } | Setpoint::TargetPosition { pos, .. } =>
                SimDemand::Track { pos: ax.pos, target: pos },
            Setpoint::CyclicVelocity { vel } | Setpoint::TargetVelocity { vel, .. } =>
                SimDemand::Follow { pos: ax.pos, vel: ax.vel, target: vel },
            Setpoint::Home => if home_reached(ax, cfg) {
                SimDemand::Rest
            } else {
                SimDemand::Glide { pos: ax.pos, vel: home_velocity(ax, cfg) }
            },
        }
    }
}

/// The axis off, its brake engaged.
pub open spec fn braked(ax: SimAxis) -> SimAxis {
    SimAxis { enabled: false, enable_cnt: 0, vel: Scalar { bits: 0 }, ..ax }
}

/// An enabled axis after its motion.
pub open spec fn sim_moved(
    ax: SimAxis,
    out: AxisOut,
    cfg: SimConfig,
    advance: SimAdvance,
) -> SimAxis {
    match out.setpoint {
        Setpoint::Hold => if advance.vel.magnitude_of().lt(Scalar { bits: REST_EPS_BITS }) {
            SimAxis { vel: Scalar { bits: 0 }, ..ax }
        } else {
            SimAxis { pos: advance.pos, vel: advance.vel, ..ax }
        },
        Setpoint::Home => if home_reached(ax, cfg) {
            SimAxis {
                pos: Scalar { bits: 0 },
                vel: Scalar { bits: 0 },
                homed: true,
                ..ax
            }
        } else {
            SimAxis { pos: advance.pos, vel: home_velocity(ax, cfg), ..ax }
        },
        _ => SimAxis { pos: advance.pos, vel: advance.vel, ..ax },
    }
}

/// The axis after one cycle: off or in fault it brakes, asked to enable it
/// counts cycles until ready, enabled it moves.
pub open spec fn sim_stepped(
    ax: SimAxis,
    out: AxisOut,
    cfg: SimConfig,
    advance: SimAdvance,
) -> SimAxis {
    let a = after_fault_reset(ax, out);
    if !out.enable || a.fault_code != 0 {
        braked(a)
    } else if !a.enabled {
        let count = a.enable_cnt + 1;
        SimAxis { enable_cnt: count as u32, enabled: count >= cfg.enable_delay_cycles, ..a }
    } else {
        sim_moved(a, out, cfg, advance)
    }
}

/// The drive status that an axis shows.
pub open spec fn sim_status(ax: SimAxis, out: AxisOut) -> DriveStatus {
    if ax.fault_code != 0 {
        DriveStatus::Fault
    } else if ax.enabled {
        DriveStatus::Enabled
    } else if out.enable {
        DriveStatus::Enabling
    } else {
        DriveStatus::Disabled
    }
}

/// The inputs that an axis shows after a cycle.
pub open spec fn sim_input(ax: SimAxis, out: AxisOut) -> AxisIn {
    AxisIn {
        act_pos: ax.pos,
        act_vel: ax.vel,
        drive: sim_status(ax, out),
        fault_code: ax.fault_code,
        pos_limit: ax.pos_limit_at matches Some(l) && l.le(ax.pos),
        neg_limit: ax.neg_limit_at matches Some(l) && ax.pos.le(l),
        homed: ax.homed,
    }
}

/// Unless a drive shows itself enabled, it shows the position `ax` had before and
/// no velocity.
pub open spec fn stands_or_moves(ax: SimAxis, shown: AxisIn) -> bool {
    !(shown.drive is Enabled) ==> shown.act_pos == ax.pos && shown.act_vel == (Scalar { bits: 0 })
}

/// A counting axis has not reached its delay.
pub open spec fn counting(ax: SimAxis, cfg: SimConfig) -> bool {
    !ax.enabled ==> ax.enable_cnt == 0 || ax.enable_cnt < cfg.enable_delay_cycles
}

/// An axis that is not enabled has velocity zero.
pub open spec fn resting(ax: SimAxis) -> bool {
    !ax.enabled ==> ax.vel == (Scalar { bits: 0 })
}

/// The state of a simulated bus.
pub struct SimModel {
    pub cfg: SimConfig,
    pub state: BusState,
    pub axes: Seq<SimAxis>,
    pub events: Seq<BusEvent>,
    /// Parameters by axis and address.
    pub params: Map<(usize, ParamAddr), Seq<u8>>,
}

impl SimModel {
    /// Counting axes are within their delay, and axes that are not enabled rest.
    pub open spec fn valid(self) -> bool {
        forall|i: int|
            0 <= i < self.axes.len() ==> counting(#[trigger] self.axes[i], self.cfg) && resting(
                self.axes[i],
            )
    }
}

/// A simulated bus.
pub struct SimBackend {
    cfg: SimConfig,
    state: BusState,
    axes: Vec<SimAxis>,
    events: VecDeque<BusEvent>,
    params: ParamStore,
}

impl View for SimBackend {
    type V = SimModel;

    closed spec fn view(&self) -> SimModel {
        SimModel {
            cfg: self.cfg,
            state: self.state,
            axes: self.axes@,
            events: self.events@,
            params: self.params@,
        }
    }
}

/// The events after all of `n` axes came online.
pub open spec fn online_events(n: nat) -> Seq<BusEvent> {
    Seq::new(n, |i: int| BusEvent::AxisOnline(AxisId(i as usize)))
}

impl SimBackend {
    /// The state is one that the bus can come to.
    pub open spec fn valid(self) -> bool {
        self@.valid()
    }

    pub fn new(cfg: SimConfig) -> (r: SimBackend)
        ensures
            r.valid(),
            r@ == (SimModel {
                cfg,
                state: BusState::Init,
                axes: Seq::new(cfg.axes as nat, |i: int| axis_at_rest()),
                events: Seq::<BusEvent>::empty(),
                params: Map::<(usize, ParamAddr), Seq<u8>>::empty(),
            }),
    {
        let mut axes: Vec<SimAxis> = Vec::new();
        while axes.len() < cfg.axes
            invariant
                axes@.len() <= cfg.axes,
                forall|i: int| 0 <= i < axes@.len() ==> #[trigger] axes@[i] == axis_at_rest(),
            decreases cfg.axes - axes@.len(),
        {
            axes.push(
                SimAxis {
                    pos: Scalar::zero(),
                    vel: Scalar::zero(),
                    enabled: false,
                    enable_cnt: 0,
                    fault_code: 0,
                    homed: false,
                    neg_limit_at: None,
                    pos_limit_at: None,
                },
            );
        }
        let r = SimBackend {
            cfg,
            state: BusState::Init,
            axes,
            events: VecDeque::new(),
            params: ParamStore::new(),
        };
        assert(r@.axes =~= Seq::new(cfg.axes as nat, |i: int| axis_at_rest()));
        r
    }

    /// Make an axis report a fault.
    pub fn inject_fault(&mut self, axis: usize, code: u32)
        requires
            old(self).valid(),
            axis < old(self)@.axes.len(),
        ensures
            final(self).valid(),
            final(self)@ == (SimModel {
                axes: old(self)@.axes.update(
                    axis as int,
                    SimAxis { fault_code: code, ..old(self)@.axes[axis as int] },
                ),
                events: old(self)@.events.push(BusEvent::AxisFault { axis: AxisId(axis), code }),
                ..old(self)@
            }),
    {
        let mut ax: SimAxis = self.axes[axis];
        ax.fault_code = code;
        self.axes[axis] = ax;
        self.events.push_back(BusEvent::AxisFault { axis: AxisId(axis), code });
    }

    /// Place limit switches.
    pub fn set_limits(&mut self, axis: usize, neg_at: Option<Scalar>, pos_at: Option<Scalar>)
        requires
            old(self).valid(),
            axis < old(self)@.axes.len(),
        ensures
            final(self).valid(),
            final(self)@ == (SimModel {
                axes: old(self)@.axes.update(
                    axis as int,
                    SimAxis {
                        neg_limit_at: neg_at,
                        pos_limit_at: pos_at,
                        ..old(self)@.axes[axis as int]
                    },
                ),
                ..old(self)@
            }),
    {
        let mut ax: SimAxis = self.axes[axis];
        ax.neg_limit_at = neg_at;
        ax.pos_limit_at = pos_at;
        self.axes[axis] = ax;
    }

    pub fn axis_pos(&self, axis: usize) -> (r: Scalar)
        requires
            axis < self@.axes.len(),
        ensures
            r == self@.axes[axis as int].pos,
    {
        self.axes[axis].pos
    }

    /// The motion that axis `axis` needs in the next exchange with `out`.
    pub fn demand(&self, axis: usize, out: &AxisOut) -> (r: SimDemand)
        requires
            axis < self@.axes.len(),
        ensures
            r == sim_demand_of(self@.axes[axis as int], *out, self@.cfg),
    {
        let ax: SimAxis = self.axes[axis];
        let fault = ax.fault_code != 0 && !out.fault_reset;
        if !out.enable || fault || !ax.enabled {
            return SimDemand::Rest;
        }
        match out.setpoint {
            Setpoint::Hold => SimDemand::Damp { pos: ax.pos, vel: ax.vel },
            Setpoint::CyclicPosition { pos, .. } => SimDemand::Track { pos: ax.pos, target: pos },
            Setpoint::TargetPosition { pos, .. } => SimDemand::Track { pos: ax.pos, target: pos },
            Setpoint::CyclicVelocity { vel } => SimDemand::Follow {
                pos: ax.pos,
                vel: ax.vel,
                target: vel,
            },
            Setpoint::TargetVelocity { vel, .. } => SimDemand::Follow {
                pos: ax.pos,
                vel: ax.vel,
                target: vel,
            },
            Setpoint::Home => {
                if ax.pos.abs().is_at_most(self.cfg.home_step) {
                    SimDemand::Rest
                } else {
                    SimDemand::Glide { pos: ax.pos, vel: Self::homing_velocity(&ax, &self.cfg) }
                }
            },
        }
    }

    fn homing_velocity(ax: &SimAxis, cfg: &SimConfig) -> (r: Scalar)
        ensures
            r == home_velocity(*ax, *cfg),
    {
        if Scalar::zero().is_less(ax.pos) {
            cfg.home_vel.negate()
        } else {
            cfg.home_vel
        }
    }

    fn step_axis(ax: &mut SimAxis, out: &AxisOut, cfg: &SimConfig, advance: &SimAdvance)
        requires
            counting(*old(ax), *cfg),
            resting(*old(ax)),
        ensures
            counting(*final(ax), *cfg),
            resting(*final(ax)),
            *final(ax) == sim_stepped(*old(ax), *out, *cfg, *advance),
    {
        if out.fault_reset && ax.fault_code != 0 {
            ax.fault_code = 0;
        }
        if !out.enable || ax.fault_code != 0 {
            ax.enabled = false;
            ax.enable_cnt = 0;
            ax.vel = Scalar::zero();
            return;
        }
        if !ax.enabled {
            ax.enable_cnt = ax.enable_cnt + 1;
            if ax.enable_cnt >= cfg.enable_delay_cycles {
                ax.enabled = true;
            }
            return;
        }
        match out.setpoint {
            Setpoint::Hold => {
                if advance.vel.abs().is_less(Scalar { bits: REST_EPS_BITS }) {
                    ax.vel = Scalar::zero();
                } else {
                    ax.pos = advance.pos;
                    ax.vel = advance.vel;
                }
            },
            Setpoint::Home => {
                if ax.pos.abs().is_at_most(cfg.home_step) {
                    ax.pos = Scalar::zero();
                    ax.vel = Scalar::zero();
                    ax.homed = true;
                } else {
                    let vel = Self::homing_velocity(&*ax, cfg);
                    ax.vel = vel;
                    ax.pos = advance.pos;
                }
            },
            _ => {
                ax.pos = advance.pos;
                ax.vel = advance.vel;
            },
        }
    }

    fn drive_status(ax: &SimAxis, out: &AxisOut) -> (r: DriveStatus)
        ensures
            r == sim_status(*ax, *out),
    {
        if ax.fault_code != 0 {
            DriveStatus::Fault
        } else if ax.enabled {
            DriveStatus::Enabled
        } else if out.enable {
            DriveStatus::Enabling
        } else {
            DriveStatus::Disabled
        }
    }

    fn input_of(ax: &SimAxis, out: &AxisOut) -> (r: AxisIn)
        ensures
            r == sim_input(*ax, *out),
    {
        let pos_limit = match ax.pos_limit_at {
            Some(l) => l.is_at_most(ax.pos),
            None => false,
        };
        let neg_limit = match ax.neg_limit_at {
            Some(l) => ax.pos.is_at_most(l),
            None => false,
        };
        AxisIn {
            act_pos: ax.pos,
            act_vel: ax.vel,
            drive: Self::drive_status(ax, out),
            fault_code: ax.fault_code,
            pos_limit,
            neg_limit,
            homed: ax.homed,
        }
    }

    pub fn axis_count(&self) -> (r: usize)
        ensures
            r == self@.axes.len(),
    {
        self.axes.len()
    }

    pub fn capability(&self, axis: AxisId) -> (r: AxisCapability)
        ensures
            r.cycle == (CycleClass::HardRt { cycle: self@.cfg.cycle }),
            r.setpoint is CyclicTrajectory,
            r.modes == (OpModes { position: true, velocity: true, torque: false, homing: true }),
    {
        AxisCapability {
            cycle: CycleClass::HardRt { cycle: self.cfg.cycle },
            setpoint: SetpointKind::CyclicTrajectory,
            modes: OpModes { position: true, velocity: true, torque: false, homing: true },
        }
    }

    pub fn bus_state(&self) -> (r: BusState)
        ensures
            r == self@.state,
    {
        self.state
    }

    /// The bus is operational at once, and every axis online.
    pub fn start(&mut self) -> (r: Result<(), FieldbusError>)
        requires
            old(self).valid(),
        ensures
            final(self).valid(),
            r is Ok,
            final(self)@ == (SimModel {
                state: BusState::Op,
                events: old(self)@.events.push(BusEvent::BusStateChanged(BusState::Op))
                    + online_events(old(self)@.axes.len()),
                ..old(self)@
            }),
    {
        self.state = BusState::Op;
        self.events.push_back(BusEvent::BusStateChanged(BusState::Op));
        let ghost base = self.events@;
        let n: usize = self.axes.len();
        let mut i: usize = 0;
        assert(base + online_events(0) =~= base);
        while i < n
            invariant
                i <= n,
                n == self.axes@.len(),
                self.events@ == base + online_events(i as nat),
                self@ == (SimModel { state: BusState::Op, events: self.events@, ..old(self)@ }),
                old(self).valid(),
            decreases n - i,
        {
            self.events.push_back(BusEvent::AxisOnline(AxisId(i)));
            i += 1;
            assert(self.events@ =~= base + online_events(i as nat));
        }
        Ok(())
    }

    pub fn stop(&mut self) -> (r: Result<(), FieldbusError>)
        requires
            old(self).valid(),
        ensures
            final(self).valid(),
            r is Ok,
            final(self)@ == (SimModel {
                state: BusState::Init,
                events: old(self)@.events.push(BusEvent::BusStateChanged(BusState::Init)),
                ..old(self)@
            }),
    {
        self.state = BusState::Init;
        self.events.push_back(BusEvent::BusStateChanged(BusState::Init));
        Ok(())
    }

    /// One cycle: every axis moves, and shows its inputs. `advances[i]` is the
    /// outcome of the motion that `demand` asks for axis `i`; where it asks for
    /// none, it has no effect. A bus that is not operational refuses.
    pub fn exchange(
        &mut self,
        outs: &[AxisOut],
        advances: &[SimAdvance],
        ins: &mut [AxisIn],
    ) -> (r: Result<ExchangeStatus, FieldbusError>)
        requires
            old(self).valid(),
            outs@.len() >= old(self)@.axes.len(),
            advances@.len() >= old(self)@.axes.len(),
            old(ins)@.len() >= old(self)@.axes.len(),
        ensures
            final(self).valid(),
            final(ins)@.len() == old(ins)@.len(),
            if old(self)@.state is Op {
                &&& r == Ok::<ExchangeStatus, FieldbusError>(
                    ExchangeStatus {
                        all_axes_responding: true,
                        inputs_fresh: true,
                        working_counter_ok: true,
                        next_cycle_wait: None,
                    },
                )
                &&& final(self)@ == (SimModel {
                    axes: Seq::new(
                        old(self)@.axes.len(),
                        |i: int|
                            sim_stepped(
                                old(self)@.axes[i],
                                outs@[i],
                                old(self)@.cfg,
                                advances@[i],
                            ),
                    ),
                    ..old(self)@
                })
                &&& forall|i: int|
                    0 <= i < old(self)@.axes.len() ==> #[trigger] final(ins)@[i] == sim_input(
                        final(self)@.axes[i],
                        outs@[i],
                    )
                &&& forall|i: int|
                    0 <= i < old(self)@.axes.len() ==> stands_or_moves(
                        old(self)@.axes[i],
                        #[trigger] final(ins)@[i],
                    )
                &&& forall|i: int|
                    old(self)@.axes.len() <= i < old(ins)@.len() ==> #[trigger] final(ins)@[i]
                        == old(ins)@[i]
            } else {
                &&& r == Err::<ExchangeStatus, FieldbusError>(
                    FieldbusError::InvalidState(old(self)@.state),
                )
                &&& final(self)@ == old(self)@
                &&& final(ins)@ == old(ins)@
            },
    {
        if self.state != BusState::Op {
            return Err(FieldbusError::InvalidState(self.state));
        }
        let n: usize = self.axes.len();
        let ghost before = self.axes@;
        let ghost ins_before = ins@;
        let cfg: SimConfig = self.cfg;
        let mut i: usize = 0;
        while i < n
            invariant
                n == before.len(),
                i <= n,
                outs@.len() >= n,
                advances@.len() >= n,
                ins@.len() == ins_before.len(),
                ins@.len() >= n,
                self.valid(),
                self.axes@.len() == n,
                self.cfg == cfg,
                self@ == (SimModel { axes: self.axes@, ..old(self)@ }),
                forall|k: int|
                    0 <= k < i ==> #[trigger] self.axes@[k] == sim_stepped(
                        before[k],
                        outs@[k],
                        cfg,
                        advances@[k],
                    ),
                forall|k: int| i <= k < n ==> #[trigger] self.axes@[k] == before[k],
                forall|k: int|
                    0 <= k < i ==> #[trigger] ins@[k] == sim_input(self.axes@[k], outs@[k]),
                forall|k: int| i <= k < ins@.len() ==> #[trigger] ins@[k] == ins_before[k],
            decreases n - i,
        {
            let ghost last = self@.axes;
            assert(counting(last[i as int], cfg) && resting(last[i as int]));
            let mut ax: SimAxis = self.axes[i];
            Self::step_axis(&mut ax, &outs[i], &cfg, &advances[i]);
            self.axes[i] = ax;
            assert(self@.axes == last.update(i as int, ax) && self@.cfg == cfg);
            ins[i] = Self::input_of(&ax, &outs[i]);
            i += 1;
        }
        assert(self@.axes =~= Seq::new(
            before.len(),
            |k: int| sim_stepped(before[k], outs@[k], cfg, advances@[k]),
        ));
        Ok(
            ExchangeStatus {
                all_axes_responding: true,
                inputs_fresh: true,
                working_counter_ok: true,
                next_cycle_wait: None,
            },
        )
    }

    /// Take the oldest pending event.
    pub fn poll_event(&mut self) -> (r: Option<BusEvent>)
        requires
            old(self).valid(),
        ensures
            final(self).valid(),
            if old(self)@.events.len() == 0 {
                r is None && final(self)@ == old(self)@
            } else {
                r == Some(old(self)@.events[0]) && final(self)@ == (SimModel {
                    events: old(self)@.events.subrange(1, old(self)@.events.len() as int),
                    ..old(self)@
                })
            },
    {
        self.events.pop_front()
    }

    /// A handle on the parameter store.
    pub fn acyclic(&mut self) -> (r: SimAcyclic<'_>)
        requires
            old(self).valid(),
        ensures
            final(self).valid(),
            r.params@ == old(self)@.params,
            final(self)@ == (SimModel { params: final(r.params)@, ..old(self)@ }),
    {
        SimAcyclic { params: &mut self.params }
    }
}

/// One stored parameter.
pub struct ParamEntry {
    pub axis: usize,
    pub addr: ParamAddr,
    pub data: Vec<u8>,
}

impl ParamEntry {
    /// What the parameter is stored under.
    pub open spec fn key(self) -> (usize, ParamAddr) {
        (self.axis, self.addr)
    }
}

/// Parameters by axis and address.
pub struct ParamStore {
    entries: Vec<ParamEntry>,
}

impl View for ParamStore {
    type V = Map<(usize, ParamAddr), Seq<u8>>;

    closed spec fn view(&self) -> Map<(usize, ParamAddr), Seq<u8>> {
        Map::new(
            |k: (usize, ParamAddr)|
                exists|i: int| 0 <= i < self.entries@.len() && (#[trigger] self.entries@[i]).key() == k,
            |k: (usize, ParamAddr)|
                {
                    let i = choose|i: int|
                        0 <= i < self.entries@.len() && (#[trigger] self.entries@[i]).key() == k;
                    self.entries@[i].data@
                },
        )
    }
}

impl ParamStore {
    #[verifier::type_invariant]
    spec fn stored_once(self) -> bool {
        forall|i: int, j: int|
            0 <= i < j < self.entries@.len() ==> (#[trigger] self.entries@[i]).key() != (
            #[trigger] self.entries@[j]).key()
    }

    pub fn new() -> (r: ParamStore)
        ensures
            r@ == Map::<(usize, ParamAddr), Seq<u8>>::empty(),
    {
        let r = ParamStore { entries: Vec::new() };
        assert(r@ =~= Map::<(usize, ParamAddr), Seq<u8>>::empty());
        r
    }

    proof fn lemma_entry(self, i: int)
        requires
            self.stored_once(),
            0 <= i < self.entries@.len(),
        ensures
            self@.dom().contains(self.entries@[i].key()),
            self@[self.entries@[i].key()] == self.entries@[i].data@,
    {
        let k = self.entries@[i].key();
        let j = choose|j: int|
            0 <= j < self.entries@.len() && (#[trigger] self.entries@[j]).key() == k;
        assert(self.entries@[i].key() == k);
        assert(0 <= j < self.entries@.len() && self.entries@[j].key() == k);
        if i < j {
            assert(self.entries@[i].key() != self.entries@[j].key());
        } else if j < i {
            assert(self.entries@[j].key() != self.entries@[i].key());
        }
    }

    fn find(&self, axis: usize, addr: ParamAddr) -> (r: Option<usize>)
        ensures
            match r {
                Some(i) => i < self.entries@.len() && self.entries@[i as int].key() == (axis, addr),
                None => !self@.dom().contains((axis, addr)),
            },
    {
        let mut i: usize = 0;
        while i < self.entries.len()
            invariant
                i <= self.entries@.len(),
                forall|j: int| 0 <= j < i ==> (#[trigger] self.entries@[j]).key() != (axis, addr),
            decreases self.entries@.len() - i,
        {
            if self.entries[i].axis == axis && self.entries[i].addr == addr {
                return Some(i);
            }
            i += 1;
        }
        None
    }

    /// Copy a stored parameter into the front of `buf`, as much as fits.
    pub fn read(&self, axis: usize, addr: ParamAddr, buf: &mut [u8]) -> (r: Result<
        usize,
        FieldbusError,
    >)
        ensures
            final(buf)@.len() == old(buf)@.len(),
            if self@.dom().contains((axis, addr)) {
                let data = self@[(axis, addr)];
                let n = if data.len() <= old(buf)@.len() {
                    data.len()
                } else {
                    old(buf)@.len()
                };
                &&& r == Ok::<usize, FieldbusError>(n as usize)
                &&& final(buf)@ == data.take(n as int) + old(buf)@.skip(n as int)
            } else {
                &&& r == Err::<usize, FieldbusError>(
                    FieldbusError::Acyclic { code: NO_SUCH_OBJECT },
                )
                &&& final(buf)@ == old(buf)@
            },
    {
        match self.find(axis, addr) {
            Some(at) => {
                proof {
                    use_type_invariant(self);
                    self.lemma_entry(at as int);
                }
                let data: &Vec<u8> = &self.entries[at].data;
                let n: usize = if data.len() <= buf.len() {
                    data.len()
                } else {
                    buf.len()
                };
                let ghost before = buf@;
                let mut i: usize = 0;
                while i < n
                    invariant
                        i <= n,
                        n <= data@.len(),
                        n <= before.len(),
                        buf@.len() == before.len(),
                        forall|j: int| 0 <= j < i ==> #[trigger] buf@[j] == data@[j],
                        forall|j: int| i <= j < before.len() ==> #[trigger] buf@[j] == before[j],
                    decreases n - i,
                {
                    buf[i] = data[i];
                    i += 1;
                }
                assert(buf@ =~= data@.take(n as int) + before.skip(n as int));
                Ok(n)
            },
            None => Err(FieldbusError::Acyclic { code: NO_SUCH_OBJECT }),
        }
    }

    /// Store a parameter, in place of what was stored before.
    pub fn write(&mut self, axis: usize, addr: ParamAddr, data: &[u8])
        ensures
            final(self)@ == old(self)@.insert((axis, addr), data@),
    {
        proof {
            use_type_invariant(&*self);
        }
        let copy: Vec<u8> = vstd::slice::slice_to_vec(data);
        let found: Option<usize> = self.find(axis, addr);
        let mut entries: Vec<ParamEntry> = Vec::new();
        std::mem::swap(&mut entries, &mut self.entries);
        match found {
            Some(at) => {
                entries[at] = ParamEntry { axis, addr, data: copy };
            },
            None => {
                entries.push(ParamEntry { axis, addr, data: copy });
            },
        }
        self.entries = entries;
        proof {
            let k = (axis, addr);
            let new = *self;
            let before = *old(self);
            let expected = before@.insert(k, data@);
            assert forall|i: int| 0 <= i < before.entries@.len() implies (
            #[trigger] new.entries@[i]).key() == before.entries@[i].key() by {}
            assert(new.stored_once());
            assert forall|q: (usize, ParamAddr)| new@.dom().contains(q)
                == #[trigger] expected.dom().contains(q) by {
                if expected.dom().contains(q) {
                    if q == k {
                        if before@.dom().contains(k) {
                            let j = choose|j: int|
                                0 <= j < before.entries@.len() && (
                                #[trigger] before.entries@[j]).key() == k;
                            assert(new.entries@[j].key() == k);
                        } else {
                            assert(new.entries@[new.entries@.len() - 1].key() == k);
                        }
                    } else {
                        let j = choose|j: int|
                            0 <= j < before.entries@.len() && (
                            #[trigger] before.entries@[j]).key() == q;
                        assert(new.entries@[j].key() == q);
                    }
                }
                if new@.dom().contains(q) {
                    let i = choose|i: int|
                        0 <= i < new.entries@.len() && (#[trigger] new.entries@[i]).key() == q;
                    if q != k {
                        assert(before.entries@[i].key() == q);
                    }
                }
            }
            assert forall|q: (usize, ParamAddr)| new@.dom().contains(q) implies #[trigger] new@[q]
                == expected[q] by {
                let i = choose|i: int|
                    0 <= i < new.entries@.len() && (#[trigger] new.entries@[i]).key() == q;
                assert(new.entries@[i].key() == q);
                new.lemma_entry(i);
                if q != k {
                    before.lemma_entry(i);
                }
            }
            assert(new@ =~= expected);
        }
    }
}

/// A handle on the parameter store of a simulated bus.
pub struct SimAcyclic<'a> {
    pub params: &'a mut ParamStore,
}

impl<'a> AcyclicAccess for SimAcyclic<'a> {
    fn read(&mut self, axis: AxisId, addr: ParamAddr, buf: &mut [u8]) -> (r: Result<
        usize,
        FieldbusError,
    >)
        ensures
            final(buf)@.len() == old(buf)@.len(),
            final(self).params@ == old(self).params@,
            *final(final(self).params) == *final(old(self).params),
            if old(self).params@.dom().contains((axis.0, addr)) {
                let data = old(self).params@[(axis.0, addr)];
                let n = if data.len() <= old(buf)@.len() {
                    data.len()
                } else {
                    old(buf)@.len()
                };
                &&& r == Ok::<usize, FieldbusError>(n as usize)
                &&& final(buf)@ == data.take(n as int) + old(buf)@.skip(n as int)
            } else {
                &&& r == Err::<usize, FieldbusError>(
                    FieldbusError::Acyclic { code: NO_SUCH_OBJECT },
                )
                &&& final(buf)@ == old(buf)@
            },
    {
        self.params.read(axis.0, addr, buf)
    }

    fn write(&mut self, axis: AxisId, addr: ParamAddr, data: &[u8]) -> (r: Result<
        (),
        FieldbusError,
    >)
        ensures
            r is Ok,
            final(self).params@ == old(self).params@.insert((axis.0, addr), data@),
            *final(final(self).params) == *final(old(self).params),
    {
        self.params.write(axis.0, addr, data);
        Ok(())
    }
}

/// A written parameter is read back, whatever else was written for other axes
/// or addresses; one that was never written does not exist.
pub proof fn parameters_read_back(
    params: Map<(usize, ParamAddr), Seq<u8>>,
    key: (usize, ParamAddr),
    data: Seq<u8>,
    other: (usize, ParamAddr),
)
    requires
        other != key,
    ensures
        params.insert(key, data).dom().contains(key),
        params.insert(key, data)[key] == data,
        params.insert(key, data).dom().contains(other) == params.dom().contains(other),
        params.dom().contains(other) ==> params.insert(key, data)[other] == params[other],
{
}

/// Where a cycle demands no motion, the handed-in outcome has no effect.
pub proof fn no_sim_demand_no_effect(
    ax: SimAxis,
    out: AxisOut,
    cfg: SimConfig,
    a: SimAdvance,
    b: SimAdvance,
)
    requires
        sim_demand_of(ax, out, cfg) is Rest,
    ensures
        sim_stepped(ax, out, cfg, a) == sim_stepped(ax, out, cfg, b),
{
}

/// An axis without power, or in fault, does not move: it keeps its position and
/// its velocity is zero.
pub proof fn unpowered_axes_stand_still(
    ax: SimAxis,
    out: AxisOut,
    cfg: SimConfig,
    advance: SimAdvance,
)
    requires
        !out.enable || ax.fault_code != 0 && !out.fault_reset,
    ensures
        sim_stepped(ax, out, cfg, advance).pos == ax.pos,
        sim_stepped(ax, out, cfg, advance).vel == (Scalar { bits: 0 }),
        !sim_stepped(ax, out, cfg, advance).enabled,
        !(sim_status(sim_stepped(ax, out, cfg, advance), out) is Enabled),
{
}

/// A drive that is off, enabling or in fault neither moves nor shows a velocity.
/// It shows a fault exactly while it has a fault code, and a fault reset clears
/// the code in the same cycle.
pub proof fn drives_move_only_when_enabled(
    bus: SimModel,
    axis: int,
    out: AxisOut,
    advance: SimAdvance,
)
    requires
        bus.valid(),
        0 <= axis < bus.axes.len(),
    ensures
        ({
            let before = bus.axes[axis];
            let after = sim_stepped(before, out, bus.cfg, advance);
            let shown = sim_input(after, out);
            &&& shown.act_pos == after.pos
            &&& stands_or_moves(before, shown)
            &&& shown.drive is Fault <==> shown.fault_code != 0
            &&& out.fault_reset ==> shown.fault_code == 0
        }),
{
    assert(counting(bus.axes[axis], bus.cfg) && resting(bus.axes[axis]));
}

/// The axis after `n` cycles with power requested.
pub open spec fn enabling_for(
    ax: SimAxis,
    out: AxisOut,
    cfg: SimConfig,
    advance: SimAdvance,
    n: nat,
) -> SimAxis
    decreases n,
{
    if n == 0 {
        ax
    } else {
        sim_stepped(
            enabling_for(ax, out, cfg, advance, (n - 1) as nat),
            out,
            cfg,
            advance,
        )
    }
}

/// From rest, power comes after exactly the configured number of cycles, one at
/// the least.
pub proof fn enabling_takes_the_configured_cycles(
    ax: SimAxis,
    out: AxisOut,
    cfg: SimConfig,
    advance: SimAdvance,
    n: nat,
)
    requires
        !ax.enabled,
        ax.enable_cnt == 0,
        ax.fault_code == 0,
        out.enable,
        n >= 1,
        n == 1 || n <= cfg.enable_delay_cycles,
    ensures
        ({
            let after = enabling_for(ax, out, cfg, advance, n);
            &&& after.enabled <==> n >= cfg.enable_delay_cycles
            &&& after.enable_cnt == n
            &&& after.fault_code == 0
            &&& after.pos == ax.pos
        }),
    decreases n,
{
    if n > 1 {
        enabling_takes_the_configured_cycles(ax, out, cfg, advance, (n - 1) as nat);
    } else {
        assert(enabling_for(ax, out, cfg, advance, 0) == ax);
    }
}

} // verus!
