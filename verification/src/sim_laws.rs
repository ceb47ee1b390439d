//! What a simulated drive does in a cycle, told by its outputs and its fields
//! before and after.
use vstd::prelude::*;

use crate::fieldbus::{
    AxisCapability, AxisId, AxisIn, AxisOut, BusEvent, BusState, CycleClass, DriveStatus,
    ExchangeStatus, FieldbusError, ParamAddr, Setpoint,
};
use crate::scalar::{lemma_negation, Scalar};
use crate::sim::{
    sim_demand_of, sim_input, sim_status, sim_stepped, ParamStore, SimAdvance, SimAxis, SimBackend,
    SimConfig, SimDemand,
};

verus! {

/// The drive is asked for power and has no fault, or has it reset in this cycle.
pub open spec fn powered(ax: SimAxis, out: AxisOut) -> bool {
    out.enable && (ax.fault_code == 0 || out.fault_reset)
}

/// A fault is cleared by a reset and by nothing else; the places of the limit
/// switches never change.
pub proof fn faults_stay_until_reset(
    ax: SimAxis,
    out: AxisOut,
    cfg: SimConfig,
    advance: SimAdvance,
)
    ensures
        ({
            let after = sim_stepped(ax, out, cfg, advance);
            &&& after.fault_code == if out.fault_reset {
                0
            } else {
                ax.fault_code
            }
            &&& after.pos_limit_at == ax.pos_limit_at
            &&& after.neg_limit_at == ax.neg_limit_at
        }),
{
}

/// Without power a drive is off and its brake engaged, and it loses the cycles
/// it had spent enabling. With power it counts cycles, standing, until it is
/// ready.
pub proof fn drives_enable_after_their_delay(
    ax: SimAxis,
    out: AxisOut,
    cfg: SimConfig,
    advance: SimAdvance,
)
    requires
        !powered(ax, out) || !ax.enabled,
        ax.enable_cnt < u32::MAX,
    ensures
        ({
            let after = sim_stepped(ax, out, cfg, advance);
            &&& !powered(ax, out) ==> !after.enabled && after.enable_cnt == 0 && after.vel.bits == 0
            &&& powered(ax, out) ==> after.enable_cnt == ax.enable_cnt + 1 && after.vel == ax.vel
            &&& powered(ax, out) ==> (after.enabled <==> ax.enable_cnt + 1
                >= cfg.enable_delay_cycles)
            &&& after.pos == ax.pos
            &&& after.homed == ax.homed
            &&& sim_demand_of(ax, out, cfg) is Rest
        }),
{
}

/// An enabled drive follows its setpoint: it tracks a position and follows a
/// velocity, from where it stands, and takes the outcome; told to hold, it damps
/// its velocity until it counts as zero, and then stands.
pub proof fn enabled_drives_follow_their_setpoint(
    ax: SimAxis,
    out: AxisOut,
    cfg: SimConfig,
    advance: SimAdvance,
)
    requires
        powered(ax, out),
        ax.enabled,
        !(out.setpoint is Home),
    ensures
        ({
            let after = sim_stepped(ax, out, cfg, advance);
            let demand = sim_demand_of(ax, out, cfg);
            let rests = out.setpoint is Hold && advance.vel.magnitude_of().lt(
                Scalar { bits: 0x3EB0_C6F7_A0B5_ED8D },
            );
            &&& match out.setpoint {
                Setpoint::Hold => demand == (SimDemand::Damp { pos: ax.pos, vel: ax.vel }),
                Setpoint::CyclicPosition { pos, .. } => demand == (SimDemand::Track {
                    pos: ax.pos,
                    target: pos,
                }),
                Setpoint::TargetPosition { pos, .. } => demand == (SimDemand::Track {
                    pos: ax.pos,
                    target: pos,
                }),
                Setpoint::CyclicVelocity { vel } => demand == (SimDemand::Follow {
                    pos: ax.pos,
                    vel: ax.vel,
                    target: vel,
                }),
                Setpoint::TargetVelocity { vel, .. } => demand == (SimDemand::Follow {
                    pos: ax.pos,
                    vel: ax.vel,
                    target: vel,
                }),
                Setpoint::Home => false,
            }
            &&& rests ==> after.pos == ax.pos && after.vel.bits == 0
            &&& !rests ==> after.pos == advance.pos && after.vel == advance.vel
            &&& after.enabled && after.homed == ax.homed
        }),
{
}

/// Homing moves toward zero at the homing speed until zero is within one cycle's
/// way; the drive then stands at zero and is homed.
pub proof fn homing_drives_move_to_zero(
    ax: SimAxis,
    out: AxisOut,
    cfg: SimConfig,
    advance: SimAdvance,
)
    requires
        powered(ax, out),
        ax.enabled,
        out.setpoint is Home,
        !ax.pos.nan(),
        !cfg.home_step.nan(),
        !cfg.home_vel.nan(),
    ensures
        ({
            let after = sim_stepped(ax, out, cfg, advance);
            let distance = if ax.pos.value() < 0 {
                -ax.pos.value()
            } else {
                ax.pos.value()
            };
            let vel = if ax.pos.value() > 0 {
                -cfg.home_vel.value()
            } else {
                cfg.home_vel.value()
            };
            let there = distance <= cfg.home_step.value();
            &&& there ==> after.pos.bits == 0 && after.vel.bits == 0 && after.homed
            &&& !there ==> after.pos == advance.pos && after.vel.value() == vel && after.homed
                == ax.homed
            &&& there ==> sim_demand_of(ax, out, cfg) is Rest
            &&& !there ==> match sim_demand_of(ax, out, cfg) {
                SimDemand::Glide { pos, vel: v } => pos == ax.pos && v.value() == vel,
                _ => false,
            }
            &&& after.enabled
        }),
{
    lemma_negation(ax.pos);
    lemma_negation(cfg.home_vel);
    lemma_negation(ax.pos.magnitude_of());
    crate::scalar::lemma_magnitude_order(ax.pos.unsigned_bits(), 0);
    assert(ax.pos.magnitude_of().unsigned_bits() == ax.pos.unsigned_bits());
}

/// What a drive shows: its position, velocity, fault code and reference; a limit
/// switch where the axis is at or beyond it; and whether it is in fault, enabled,
/// enabling or off.
pub proof fn drives_show_their_state(ax: SimAxis, out: AxisOut)
    ensures
        ({
            let shown = sim_input(ax, out);
            &&& shown.act_pos == ax.pos
            &&& shown.act_vel == ax.vel
            &&& shown.fault_code == ax.fault_code
            &&& shown.homed == ax.homed
            &&& shown.pos_limit <==> (ax.pos_limit_at matches Some(l) && !l.nan() && !ax.pos.nan()
                && l.value() <= ax.pos.value())
            &&& shown.neg_limit <==> (ax.neg_limit_at matches Some(l) && !l.nan() && !ax.pos.nan()
                && ax.pos.value() <= l.value())
            &&& shown.drive == if ax.fault_code != 0 {
                DriveStatus::Fault
            } else if ax.enabled {
                DriveStatus::Enabled
            } else if out.enable {
                DriveStatus::Enabling
            } else {
                DriveStatus::Disabled
            }
            &&& shown.drive == sim_status(ax, out)
        }),
{
}

/// A new bus is in its initial state, with as many axes as it was configured
/// for, all off at zero without switches or faults.
pub proof fn new_buses_rest(cfg: SimConfig, r: SimBackend, i: int)
    requires
        call_ensures(SimBackend::new, (cfg,), r),
        0 <= i < cfg.axes,
    ensures
        r@.cfg == cfg,
        r@.state is Init,
        r@.axes.len() == cfg.axes,
        r@.events.len() == 0,
        r@.axes[i].pos.bits == 0 && r@.axes[i].vel.bits == 0,
        !r@.axes[i].enabled && r@.axes[i].enable_cnt == 0 && r@.axes[i].fault_code == 0,
        !r@.axes[i].homed && r@.axes[i].neg_limit_at is None && r@.axes[i].pos_limit_at is None,
{
}

/// An exchange steps every axis on its own output and motion, shows its inputs,
/// and reports a sound bus; a bus that is not in operation refuses and changes
/// nothing.
pub proof fn exchanges_step_every_axis(
    bus: &mut SimBackend,
    outs: &[AxisOut],
    advances: &[SimAdvance],
    ins: &mut [AxisIn],
    r: Result<ExchangeStatus, FieldbusError>,
    i: int,
)
    requires
        call_ensures(SimBackend::exchange, (bus, outs, advances, ins), r),
        0 <= i < old(bus)@.axes.len() <= old(ins)@.len(),
    ensures
        r is Ok <==> old(bus)@.state is Op,
        r is Err ==> r->Err_0 == FieldbusError::InvalidState(old(bus)@.state) && final(bus)@ == old(
            bus,
        )@ && final(ins)@ == old(ins)@,
        r matches Ok(st) ==> {
            &&& st.all_axes_responding && st.inputs_fresh && st.working_counter_ok
            &&& st.next_cycle_wait is None
            &&& final(bus)@.axes.len() == old(bus)@.axes.len()
            &&& final(bus)@.axes[i] == sim_stepped(
                old(bus)@.axes[i],
                outs@[i],
                old(bus)@.cfg,
                advances@[i],
            )
            &&& final(ins)@[i] == sim_input(final(bus)@.axes[i], outs@[i])
            &&& final(bus)@.state is Op
            &&& final(bus)@.events == old(bus)@.events
        },
{
}

/// Starting puts the bus into operation, says so, and reports every axis online
/// in order; stopping takes it back and says so. Neither touches an axis.
pub proof fn buses_start_and_stop(
    bus: &mut SimBackend,
    started: Result<(), FieldbusError>,
    other: &mut SimBackend,
    halted: Result<(), FieldbusError>,
    i: int,
)
    requires
        call_ensures(SimBackend::start, (bus,), started),
        call_ensures(SimBackend::stop, (other,), halted),
        0 <= i < old(bus)@.axes.len(),
    ensures
        started is Ok && halted is Ok,
        final(bus)@.state is Op,
        final(bus)@.axes == old(bus)@.axes,
        final(bus)@.events.len() == old(bus)@.events.len() + 1 + old(bus)@.axes.len(),
        final(bus)@.events[old(bus)@.events.len() as int] == BusEvent::BusStateChanged(
            BusState::Op,
        ),
        final(bus)@.events[old(bus)@.events.len() + 1 + i] == BusEvent::AxisOnline(
            AxisId(i as usize),
        ),
        final(other)@.state is Init,
        final(other)@.axes == old(other)@.axes,
        final(other)@.events == old(other)@.events.push(BusEvent::BusStateChanged(BusState::Init)),
{
}

/// An injected fault gives the axis its code and is reported; placed switches
/// are where they were placed. Neither touches another axis.
pub proof fn faults_and_switches_are_per_axis(
    bus: &mut SimBackend,
    other: &mut SimBackend,
    axis: usize,
    code: u32,
    neg_at: Option<Scalar>,
    pos_at: Option<Scalar>,
    i: int,
)
    requires
        call_ensures(SimBackend::inject_fault, (bus, axis, code), ()),
        call_ensures(SimBackend::set_limits, (other, axis, neg_at, pos_at), ()),
        axis < old(bus)@.axes.len(),
        axis < old(other)@.axes.len(),
        0 <= i,
        i != axis,
    ensures
        final(bus)@.axes[axis as int] == (SimAxis {
            fault_code: code,
            ..old(bus)@.axes[axis as int]
        }),
        final(bus)@.events == old(bus)@.events.push(
            BusEvent::AxisFault { axis: AxisId(axis), code },
        ),
        i < old(bus)@.axes.len() ==> final(bus)@.axes[i] == old(bus)@.axes[i],
        final(other)@.axes[axis as int] == (SimAxis {
            neg_limit_at: neg_at,
            pos_limit_at: pos_at,
            ..old(other)@.axes[axis as int]
        }),
        final(other)@.events == old(other)@.events,
        i < old(other)@.axes.len() ==> final(other)@.axes[i] == old(other)@.axes[i],
{
}

/// Events come out in the order in which they happened, each once.
pub proof fn events_come_out_in_order(bus: &mut SimBackend, r: Option<BusEvent>, i: int)
    requires
        call_ensures(SimBackend::poll_event, (bus,), r),
        0 <= i,
    ensures
        old(bus)@.events.len() == 0 <==> r is None,
        r is Some ==> r->0 == old(bus)@.events[0],
        r is Some ==> final(bus)@.events.len() == old(bus)@.events.len() - 1,
        r is Some && i + 1 < old(bus)@.events.len() ==> final(bus)@.events[i] == old(
            bus,
        )@.events[i + 1],
        final(bus)@.axes == old(bus)@.axes,
{
}

/// The bus tells its state, its axes, where each stands, and which motion it
/// needs; it takes a fresh position or velocity every cycle, and homes.
pub proof fn buses_tell_about_themselves(
    bus: &SimBackend,
    axis: usize,
    id: AxisId,
    out: &AxisOut,
    state: BusState,
    count: usize,
    pos: Scalar,
    demand: SimDemand,
    can: AxisCapability,
)
    requires
        call_ensures(SimBackend::bus_state, (bus,), state),
        call_ensures(SimBackend::axis_count, (bus,), count),
        call_ensures(SimBackend::axis_pos, (bus, axis), pos),
        call_ensures(SimBackend::demand, (bus, axis, out), demand),
        call_ensures(SimBackend::capability, (bus, id), can),
    ensures
        state == bus@.state,
        count == bus@.axes.len(),
        pos == bus@.axes[axis as int].pos,
        demand == sim_demand_of(bus@.axes[axis as int], *out, bus@.cfg),
        can.cycle == (CycleClass::HardRt { cycle: bus@.cfg.cycle }),
        can.setpoint is CyclicTrajectory,
        can.modes.position && can.modes.velocity && !can.modes.torque && can.modes.homing,
{
}

/// A parameter that was written is read back, as far as the buffer reaches; the
/// rest of the buffer stays, and other parameters keep what they held. One that
/// was never written is reported as missing.
pub proof fn written_parameters_are_read_back(
    store: &mut ParamStore,
    axis: usize,
    addr: ParamAddr,
    data: &[u8],
    later: &ParamStore,
    buf: &mut [u8],
    r: Result<usize, FieldbusError>,
    other: (usize, ParamAddr),
    i: int,
)
    requires
        call_ensures(ParamStore::write, (store, axis, addr, data), ()),
        call_ensures(ParamStore::read, (later, axis, addr, buf), r),
        other != (axis, addr),
        0 <= i < old(buf)@.len(),
        old(buf)@.len() <= usize::MAX,
        data@.len() <= usize::MAX,
    ensures
        later@ == final(store)@ ==> {
            let n = if data@.len() <= old(buf)@.len() {
                data@.len()
            } else {
                old(buf)@.len()
            };
            &&& r == Ok::<usize, FieldbusError>(n as usize)
            &&& final(buf)@.len() == old(buf)@.len()
            &&& i < n ==> final(buf)@[i] == data@[i]
            &&& i >= n ==> final(buf)@[i] == old(buf)@[i]
        },
        final(store)@.dom().contains(other) == old(store)@.dom().contains(other),
        old(store)@.dom().contains(other) ==> final(store)@[other] == old(store)@[other],
        !later@.dom().contains((axis, addr)) ==> r == Err::<usize, FieldbusError>(
            FieldbusError::Acyclic { code: 0x0602_0000 },
        ) && final(buf)@ == old(buf)@,
{
}

} // verus!
