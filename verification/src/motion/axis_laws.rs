//! What holds of every axis, whatever commands, drive inputs and profile
//! outcomes it is ticked with.
use vstd::prelude::*;

use crate::fieldbus::AxisIn;
use crate::motion::axis::{
    at_standstill, bad_move_vel, demand_of, homing_step, initial_axis, needs_drive, on_entry,
    outputs_of, status_of, tick_of, Advance, AxisModel, AxisParams, AxisRequest, Demand, TickInput,
};
use crate::motion::flags::{cmd, error_id, status};
use crate::motion::profile::{ramped, ramps_to_rest_land_exactly};
use crate::motion::step::{motion_step, Step};
use crate::scalar::{lemma_magnitude_order, lemma_negation, Scalar};

verus! {

/// An error is latched exactly while the axis waits for a reset, it has an
/// identifier exactly while it is latched, and power is requested in every step
/// past enabling and never while idle.
pub open spec fn consistent(m: AxisModel) -> bool {
    &&& m.error <==> m.step is TryReset
    &&& m.error <==> m.error_id != error_id::NONE
    &&& !(m.step is Idle || m.step is Enabling) ==> m.out_enable
    &&& m.step is Idle ==> !m.out_enable
}

/// The axis after a sequence of ticks.
pub open spec fn run_of(m: AxisModel, ticks: Seq<TickInput>) -> AxisModel
    decreases ticks.len(),
{
    if ticks.len() == 0 {
        m
    } else {
        tick_of(run_of(m, ticks.drop_last()), ticks.last())
    }
}

/// A new axis is consistent.
pub proof fn new_axis_is_consistent(params: AxisParams)
    ensures
        consistent(initial_axis(params)),
{
}

/// Every tick keeps the axis consistent.
pub proof fn tick_keeps_consistent(m: AxisModel, t: TickInput)
    requires
        consistent(m),
    ensures
        consistent(tick_of(m, t)),
{
}

/// Every axis reached from a new one is consistent.
pub proof fn reachable_axes_are_consistent(params: AxisParams, ticks: Seq<TickInput>)
    ensures
        consistent(run_of(initial_axis(params), ticks)),
    decreases ticks.len(),
{
    if ticks.len() > 0 {
        reachable_axes_are_consistent(params, ticks.drop_last());
        tick_keeps_consistent(run_of(initial_axis(params), ticks.drop_last()), ticks.last());
    }
}

/// Where a cycle demands no profile step, the handed-in outcome has no effect.
pub proof fn no_demand_no_effect(
    m: AxisModel,
    req: AxisRequest,
    ems: bool,
    input: AxisIn,
    a: Advance,
    b: Advance,
)
    requires
        demand_of(m, req, ems, input) is Rest,
    ensures
        tick_of(m, TickInput { req, ems, input, advance: a }) == tick_of(
            m,
            TickInput { req, ems, input, advance: b },
        ),
{
}

/// Once past idle, no command word powers an axis off: it never returns to
/// idle, and a requested power stage stays requested.
pub proof fn enable_is_sticky(m: AxisModel, t: TickInput)
    requires
        !(m.step is Idle),
    ensures
        !(tick_of(m, t).step is Idle),
        m.out_enable ==> tick_of(m, t).out_enable,
{
}

/// Emergency stop leaves no motion step behind: a moving axis is stopping (or
/// in error, its drive lost), any other step stays as it is, and no command is
/// dispatched however long the stop is held.
pub proof fn ems_stops_and_freezes(m: AxisModel, t: TickInput)
    requires
        t.ems,
    ensures
        !motion_step(tick_of(m, t).step),
        ({
            let e = on_entry(m, t.req, t.input).step;
            tick_of(m, t).step == if motion_step(e) {
                Step::Stopping
            } else {
                e
            }
        }),
{
}

/// Under emergency stop the profile step is a stop ramp, except where homing
/// hands over an axis at rest where it stands.
pub proof fn ems_only_ramps_down(m: AxisModel, req: AxisRequest, input: AxisIn)
    ensures
        match demand_of(m, req, true, input) {
            Demand::Rest => homing_step(on_entry(m, req, input).step),
            Demand::Ramp { target, rate, .. } => target == (Scalar { bits: 0 }) && rate
                == m.params.stop_dec,
            Demand::Profile { .. } => false,
        },
{
}

/// Under emergency stop an axis with its drive operational keeps its step, a
/// motion step giving way to `Stopping`, whatever is requested; its setpoint
/// velocity ramps to rest with the direction kept and no speed gained, `limit`
/// at a time up to rounding, and is exactly zero once the speed is within
/// `limit`. `limit` is how far `stop_dec` goes in one cycle; `difference` and
/// `stepped` are the numbers of the ramp step. Homing hands over an axis at
/// rest.
pub proof fn ems_ramps_the_speed_down(
    m: AxisModel,
    t: TickInput,
    difference: Scalar,
    limit: Scalar,
    stepped: Scalar,
)
    requires
        t.ems,
        t.input.drive is Enabled,
        m.set_vel.finite(),
        difference.finite(),
        difference.value() == -m.set_vel.value(),
        !limit.nan(),
        0 <= limit.value(),
        m.set_vel.value() > limit.value() ==> stepped.nearest_to(
            m.set_vel.value() - limit.value(),
        ),
        m.set_vel.value() < -limit.value() ==> stepped.nearest_to(
            m.set_vel.value() + limit.value(),
        ),
        demand_of(m, t.req, true, t.input) is Ramp ==> t.advance.vel == ramped(
            demand_of(m, t.req, true, t.input)->Ramp_target,
            difference,
            limit,
            stepped,
        ),
    ensures
        ({
            let after = tick_of(m, t);
            let v = m.set_vel.value();
            let l = limit.value();
            &&& after.step == if motion_step(m.step) {
                Step::Stopping
            } else {
                m.step
            }
            &&& homing_step(m.step) || -l <= v <= l ==> after.set_vel == (Scalar { bits: 0 })
            &&& !homing_step(m.step) && v > l ==> 0 < after.set_vel.value() <= v
                && after.set_vel.nearest_to(v - l)
            &&& !homing_step(m.step) && v < -l ==> v <= after.set_vel.value() < 0
                && after.set_vel.nearest_to(v + l)
        }),
{
    ramps_to_rest_land_exactly(m.set_vel, difference, limit, stepped);
}

/// A finished absolute move never restarts from the still-held word: with the
/// latch set and no fresh word, no later tick enters the move.
pub proof fn held_move_never_restarts(m: AxisModel, ticks: Seq<TickInput>)
    requires
        m.move_abs_rearm,
        !(m.step is MoveAbs),
        forall|i: int| 0 <= i < ticks.len() ==> !(#[trigger] ticks[i]).req.fresh,
    ensures
        run_of(m, ticks).move_abs_rearm,
        !(run_of(m, ticks).step is MoveAbs),
    decreases ticks.len(),
{
    if ticks.len() > 0 {
        let before = ticks.drop_last();
        assert forall|i: int| 0 <= i < before.len() implies !(#[trigger] before[i]).req.fresh by {
            assert(before[i] == ticks[i]);
        }
        held_move_never_restarts(m, before);
        assert(!ticks[ticks.len() - 1].req.fresh);
    }
}

/// Finished homing never restarts from the still-held word.
pub proof fn held_home_never_restarts(m: AxisModel, ticks: Seq<TickInput>)
    requires
        m.home_rearm,
        !homing_step(m.step),
        forall|i: int| 0 <= i < ticks.len() ==> !(#[trigger] ticks[i]).req.fresh,
    ensures
        run_of(m, ticks).home_rearm,
        !homing_step(run_of(m, ticks).step),
    decreases ticks.len(),
{
    if ticks.len() > 0 {
        let before = ticks.drop_last();
        assert forall|i: int| 0 <= i < before.len() implies !(#[trigger] before[i]).req.fresh by {
            assert(before[i] == ticks[i]);
        }
        held_home_never_restarts(m, before);
        assert(!ticks[ticks.len() - 1].req.fresh);
    }
}

/// Arriving ends the move in `Stopping` with its latch set, and so does a
/// reported reference for homing.
pub proof fn arrival_sets_the_latch(m: AxisModel, t: TickInput)
    requires
        !t.ems,
        t.input.drive is Enabled,
    ensures
        m.step is MoveAbs && t.req.asks(cmd::MOVE_ABS) && !(t.req.fresh && bad_move_vel(t.req))
            && t.advance.done ==> tick_of(m, t).step is Stopping && tick_of(m, t).move_abs_rearm,
        m.step is HomingExec && t.input.homed ==> tick_of(m, t).step is Stopping && tick_of(
            m,
            t,
        ).home_rearm,
{
}

/// A fresh word with a usable velocity starts an absolute move from `Ready` and
/// re-targets one that runs, to the position asked for.
pub proof fn fresh_move_is_taken(m: AxisModel, t: TickInput)
    requires
        !t.ems,
        t.input.drive is Enabled,
        m.step is Ready || m.step is MoveAbs,
        t.req.fresh,
        t.req.asks(cmd::MOVE_ABS),
        !bad_move_vel(t.req),
    ensures
        tick_of(m, t).move_target == t.req.move_abs_pos,
        tick_of(m, t).move_vmax == t.req.move_abs_vel.lesser(m.params.max_vel),
        m.step is Ready ==> tick_of(m, t).step is MoveAbs,
        m.step is MoveAbs ==> tick_of(m, t).step is MoveAbs || t.advance.done,
{
}

/// A move whose velocity is not above zero is refused with its own error, in
/// `Ready` and while re-targeting alike.
pub proof fn unusable_move_velocity_is_refused(m: AxisModel, t: TickInput)
    requires
        !t.ems,
        t.input.drive is Enabled,
        m.step is Ready || m.step is MoveAbs,
        t.req.fresh,
        t.req.asks(cmd::MOVE_ABS),
        bad_move_vel(t.req),
    ensures
        tick_of(m, t).step is TryReset,
        tick_of(m, t).error,
        tick_of(m, t).error_id == error_id::MOVE_ABS_FAIL,
{
}

/// An error is left only by a reset request, without an emergency stop, with
/// the drive operational and fault-free, and the axis standing still; it is
/// left for `Ready`, seated on the actual position.
pub proof fn error_is_left_only_by_reset(m: AxisModel, t: TickInput)
    requires
        m.step is TryReset,
        !(tick_of(m, t).step is TryReset),
    ensures
        !t.ems,
        t.req.asks(cmd::RESET),
        t.input.drive is Enabled,
        t.input.fault_code == 0,
        at_standstill(tick_of(m, t), t.input),
        tick_of(m, t).step is Ready,
        !tick_of(m, t).error,
        tick_of(m, t).set_pos == t.input.act_pos,
{
}

/// Without the reset bit an error stays latched, whatever else happens.
pub proof fn error_stays_without_reset(m: AxisModel, ticks: Seq<TickInput>)
    requires
        m.step is TryReset,
        m.error,
        forall|i: int| 0 <= i < ticks.len() ==> !(#[trigger] ticks[i]).req.asks(cmd::RESET),
    ensures
        run_of(m, ticks).step is TryReset,
        run_of(m, ticks).error,
        run_of(m, ticks).error_id == m.error_id,
    decreases ticks.len(),
{
    if ticks.len() > 0 {
        let before = ticks.drop_last();
        assert forall|i: int| 0 <= i < before.len() implies !(#[trigger] before[i]).req.asks(
            cmd::RESET,
        ) by {
            assert(before[i] == ticks[i]);
        }
        error_stays_without_reset(m, before);
        assert(!ticks[ticks.len() - 1].req.asks(cmd::RESET));
    }
}

/// A drive that leaves operation in any step past enabling latches
/// `DRIVER_ERROR` in that very cycle, emergency stop or not, and the axis keeps
/// waiting for a reset while the drive is down.
pub proof fn lost_drive_raises(m: AxisModel, t: TickInput)
    requires
        needs_drive(m.step),
        !m.error,
        !(t.input.drive is Enabled),
    ensures
        tick_of(m, t).step is TryReset,
        tick_of(m, t).error,
        tick_of(m, t).error_id == error_id::DRIVER_ERROR,
{
}

/// A latched error is not replaced by a later one.
pub proof fn first_error_is_kept(m: AxisModel, t: TickInput)
    requires
        m.step is TryReset,
        m.error,
        tick_of(m, t).error,
    ensures
        tick_of(m, t).error_id == m.error_id,
{
}

/// The setpoint stream reaches a drive only while power is requested and the
/// drive is operational; an unpowered axis is told to hold.
pub proof fn setpoints_need_an_operational_drive(m: AxisModel, input: AxisIn)
    ensures
        outputs_of(m, input).setpoint is CyclicPosition ==> input.drive is Enabled && outputs_of(
            m,
            input,
        ).enable,
        !outputs_of(m, input).enable ==> outputs_of(m, input).setpoint is Hold,
{
}

/// The setpoint stands on the actual position after every cycle of homing, of
/// an error with the drive down, and of powering up: the stream that follows
/// starts where the axis is.
pub proof fn handover_never_jumps(m: AxisModel, t: TickInput)
    requires
        homing_step(m.step) && t.input.drive is Enabled || (m.step is TryReset || needs_drive(
            m.step,
        ) && !m.error) && !(t.input.drive is Enabled) || !t.ems && !needs_drive(m.step),
    ensures
        tick_of(m, t).set_pos == t.input.act_pos,
        homing_step(m.step) && t.input.drive is Enabled ==> tick_of(m, t).set_vel == (Scalar {
            bits: 0,
        }),
{
}

/// `Ready` never starts a jog toward an asserted limit switch, and a jog that
/// runs into one trips with the error of its direction.
pub proof fn limits_stop_jogs(m: AxisModel, t: TickInput)
    requires
        t.input.drive is Enabled,
        !t.ems,
    ensures
        m.step is Ready && t.input.pos_limit ==> !(tick_of(m, t).step is JogPos),
        m.step is Ready && t.input.neg_limit ==> !(tick_of(m, t).step is JogNeg),
        m.step is JogPos && t.input.pos_limit ==> tick_of(m, t).step is TryReset && tick_of(
            m,
            t,
        ).error_id == error_id::POSITIVE_LIMIT_TRIP,
        m.step is JogNeg && t.input.neg_limit ==> tick_of(m, t).step is TryReset && tick_of(
            m,
            t,
        ).error_id == error_id::NEGATIVE_LIMIT_TRIP,
{
}

/// Releasing the bit of a running command ramps it down, and a held stop bit
/// keeps a stopped axis from becoming ready.
pub proof fn released_commands_stop(m: AxisModel, t: TickInput)
    requires
        !t.ems,
        t.input.drive is Enabled,
    ensures
        m.step is JogPos && !t.input.pos_limit && !t.req.asks(cmd::JOG_POS) ==> tick_of(
            m,
            t,
        ).step is Stopping,
        m.step is JogNeg && !t.input.neg_limit && !t.req.asks(cmd::JOG_NEG) ==> tick_of(
            m,
            t,
        ).step is Stopping,
        m.step is MoveAbs && !t.req.asks(cmd::MOVE_ABS) ==> tick_of(m, t).step is Stopping,
        homing_step(m.step) && !t.req.asks(cmd::HOME) ==> tick_of(m, t).step is Stopping,
        m.step is WaitStop && t.req.asks(cmd::STOP) ==> tick_of(m, t).step is WaitStop,
{
}

/// A running absolute move is limited by the configured clamp.
pub open spec fn clamped(m: AxisModel) -> bool {
    m.step is MoveAbs ==> m.move_vmax.le(m.params.max_vel)
}

/// A running absolute move stays limited by the configured clamp.
pub proof fn moves_stay_clamped(m: AxisModel, t: TickInput)
    requires
        !m.params.max_vel.nan(),
        clamped(m),
    ensures
        clamped(tick_of(m, t)),
        tick_of(m, t).params == m.params,
{
}

/// No commanded velocity exceeds the configured clamp, whichever direction.
pub proof fn commanded_velocity_is_clamped(
    m: AxisModel,
    req: AxisRequest,
    ems: bool,
    input: AxisIn,
)
    requires
        !m.params.max_vel.nan(),
        0 <= m.params.max_vel.value(),
        clamped(m),
    ensures
        match demand_of(m, req, ems, input) {
            Demand::Rest => true,
            Demand::Ramp { target, .. } => -m.params.max_vel.value() <= target.value()
                <= m.params.max_vel.value(),
            Demand::Profile { vmax, .. } => vmax.le(m.params.max_vel),
        },
{
    let v = req.jog_vel.magnitude_of();
    lemma_magnitude_order(v.unsigned_bits(), 0);
    lemma_negation(v.lesser(m.params.max_vel));
    assert(v.value() >= 0);
}

/// Each published flag tells one thing about the axis, and no other bit is set.
pub proof fn status_flags_tell_the_state(m: AxisModel, input: AxisIn)
    ensures
        ({
            let flags = status_of(m, input).flags;
            &&& (flags & status::ENABLED != 0) <==> input.drive is Enabled
            &&& (flags & status::BUSY != 0) <==> m.busy
            &&& (flags & status::ERROR != 0) <==> m.error
            &&& (flags & status::STANDSTILL != 0) <==> at_standstill(m, input)
            &&& (flags & status::POS_LIMIT != 0) <==> input.pos_limit
            &&& (flags & status::NEG_LIMIT != 0) <==> input.neg_limit
            &&& flags < 0x40
        }),
{
    let a = input.drive is Enabled;
    let b = m.busy;
    let c = m.error;
    let d = at_standstill(m, input);
    let e = input.pos_limit;
    let f = input.neg_limit;
    lemma_flag_bits(a, b, c, d, e, f);
}

proof fn lemma_flag_bits(a: bool, b: bool, c: bool, d: bool, e: bool, f: bool)
    by (bit_vector)
    ensures
        ({
            let flags: u32 = (if a { 0x01u32 } else { 0 }) | (if b { 0x02u32 } else { 0 }) | (if c {
                0x04u32
            } else {
                0
            }) | (if d { 0x08u32 } else { 0 }) | (if e { 0x10u32 } else { 0 }) | (if f {
                0x20u32
            } else {
                0
            });
            &&& (flags & 0x01 != 0) <==> a
            &&& (flags & 0x02 != 0) <==> b
            &&& (flags & 0x04 != 0) <==> c
            &&& (flags & 0x08 != 0) <==> d
            &&& (flags & 0x10 != 0) <==> e
            &&& (flags & 0x20 != 0) <==> f
            &&& flags < 0x40
        }),
{
}

} // verus!
