//! What each command, drive condition and step does to an axis, told by the
//! request, the inputs and the fields of the axis before and after a tick.
use vstd::prelude::*;

use crate::fieldbus::{AxisIn, AxisOut, Setpoint};
use crate::motion::axis::{
    demand_of, outputs_of, status_of, tick_of, Advance, AxisControl, AxisModel, AxisParams,
    AxisRequest, AxisStatus, Demand, TickInput,
};
use crate::motion::flags::{cmd, error_id, machine_cmd, status};
use crate::motion::machine::{axis_tick, ems_held, run_state_of, MachineControl};
use crate::motion::step::{step_number, Step};
use crate::scalar::{lemma_magnitude_order, lemma_negation, Scalar};

verus! {

/// The bits of the command words, and the numbers of the errors, are those that
/// the operator panel knows.
pub proof fn the_vocabulary_is_fixed(word: u32)
    ensures
        word & cmd::ENABLE == word & 0x01,
        word & cmd::HOME == word & 0x02,
        word & cmd::RESET == word & 0x04,
        word & cmd::STOP == word & 0x08,
        word & cmd::JOG_POS == word & 0x10,
        word & cmd::JOG_NEG == word & 0x20,
        word & cmd::MOVE_ABS == word & 0x40,
        word & machine_cmd::RESET == word & 0x01,
        word & machine_cmd::EMS == word & 0x02,
        word & machine_cmd::SYSTEM_RUN == word & 0x04,
        word & status::ENABLED == word & 0x01,
        word & status::BUSY == word & 0x02,
        word & status::ERROR == word & 0x04,
        word & status::STANDSTILL == word & 0x08,
        word & status::POS_LIMIT == word & 0x10,
        word & status::NEG_LIMIT == word & 0x20,
        error_id::NONE == 0 && error_id::DRIVER_ERROR == 100,
        error_id::MOVE_ABS_FAIL == 301,
        error_id::POSITIVE_LIMIT_TRIP == 501 && error_id::NEGATIVE_LIMIT_TRIP == 502,
{
}

/// The command bit is set in the word of this tick.
pub open spec fn asked(t: TickInput, bit: u32) -> bool {
    t.req.word & bit != 0
}

/// No emergency stop is held and the drive is operational.
pub open spec fn free(t: TickInput) -> bool {
    !t.ems && t.input.drive is Enabled
}

/// A velocity of exactly zero, of either sign.
pub open spec fn zero(v: Scalar) -> bool {
    v.bits == 0 || v.bits == 0x8000_0000_0000_0000
}

/// The axis is seen to move slower than 0.001 units/s.
pub open spec fn creeping(input: AxisIn) -> bool {
    input.act_vel.magnitude_of().lt(Scalar { bits: 0x3F50_624D_D2F1_A9FC })
}

/// A drive is lost while the axis depends on it: past powering up, with no error
/// latched yet.
pub open spec fn drive_lost(m: AxisModel, t: TickInput) -> bool {
    !(t.input.drive is Enabled) && !m.error && !(m.step is Idle) && !(m.step is Enabling) && !(
    m.step is NotReady)
}

/// A tick never changes the limits of an axis.
pub proof fn limits_never_change(m: AxisModel, t: TickInput)
    ensures
        tick_of(m, t).params == m.params,
{
}

/// Only a fresh word clears the latch of a finished move or homing. Without one
/// a latch stays, and only arrival sets it.
pub proof fn latches_are_set_by_arrival_and_cleared_by_fresh_words(m: AxisModel, t: TickInput)
    ensures
        ({
            let after = tick_of(m, t);
            let acts = !t.ems && !drive_lost(m, t);
            let arrived = acts && m.step is MoveAbs && asked(t, cmd::MOVE_ABS) && t.advance.done
                && !(t.req.fresh && t.req.move_abs_vel.le(Scalar { bits: 0 }));
            let referenced = acts && m.step is HomingExec && t.input.homed;
            &&& after.move_abs_rearm <==> arrived || m.move_abs_rearm && !t.req.fresh
            &&& after.home_rearm <==> referenced || m.home_rearm && !t.req.fresh
        }),
{
}

/// The reset of the operator reaches the drive: in an error the drive is asked
/// to reset exactly while the reset bit is set, while waiting for a drive that
/// was found faulty it is asked in every cycle, and in no other step, nor under
/// emergency stop, is it asked at all.
pub proof fn resets_reach_the_drive(m: AxisModel, t: TickInput)
    ensures
        ({
            let asks_drive = outputs_of(tick_of(m, t), t.input).fault_reset;
            &&& !t.ems && m.step is TryReset ==> (asks_drive <==> asked(t, cmd::RESET))
            &&& !t.ems && drive_lost(m, t) ==> (asks_drive <==> asked(t, cmd::RESET))
            &&& !t.ems && m.step is NotReady ==> asks_drive
            &&& t.ems ==> !asks_drive
            &&& !t.ems && !(m.step is TryReset) && !(m.step is NotReady) && !drive_lost(m, t)
                ==> !asks_drive
        }),
{
}

/// An error is left for `Ready` exactly when the reset bit is set, the drive is
/// operational without a fault code, the stop ramp has come to rest and the axis
/// is seen to stand; the setpoint then stands on the actual position and no
/// error is shown. Until then the error stays as it was latched, the axis is
/// busy and ramps down, and with the drive down its setpoint follows the actual
/// position.
pub proof fn errors_are_recovered_by_reset(m: AxisModel, t: TickInput)
    requires
        m.step is TryReset,
        !t.ems,
        m.error,
    ensures
        ({
            let after = tick_of(m, t);
            let leaves = asked(t, cmd::RESET) && t.input.drive is Enabled && t.input.fault_code == 0
                && zero(t.advance.vel) && creeping(t.input);
            &&& leaves ==> after.step is Ready && !after.error && after.error_id == 0
                && after.set_pos == t.input.act_pos
            &&& !leaves ==> after.step is TryReset && after.error && after.error_id == m.error_id
            &&& !leaves && t.input.drive is Enabled ==> after.set_pos == t.advance.pos
            &&& !leaves && !(t.input.drive is Enabled) ==> after.set_pos == t.input.act_pos
            &&& after.set_vel == t.advance.vel
            &&& after.busy
            &&& after.out_enable == m.out_enable
        }),
{
}

/// A drive that is lost, for whatever reason, latches its error at once, and
/// what the axis was doing is over; an axis in error ignores a lost drive.
pub proof fn lost_drives_latch_their_error(m: AxisModel, t: TickInput)
    requires
        drive_lost(m, t),
    ensures
        tick_of(m, t).step is TryReset,
        tick_of(m, t).error,
        tick_of(m, t).error_id == 100,
        tick_of(m, t).set_pos == t.input.act_pos,
        tick_of(m, t).set_vel == t.advance.vel,
        tick_of(m, t).busy,
        tick_of(m, t).out_enable == m.out_enable,
{
}

/// The stop ramp: from the setpoint as it stands, to zero, at `stop_dec`. It is
/// what an axis that stops, is in error or has lost its drive needs in a cycle,
/// and what every axis but a homing one needs under emergency stop.
pub proof fn stops_ramp_from_the_setpoint(m: AxisModel, t: TickInput)
    requires
        !t.ems && t.input.drive is Enabled && m.step is Stopping || !t.ems && m.step is TryReset
            || drive_lost(m, t) || t.ems && !(m.step is HomingWriteParam || m.step is HomingExec),
    ensures
        demand_of(m, t.req, t.ems, t.input) == (Demand::Ramp {
            pos: m.set_pos,
            vel: m.set_vel,
            target: Scalar { bits: 0 },
            rate: m.params.stop_dec,
        }),
{
}

/// No profile step is needed while powering up, ready, homing or waiting for
/// standstill, nor by a command that was released.
pub proof fn resting_axes_need_no_profile(m: AxisModel, t: TickInput)
    requires
        free(t),
        m.step is Idle || m.step is Enabling || m.step is NotReady || m.step is Ready || m.step
            is HomingWriteParam || m.step is HomingExec || m.step is WaitStop || m.step is JogPos
            && !asked(t, cmd::JOG_POS) || m.step is JogNeg && !asked(t, cmd::JOG_NEG) || m.step
            is MoveAbs && !asked(t, cmd::MOVE_ABS),
    ensures
        demand_of(m, t.req, t.ems, t.input) is Rest,
{
}

/// A jog that is held with its limit switch clear ramps at `acc` from the
/// setpoint as it stands to the velocity asked for, by magnitude, in the
/// direction of the jog; what is beyond `max_vel`, or no number, becomes
/// `max_vel`. The jog goes on, its setpoint where the ramp brought it.
pub proof fn jogs_run_at_the_velocity_asked_for(m: AxisModel, t: TickInput)
    requires
        free(t),
        m.step is JogPos && asked(t, cmd::JOG_POS) && !t.input.pos_limit || m.step is JogNeg
            && asked(t, cmd::JOG_NEG) && !t.input.neg_limit,
        !m.params.max_vel.nan(),
        0 <= m.params.max_vel.value(),
    ensures
        ({
            let v = t.req.jog_vel;
            let speed = if v.value() < 0 {
                -v.value()
            } else {
                v.value()
            };
            let limit = m.params.max_vel.value();
            let used = if !v.nan() && speed <= limit {
                speed
            } else {
                limit
            };
            match demand_of(m, t.req, t.ems, t.input) {
                Demand::Ramp { pos, vel, target, rate } => {
                    &&& pos == m.set_pos
                    &&& vel == m.set_vel
                    &&& !target.nan()
                    &&& target.value() == if m.step is JogPos {
                        used
                    } else {
                        -used
                    }
                    &&& rate == m.params.acc
                },
                _ => false,
            }
        }),
        tick_of(m, t).step == m.step,
        tick_of(m, t).set_pos == t.advance.pos,
        tick_of(m, t).set_vel == t.advance.vel,
        tick_of(m, t).busy,
        tick_of(m, t).error == m.error,
        tick_of(m, t).error_id == m.error_id,
{
    let v = t.req.jog_vel.magnitude_of();
    lemma_magnitude_order(v.unsigned_bits(), 0);
    lemma_negation(v.lesser(m.params.max_vel));
    lemma_negation(v);
    lemma_negation(m.params.max_vel);
    assert(v.unsigned_bits() == t.req.jog_vel.unsigned_bits());
}

/// A jog stops on release, and on its limit switch it trips with the error of
/// its direction, released or not; either leaves the setpoint where it was.
pub proof fn jogs_end_on_release_and_at_the_limit(m: AxisModel, t: TickInput)
    requires
        free(t),
        m.step is JogPos || m.step is JogNeg,
    ensures
        ({
            let after = tick_of(m, t);
            let up = m.step is JogPos;
            let held = if up {
                asked(t, cmd::JOG_POS)
            } else {
                asked(t, cmd::JOG_NEG)
            };
            let limit = if up {
                t.input.pos_limit
            } else {
                t.input.neg_limit
            };
            &&& limit ==> after.step is TryReset && after.error && after.error_id == if up {
                501i32
            } else {
                502
            }
            &&& !limit && !held ==> after.step is Stopping && after.error == m.error
                && after.error_id == m.error_id
            &&& limit || !held ==> after.set_pos == m.set_pos && after.set_vel == m.set_vel
                && after.busy
            &&& after.out_enable == m.out_enable
        }),
{
}

/// `Ready` takes one command, an absolute move before a jog up before a jog down
/// before homing. A finished move or homing is taken again only with a fresh
/// word, a jog only away from its limit switch, and a move only at a velocity
/// above zero, else it is refused with its error. The setpoint stays.
pub proof fn ready_takes_one_command(m: AxisModel, t: TickInput)
    requires
        free(t),
        m.step is Ready,
    ensures
        ({
            let after = tick_of(m, t);
            let moves = asked(t, cmd::MOVE_ABS) && (t.req.fresh || !m.move_abs_rearm);
            let bad = t.req.move_abs_vel.le(Scalar { bits: 0 });
            let up = !moves && asked(t, cmd::JOG_POS) && !t.input.pos_limit;
            let down = !moves && !up && asked(t, cmd::JOG_NEG) && !t.input.neg_limit;
            let homes = !moves && !up && !down && asked(t, cmd::HOME) && (t.req.fresh
                || !m.home_rearm);
            &&& moves && !bad ==> after.step is MoveAbs && after.move_target == t.req.move_abs_pos
                && after.move_vmax == (if t.req.move_abs_vel.le(m.params.max_vel)
                || m.params.max_vel.nan() {
                t.req.move_abs_vel
            } else {
                m.params.max_vel
            })
            &&& moves && bad ==> after.step is TryReset && after.error && after.error_id == 301
            &&& up ==> after.step is JogPos
            &&& down ==> after.step is JogNeg
            &&& homes ==> after.step is HomingWriteParam
            &&& !moves && !up && !down && !homes ==> after.step is Ready
            &&& !(moves && bad) ==> after.error == m.error && after.error_id == m.error_id
            &&& !after.busy
            &&& after.set_pos == m.set_pos && after.set_vel == m.set_vel
            &&& after.out_enable == m.out_enable
        }),
{
}

/// A fresh word for homing is taken from `Ready`, whether or not the axis was
/// homed before.
pub proof fn fresh_homing_is_taken(m: AxisModel, t: TickInput)
    requires
        free(t),
        m.step is Ready,
        t.req.fresh,
        asked(t, cmd::HOME),
        !asked(t, cmd::MOVE_ABS),
        !asked(t, cmd::JOG_POS),
        !asked(t, cmd::JOG_NEG),
    ensures
        tick_of(m, t).step is HomingWriteParam,
        !tick_of(m, t).home_rearm,
{
}

/// A running absolute move follows its profile: from the setpoint as it stands
/// to the target, a fresh word's where there is one, no faster than asked for
/// and than `max_vel`, with `acc` and `dec`. It ends in `Stopping` when it
/// arrives or is released; a fresh word with an unusable velocity is refused
/// with its error.
pub proof fn moves_follow_their_target(m: AxisModel, t: TickInput)
    requires
        free(t),
        m.step is MoveAbs,
    ensures
        ({
            let after = tick_of(m, t);
            let held = asked(t, cmd::MOVE_ABS);
            let bad = t.req.fresh && t.req.move_abs_vel.le(Scalar { bits: 0 });
            let target = if t.req.fresh {
                t.req.move_abs_pos
            } else {
                m.move_target
            };
            let vmax = if !t.req.fresh {
                m.move_vmax
            } else if t.req.move_abs_vel.le(m.params.max_vel) || m.params.max_vel.nan() {
                t.req.move_abs_vel
            } else {
                m.params.max_vel
            };
            &&& held && !bad ==> demand_of(m, t.req, t.ems, t.input) == (Demand::Profile {
                pos: m.set_pos,
                vel: m.set_vel,
                target,
                vmax,
                acc: m.params.acc,
                dec: m.params.dec,
            })
            &&& held && !bad ==> after.set_pos == t.advance.pos && after.set_vel == t.advance.vel
                && after.move_target == target && after.move_vmax == vmax
            &&& held && !bad && t.advance.done ==> after.step is Stopping && after.move_abs_rearm
            &&& held && !bad && !t.advance.done ==> after.step is MoveAbs
            &&& held && bad ==> after.step is TryReset && after.error && after.error_id == 301
            &&& !held ==> after.step is Stopping
            &&& !held || bad ==> after.set_pos == m.set_pos && after.set_vel == m.set_vel
            &&& !(held && bad) ==> after.error == m.error && after.error_id == m.error_id
            &&& after.busy
            &&& after.out_enable == m.out_enable
        }),
{
}

/// Homing writes its parameters for one cycle and then runs until the drive
/// reports the reference or the word is released; meanwhile the setpoint stands
/// on the actual position. The drive is told to home exactly while it runs.
pub proof fn homing_runs_until_referenced_or_released(m: AxisModel, t: TickInput)
    requires
        free(t),
        m.step is HomingWriteParam || m.step is HomingExec,
    ensures
        ({
            let after = tick_of(m, t);
            let held = asked(t, cmd::HOME);
            let over = m.step is HomingExec && t.input.homed || !held;
            &&& over ==> after.step is Stopping
            &&& !over ==> after.step is HomingExec
            &&& after.set_pos == t.input.act_pos
            &&& after.set_vel.bits == 0
            &&& after.busy
            &&& after.error == m.error && after.error_id == m.error_id
            &&& after.out_enable == m.out_enable
            &&& m.out_enable ==> (outputs_of(after, t.input).setpoint is Home <==> !over)
        }),
{
}

/// A stopping axis takes its ramp and waits for standstill once the setpoint
/// velocity is zero; it is ready when it is then seen to stand and no stop is
/// held.
pub proof fn stopped_axes_become_ready(m: AxisModel, t: TickInput)
    requires
        free(t),
        m.step is Stopping || m.step is WaitStop,
    ensures
        ({
            let after = tick_of(m, t);
            &&& m.step is Stopping ==> after.set_pos == t.advance.pos && after.set_vel
                == t.advance.vel
            &&& m.step is Stopping && zero(t.advance.vel) ==> after.step is WaitStop
            &&& m.step is Stopping && !zero(t.advance.vel) ==> after.step is Stopping
            &&& m.step is WaitStop ==> after.set_pos == m.set_pos && after.set_vel == m.set_vel
            &&& m.step is WaitStop ==> (after.step is Ready <==> zero(m.set_vel) && creeping(
                t.input,
            ) && !asked(t, cmd::STOP))
            &&& m.step is WaitStop && !(after.step is Ready) ==> after.step is WaitStop
            &&& after.busy
            &&& after.error == m.error && after.error_id == m.error_id
            &&& after.out_enable == m.out_enable
        }),
{
}

/// An axis powers up when it is asked to: idle and unpowered until the enable
/// bit is set, then asking for power until the drive is operational; a drive
/// that shows a fault is waited for until it is operational without a fault
/// code. The setpoint stands on the actual position throughout.
pub proof fn axes_power_up_when_asked(m: AxisModel, t: TickInput)
    requires
        !t.ems,
        m.step is Idle || m.step is Enabling || m.step is NotReady,
    ensures
        ({
            let after = tick_of(m, t);
            let operational = t.input.drive is Enabled;
            &&& m.step is Idle ==> after.step == if asked(t, cmd::ENABLE) {
                Step::Enabling
            } else {
                Step::Idle
            }
            &&& m.step is Enabling ==> after.step == if operational {
                Step::Ready
            } else if t.input.drive is Fault {
                Step::NotReady
            } else {
                Step::Enabling
            }
            &&& m.step is NotReady ==> after.step == if operational && t.input.fault_code == 0 {
                Step::Ready
            } else {
                Step::NotReady
            }
            &&& outputs_of(after, t.input).enable <==> !(m.step is Idle)
            &&& after.busy <==> !(m.step is Idle)
            &&& after.set_pos == t.input.act_pos
            &&& after.set_vel.bits == 0
            &&& after.error == m.error && after.error_id == m.error_id
        }),
{
}

/// Steps that no command leads into are left for `Stopping`.
pub proof fn unused_steps_stop(m: AxisModel, t: TickInput)
    requires
        free(t),
        m.step is MoveRel || m.step is MoveVel || m.step is SetPosition,
    ensures
        tick_of(m, t).step is Stopping,
        tick_of(m, t).set_pos == m.set_pos,
        tick_of(m, t).set_vel == m.set_vel,
{
}

/// Under emergency stop nothing is dispatched: every motion step gives way to
/// `Stopping`, every other step, the error and the power request stay, and the
/// setpoint takes the stop ramp. Homing hands over an axis at rest where it
/// stands, and an axis in error whose drive is down follows the actual position.
pub proof fn ems_takes_the_ramp_and_nothing_else(m: AxisModel, t: TickInput)
    requires
        t.ems,
        !drive_lost(m, t),
    ensures
        ({
            let after = tick_of(m, t);
            let moving = m.step is JogPos || m.step is JogNeg || m.step is MoveAbs || m.step
                is MoveRel || m.step is MoveVel || m.step is HomingWriteParam || m.step
                is HomingExec || m.step is SetPosition;
            let homing = m.step is HomingWriteParam || m.step is HomingExec;
            &&& moving ==> after.step is Stopping
            &&& !moving ==> after.step == m.step
            &&& homing ==> after.set_pos == t.input.act_pos && after.set_vel.bits == 0
            &&& !homing ==> after.set_vel == t.advance.vel
            &&& !homing && m.step is TryReset && !(t.input.drive is Enabled) ==> after.set_pos
                == t.input.act_pos
            &&& !homing && !(m.step is TryReset && !(t.input.drive is Enabled)) ==> after.set_pos
                == t.advance.pos
            &&& after.error == m.error && after.error_id == m.error_id
            &&& after.out_enable == m.out_enable
            &&& after.busy <==> !(after.step is Idle) && !(after.step is Ready)
        }),
{
}

/// What goes to the bus: power as it is requested; no setpoint without power;
/// homing while homing runs; else the setpoint position with its velocity while
/// the drive is operational, and no setpoint while it is not.
pub proof fn outputs_carry_the_setpoint(m: AxisModel, input: AxisIn)
    ensures
        ({
            let out = outputs_of(m, input);
            &&& out.enable == m.out_enable
            &&& !m.out_enable ==> out.setpoint is Hold
            &&& m.out_enable && m.step is HomingExec ==> out.setpoint is Home
            &&& m.out_enable && !(m.step is HomingExec) && input.drive is Enabled ==> out.setpoint
                == (Setpoint::CyclicPosition { pos: m.set_pos, vel_ff: m.set_vel })
            &&& m.out_enable && !(m.step is HomingExec) && !(input.drive is Enabled)
                ==> out.setpoint is Hold
        }),
{
}

/// The published status of an axis: its own step number, error and setpoint, and
/// each flag for one thing that is so.
pub proof fn status_tells_the_axis(m: AxisModel, input: AxisIn)
    ensures
        ({
            let st = status_of(m, input);
            &&& st.step == step_number(m.step)
            &&& st.error_id == m.error_id
            &&& st.set_pos == m.set_pos
            &&& st.set_vel == m.set_vel
            &&& (st.flags & 0x01 != 0) <==> input.drive is Enabled
            &&& (st.flags & 0x02 != 0) <==> m.busy
            &&& (st.flags & 0x04 != 0) <==> m.error
            &&& (st.flags & 0x08 != 0) <==> zero(m.set_vel) && creeping(input)
            &&& (st.flags & 0x10 != 0) <==> input.pos_limit
            &&& (st.flags & 0x20 != 0) <==> input.neg_limit
            &&& st.flags < 0x40
        }),
{
    crate::motion::axis_laws::status_flags_tell_the_state(m, input);
}

/// The steps are published under the numbers that the operator panel renders:
/// tens for what the axis does, units for its variants.
pub proof fn steps_are_published_by_their_numbers(step: Step)
    ensures
        ({
            let n = step_number(step);
            &&& n == 0 <==> step is Idle
            &&& n == 10 <==> step is Enabling
            &&& n == 20 <==> step is Ready
            &&& n == 25 <==> step is NotReady
            &&& n == 30 <==> step is JogPos
            &&& n == 31 <==> step is JogNeg
            &&& n == 40 <==> step is MoveAbs
            &&& n == 50 <==> step is MoveRel
            &&& n == 60 <==> step is MoveVel
            &&& n == 70 <==> step is HomingWriteParam
            &&& n == 71 <==> step is HomingExec
            &&& n == 80 <==> step is SetPosition
            &&& n == 90 <==> step is Stopping
            &&& n == 91 <==> step is WaitStop
            &&& n == 95 <==> step is TryReset
        }),
{
}

/// A machine cycle ticks every axis with its own request, input and profile
/// outcome, under the emergency stop of the machine word; the machine runs while
/// its word says so.
pub proof fn the_machine_word_rules_all_axes(
    machine_word: u32,
    reqs: Seq<AxisRequest>,
    ins: Seq<AxisIn>,
    advances: Seq<Advance>,
    i: int,
)
    ensures
        ({
            let t = axis_tick(machine_word, reqs, ins, advances, i);
            &&& t.req == reqs[i]
            &&& t.input == ins[i]
            &&& t.advance == advances[i]
            &&& t.ems <==> machine_word & 0x02 != 0
        }),
        ems_held(machine_word) <==> machine_word & 0x02 != 0,
        run_state_of(machine_word) == if machine_word & 0x04 != 0 {
            1u32
        } else {
            0
        },
{
}

/// A new axis is idle, without error, power or latches, its setpoint at zero,
/// under the limits it was given.
pub proof fn new_axes_are_idle(params: AxisParams, r: AxisControl)
    requires
        call_ensures(AxisControl::new, (params,), r),
    ensures
        r@.params == params,
        r@.step is Idle,
        !r@.busy && !r@.error && r@.error_id == 0,
        r@.set_pos.bits == 0 && r@.set_vel.bits == 0,
        !r@.move_abs_rearm && !r@.home_rearm,
        !r@.out_enable && !r@.out_fault_reset,
{
}

/// A tick of an axis is one step of its state machine on exactly these inputs,
/// and puts out what the axis then asks for; `demand` beforehand tells the
/// profile step of the same inputs, and `status` afterwards the axis.
pub proof fn axes_tick_on_their_arguments(
    axis: &mut AxisControl,
    req: &AxisRequest,
    ems: bool,
    input: &AxisIn,
    advance: &Advance,
    out: AxisOut,
    other: &AxisControl,
    demand: Demand,
    shown: AxisStatus,
    step: Step,
)
    requires
        call_ensures(AxisControl::tick, (axis, req, ems, input, advance), out),
        call_ensures(AxisControl::demand, (other, req, ems, input), demand),
        call_ensures(AxisControl::status, (other, input), shown),
        call_ensures(AxisControl::step, (other,), step),
    ensures
        final(axis)@ == tick_of(
            old(axis)@,
            TickInput { req: *req, ems, input: *input, advance: *advance },
        ),
        out == outputs_of(final(axis)@, *input),
        demand == demand_of(other@, *req, ems, *input),
        shown == status_of(other@, *input),
        step == other@.step,
{
}

/// A machine of `n` axes starts with that many idle ones, and a cycle of it
/// ticks each on its own request, input and profile outcome.
pub proof fn machines_tick_every_axis(
    n: usize,
    params: AxisParams,
    fresh: MachineControl,
    machine: &mut MachineControl,
    machine_word: u32,
    reqs: &[AxisRequest],
    ins: &[AxisIn],
    advances: &[Advance],
    outs: &mut [AxisOut],
    i: int,
)
    requires
        call_ensures(MachineControl::new, (n, params), fresh),
        call_ensures(MachineControl::tick, (machine, machine_word, reqs, ins, advances, outs), ()),
        0 <= i < old(machine)@.len(),
    ensures
        fresh@.len() == n,
        i < n ==> fresh@[i].step is Idle && fresh@[i].params == params,
        final(machine)@.len() == old(machine)@.len(),
        final(machine)@[i] == tick_of(
            old(machine)@[i],
            TickInput {
                req: reqs@[i],
                ems: machine_word & 0x02 != 0,
                input: ins@[i],
                advance: advances@[i],
            },
        ),
        final(outs)@[i] == outputs_of(final(machine)@[i], ins@[i]),
{
}

} // verus!
