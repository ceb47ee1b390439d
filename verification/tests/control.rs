//! Axis and machine control, the simulated bus and the control cycle, run
//! against real profile arithmetic.
use motion_daemon::daemon::cmdflags::{
    touch_bit, ALARM_BUS_FAULT, ALARM_CMD_TIMEOUT, STATUS_BUS_OP, TOUCH_MASK_PRESENT,
};
use motion_daemon::daemon::engine::{
    CycleReport, Engine, EngineConfig, ShutdownPhase, SHUTDOWN_DISABLE_CYCLES,
};
use motion_daemon::daemon::record::{
    status_bits, trace_sample, CMD_FRESH, CMD_VALID, EXCHANGE_ERROR, OVERRUN, WKC_ERROR,
};
use motion_daemon::fieldbus::{
    AcyclicAccess, AxisId, AxisIn, AxisOut, BusEvent, BusState, CycleClass, DriveStatus,
    ExchangeStatus, FieldbusError, ParamAddr, Setpoint, SetpointKind,
};
use motion_daemon::motion::axis::{Advance, AxisControl, AxisParams, AxisRequest, Demand};
use motion_daemon::motion::flags::{cmd, error_id, machine_cmd, status};
use motion_daemon::motion::machine::MachineControl;
use motion_daemon::motion::profile;
use motion_daemon::motion::profile::MoveStep;
use motion_daemon::motion::step::Step;
use motion_daemon::scalar::Scalar;
use motion_daemon::shm::layout::{
    AxisState, PlcCommand, PlcData, PLC_COMMAND_MAGIC, PLC_COMMAND_VERSION, SIZE_PLC_COMMAND,
    SIZE_PLC_DATA,
};
use motion_daemon::shm::mapping::Mapping;
use motion_daemon::shm::seqlock::{publish, snapshot};
use motion_daemon::sim::{SimAdvance, SimBackend, SimConfig, SimDemand};
use motion_daemon::time::{Duration, Instant};

const DT: f64 = 0.002;

fn s(x: f64) -> Scalar {
    Scalar { bits: x.to_bits() }
}

fn f(x: Scalar) -> f64 {
    f64::from_bits(x.bits)
}

fn ramp_vel(current: f64, target: f64, rate: f64, dt: f64) -> f64 {
    let dv = target - current;
    let max = rate.abs() * dt;
    f(profile::ramp_vel(s(target), s(dv), s(max), s(current + max.copysign(dv))))
}

fn trapezoid_tick(
    pos: f64,
    vel: f64,
    target: f64,
    vmax: f64,
    acc: f64,
    dec: f64,
    dt: f64,
) -> (f64, f64, bool) {
    let distance = target - pos;
    let dir = if profile::heads_up(s(distance)) { 1.0 } else { -1.0 };
    let v_stop = (2.0 * dec.abs() * distance.abs()).sqrt();
    let v_des = dir * v_stop.min(vmax.abs());
    let rate = f(profile::move_rate(s((v_des - vel) * dir), s(vel * dir), s(acc), s(dec)));
    let moved_vel = ramp_vel(vel, v_des, rate, dt);
    let moved_pos = pos + moved_vel * dt;
    let a = profile::trapezoid_tick(&MoveStep {
        target: s(target),
        distance: s(distance),
        vel: s(vel),
        moved_pos: s(moved_pos),
        moved_vel: s(moved_vel),
        ahead: s((target - moved_pos) * dir),
        reach: s(moved_vel.abs() * dt),
    });
    (f(a.pos), f(a.vel), a.done)
}

#[test]
fn ramp_saturates_and_lands() {
    let mut v = 0.0;
    v = ramp_vel(v, 10.0, 100.0, 0.01); // 1.0 per tick
    assert!((v - 1.0).abs() < 1e-12);
    for _ in 0..20 {
        v = ramp_vel(v, 10.0, 100.0, 0.01);
    }
    assert_eq!(v, 10.0, "must land exactly on target");
}

#[test]
fn trapezoid_reaches_target_and_respects_vmax() {
    let (mut p, mut v) = (0.0, 0.0);
    let mut peak: f64 = 0.0;
    let mut ticks = 0;
    loop {
        let (np, nv, done) = trapezoid_tick(p, v, 10.0, 5.0, 50.0, 50.0, 0.001);
        p = np;
        v = nv;
        peak = peak.max(v);
        ticks += 1;
        assert!(ticks < 20_000, "did not converge: p={p} v={v}");
        if done {
            break;
        }
    }
    assert_eq!(p, 10.0);
    assert_eq!(v, 0.0);
    assert!(peak <= 5.0 + 1e-9, "vmax exceeded: {peak}");
    // 10 units at ≤5/s with ramps: at least 2s of ticks
    assert!(ticks >= 2000, "too fast to be physical: {ticks} ticks");
}

#[test]
fn trapezoid_negative_direction() {
    let (mut p, mut v) = (3.0, 0.0);
    for _ in 0..20_000 {
        let (np, nv, done) = trapezoid_tick(p, v, -7.0, 20.0, 100.0, 100.0, 0.001);
        p = np;
        v = nv;
        if done {
            break;
        }
        assert!(nv <= 0.0, "wrong direction");
    }
    assert_eq!(p, -7.0);
}

#[test]
fn turning_around_brakes_with_dec() {
    // Moving up at 5 while the target is below: one tick of braking at 50.
    let (_, v, done) = trapezoid_tick(0.0, 5.0, -10.0, 5.0, 1000.0, 50.0, 0.01);
    assert_eq!(v, 4.5);
    assert!(!done);
    // Speeding up toward it afterwards uses acc.
    let (_, v, _) = trapezoid_tick(0.0, 0.0, -10.0, 5.0, 100.0, 50.0, 0.01);
    assert_eq!(v, -1.0);
    // A move that stands at its target is over.
    assert_eq!(trapezoid_tick(2.0, 0.0, 2.0, 5.0, 1.0, 1.0, 0.01), (2.0, 0.0, true));
}

fn advance(demand: &Demand) -> Advance {
    match *demand {
        Demand::Rest => Advance { pos: s(0.0), vel: s(0.0), done: false },
        Demand::Ramp { pos, vel, target, rate } => {
            let v = ramp_vel(f(vel), f(target), f(rate), DT);
            Advance { pos: s(f(pos) + v * DT), vel: s(v), done: false }
        }
        Demand::Profile { pos, vel, target, vmax, acc, dec } => {
            let (p, v, done) =
                trapezoid_tick(f(pos), f(vel), f(target), f(vmax), f(acc), f(dec), DT);
            Advance { pos: s(p), vel: s(v), done }
        }
    }
}

fn params() -> AxisParams {
    AxisParams { max_vel: s(100.0), acc: s(1000.0), dec: s(1000.0), stop_dec: s(2000.0) }
}

fn tick(axis: &mut AxisControl, req: &AxisRequest, ems: bool, input: &AxisIn) -> AxisOut {
    let a = advance(&axis.demand(req, ems, input));
    axis.tick(req, ems, input, &a)
}

/// Perfect drive: instantly enabled when asked, actual == setpoint.
fn echo_drive(out: &AxisOut, input: &mut AxisIn) {
    input.drive = if out.enable { DriveStatus::Enabled } else { DriveStatus::Disabled };
    match out.setpoint {
        Setpoint::CyclicPosition { pos, vel_ff } => {
            input.act_pos = pos;
            input.act_vel = vel_ff;
        }
        Setpoint::Home => {
            input.act_pos = s(0.0);
            input.act_vel = s(0.0);
            input.homed = true;
        }
        _ => {
            input.act_vel = s(0.0);
        }
    }
}

fn word(w: u32) -> AxisRequest {
    AxisRequest { word: w, ..Default::default() }
}

fn run_until(
    axis: &mut AxisControl,
    req: &AxisRequest,
    input: &mut AxisIn,
    max: usize,
    pred: impl Fn(&AxisControl, &AxisIn) -> bool,
) {
    for _ in 0..max {
        let out = tick(axis, req, false, input);
        echo_drive(&out, input);
        if pred(axis, input) {
            return;
        }
    }
    panic!("condition not reached, stuck at {:?}", axis.step());
}

#[test]
fn enable_reaches_ready() {
    let mut axis = AxisControl::new(params());
    let mut input = AxisIn::default();

    let out = tick(&mut axis, &word(0), false, &input);
    assert_eq!(axis.step(), Step::Idle);
    assert!(!out.enable);

    let req = word(cmd::ENABLE);
    tick(&mut axis, &req, false, &input);
    assert_eq!(axis.step(), Step::Enabling);
    // one-scan CASE semantics: the ENABLING body runs on the next tick
    let out = tick(&mut axis, &req, false, &input);
    assert!(out.enable, "power request must be asserted in ENABLING");

    input.drive = DriveStatus::Enabled;
    tick(&mut axis, &req, false, &input);
    assert_eq!(axis.step(), Step::Ready);

    // A later word without ENABLE must not power off.
    let out = tick(&mut axis, &word(0), false, &input);
    assert_eq!(axis.step(), Step::Ready);
    assert!(out.enable, "enable is sticky past IDLE");
}

fn ready_axis() -> (AxisControl, AxisIn) {
    ready_axis_at(0.0)
}

fn ready_axis_at(pos: f64) -> (AxisControl, AxisIn) {
    let mut axis = AxisControl::new(params());
    let mut input = AxisIn { act_pos: s(pos), ..Default::default() };
    tick(&mut axis, &word(cmd::ENABLE), false, &input);
    input.drive = DriveStatus::Enabled;
    tick(&mut axis, &word(cmd::ENABLE), false, &input);
    assert_eq!(axis.step(), Step::Ready);
    (axis, input)
}

fn assert_no_jump(out: &AxisOut, input: &AxisIn, ctx: &str) {
    if let Setpoint::CyclicPosition { pos, .. } = out.setpoint {
        assert!(
            (f(pos) - f(input.act_pos)).abs() < 1e-9,
            "{ctx}: CSP setpoint {} jumps away from act_pos {}",
            f(pos),
            f(input.act_pos)
        );
    }
}

#[test]
fn jog_moves_then_release_stops() {
    let (mut axis, mut input) = ready_axis();
    let jog = AxisRequest { word: cmd::JOG_POS, jog_vel: s(10.0), ..Default::default() };
    run_until(&mut axis, &jog, &mut input, 10, |a, _| a.step() == Step::JogPos);
    run_until(&mut axis, &jog, &mut input, 1000, |_, i| f(i.act_vel) >= 9.9);
    assert!(f(input.act_pos) > 0.0, "axis must have moved");

    let rel = word(0);
    run_until(&mut axis, &rel, &mut input, 1000, |a, _| a.step() == Step::Ready);
    assert!(f(input.act_vel).abs() < 1e-9);
}

#[test]
fn move_abs_completes_and_rearms_only_on_fresh_word() {
    let (mut axis, mut input) = ready_axis();
    let go = AxisRequest {
        word: cmd::MOVE_ABS,
        move_abs_pos: s(5.0),
        move_abs_vel: s(50.0),
        fresh: true,
        ..Default::default()
    };
    let out = tick(&mut axis, &go, false, &input);
    echo_drive(&out, &mut input);
    assert_eq!(axis.step(), Step::MoveAbs);

    // Keep the word latched (fresh only on the first tick) until done.
    let held = AxisRequest { fresh: false, ..go };
    run_until(&mut axis, &held, &mut input, 5000, |a, _| a.step() == Step::Ready);
    assert!((f(input.act_pos) - 5.0).abs() < 1e-9, "landed at {}", f(input.act_pos));

    // Latched (stale) word must NOT restart the move.
    for _ in 0..50 {
        let out = tick(&mut axis, &held, false, &input);
        echo_drive(&out, &mut input);
        assert_eq!(axis.step(), Step::Ready, "stale MOVE_ABS bit re-dispatched");
    }

    // A fresh word (second Go click, same target allowed) restarts.
    let go2 = AxisRequest { move_abs_pos: s(-2.0), fresh: true, ..go };
    let out = tick(&mut axis, &go2, false, &input);
    echo_drive(&out, &mut input);
    assert_eq!(axis.step(), Step::MoveAbs);
    let held2 = AxisRequest { fresh: false, ..go2 };
    run_until(&mut axis, &held2, &mut input, 5000, |a, _| a.step() == Step::Ready);
    assert!((f(input.act_pos) + 2.0).abs() < 1e-9);
}

#[test]
fn move_abs_zero_velocity_raises_error() {
    let (mut axis, mut input) = ready_axis();
    let bad = AxisRequest {
        word: cmd::MOVE_ABS,
        move_abs_pos: s(5.0),
        move_abs_vel: s(0.0),
        fresh: true,
        ..Default::default()
    };
    let out = tick(&mut axis, &bad, false, &input);
    echo_drive(&out, &mut input);
    assert_eq!(axis.step(), Step::TryReset);
    assert_eq!(axis.status(&input).error_id, error_id::MOVE_ABS_FAIL);
}

#[test]
fn ems_interrupts_jog_and_recovers() {
    let (mut axis, mut input) = ready_axis();
    let jog = AxisRequest { word: cmd::JOG_POS, jog_vel: s(10.0), ..Default::default() };
    run_until(&mut axis, &jog, &mut input, 1000, |_, i| f(i.act_vel) >= 9.9);

    for _ in 0..1000 {
        let out = tick(&mut axis, &jog, true, &input);
        echo_drive(&out, &mut input);
        if f(input.act_vel) == 0.0 {
            break;
        }
    }
    assert_eq!(axis.step(), Step::Stopping, "EMS freezes the machine in STOPPING");
    assert_eq!(f(input.act_vel), 0.0, "EMS must decelerate to standstill");

    let rel = word(0);
    run_until(&mut axis, &rel, &mut input, 1000, |a, _| a.step() == Step::Ready);
}

/// Each cycle of an emergency stop takes off what the stop ramp allows, in either
/// direction, and the last one lands on zero.
#[test]
fn ems_ramps_by_the_stop_rate() {
    for (bit, sign) in [(cmd::JOG_POS, 1.0), (cmd::JOG_NEG, -1.0)] {
        let (mut axis, mut input) = ready_axis();
        let jog = AxisRequest { word: bit, jog_vel: s(10.0), ..Default::default() };
        run_until(&mut axis, &jog, &mut input, 1000, |_, i| f(i.act_vel) == sign * 10.0);
        let limit = 2000.0 * DT;
        let mut speed = 10.0;
        while speed > 0.0 {
            let out = tick(&mut axis, &jog, true, &input);
            echo_drive(&out, &mut input);
            speed = if speed <= limit { 0.0 } else { speed - limit };
            assert_eq!(f(axis.status(&input).set_vel), sign * speed);
            assert_eq!(axis.step(), Step::Stopping);
        }
        assert_eq!(axis.status(&input).set_vel, s(0.0));
    }
}

#[test]
fn limit_trip_errors_then_hmi_reset_recovers() {
    let (mut axis, mut input) = ready_axis();
    let jog = AxisRequest { word: cmd::JOG_POS, jog_vel: s(10.0), ..Default::default() };
    run_until(&mut axis, &jog, &mut input, 1000, |_, i| f(i.act_vel) >= 9.9);

    input.pos_limit = true;
    let out = tick(&mut axis, &jog, false, &input);
    echo_drive(&out, &mut input);
    assert_eq!(axis.step(), Step::TryReset);
    let st = axis.status(&input);
    assert_eq!(st.error_id, error_id::POSITIVE_LIMIT_TRIP);
    assert!(st.flags & status::ERROR != 0);

    // Without HMI reset it stays put (decelerating to standstill).
    for _ in 0..200 {
        let out = tick(&mut axis, &word(0), false, &input);
        echo_drive(&out, &mut input);
    }
    assert_eq!(axis.step(), Step::TryReset);

    // Reset click (limit released — e.g. axis backed off physically).
    input.pos_limit = false;
    let reset = word(cmd::RESET);
    run_until(&mut axis, &reset, &mut input, 1000, |a, _| a.step() == Step::Ready);
    assert_eq!(axis.status(&input).error_id, error_id::NONE);

    // READY must refuse to re-enter jog toward a held limit.
    input.pos_limit = true;
    let out = tick(&mut axis, &jog, false, &input);
    echo_drive(&out, &mut input);
    assert_eq!(axis.step(), Step::Ready);
}

#[test]
fn negative_limit_trip_has_its_own_error() {
    let (mut axis, mut input) = ready_axis();
    let jog = AxisRequest { word: cmd::JOG_NEG, jog_vel: s(10.0), ..Default::default() };
    run_until(&mut axis, &jog, &mut input, 1000, |_, i| f(i.act_vel) <= -9.9);
    input.neg_limit = true;
    tick(&mut axis, &jog, false, &input);
    assert_eq!(axis.step(), Step::TryReset);
    assert_eq!(axis.status(&input).error_id, error_id::NEGATIVE_LIMIT_TRIP);
}

#[test]
fn drive_fault_latches_driver_error() {
    let (mut axis, mut input) = ready_axis();
    input.drive = DriveStatus::Fault;
    input.fault_code = 0x7500;
    tick(&mut axis, &word(0), false, &input);
    assert_eq!(axis.step(), Step::TryReset);
    assert_eq!(axis.status(&input).error_id, error_id::DRIVER_ERROR);

    // Reset while the fault persists: no recovery.
    for _ in 0..50 {
        tick(&mut axis, &word(cmd::RESET), false, &input);
    }
    assert_eq!(axis.step(), Step::TryReset);

    // Drive healthy again + reset → READY.
    input.drive = DriveStatus::Enabled;
    input.fault_code = 0;
    input.act_vel = s(0.0);
    let mut ok = false;
    for _ in 0..200 {
        tick(&mut axis, &word(cmd::RESET), false, &input);
        if axis.step() == Step::Ready {
            ok = true;
            break;
        }
    }
    assert!(ok, "reset with healthy drive must reach READY");
}

#[test]
fn home_completes_and_rearms() {
    let (mut axis, mut input) = ready_axis();
    input.act_pos = s(42.0);
    let home = AxisRequest { word: cmd::HOME, fresh: true, ..Default::default() };
    let out = tick(&mut axis, &home, false, &input);
    echo_drive(&out, &mut input);
    assert_eq!(axis.step(), Step::HomingWriteParam);

    let held = AxisRequest { fresh: false, ..home };
    run_until(&mut axis, &held, &mut input, 1000, |a, _| a.step() == Step::Ready);
    assert!(input.homed);
    assert_eq!(f(input.act_pos), 0.0);

    // Latched HOME bit must not re-home.
    for _ in 0..50 {
        let out = tick(&mut axis, &held, false, &input);
        echo_drive(&out, &mut input);
        assert_eq!(axis.step(), Step::Ready);
    }
}

#[test]
fn disabled_drive_mid_jog_raises_driver_error() {
    for dropped in [DriveStatus::Disabled, DriveStatus::QuickStop, DriveStatus::Offline] {
        let ctx = format!("{dropped:?}");
        let (mut axis, mut input) = ready_axis();
        let jog = AxisRequest { word: cmd::JOG_POS, jog_vel: s(10.0), ..Default::default() };
        run_until(&mut axis, &jog, &mut input, 1000, |_, i| f(i.act_vel) >= 9.9);

        // The power stage drops out: the motor stops where it is.
        input.drive = dropped;
        input.act_vel = s(0.0);
        let stopped_at = input.act_pos;
        let out = tick(&mut axis, &jog, false, &input);
        assert_eq!(axis.step(), Step::TryReset, "{ctx}");
        let st = axis.status(&input);
        assert_eq!(st.error_id, error_id::DRIVER_ERROR, "{ctx}");
        assert!(st.flags & status::ERROR != 0, "{ctx}");
        assert_no_jump(&out, &input, &ctx);

        // Still out, jog released: stays in TRY_RESET, setpoint glued
        // to the actual position the whole time (no integration).
        for _ in 0..50 {
            let out = tick(&mut axis, &word(0), false, &input);
            assert_no_jump(&out, &input, &ctx);
        }
        assert_eq!(axis.step(), Step::TryReset, "{ctx}");
        assert_eq!(axis.status(&input).set_pos, stopped_at, "{ctx}");

        // Drive back in Operation Enabled + HMI Reset → READY, and the
        // first CSP setpoints the drive sees are where it already is.
        input.drive = DriveStatus::Enabled;
        let reset = word(cmd::RESET);
        let mut reached = false;
        for _ in 0..200 {
            let out = tick(&mut axis, &reset, false, &input);
            assert_no_jump(&out, &input, &ctx);
            echo_drive(&out, &mut input);
            if axis.step() == Step::Ready {
                reached = true;
                break;
            }
        }
        assert!(reached, "{ctx}: reset with re-enabled drive must reach READY");
        let st = axis.status(&input);
        assert_eq!(st.error_id, error_id::NONE, "{ctx}");
        assert_eq!(st.set_pos, input.act_pos, "{ctx}");
        assert_eq!(input.act_pos, stopped_at, "{ctx}: axis must not have moved");
    }
}

#[test]
fn try_reset_waits_for_drive_enabled() {
    let (mut axis, mut input) = ready_axis();
    input.drive = DriveStatus::Fault;
    input.fault_code = 0x7500;
    tick(&mut axis, &word(0), false, &input);
    assert_eq!(axis.step(), Step::TryReset);

    // Fault cleared, adapter re-running the enable handshake.
    input.drive = DriveStatus::Enabling;
    input.fault_code = 0;
    for _ in 0..50 {
        tick(&mut axis, &word(cmd::RESET), false, &input);
    }
    assert_eq!(axis.step(), Step::TryReset, "READY against an Enabling drive would re-raise");

    input.drive = DriveStatus::Enabled;
    tick(&mut axis, &word(cmd::RESET), false, &input);
    assert_eq!(axis.step(), Step::Ready);
}

#[test]
fn homing_cancel_stops_from_actual_position() {
    for via_ems in [false, true] {
        let ctx = if via_ems { "EMS" } else { "HOME released" };
        let (mut axis, mut input) = ready_axis_at(42.0);
        let home = AxisRequest { word: cmd::HOME, fresh: true, ..Default::default() };
        let out = tick(&mut axis, &home, false, &input);
        assert_eq!(axis.step(), Step::HomingWriteParam, "{ctx}");
        assert_no_jump(&out, &input, ctx);

        let held = AxisRequest { fresh: false, ..home };
        let out = tick(&mut axis, &held, false, &input);
        assert_eq!(axis.step(), Step::HomingExec, "{ctx}");
        assert_eq!(out.setpoint, Setpoint::Home, "{ctx}");

        // Drive-side homing: creeps toward the switch at 0 (0.5 per
        // tick) under Setpoint::Home; never reports `homed` because we
        // cancel first.
        let creep = |input: &mut AxisIn| {
            input.act_pos = s(f(input.act_pos) - 0.5);
            input.act_vel = s(-0.5 / DT);
        };
        for _ in 0..40 {
            creep(&mut input);
            let out = tick(&mut axis, &held, false, &input);
            assert_eq!(axis.step(), Step::HomingExec, "{ctx}");
            assert_eq!(out.setpoint, Setpoint::Home, "{ctx}");
        }
        assert!((f(input.act_pos) - 22.0).abs() < 1e-9, "{ctx}");

        // Cancel: the stop ramp must pick the axis up where it is.
        creep(&mut input);
        let (req, ems) = if via_ems { (held, true) } else { (word(0), false) };
        let out = tick(&mut axis, &req, ems, &input);
        assert_eq!(axis.step(), Step::Stopping, "{ctx}");
        match out.setpoint {
            Setpoint::CyclicPosition { pos, .. } => assert!(
                (f(pos) - f(input.act_pos)).abs() < 1e-9,
                "{ctx}: stop ramp starts at {}, axis is at {}",
                f(pos),
                f(input.act_pos)
            ),
            other => panic!("{ctx}: expected CSP stream after cancel, got {other:?}"),
        }
        let cancelled_at = f(input.act_pos);

        // Drive follows the CSP stream from here: READY, no movement.
        echo_drive(&out, &mut input);
        run_until(&mut axis, &word(0), &mut input, 1000, |a, _| a.step() == Step::Ready);
        assert!((f(input.act_pos) - cancelled_at).abs() < 1e-9, "{ctx}: axis moved after cancel");
        assert!(!input.homed, "{ctx}");
    }
}

#[test]
fn move_abs_retargets_on_fresh_word() {
    let (mut axis, mut input) = ready_axis();
    let go = AxisRequest {
        word: cmd::MOVE_ABS,
        move_abs_pos: s(50.0),
        move_abs_vel: s(20.0),
        fresh: true,
        ..Default::default()
    };
    let out = tick(&mut axis, &go, false, &input);
    echo_drive(&out, &mut input);
    assert_eq!(axis.step(), Step::MoveAbs);
    let held = AxisRequest { fresh: false, ..go };
    for _ in 0..200 {
        let out = tick(&mut axis, &held, false, &input);
        echo_drive(&out, &mut input);
    }
    assert_eq!(axis.step(), Step::MoveAbs);
    assert!(f(input.act_vel) > 19.0, "should be cruising, act_vel={}", f(input.act_vel));
    assert!(f(input.act_pos) > 5.0 && f(input.act_pos) < 50.0);

    // Second Go click while moving: new target behind us.
    let retarget = AxisRequest { move_abs_pos: s(-10.0), fresh: true, ..go };
    let out = tick(&mut axis, &retarget, false, &input);
    echo_drive(&out, &mut input);
    assert_eq!(axis.step(), Step::MoveAbs);

    // Held afterwards (fresh only on that one tick). The echo drive
    // follows the CSP stream, so any discontinuity would show up as a
    // per-tick step larger than vmax·dt.
    let held2 = AxisRequest { fresh: false, ..retarget };
    let mut prev = f(input.act_pos);
    let mut reversed = false;
    let mut reached = false;
    for _ in 0..20_000 {
        let out = tick(&mut axis, &held2, false, &input);
        echo_drive(&out, &mut input);
        assert!(
            (f(input.act_pos) - prev).abs() <= 20.0 * DT + 1e-9,
            "position discontinuity {prev} → {}",
            f(input.act_pos)
        );
        prev = f(input.act_pos);
        reversed |= f(input.act_vel) < 0.0;
        if axis.step() == Step::Ready {
            reached = true;
            break;
        }
    }
    assert!(reached, "stuck at {:?}", axis.step());
    assert!(reversed, "the move must have turned around");
    assert!((f(input.act_pos) + 10.0).abs() < 1e-9, "landed at {}", f(input.act_pos));

    // Re-trigger with velocity 0 mid-move: MOVE_ABS_FAIL, like READY.
    let (mut axis, mut input) = ready_axis();
    let out = tick(&mut axis, &go, false, &input);
    echo_drive(&out, &mut input);
    for _ in 0..50 {
        let out = tick(&mut axis, &held, false, &input);
        echo_drive(&out, &mut input);
    }
    assert_eq!(axis.step(), Step::MoveAbs);
    let bad = AxisRequest { move_abs_vel: s(0.0), fresh: true, ..go };
    let out = tick(&mut axis, &bad, false, &input);
    echo_drive(&out, &mut input);
    assert_eq!(axis.step(), Step::TryReset);
    assert_eq!(axis.status(&input).error_id, error_id::MOVE_ABS_FAIL);
}

fn tick_machine(
    m: &mut MachineControl,
    machine_word: u32,
    reqs: &[AxisRequest],
    ins: &[AxisIn],
    outs: &mut [AxisOut],
) {
    let advances: Vec<Advance> = (0..m.axis_count())
        .map(|i| advance(&m.demand(i, machine_word, &reqs[i], &ins[i])))
        .collect();
    m.tick(machine_word, reqs, ins, &advances, outs);
}

#[test]
fn machine_fresh_is_per_axis() {
    let mut m = MachineControl::new(2, params());
    let mut ins = [AxisIn::default(); 2];
    let mut outs = [AxisOut::default(); 2];
    let step_of = |m: &MachineControl, i: usize, ins: &[AxisIn; 2]| m.status(i, &ins[i]).step;

    // Both axes to READY (same sequence as `ready_axis`).
    let enable = [word(cmd::ENABLE); 2];
    tick_machine(&mut m, 0, &enable, &ins, &mut outs);
    for input in ins.iter_mut() {
        input.drive = DriveStatus::Enabled;
    }
    tick_machine(&mut m, 0, &enable, &ins, &mut outs);
    assert_eq!(step_of(&m, 0, &ins), Step::Ready.as_i32());
    assert_eq!(step_of(&m, 1, &ins), Step::Ready.as_i32());

    // Axis 0 runs a MoveAbs to completion; its word stays latched.
    let go = AxisRequest {
        word: cmd::MOVE_ABS,
        move_abs_pos: s(5.0),
        move_abs_vel: s(50.0),
        fresh: true,
        ..Default::default()
    };
    let held = AxisRequest { fresh: false, ..go };
    let mut reqs = [go, word(0)];
    let mut done = false;
    for _ in 0..5000 {
        tick_machine(&mut m, 0, &reqs, &ins, &mut outs);
        for (out, input) in outs.iter().zip(ins.iter_mut()) {
            echo_drive(out, input);
        }
        reqs[0] = held;
        if step_of(&m, 0, &ins) == Step::Ready.as_i32() && f(ins[0].act_pos) == 5.0 {
            done = true;
            break;
        }
    }
    assert!(done, "axis 0 move did not complete");

    // A new command message that only touches axis 1 (jog): axis 0's
    // latched MOVE_ABS bit must stay locked by its re-arm latch.
    let jog1 = AxisRequest {
        word: cmd::JOG_POS,
        jog_vel: s(10.0),
        fresh: true,
        ..Default::default()
    };
    reqs = [held, jog1];
    for tick in 0..20 {
        tick_machine(&mut m, 0, &reqs, &ins, &mut outs);
        for (out, input) in outs.iter().zip(ins.iter_mut()) {
            echo_drive(out, input);
        }
        reqs[1].fresh = false;
        assert_eq!(
            step_of(&m, 0, &ins),
            Step::Ready.as_i32(),
            "tick {tick}: axis 1's fresh word re-armed axis 0"
        );
    }
    assert_eq!(step_of(&m, 1, &ins), Step::JogPos.as_i32());
    assert_eq!(f(ins[0].act_pos), 5.0);

    // A message that touches axis 0 too re-dispatches it.
    reqs[0] = AxisRequest { fresh: true, ..held };
    tick_machine(&mut m, 0, &reqs, &ins, &mut outs);
    assert_eq!(step_of(&m, 0, &ins), Step::MoveAbs.as_i32());
}

#[test]
fn the_machine_word_stops_every_axis() {
    let mut m = MachineControl::new(2, params());
    let mut ins = [AxisIn { drive: DriveStatus::Enabled, ..Default::default() }; 2];
    let mut outs = [AxisOut::default(); 2];
    let enable = [word(cmd::ENABLE); 2];
    tick_machine(&mut m, 0, &enable, &ins, &mut outs);
    tick_machine(&mut m, 0, &enable, &ins, &mut outs);
    let jog = AxisRequest { word: cmd::JOG_POS, jog_vel: s(10.0), ..Default::default() };
    let reqs = [jog, jog];
    for _ in 0..20 {
        tick_machine(&mut m, 0, &reqs, &ins, &mut outs);
        for (out, input) in outs.iter().zip(ins.iter_mut()) {
            echo_drive(out, input);
        }
    }
    assert!(f(ins[0].act_vel) > 0.0);
    tick_machine(&mut m, machine_cmd::EMS, &reqs, &ins, &mut outs);
    assert_eq!(m.status(0, &ins[0]).step, Step::Stopping.as_i32());
    assert_eq!(m.status(1, &ins[1]).step, Step::Stopping.as_i32());
    assert_eq!(MachineControl::run_state(machine_cmd::SYSTEM_RUN), 1);
    assert_eq!(MachineControl::run_state(machine_cmd::EMS), 0);
}

#[test]
fn commanded_velocities_are_clamped() {
    let (mut axis, mut input) = ready_axis();
    let jog = AxisRequest { word: cmd::JOG_POS, jog_vel: s(1e6), ..Default::default() };
    for _ in 0..500 {
        let out = tick(&mut axis, &jog, false, &input);
        echo_drive(&out, &mut input);
        assert!(f(input.act_vel) <= 100.0);
    }
    assert_eq!(f(input.act_vel), 100.0);
}

#[test]
fn default_limits() {
    let p = AxisParams::default();
    assert_eq!(f(p.max_vel), 1000.0);
    assert_eq!(f(p.acc), 500.0);
    assert_eq!(f(p.dec), 500.0);
    assert_eq!(f(p.stop_dec), 2000.0);
}

// The simulated bus.

fn sim_advance(cfg: &SimConfig, demand: &SimDemand) -> SimAdvance {
    let dt = cfg.cycle.nanos as f64 / 1e9;
    let k = dt / (f(cfg.tau) + dt);
    match *demand {
        SimDemand::Rest => SimAdvance { pos: s(0.0), vel: s(0.0) },
        SimDemand::Damp { pos, vel } => {
            let v = f(vel) + (0.0 - f(vel)) * k;
            SimAdvance { pos: s(f(pos) + v * dt), vel: s(v) }
        }
        SimDemand::Track { pos, target } => {
            let p = f(pos) + (f(target) - f(pos)) * k;
            SimAdvance { pos: s(p), vel: s((p - f(pos)) / dt) }
        }
        SimDemand::Follow { pos, vel, target } => {
            let v = f(vel) + (f(target) - f(vel)) * k;
            SimAdvance { pos: s(f(pos) + v * dt), vel: s(v) }
        }
        SimDemand::Glide { pos, vel } => SimAdvance { pos: s(f(pos) + f(vel) * dt), vel },
    }
}

fn exchange(
    bus: &mut SimBackend,
    cfg: &SimConfig,
    outs: &[AxisOut],
    ins: &mut [AxisIn],
) -> Result<ExchangeStatus, FieldbusError> {
    let advances: Vec<SimAdvance> =
        (0..bus.axis_count()).map(|i| sim_advance(cfg, &bus.demand(i, &outs[i]))).collect();
    bus.exchange(outs, &advances, ins)
}

fn one_axis() -> SimConfig {
    SimConfig { axes: 1, ..Default::default() }
}

#[test]
fn enable_sequence_and_csp_tracking() {
    let cfg = one_axis();
    let mut bus = SimBackend::new(cfg);
    bus.start().unwrap();
    assert_eq!(bus.bus_state(), BusState::Op);

    let mut ins = [AxisIn::default(); 1];
    let mut outs = [AxisOut::default(); 1];

    exchange(&mut bus, &cfg, &outs, &mut ins).unwrap();
    assert_eq!(ins[0].drive, DriveStatus::Disabled);

    outs[0].enable = true;
    exchange(&mut bus, &cfg, &outs, &mut ins).unwrap();
    assert_eq!(ins[0].drive, DriveStatus::Enabling);
    for _ in 0..10 {
        exchange(&mut bus, &cfg, &outs, &mut ins).unwrap();
    }
    assert_eq!(ins[0].drive, DriveStatus::Enabled);

    // CSP stream: ramp the commanded position, the model must track it.
    let mut cmd_pos = 0.0;
    for _ in 0..2000 {
        cmd_pos += 10.0 * 0.002; // 10 units/s
        outs[0].setpoint = Setpoint::CyclicPosition { pos: s(cmd_pos), vel_ff: s(10.0) };
        exchange(&mut bus, &cfg, &outs, &mut ins).unwrap();
    }
    assert!(
        (f(ins[0].act_pos) - cmd_pos).abs() < 0.5,
        "tracking error too large: cmd={cmd_pos} act={}",
        f(ins[0].act_pos)
    );
    assert!((f(ins[0].act_vel) - 10.0).abs() < 0.5);
}

#[test]
fn fault_inject_and_reset() {
    let cfg = one_axis();
    let mut bus = SimBackend::new(cfg);
    bus.start().unwrap();
    let mut ins = [AxisIn::default(); 1];
    let mut outs = [AxisOut::default(); 1];
    outs[0].enable = true;
    for _ in 0..10 {
        exchange(&mut bus, &cfg, &outs, &mut ins).unwrap();
    }
    assert_eq!(ins[0].drive, DriveStatus::Enabled);

    bus.inject_fault(0, 0x7500);
    exchange(&mut bus, &cfg, &outs, &mut ins).unwrap();
    assert_eq!(ins[0].drive, DriveStatus::Fault);
    assert_eq!(ins[0].fault_code, 0x7500);
    assert!(matches!(
        bus.poll_event(),
        Some(BusEvent::BusStateChanged(_)) | Some(BusEvent::AxisOnline(_))
    ));

    outs[0].fault_reset = true;
    exchange(&mut bus, &cfg, &outs, &mut ins).unwrap();
    assert_eq!(ins[0].fault_code, 0);
    // re-enable sequence runs again
    for _ in 0..10 {
        exchange(&mut bus, &cfg, &outs, &mut ins).unwrap();
    }
    assert_eq!(ins[0].drive, DriveStatus::Enabled);
}

/// A drive that lost power, faulted or is still enabling stands where it was.
#[test]
fn drives_move_only_when_enabled() {
    let cfg = one_axis();
    let mut bus = SimBackend::new(cfg);
    bus.start().unwrap();
    let mut ins = [AxisIn::default(); 1];
    let mut outs = [AxisOut::default(); 1];
    outs[0].enable = true;
    for _ in 0..10 {
        exchange(&mut bus, &cfg, &outs, &mut ins).unwrap();
    }
    outs[0].setpoint = Setpoint::CyclicVelocity { vel: s(50.0) };
    for _ in 0..50 {
        exchange(&mut bus, &cfg, &outs, &mut ins).unwrap();
    }
    assert!(f(ins[0].act_vel) > 1.0);
    let mut stopped = 0;
    for cycle in 0..200 {
        match cycle {
            10 => bus.inject_fault(0, 7),
            20 => outs[0].fault_reset = true,
            21 => outs[0].fault_reset = false,
            100 => outs[0].enable = false,
            110 => outs[0].enable = true,
            _ => {}
        }
        let before = bus.axis_pos(0);
        exchange(&mut bus, &cfg, &outs, &mut ins).unwrap();
        assert_eq!(ins[0].act_pos, bus.axis_pos(0));
        assert_eq!(ins[0].drive == DriveStatus::Fault, ins[0].fault_code != 0);
        assert!(!outs[0].fault_reset || ins[0].fault_code == 0);
        if ins[0].drive != DriveStatus::Enabled {
            stopped += 1;
            assert_eq!(ins[0].act_pos, before);
            assert_eq!(ins[0].act_vel, s(0.0));
        }
    }
    assert!(stopped > 20 && f(ins[0].act_vel) > 1.0);
}

#[test]
fn acyclic_round_trip() {
    let mut bus = SimBackend::new(SimConfig::default());
    let mut ac = bus.acyclic();
    let addr = ParamAddr::Object { index: 0x6098, sub: 0 };
    ac.write(AxisId(0), addr, &[33]).unwrap();
    let mut buf = [0u8; 4];
    let n = ac.read(AxisId(0), addr, &mut buf).unwrap();
    assert_eq!((n, buf[0]), (1, 33));
    assert!(ac.read(AxisId(1), addr, &mut buf).is_err());
}

#[test]
fn parameters_are_kept_apart_and_replaced() {
    let mut bus = SimBackend::new(SimConfig::default());
    let mut ac = bus.acyclic();
    let object = ParamAddr::Object { index: 5, sub: 0 };
    let register = ParamAddr::Register { addr: 5 };
    ac.write(AxisId(0), object, &[1, 2, 3]).unwrap();
    ac.write(AxisId(0), register, &[9]).unwrap();
    ac.write(AxisId(1), object, &[7]).unwrap();
    ac.write(AxisId(0), object, &[4, 5, 6]).unwrap();
    let mut short = [0u8; 2];
    assert_eq!(ac.read(AxisId(0), object, &mut short), Ok(2));
    assert_eq!(short, [4, 5]);
    let mut buf = [0u8; 4];
    assert_eq!(ac.read(AxisId(0), register, &mut buf), Ok(1));
    assert_eq!(buf[0], 9);
    assert_eq!(
        ac.read(AxisId(2), object, &mut buf),
        Err(FieldbusError::Acyclic { code: 0x0602_0000 })
    );
}

#[test]
fn the_simulated_bus_has_limits_homing_and_events() {
    let cfg = one_axis();
    let mut bus = SimBackend::new(cfg);
    let mut ins = [AxisIn::default(); 1];
    let mut outs = [AxisOut::default(); 1];
    assert_eq!(
        exchange(&mut bus, &cfg, &outs, &mut ins),
        Err(FieldbusError::InvalidState(BusState::Init))
    );
    bus.start().unwrap();
    assert_eq!(bus.poll_event(), Some(BusEvent::BusStateChanged(BusState::Op)));
    assert_eq!(bus.poll_event(), Some(BusEvent::AxisOnline(AxisId(0))));
    assert_eq!(bus.poll_event(), None);
    let cap = bus.capability(AxisId(0));
    assert_eq!(cap.cycle, CycleClass::HardRt { cycle: Duration::from_millis(2) });
    assert_eq!(cap.setpoint, SetpointKind::CyclicTrajectory);
    assert!(cap.modes.position && cap.modes.velocity && !cap.modes.torque && cap.modes.homing);

    outs[0].enable = true;
    for _ in 0..6 {
        exchange(&mut bus, &cfg, &outs, &mut ins).unwrap();
    }
    bus.set_limits(0, Some(s(-1.0)), Some(s(0.5)));
    outs[0].setpoint = Setpoint::CyclicVelocity { vel: s(50.0) };
    for _ in 0..100 {
        exchange(&mut bus, &cfg, &outs, &mut ins).unwrap();
    }
    assert!(ins[0].pos_limit && !ins[0].neg_limit);
    assert_eq!(bus.axis_pos(0), ins[0].act_pos);

    outs[0].setpoint = Setpoint::Home;
    exchange(&mut bus, &cfg, &outs, &mut ins).unwrap();
    assert_eq!(f(ins[0].act_vel), -50.0);
    for _ in 0..200 {
        exchange(&mut bus, &cfg, &outs, &mut ins).unwrap();
    }
    assert!(ins[0].homed);
    assert_eq!(f(ins[0].act_pos), 0.0);

    bus.stop().unwrap();
    assert_eq!(bus.poll_event(), Some(BusEvent::BusStateChanged(BusState::Init)));
}

#[test]
fn simulator_defaults() {
    let cfg = SimConfig::default();
    assert_eq!(cfg.axes, 4);
    assert_eq!(cfg.cycle, Duration::from_millis(2));
    assert_eq!(f(cfg.tau), 0.03);
    assert_eq!(cfg.enable_delay_cycles, 5);
    assert_eq!(f(cfg.home_vel), 50.0);
    assert_eq!(f(cfg.home_step), 50.0 * 0.002);
}

// The control cycle.

const CYCLE: Duration = Duration { nanos: 2_000_000 };

struct Rig {
    engine: Engine,
    cfg: SimConfig,
    bus: SimBackend,
    ins: Vec<AxisIn>,
    outs: Vec<AxisOut>,
    now: Instant,
    data_map: Mapping,
    cmd_map: Mapping,
    msg: PlcCommand,
}

impl Rig {
    fn new(axes: usize, cmd_timeout: Option<Duration>) -> Rig {
        let cfg = SimConfig { axes, cycle: CYCLE, ..Default::default() };
        let mut bus = SimBackend::new(cfg);
        bus.start().unwrap();
        let now = Instant { nanos: 77_000_000_000 };
        let engine = Engine::new(
            EngineConfig {
                axes,
                params: params(),
                cmd_timeout,
                shutdown_timeout: Duration::from_secs(2),
            },
            now,
        );
        Rig {
            engine,
            cfg,
            bus,
            ins: vec![AxisIn::default(); axes],
            outs: vec![AxisOut::default(); axes],
            now,
            data_map: Mapping::in_memory(SIZE_PLC_DATA),
            cmd_map: Mapping::in_memory(SIZE_PLC_COMMAND),
            msg: PlcCommand::default(),
        }
    }

    fn exchange(&mut self) -> Result<ExchangeStatus, FieldbusError> {
        self.now = self.now.plus(CYCLE);
        exchange(&mut self.bus, &self.cfg, &self.outs, &mut self.ins)
    }

    fn cycle_with(&mut self, ex: Result<ExchangeStatus, FieldbusError>) -> CycleReport {
        let state = self.bus.bus_state();
        let mut command = PlcCommand::default();
        let read = snapshot(&self.cmd_map, &mut command).map(|_| command);
        let b = self.engine.begin(self.now, &ex, read);
        let advances: Vec<Advance> = (0..self.ins.len())
            .map(|i| advance(&self.engine.demand(&b, false, i, &self.ins[i])))
            .collect();
        let r = self.engine.cycle(&b, &self.ins, &advances, &mut self.outs, state);
        publish(&mut self.data_map, self.engine.data());
        r
    }

    fn step(&mut self) -> CycleReport {
        let ex = self.exchange();
        self.cycle_with(ex)
    }

    fn shutdown_step(&mut self) -> (CycleReport, ShutdownPhase) {
        let ex = self.exchange();
        let state = self.bus.bus_state();
        let mut command = PlcCommand::default();
        let read = snapshot(&self.cmd_map, &mut command).map(|_| command);
        let b = self.engine.begin(self.now, &ex, read);
        let advances: Vec<Advance> = (0..self.ins.len())
            .map(|i| advance(&self.engine.demand(&b, true, i, &self.ins[i])))
            .collect();
        let r =
            self.engine.shutdown_step(self.now, &b, &self.ins, &advances, &mut self.outs, state);
        publish(&mut self.data_map, self.engine.data());
        r
    }

    fn run(&mut self, cycles: usize) {
        for _ in 0..cycles {
            self.step();
        }
    }

    fn run_until(&mut self, max: usize, pred: impl Fn(&PlcData) -> bool) {
        for _ in 0..max {
            self.step();
            if pred(self.engine.data()) {
                return;
            }
        }
        panic!("condition not reached; axes: {:?}", self.engine.data().machine.axes);
    }

    fn axis(&self, i: usize) -> &AxisState {
        &self.engine.data().machine.axes[i]
    }

    fn send(&mut self, edit: impl FnOnce(&mut PlcCommand)) {
        self.msg.header.flags = 0; // legacy writer unless the edit sets a mask
        edit(&mut self.msg);
        self.msg.header.magic = PLC_COMMAND_MAGIC;
        self.msg.header.version = PLC_COMMAND_VERSION;
        self.msg.header.cycle += 1;
        publish(&mut self.cmd_map, &self.msg);
    }

    fn snapshot(&self) -> PlcData {
        let mut d = PlcData::default();
        snapshot(&self.data_map, &mut d).expect("published image decodes");
        d
    }

    fn enable_all(&mut self) {
        self.send(|c| {
            for a in c.machine.axes.iter_mut() {
                a.control_flags = cmd::ENABLE;
            }
        });
        let n = self.ins.len();
        self.run_until(50, |d| {
            d.machine.axes[..n].iter().all(|a| a.step == Step::Ready.as_i32())
        });
    }

    fn jog(&mut self, axis: usize) {
        self.send(|c| {
            c.machine.axes[axis].control_flags = cmd::JOG_POS;
            c.machine.axes[axis].jog_vel = s(10.0);
        });
        self.run_until(500, |d| {
            d.machine.axes[axis].step == Step::JogPos.as_i32()
                && f(d.machine.axes[axis].act_vel) > 5.0
        });
    }
}

#[test]
fn enable_and_jog_publish_state() {
    let mut rig = Rig::new(1, None);
    // Before any writer: publishing already, nothing latched.
    let r = rig.step();
    assert!(r.exchange_ok && !r.cmd_ok && !r.fresh);
    assert_eq!(rig.axis(0).step, Step::Idle.as_i32());

    rig.enable_all();
    let c0 = rig.engine.data().header.cycle;
    rig.jog(0);
    let c1 = rig.engine.data().header.cycle;
    assert!(c1 > c0, "cycle counter must advance");

    let before = rig.engine.data().header.cycle;
    for k in 1..=10u64 {
        let r = rig.step();
        assert!(r.cmd_ok && r.exchange_ok);
        assert_eq!(rig.engine.data().header.cycle, before + k);
    }
    let a = rig.axis(0);
    assert_eq!(a.step, Step::JogPos.as_i32());
    assert!(f(a.act_vel) > 5.0 && f(a.act_pos) > 0.0, "{a:?}");
    assert!(a.flags & status::ENABLED != 0 && a.flags & status::BUSY != 0);
    assert_eq!(rig.engine.data().system.status_flags, STATUS_BUS_OP);
    assert_eq!(rig.engine.data().system.alarm_flags, 0);

    // The segment carries exactly the staged image.
    let seg = rig.snapshot();
    assert_eq!(seg.header.cycle, rig.engine.data().header.cycle);
    assert_eq!(seg.machine.axes[0], *rig.axis(0));
}

#[test]
fn touch_mask_scopes_fresh_edges_per_axis() {
    let mut rig = Rig::new(2, None);
    rig.enable_all();

    // Axis 0 MoveAbs, touch mask names axis 0 only.
    rig.send(|c| {
        c.header.flags = TOUCH_MASK_PRESENT | touch_bit(0);
        c.machine.axes[0].control_flags = cmd::MOVE_ABS;
        c.machine.axes[0].move_abs_pos = s(5.0);
        c.machine.axes[0].move_abs_vel = s(50.0);
    });
    rig.run_until(10, |d| d.machine.axes[0].step == Step::MoveAbs.as_i32());
    rig.run_until(2000, |d| d.machine.axes[0].step == Step::Ready.as_i32());
    assert!((f(rig.axis(0).act_pos) - 5.0).abs() < 0.05, "{:?}", rig.axis(0));
    assert_eq!(rig.axis(1).step, Step::Ready.as_i32());

    // A message naming only axis 1 ships axis 0's still-latched MOVE_ABS
    // word but must not re-dispatch it.
    rig.send(|c| {
        c.header.flags = TOUCH_MASK_PRESENT | touch_bit(1);
        c.machine.axes[1].control_flags = cmd::ENABLE;
    });
    for _ in 0..100 {
        rig.step();
        assert_eq!(rig.axis(0).step, Step::Ready.as_i32(), "axis 0 re-dispatched");
    }

    // Naming axis 0 again re-dispatches (new target).
    rig.send(|c| {
        c.header.flags = TOUCH_MASK_PRESENT | touch_bit(0);
        c.machine.axes[0].move_abs_pos = s(-2.0);
    });
    rig.run_until(10, |d| d.machine.axes[0].step == Step::MoveAbs.as_i32());
    rig.run_until(2000, |d| d.machine.axes[0].step == Step::Ready.as_i32());
    assert!((f(rig.axis(0).act_pos) + 2.0).abs() < 0.05, "{:?}", rig.axis(0));

    // Legacy writer (no marker): every axis is fresh → re-dispatch.
    rig.send(|c| c.machine.axes[0].move_abs_pos = s(1.0));
    rig.run_until(10, |d| d.machine.axes[0].step == Step::MoveAbs.as_i32());
}

#[test]
fn dead_man_strips_jog_and_rearms() {
    let mut rig = Rig::new(1, Some(Duration::from_secs(1)));
    rig.enable_all();
    rig.jog(0);
    assert_eq!(rig.engine.data().system.alarm_flags, 0);

    // Bridge dies: no more messages. Jump the clock past the window.
    rig.now = rig.now.plus(Duration::from_millis(1500));
    let r = rig.step();
    assert_eq!(r.alarm_flags, ALARM_CMD_TIMEOUT);
    assert_eq!(rig.axis(0).step, Step::Stopping.as_i32(), "jog bits stripped");
    rig.run_until(1000, |d| d.machine.axes[0].step == Step::Ready.as_i32());
    assert!(f(rig.axis(0).act_vel).abs() < 1e-3);
    assert_eq!(
        rig.engine.data().system.alarm_flags,
        ALARM_CMD_TIMEOUT,
        "alarm holds until a message arrives"
    );
    assert!(rig.axis(0).flags & status::ENABLED != 0, "power stays on");

    // Bridge back: a fresh message clears the alarm and jog runs again.
    rig.send(|c| c.machine.axes[0].control_flags = cmd::JOG_POS);
    let r = rig.step();
    assert!(r.fresh);
    assert_eq!(r.alarm_flags, 0);
    rig.run_until(500, |d| f(d.machine.axes[0].act_vel) > 5.0);
    assert_eq!(rig.axis(0).step, Step::JogPos.as_i32());
}

#[test]
fn dead_man_keeps_ems_in_force() {
    let mut rig = Rig::new(1, Some(Duration::from_secs(1)));
    rig.enable_all();
    rig.jog(0);
    rig.send(|c| c.machine.control_flags = machine_cmd::EMS);
    rig.run_until(10, |d| d.machine.axes[0].step == Step::Stopping.as_i32());
    rig.now = rig.now.plus(Duration::from_secs(2));
    rig.run(600);
    assert_eq!(rig.axis(0).step, Step::Stopping.as_i32(), "EMS still freezes the machine");
    assert!(f(rig.axis(0).act_vel).abs() < 1e-3);
}

#[test]
fn bus_fault_keeps_publishing_and_latches_commands() {
    let mut rig = Rig::new(1, None);
    rig.enable_all();
    rig.jog(0);
    let jog_pos = rig.axis(0).act_pos;

    rig.bus.stop().unwrap(); // exchange now errors
    let before = rig.engine.data().header.cycle;
    for k in 1..=5u64 {
        let r = rig.step();
        assert!(!r.exchange_ok);
        assert_eq!(r.alarm_flags, ALARM_BUS_FAULT);
        let d = rig.engine.data();
        assert_eq!(d.header.cycle, before + k, "counter must advance through the fault");
        assert_eq!(d.system.status_flags, 0, "bus not in OP");
        assert_eq!(d.machine.axes[0].step, Step::JogPos.as_i32(), "last status, no tick");
        assert_eq!(d.machine.axes[0].act_pos, jog_pos, "inputs frozen");
    }
    let seg = rig.snapshot();
    assert_eq!(seg.system.alarm_flags, ALARM_BUS_FAULT);

    // EMS pressed while the bus is down: latched, not yet acted on.
    rig.send(|c| c.machine.control_flags = machine_cmd::EMS);
    let r = rig.step();
    assert!(r.fresh && !r.exchange_ok);
    assert_eq!(rig.axis(0).step, Step::JogPos.as_i32());

    rig.bus.start().unwrap();
    let r = rig.step();
    assert!(r.exchange_ok);
    assert_eq!(r.alarm_flags, 0, "bus-fault alarm clears on recovery");
    assert_eq!(rig.axis(0).step, Step::Stopping.as_i32(), "EMS took effect");
    rig.run(600);
    assert_eq!(rig.axis(0).step, Step::Stopping.as_i32());
    assert!(f(rig.axis(0).act_vel).abs() < 1e-3, "{:?}", rig.axis(0));
    assert_eq!(rig.engine.data().system.status_flags, STATUS_BUS_OP);
}

#[test]
fn wkc_error_is_reported_not_fatal() {
    let mut rig = Rig::new(1, None);
    rig.enable_all();
    let ex = Ok(ExchangeStatus {
        all_axes_responding: true,
        inputs_fresh: true,
        working_counter_ok: false,
        next_cycle_wait: None,
    });
    let r = rig.cycle_with(ex);
    assert!(r.exchange_ok && r.wkc_error);
    assert_eq!(r.alarm_flags, 0);
    assert_eq!(rig.engine.wkc_errors(), 1);
}

#[test]
fn shutdown_ramps_then_disables() {
    let mut rig = Rig::new(2, None);
    rig.enable_all();
    rig.jog(0);
    rig.send(|c| {
        c.machine.axes[1].control_flags = cmd::JOG_NEG;
        c.machine.axes[1].jog_vel = s(20.0);
    });
    rig.run_until(500, |d| f(d.machine.axes[1].act_vel) < -10.0);

    let start = rig.now;
    let mut decel = 0;
    let mut disabled = 0;
    loop {
        let (_, phase) = rig.shutdown_step();
        match phase {
            ShutdownPhase::Decel => {
                decel += 1;
                assert!(decel < 2000, "phase 1 never ended");
            }
            ShutdownPhase::Disable | ShutdownPhase::Done => {
                if disabled == 0 {
                    // Transition step: reached by standstill, well inside the timeout.
                    assert!(decel > 10, "must actually ramp");
                    assert!(
                        rig.now.nanos - start.nanos < Duration::from_secs(2).nanos,
                        "not the timeout path"
                    );
                    for (i, input) in rig.ins.iter().enumerate() {
                        assert!(f(input.act_vel).abs() < 1e-3, "axis{i} still moving: {input:?}");
                    }
                    assert!(rig.outs.iter().all(|o| o.enable), "power held through the ramp");
                } else {
                    assert!(rig.outs.iter().all(|o| !o.enable && o.setpoint == Setpoint::Hold));
                }
                disabled += 1;
                if phase == ShutdownPhase::Done {
                    break;
                }
            }
        }
    }
    // Transition step + SHUTDOWN_DISABLE_CYCLES disable steps.
    assert_eq!(disabled, 1 + SHUTDOWN_DISABLE_CYCLES as usize);
    assert!(rig.outs.iter().all(|o| !o.enable));
    for (i, input) in rig.ins.iter().enumerate() {
        assert_eq!(input.drive, DriveStatus::Disabled, "axis{i}: {input:?}");
    }
    // plc_data kept publishing through the stop.
    let a = rig.axis(0);
    assert_eq!(a.step, Step::Stopping.as_i32());
    assert!(a.flags & status::ENABLED == 0);
}

#[test]
fn shutdown_times_out_when_bus_is_down() {
    let mut rig = Rig::new(1, None);
    rig.enable_all();
    rig.jog(0);
    rig.bus.stop().unwrap();

    let start = rig.now;
    let mut steps = 0;
    loop {
        let (r, phase) = rig.shutdown_step();
        steps += 1;
        assert!(!r.exchange_ok);
        assert_eq!(r.alarm_flags, ALARM_BUS_FAULT);
        assert!(steps < 1100, "stuck");
        if phase == ShutdownPhase::Done {
            break;
        }
    }
    let elapsed = rig.now.nanos - start.nanos;
    assert!(elapsed >= Duration::from_secs(2).nanos, "{elapsed:?}");
    assert!(elapsed < Duration::from_millis(2100).nanos, "{elapsed:?}");
    assert!(rig.outs.iter().all(|o| !o.enable));
}

#[test]
fn unserved_slots_publish_zeros() {
    let mut rig = Rig::new(2, None);
    rig.enable_all();
    assert_eq!(rig.axis(2).step, 0);
    assert_eq!(rig.axis(3).flags, 0);
    assert_eq!(rig.axis(1).step, Step::Ready.as_i32());
}

#[test]
fn cycles_are_recorded_in_the_trace() {
    let mut rig = Rig::new(1, None);
    rig.enable_all();
    let r = rig.step();
    assert_eq!(status_bits(&r, false), CMD_VALID);
    assert_eq!(status_bits(&r, true), CMD_VALID | OVERRUN);
    let all = CycleReport { exchange_ok: false, fresh: true, cmd_ok: true, wkc_error: true, ..r };
    assert_eq!(
        status_bits(&all, true),
        EXCHANGE_ERROR | CMD_FRESH | CMD_VALID | OVERRUN | WKC_ERROR
    );

    rig.ins[0].pos_limit = true;
    rig.ins[0].homed = true;
    let sample = trace_sample(
        rig.engine.data(),
        &rig.ins,
        &rig.outs,
        BusState::Op,
        123,
        45,
        67,
        CMD_VALID,
    );
    assert_eq!(sample.cycle, rig.engine.data().header.cycle);
    assert_eq!((sample.t_mono_ns, sample.period_ns, sample.exchange_ns), (123, 45, 67));
    assert_eq!(sample.bus_state, 3);
    assert_eq!(sample.status_bits, CMD_VALID);
    assert_eq!(sample.axes[0].step, Step::Ready.as_i32());
    assert_eq!(sample.axes[0].drive_status, 3);
    assert_eq!(sample.axes[0].io_bits, 0b01101);
    assert_eq!(sample.axes[1].io_bits, 0);
}
