//! The EtherCAT adapter: start-up, cyclic exchange, stop.
use motion_daemon::ethercat::backend::{
    drive_script, pdu_timeout, EthercatBackend, SdoValue, StartAction, StartEvent, StopAction,
};
use motion_daemon::ethercat::cia402::{CW_DISABLE_VOLTAGE, CW_ENABLE_OPERATION, CW_SHUTDOWN};
use motion_daemon::ethercat::config::{AxisMapping, EcatConfig};
use motion_daemon::ethercat::events::EventRing;
use motion_daemon::fieldbus::{
    AcyclicAccess, AxisId, AxisIn, AxisOut, BusEvent, BusState, CycleClass, DriveStatus,
    FieldbusError, ParamAddr, Setpoint, SetpointKind,
};
use motion_daemon::scalar::Scalar;
use motion_daemon::time::{Duration, Instant};

fn s(x: f64) -> Scalar {
    Scalar { bits: x.to_bits() }
}

fn config(axes: &[usize], dc: bool) -> EcatConfig {
    let mut cfg = EcatConfig::new("eth0".to_string(), 0);
    cfg.axes = axes.iter().map(|i| AxisMapping { subdevice: *i, scale: s(1000.0) }).collect();
    cfg.dc = dc;
    cfg
}

fn at(ms: u64) -> Instant {
    Instant { nanos: 0 }.plus(Duration::from_millis(ms))
}

/// Answer writes and clock switches until something else is asked for.
fn configured(bus: &mut EthercatBackend, mut action: StartAction) -> StartAction {
    while matches!(action, StartAction::Write { .. } | StartAction::EnableSync { .. }) {
        action = bus.advance(StartEvent::Done);
    }
    action
}

/// Start a bus of `devices` devices, learning a working counter of `wkc`.
fn live(cfg: EcatConfig, devices: usize, wkc: u16) -> EthercatBackend {
    let mut bus = EthercatBackend::new(cfg);
    bus.start().unwrap();
    bus.advance(StartEvent::Done);
    let action = bus.advance(StartEvent::Scanned { count: devices });
    configured(&mut bus, action);
    bus.advance(StartEvent::Done);
    bus.advance(StartEvent::Requested { now: at(0) });
    let mut action = bus.advance(StartEvent::Exchanged { all_op: true, wkc, now: at(1) });
    while let StartAction::Inspect { .. } = action {
        action = bus.advance(StartEvent::Inspected { inputs: 14, outputs: 6 });
    }
    assert_eq!(action, StartAction::Live);
    while bus.poll_event().is_some() {}
    bus
}

#[test]
fn startup_with_clocks() {
    let mut bus = EthercatBackend::new(config(&[1, 2], true));
    assert_eq!(bus.bus_state(), BusState::Init);
    assert_eq!(bus.axis_count(), 2);
    assert_eq!(
        bus.start(),
        Ok(StartAction::OpenInterface { pdu_timeout: Duration::from_millis(4) })
    );
    assert_eq!(bus.advance(StartEvent::Done), StartAction::Scan);
    let mut action = bus.advance(StartEvent::Scanned { count: 4 });
    assert_eq!(bus.bus_state(), BusState::PreOp);

    // Every entry of the script goes to both drives, in order.
    let script = drive_script(true, true);
    for device in [1, 2] {
        for entry in script.iter() {
            assert_eq!(action, StartAction::Write { subdevice: device, write: *entry });
            action = bus.advance(StartEvent::Done);
        }
    }
    // Only mapped devices get a clock.
    assert_eq!(action, StartAction::EnableSync { subdevice: 1 });
    assert_eq!(bus.advance(StartEvent::Done), StartAction::EnableSync { subdevice: 2 });
    assert_eq!(
        bus.advance(StartEvent::Done),
        StartAction::ConfigureClocks {
            start_delay: Duration::from_millis(100),
            sync0_period: Duration::from_millis(1),
            sync0_shift: Duration::from_micros(250),
        }
    );
    assert_eq!(bus.advance(StartEvent::Done), StartAction::RequestOp);
    assert_eq!(bus.advance(StartEvent::Requested { now: at(0) }), StartAction::Exchange);
    assert_eq!(bus.bus_state(), BusState::SafeOp);
    assert_eq!(
        bus.advance(StartEvent::Exchanged { all_op: false, wkc: 1, now: at(5) }),
        StartAction::Wait { pause: Duration::from_millis(1) }
    );
    assert_eq!(bus.advance(StartEvent::Done), StartAction::Exchange);
    assert_eq!(
        bus.advance(StartEvent::Exchanged { all_op: true, wkc: 6, now: at(6) }),
        StartAction::Inspect { subdevice: 1 }
    );
    assert_eq!(
        bus.advance(StartEvent::Inspected { inputs: 14, outputs: 6 }),
        StartAction::Inspect { subdevice: 2 }
    );
    assert_eq!(
        bus.advance(StartEvent::Inspected { inputs: 20, outputs: 8 }),
        StartAction::Live
    );
    assert_eq!(bus.bus_state(), BusState::Op);
    for event in [
        BusEvent::BusStateChanged(BusState::PreOp),
        BusEvent::BusStateChanged(BusState::SafeOp),
        BusEvent::BusStateChanged(BusState::Op),
        BusEvent::AxisOnline(AxisId(0)),
        BusEvent::AxisOnline(AxisId(1)),
    ] {
        assert_eq!(bus.poll_event(), Some(event));
    }
    assert_eq!(bus.poll_event(), None);
    assert_eq!(bus.start(), Err(FieldbusError::InvalidState(BusState::Op)));
}

#[test]
fn startup_without_clocks() {
    let mut bus = EthercatBackend::new(config(&[0], false));
    bus.start().unwrap();
    bus.advance(StartEvent::Done);
    let action = bus.advance(StartEvent::Scanned { count: 1 });
    assert_eq!(configured(&mut bus, action), StartAction::ConfigureImage);
    assert_eq!(bus.advance(StartEvent::Done), StartAction::RequestOp);
}

fn failure(action: StartAction) -> FieldbusError {
    match action {
        StartAction::Fail { error } => error,
        other => panic!("expected a failure, got {other:?}"),
    }
}

#[test]
fn startup_failures() {
    let started = || {
        let mut bus = EthercatBackend::new(config(&[0, 3], true));
        bus.start().unwrap();
        bus
    };
    let mut bus = started();
    assert_eq!(
        failure(bus.advance(StartEvent::Failed { why: "open network interface" })),
        FieldbusError::Exchange("open network interface")
    );
    let mut bus = started();
    bus.advance(StartEvent::Done);
    assert_eq!(
        failure(bus.advance(StartEvent::Failed { why: "" })),
        FieldbusError::Exchange("topology scan")
    );
    // An axis beyond the chain.
    let mut bus = started();
    bus.advance(StartEvent::Done);
    assert_eq!(
        failure(bus.advance(StartEvent::Scanned { count: 3 })),
        FieldbusError::NoSuchAxis(AxisId(3))
    );
    // A refused write is named, a vanished drive too.
    let mut bus = started();
    bus.advance(StartEvent::Done);
    bus.advance(StartEvent::Scanned { count: 4 });
    bus.advance(StartEvent::Done);
    assert_eq!(
        failure(bus.advance(StartEvent::Failed { why: "" })),
        FieldbusError::Exchange("clear 0x1C12")
    );
    let mut bus = started();
    bus.advance(StartEvent::Done);
    bus.advance(StartEvent::Scanned { count: 4 });
    assert_eq!(failure(bus.advance(StartEvent::Missing)), FieldbusError::NoSuchAxis(AxisId(0)));

    let to_clocks = || {
        let mut bus = started();
        bus.advance(StartEvent::Done);
        let action = bus.advance(StartEvent::Scanned { count: 4 });
        configured(&mut bus, action);
        bus
    };
    let mut bus = to_clocks();
    assert_eq!(
        failure(bus.advance(StartEvent::Failed { why: "" })),
        FieldbusError::Exchange("configure distributed clocks")
    );
    let mut bus = to_clocks();
    bus.advance(StartEvent::Done);
    assert_eq!(
        failure(bus.advance(StartEvent::Failed { why: "" })),
        FieldbusError::Exchange("request OP")
    );
    // Operation is not reached within ten seconds.
    let mut bus = to_clocks();
    bus.advance(StartEvent::Done);
    bus.advance(StartEvent::Requested { now: at(0) });
    bus.advance(StartEvent::Exchanged { all_op: false, wkc: 0, now: at(10_000) });
    bus.advance(StartEvent::Done);
    assert_eq!(
        failure(bus.advance(StartEvent::Exchanged { all_op: false, wkc: 0, now: at(10_001) })),
        FieldbusError::Timeout
    );
    // Frames get lost on the way.
    let mut bus = to_clocks();
    bus.advance(StartEvent::Done);
    bus.advance(StartEvent::Requested { now: at(0) });
    assert_eq!(
        failure(bus.advance(StartEvent::Failed { why: "" })),
        FieldbusError::Exchange("tx/rx while entering OP")
    );
    // The process image is too small.
    for (inputs, outputs) in [(13, 6), (14, 5)] {
        let mut bus = to_clocks();
        bus.advance(StartEvent::Done);
        bus.advance(StartEvent::Requested { now: at(0) });
        bus.advance(StartEvent::Exchanged { all_op: true, wkc: 3, now: at(1) });
        assert_eq!(
            failure(bus.advance(StartEvent::Inspected { inputs, outputs })),
            FieldbusError::Exchange("PDI layout mismatch")
        );
        assert_eq!(bus.bus_state(), BusState::SafeOp);
    }
    // Without clocks, the process image.
    let mut bus = EthercatBackend::new(config(&[0], false));
    bus.start().unwrap();
    bus.advance(StartEvent::Done);
    let action = bus.advance(StartEvent::Scanned { count: 1 });
    configured(&mut bus, action);
    assert_eq!(
        failure(bus.advance(StartEvent::Failed { why: "" })),
        FieldbusError::Exchange("configure PDI")
    );
}

#[test]
fn frame_timeout_follows_the_cycle() {
    assert_eq!(pdu_timeout(Duration::from_micros(250)), Duration::from_millis(2));
    assert_eq!(pdu_timeout(Duration::from_millis(2)), Duration::from_millis(8));
}

#[test]
fn the_drive_script() {
    let full = drive_script(true, true);
    let plain: Vec<(u16, u8, SdoValue)> = full.iter().map(|w| (w.index, w.sub, w.data)).collect();
    assert_eq!(
        plain,
        vec![
            (0x6060, 0, SdoValue::U8(8)),
            (0x1C12, 0, SdoValue::U8(0)),
            (0x1600, 0, SdoValue::U8(0)),
            (0x1600, 1, SdoValue::U32(0x6040_0010)),
            (0x1600, 2, SdoValue::U32(0x607A_0020)),
            (0x1600, 0, SdoValue::U8(2)),
            (0x1C12, 1, SdoValue::U16(0x1600)),
            (0x1C12, 0, SdoValue::U8(1)),
            (0x1C13, 0, SdoValue::U8(0)),
            (0x1A00, 0, SdoValue::U8(0)),
            (0x1A00, 1, SdoValue::U32(0x6041_0010)),
            (0x1A00, 2, SdoValue::U32(0x6064_0020)),
            (0x1A00, 3, SdoValue::U32(0x606C_0020)),
            (0x1A00, 4, SdoValue::U32(0x60FD_0020)),
            (0x1A00, 0, SdoValue::U8(4)),
            (0x1C13, 1, SdoValue::U16(0x1A00)),
            (0x1C13, 0, SdoValue::U8(1)),
        ]
    );
    let without_inputs = drive_script(true, false);
    assert_eq!(without_inputs.len(), full.len() - 1);
    assert_eq!(without_inputs[13].data, SdoValue::U8(3));
    assert_eq!(drive_script(false, true).len(), 1);
}

fn raw(statusword: u16, position: i32, velocity: i32, din: u32) -> [u8; 14] {
    let mut r = [0u8; 14];
    r[0..2].copy_from_slice(&statusword.to_le_bytes());
    r[2..6].copy_from_slice(&position.to_le_bytes());
    r[6..10].copy_from_slice(&velocity.to_le_bytes());
    r[10..14].copy_from_slice(&din.to_le_bytes());
    r
}

fn controlword(image: &[u8; 6]) -> u16 {
    u16::from_le_bytes([image[0], image[1]])
}

fn target(image: &[u8; 6]) -> i32 {
    i32::from_le_bytes([image[2], image[3], image[4], image[5]])
}

#[test]
fn targets_are_taken_only_by_an_operational_drive() {
    let mut bus = live(config(&[0], false), 1, 3);
    let mut ins = [AxisIn::default()];
    let mut images = [[0u8; 6]];
    let out = AxisOut {
        enable: true,
        fault_reset: false,
        setpoint: Setpoint::CyclicPosition { pos: s(9.0), vel_ff: s(0.0) },
    };

    // Ready to switch on, standing at 4321: the target is where it stands.
    let st = bus.read_inputs(
        true,
        3,
        None,
        &[raw(0x0231, 4321, 0, 0)],
        &[s(4.321)],
        &[s(0.0)],
        &mut ins,
    );
    assert!(st.all_axes_responding && st.inputs_fresh && st.working_counter_ok);
    assert_eq!(ins[0].drive, DriveStatus::Disabled);
    assert_eq!(ins[0].act_pos, s(4.321));
    bus.write_outputs(&[out], &[9000], &mut images).unwrap();
    assert_eq!(target(&images[0]), 4321);

    // Operational: the first target after that is the setpoint.
    bus.read_inputs(
        true,
        3,
        Some(Duration::from_micros(900)),
        &[raw(0x0237, 4321, 7, 3)],
        &[s(4.321)],
        &[s(0.007)],
        &mut ins,
    );
    assert_eq!(ins[0].drive, DriveStatus::Enabled);
    assert!(ins[0].pos_limit && ins[0].neg_limit);
    bus.write_outputs(&[out], &[9000], &mut images).unwrap();
    assert_eq!(target(&images[0]), 9000);
    assert_eq!(controlword(&images[0]), CW_ENABLE_OPERATION);

    // Hold freezes the last target, a released enable powers down.
    let hold = AxisOut { enable: false, fault_reset: false, setpoint: Setpoint::Hold };
    bus.write_outputs(&[hold], &[1], &mut images).unwrap();
    assert_eq!(target(&images[0]), 9000);
    assert_eq!(controlword(&images[0]), CW_SHUTDOWN);
}

#[test]
fn one_lost_device_takes_every_axis_offline() {
    let mut bus = live(config(&[0, 1], false), 2, 6);
    let mut ins = [AxisIn::default(); 2];
    let raws = [raw(0x0237, 1, 0, 0), raw(0x0237, 2, 0, 0)];
    let zero = [s(0.0), s(0.0)];
    let st = bus.read_inputs(true, 3, None, &raws, &zero, &zero, &mut ins);
    assert!(!st.all_axes_responding && !st.working_counter_ok && st.inputs_fresh);
    assert_eq!(ins[0].drive, DriveStatus::Offline);
    assert_eq!(ins[1].drive, DriveStatus::Offline);
    assert_eq!(bus.poll_event(), Some(BusEvent::AxisOffline(AxisId(0))));
    assert_eq!(bus.poll_event(), Some(BusEvent::AxisOffline(AxisId(1))));
    assert_eq!(bus.poll_event(), None);
    // Still lost: no second event.
    bus.read_inputs(false, 6, None, &raws, &zero, &zero, &mut ins);
    assert_eq!(bus.poll_event(), None);
    // Back again.
    bus.read_inputs(true, 6, None, &raws, &zero, &zero, &mut ins);
    assert_eq!(bus.poll_event(), Some(BusEvent::AxisOnline(AxisId(0))));
    assert_eq!(bus.poll_event(), Some(BusEvent::AxisOnline(AxisId(1))));
}

#[test]
fn a_fault_is_reported_once() {
    let mut bus = live(config(&[0], false), 1, 3);
    let mut ins = [AxisIn::default()];
    let zero = [s(0.0)];
    for _ in 0..3 {
        bus.read_inputs(true, 3, None, &[raw(0x0208, 5, 0, 0)], &zero, &zero, &mut ins);
    }
    assert_eq!(ins[0].drive, DriveStatus::Fault);
    assert_eq!(bus.poll_event(), Some(BusEvent::AxisFault { axis: AxisId(0), code: 0x0208 }));
    assert_eq!(bus.poll_event(), None);
}

#[test]
fn stopping_takes_the_power_off() {
    let mut bus = live(config(&[0], false), 1, 3);
    let mut ins = [AxisIn::default()];
    bus.read_inputs(
        true,
        3,
        None,
        &[raw(0x0231, -77, 0, 0)],
        &[s(0.0)],
        &[s(0.0)],
        &mut ins,
    );
    let mut action = bus.stop();
    for _ in 0..5 {
        assert_eq!(action, StopAction::Exchange { pause: Duration::from_millis(1) });
        let image = bus.stop_image(0);
        assert_eq!(controlword(&image), CW_DISABLE_VOLTAGE);
        assert_eq!(target(&image), -77);
        action = bus.stop_advance();
    }
    assert_eq!(action, StopAction::EnterSafeOp);
    assert_eq!(bus.stop_advance(), StopAction::EnterPreOp);
    // Until the last step the bus has not said that it is down.
    assert_eq!(bus.bus_state(), BusState::Op);
    assert_eq!(bus.poll_event(), None);
    assert_eq!(bus.stop_advance(), StopAction::Done);
    assert_eq!(bus.bus_state(), BusState::Init);
    assert_eq!(bus.poll_event(), Some(BusEvent::BusStateChanged(BusState::Init)));
    // A stopped bus exchanges nothing and has nothing left to stop.
    let mut images = [[0u8; 6]];
    assert_eq!(
        bus.write_outputs(&[AxisOut::default()], &[0], &mut images),
        Err(FieldbusError::InvalidState(BusState::Init))
    );
    assert_eq!(bus.stop(), StopAction::Done);
    assert_eq!(bus.stop_advance(), StopAction::Done);
    assert_eq!(bus.poll_event(), None);
    // It can be started again.
    assert!(bus.start().is_ok());
}

#[test]
fn capabilities_and_parameters() {
    let bus = EthercatBackend::new(config(&[0], true));
    let cap = bus.capability(AxisId(0));
    assert_eq!(cap.cycle, CycleClass::HardRt { cycle: Duration::from_millis(1) });
    assert_eq!(cap.setpoint, SetpointKind::CyclicTrajectory);
    assert!(cap.modes.position && !cap.modes.velocity && !cap.modes.torque && !cap.modes.homing);
    let mut acyclic = bus.acyclic();
    let addr = ParamAddr::Object { index: 0x603F, sub: 0 };
    let mut buf = [1u8; 2];
    let unsupported = FieldbusError::Unsupported(
        "EtherCAT acyclic channel lands with the homing work (README ADR-12)",
    );
    assert_eq!(acyclic.read(AxisId(0), addr, &mut buf), Err(unsupported));
    assert_eq!(buf, [1, 1]);
    assert_eq!(acyclic.write(AxisId(0), addr, &[0]), Err(unsupported));
}

#[test]
fn full_event_rings_drop_the_newest() {
    let mut ring = EventRing::new();
    for i in 0..70 {
        ring.push(BusEvent::AxisOnline(AxisId(i)));
    }
    for i in 0..64 {
        assert_eq!(ring.pop(), Some(BusEvent::AxisOnline(AxisId(i))));
    }
    assert_eq!(ring.pop(), None);
}
