//! What holds of every start-up, every cycle and every shutdown of a bus.
use vstd::prelude::*;

use crate::ethercat::backend::{
    answers, commanded, drive_script_of, drive_seen, entered, first_unmapped, input_seen, is_mapped,
    observed, output_image, responds, start_step, stop_begun, stop_step, syncing, AxisRt,
    BackendModel, StartAction, StartEvent, StartPhase, StopAction, StopPhase, STOP_CYCLES,
};
use crate::ethercat::cia402::{controlword_of, CW_ENABLE_OPERATION, CW_SWITCH_ON};
use crate::ethercat::config::AxisMapping;
use crate::ethercat::pdo::{input_size, rx_image, TxPdo, RX_BYTES};
use crate::fieldbus::{AxisId, AxisOut, BusState, FieldbusError};
use crate::scalar::Scalar;

verus! {

/// Past the scan, every axis is mapped to a device that was found.
pub open spec fn mapping_checked(m: BackendModel) -> bool {
    !(m.phase is Idle || m.phase is Opening || m.phase is Scanning) ==> forall|a: int|
        0 <= a < m.mappings.len() ==> (#[trigger] m.mappings[a]).subdevice < m.devices
}

/// A bus that is starting is not running.
pub open spec fn not_running_yet(m: BackendModel) -> bool {
    !(m.phase is Idle) ==> !m.running
}

proof fn lemma_first_unmapped(mappings: Seq<AxisMapping>, devices: int, from: int)
    requires
        0 <= from,
    ensures
        first_unmapped(mappings, devices, from) is None ==> forall|a: int|
            from <= a < mappings.len() ==> (#[trigger] mappings[a]).subdevice < devices,
        first_unmapped(mappings, devices, from) matches Some(a) ==> from <= a < mappings.len()
            && mappings[a].subdevice >= devices,
    decreases mappings.len() - from,
{
    if from < mappings.len() && mappings[from].subdevice < devices {
        lemma_first_unmapped(mappings, devices, from + 1);
    }
}

proof fn lemma_syncing(m: BackendModel, from: int)
    requires
        0 <= from,
    ensures
        ({
            let (n, action) = syncing(m, from);
            &&& n == (BackendModel { phase: n.phase, ..m })
            &&& match n.phase {
                StartPhase::Syncing { device } => from <= device && is_mapped(
                    m.mappings,
                    device as int,
                ) && action == (StartAction::EnableSync { subdevice: device }),
                StartPhase::ConfiguringClocks => action is ConfigureClocks,
                _ => false,
            }
        }),
    decreases m.devices - from,
{
    if from < m.devices && !is_mapped(m.mappings, from) {
        lemma_syncing(m, from + 1);
    }
}

/// Start-up keeps to devices that the scan found, and goes live only from a bus
/// that was not running.
pub proof fn startup_keeps_to_found_devices(m: BackendModel, ev: StartEvent)
    requires
        answers(m.phase, ev),
        mapping_checked(m),
        not_running_yet(m),
    ensures
        mapping_checked(start_step(m, ev).0),
        not_running_yet(start_step(m, ev).0),
        start_step(m, ev).0.running ==> start_step(m, ev).1 is Live,
{
    if let StartEvent::Scanned { count } = ev {
        lemma_first_unmapped(m.mappings, count as int, 0);
        lemma_syncing(BackendModel { devices: count, ..entered(m, BusState::PreOp) }, 0);
    }
    lemma_syncing(m, 0);
    if let StartPhase::Syncing { device } = m.phase {
        lemma_syncing(m, device + 1);
    }
}

/// An axis mapped beyond the devices found fails start-up right after the scan,
/// naming the device of the first such axis.
pub proof fn missing_devices_fail_the_scan(m: BackendModel, count: usize, a: int)
    requires
        m.phase is Scanning,
        0 <= a < m.mappings.len(),
        m.mappings[a].subdevice >= count,
        forall|b: int| 0 <= b < a ==> (#[trigger] m.mappings[b]).subdevice < count,
    ensures
        ({
            let (n, action) = start_step(m, StartEvent::Scanned { count });
            &&& action == (StartAction::Fail {
                error: FieldbusError::NoSuchAxis(
                    AxisId(m.mappings[a].subdevice),
                ),
            })
            &&& n.phase is Idle
            &&& n.state is PreOp
        }),
{
    lemma_first_is(m.mappings, count as int, 0, a);
}

proof fn lemma_first_is(mappings: Seq<AxisMapping>, devices: int, from: int, a: int)
    requires
        0 <= from <= a < mappings.len(),
        mappings[a].subdevice >= devices,
        forall|b: int| from <= b < a ==> (#[trigger] mappings[b]).subdevice < devices,
    ensures
        first_unmapped(mappings, devices, from) == Some(a),
    decreases a - from,
{
    if from < a {
        lemma_first_is(mappings, devices, from + 1, a);
    }
}

/// A bus goes live only when every device was operational and the process image
/// of the last axis was large enough; it then is in operation and running.
pub proof fn live_buses_are_checked(m: BackendModel, ev: StartEvent)
    requires
        answers(m.phase, ev),
        start_step(m, ev).1 is Live,
    ensures
        match ev {
            StartEvent::Inspected { inputs, outputs } => inputs >= input_size(m.din) && outputs
                >= RX_BYTES && m.phase->Inspecting_axis + 1 >= m.mappings.len(),
            StartEvent::Exchanged { all_op, .. } => all_op && m.mappings.len() == 0,
            _ => false,
        },
        start_step(m, ev).0.running,
        start_step(m, ev).0.state is Op,
{
    lemma_syncing(m, 0);
    if let StartEvent::Scanned { count } = ev {
        lemma_syncing(BackendModel { devices: count, ..entered(m, BusState::PreOp) }, 0);
    }
    if let StartPhase::Syncing { device } = m.phase {
        lemma_syncing(m, device + 1);
    }
}

/// Process images are checked axis by axis: after one that is large enough comes
/// the next axis, and one that is too small fails start-up.
pub proof fn every_image_is_checked(m: BackendModel, inputs: usize, outputs: usize)
    requires
        m.phase is Inspecting,
        m.phase->Inspecting_axis + 1 < m.mappings.len(),
        m.mappings.len() <= usize::MAX,
    ensures
        ({
            let (n, action) = start_step(m, StartEvent::Inspected { inputs, outputs });
            let axis = (m.phase->Inspecting_axis + 1) as usize;
            if inputs >= input_size(m.din) && outputs >= RX_BYTES {
                &&& n.phase == (StartPhase::Inspecting { axis })
                &&& action == (StartAction::Inspect { subdevice: m.mappings[axis as int].subdevice })
            } else {
                action == (StartAction::Fail {
                    error: FieldbusError::Exchange("PDI layout mismatch"),
                })
            }
        }),
{
}

/// Every drive gets the whole script, entry by entry and axis by axis, before
/// anything else happens on the bus.
pub proof fn scripts_are_written_in_order(m: BackendModel)
    requires
        m.phase is Writing,
        m.phase->Writing_axis < m.mappings.len() <= usize::MAX,
        m.phase->at < drive_script_of(m.configure_pdo, m.din).len(),
    ensures
        ({
            let script = drive_script_of(m.configure_pdo, m.din);
            let axis = m.phase->Writing_axis as int;
            let at = m.phase->at as int;
            let (n, action) = start_step(m, StartEvent::Done);
            if at + 1 < script.len() {
                action == (StartAction::Write {
                    subdevice: m.mappings[axis].subdevice,
                    write: script[at + 1],
                })
            } else if axis + 1 < m.mappings.len() {
                action == (StartAction::Write {
                    subdevice: m.mappings[axis + 1].subdevice,
                    write: script[0],
                })
            } else {
                !(action is Write)
            }
        }),
{
    lemma_syncing(m, 0);
}

/// A failed start-up leaves the bus where it was, not running, and free to be
/// started again.
pub proof fn failed_startups_are_over(m: BackendModel, ev: StartEvent)
    requires
        answers(m.phase, ev),
        not_running_yet(m),
        start_step(m, ev).1 is Fail,
    ensures
        start_step(m, ev).0.phase is Idle,
        !start_step(m, ev).0.running,
{
    lemma_syncing(m, 0);
    if let StartEvent::Scanned { count } = ev {
        lemma_first_unmapped(m.mappings, count as int, 0);
        lemma_syncing(BackendModel { devices: count, ..entered(m, BusState::PreOp) }, 0);
    }
    if let StartPhase::Syncing { device } = m.phase {
        lemma_syncing(m, device + 1);
    }
}

/// Enabling never commands a jump: the cycle after a responding drive was seen
/// not to follow targets, the target sent is its actual position, whatever
/// setpoint is asked for.
pub proof fn enabling_never_jumps(a: AxisRt, tx: TxPdo, out: AxisOut, counts: i32)
    requires
        !(drive_seen(a, tx, true) is Enabled),
    ensures
        commanded(observed(a, tx, true), out, counts).target == tx.position,
        output_image(observed(a, tx, true), out, counts) == rx_image(
            controlword_of(a.seq.reset_fired, out.enable, out.fault_reset, tx.statusword),
            tx.position,
        ),
{
}

/// A drive that follows targets gets the setpoint position, and keeps the last
/// one where no position is asked for.
pub proof fn operational_drives_get_their_setpoint(a: AxisRt, tx: TxPdo, out: AxisOut, counts: i32)
    requires
        drive_seen(a, tx, true) is Enabled,
    ensures
        commanded(observed(a, tx, true), out, counts).target == if out.setpoint is CyclicPosition {
            counts
        } else {
            a.target
        },
{
}

/// If a device left operation or the working counter is not the learned one,
/// every axis is offline that cycle.
pub proof fn one_lost_device_takes_all_axes_offline(
    m: BackendModel,
    all_op: bool,
    wkc: u16,
    i: int,
    tx: TxPdo,
    act_pos: Scalar,
    act_vel: Scalar,
)
    requires
        !all_op || (m.wkc.expected matches Some(e) && e != wkc),
    ensures
        !responds(m, all_op, wkc),
        input_seen(m.axes[i], tx, responds(m, all_op, wkc), act_pos, act_vel).drive is Offline,
{
}

/// An axis that is not enabled is never asked into operation on the bus.
pub proof fn outputs_follow_the_enable_demand(a: AxisRt, out: AxisOut)
    requires
        !out.enable,
    ensures
        ({
            let cw = controlword_of(a.seq.reset_fired, out.enable, out.fault_reset, a.statusword);
            cw != CW_ENABLE_OPERATION && cw != CW_SWITCH_ON
        }),
{
}

/// The bus `n` steps into a shutdown.
pub open spec fn stopping_for(m: BackendModel, n: nat) -> BackendModel
    decreases n,
{
    if n == 0 {
        stop_begun(m)
    } else {
        stop_step(stopping_for(m, (n - 1) as nat)).0
    }
}

/// What shutdown asks for as its action number `n`, the first being 0.
pub open spec fn stop_action(m: BackendModel, n: nat) -> StopAction {
    stop_step(stopping_for(m, n)).1
}

proof fn lemma_stopping_for(m: BackendModel, n: nat)
    requires
        n <= STOP_CYCLES + 2,
    ensures
        stopping_for(m, n) == (BackendModel {
            stopping: if n <= STOP_CYCLES {
                StopPhase::Cycling { done: n as usize }
            } else if n == STOP_CYCLES + 1 {
                StopPhase::Lowered
            } else {
                StopPhase::Parked
            },
            ..stop_begun(m)
        }),
    decreases n,
{
    if n > 0 {
        lemma_stopping_for(m, (n - 1) as nat);
    }
}

/// A shutdown is `STOP_CYCLES` exchanges with the power off, then SAFE-OP, then
/// PRE-OP; only then is the bus in its initial state, and says so. Until then
/// nothing else of it changes: every image on the way is the one that takes the
/// power off where the axis stood.
pub proof fn shutdown_steps_down_in_order(m: BackendModel, n: nat)
    requires
        n <= STOP_CYCLES + 2,
    ensures
        stop_action(m, n) == if n < STOP_CYCLES {
            StopAction::Exchange { pause: m.cycle }
        } else if n == STOP_CYCLES {
            StopAction::EnterSafeOp
        } else if n == STOP_CYCLES + 1 {
            StopAction::EnterPreOp
        } else {
            StopAction::Done
        },
        stopping_for(m, n).axes == m.axes,
        stopping_for(m, n).state == m.state,
        stopping_for(m, n).events == m.events,
        stopping_for(m, (STOP_CYCLES + 3) as nat) == entered(
            BackendModel { running: false, stopping: StopPhase::Idle, ..m },
            BusState::Init,
        ),
{
    lemma_stopping_for(m, n);
    lemma_stopping_for(m, (STOP_CYCLES + 2) as nat);
}

} // verus!
