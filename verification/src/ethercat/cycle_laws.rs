//! What start-up, exchange and events of a bus do, told by the bytes on the bus
//! and the fields of an axis.
use vstd::prelude::*;

use crate::ethercat::backend::{
    answers, commanded, decoded, drive_script_of, drive_seen, input_seen, live, output_image,
    pdu_timeout_of, responds, start_step, syncing, transacted, with_axis_events,
    with_fault_events, AxisRt, BackendModel, EthercatBackend, SdoValue, StartAction, StartEvent,
    StartPhase, StopAction,
};
use crate::ethercat::cia402::{
    controlword_of, drive_status_of, fired_after, statuswords_show_one_state, State,
};
use crate::ethercat::events::{with_event, EventRing};
use crate::ethercat::pdo::{input_size, inputs_in, rx_image, TxPdo};
use crate::ethercat::wkc::{acceptable, learned, WkcMonitor, WkcVerdict};
use crate::fieldbus::{
    AxisCapability, AxisId, AxisIn, AxisOut, BusEvent, BusState, CycleClass, DriveStatus,
    ExchangeStatus, FieldbusError,
};
use crate::scalar::Scalar;
use crate::shm::words::le_bytes;
use crate::time::{Duration, Instant};

verus! {

/// The number that four bytes make, the first one counting least.
pub open spec fn four_bytes(b: Seq<u8>, at: int) -> int {
    b[at] + b[at + 1] * 0x100 + b[at + 2] * 0x1_0000 + b[at + 3] * 0x100_0000
}

/// The number that four bytes make in two's complement.
pub open spec fn four_signed_bytes(b: Seq<u8>, at: int) -> int {
    if b[at + 3] < 0x80 {
        four_bytes(b, at)
    } else {
        four_bytes(b, at) - 0x1_0000_0000
    }
}

proof fn lemma_low_bits(b0: u8, b1: u8, b2: u8, b3: u8)
    by (bit_vector)
    ensures
        ((b0 + b1 * 0x100 + b2 * 0x1_0000 + b3 * 0x100_0000) as u32) & 0x1 == (b0 & 0x1) as u32,
        ((b0 + b1 * 0x100 + b2 * 0x1_0000 + b3 * 0x100_0000) as u32) & 0x2 == (b0 & 0x2) as u32,
        ((b0 + b1 * 0x100) as u16) & 0x6F == (b0 & 0x6F) as u16,
        ((b0 + b1 * 0x100) as u16) & 0x4F == (b0 & 0x4F) as u16,
{
}

/// The inputs of a drive stand in its bytes: statusword in the first two,
/// position in the next four, velocity in the next four, digital inputs, where
/// they are mapped, in the last four.
pub proof fn inputs_stand_in_their_bytes(b: Seq<u8>, din: bool)
    requires
        b.len() == 14,
    ensures
        ({
            let tx = inputs_in(b, din);
            &&& tx.statusword == b[0] + b[1] * 0x100
            &&& tx.position == four_signed_bytes(b, 2)
            &&& tx.velocity == four_signed_bytes(b, 6)
            &&& din ==> tx.digital_inputs == four_bytes(b, 10)
            &&& !din ==> tx.digital_inputs == 0
        }),
{
}

/// What a drive's statusword says of it, by its low byte, while the whole bus
/// responds; else it is offline.
pub open spec fn drive_by_byte(low: u8, enable: bool, responding: bool) -> DriveStatus {
    if !responding {
        DriveStatus::Offline
    } else if low & 0x6F == 0x27 {
        DriveStatus::Enabled
    } else if low & 0x6F == 0x07 {
        DriveStatus::QuickStop
    } else if low & 0x4F == 0x08 || low & 0x4F == 0x0F {
        DriveStatus::Fault
    } else if enable {
        DriveStatus::Enabling
    } else {
        DriveStatus::Disabled
    }
}

proof fn lemma_drive(a: AxisRt, b: Seq<u8>, din: bool, responding: bool)
    requires
        b.len() == 14,
    ensures
        drive_seen(a, inputs_in(b, din), responding) == drive_by_byte(b[0], a.enable, responding),
{
    let sw = inputs_in(b, din).statusword;
    lemma_low_bits(b[0], b[1], 0, 0);
    statuswords_show_one_state(sw, State::OperationEnabled);
    statuswords_show_one_state(sw, State::QuickStopActive);
    statuswords_show_one_state(sw, State::Fault);
    statuswords_show_one_state(sw, State::FaultReactionActive);
}

/// What an axis shows after a transaction, told by its input bytes: the positive
/// limit switch is bit 1 and the negative one bit 0 of the digital inputs, both
/// clear where these are not mapped; position and velocity are those handed in;
/// the drive status is that of the statusword.
pub proof fn inputs_show_the_bytes(
    a: AxisRt,
    b: Seq<u8>,
    din: bool,
    responding: bool,
    act_pos: Scalar,
    act_vel: Scalar,
)
    requires
        b.len() == 14,
    ensures
        ({
            let shown = input_seen(a, inputs_in(b, din), responding, act_pos, act_vel);
            &&& shown.pos_limit <==> din && b[10] & 0x02 != 0
            &&& shown.neg_limit <==> din && b[10] & 0x01 != 0
            &&& shown.act_pos == act_pos
            &&& shown.act_vel == act_vel
            &&& shown.drive == drive_by_byte(b[0], a.enable, responding)
            &&& shown.fault_code == 0
            &&& !shown.homed
        }),
{
    lemma_low_bits(b[10], b[11], b[12], b[13]);
    lemma_drive(a, b, din, responding);
    assert(0u32 & 0x1u32 == 0 && 0u32 & 0x2u32 == 0) by (bit_vector);
}

/// A transaction leaves every axis with the statusword it brought, the target on
/// the actual position unless the drive follows targets, and the fault noted;
/// power request and sequencer stay.
pub proof fn transactions_update_every_axis(
    m: BackendModel,
    all_op: bool,
    wkc: u16,
    raws: Seq<[u8; 14]>,
    i: int,
)
    requires
        raws.len() == m.axes.len(),
        0 <= i < m.axes.len(),
    ensures
        ({
            let b = raws[i]@;
            let n = transacted(m, all_op, wkc, decoded(raws, m.din));
            let good = all_op && (m.wkc.expected is None || m.wkc.expected == Some(wkc));
            let drive = drive_by_byte(b[0], m.axes[i].enable, good);
            &&& n.axes.len() == m.axes.len()
            &&& n.axes[i].statusword == b[0] + b[1] * 0x100
            &&& n.axes[i].target == if drive is Enabled {
                m.axes[i].target as int
            } else {
                four_signed_bytes(b, 2)
            }
            &&& n.axes[i].was_fault <==> drive is Fault
            &&& n.axes[i].enable == m.axes[i].enable
            &&& n.axes[i].seq == m.axes[i].seq
            &&& n.was_responding == good
            &&& n.running == m.running && n.state == m.state && n.phase == m.phase && n.stopping
                == m.stopping
            &&& n.wkc.expected == m.wkc.expected
        }),
{
    let b = raws[i]@;
    assert(b.len() == 14);
    lemma_drive(m.axes[i], b, m.din, responds(m, all_op, wkc));
    inputs_stand_in_their_bytes(b, m.din);
}

/// A bus responds when every device is operational and the working counter is
/// the one learned; the first counter of a cycle with every device operational
/// is learned, once.
pub proof fn buses_respond_under_the_learned_counter(
    m: BackendModel,
    w: WkcMonitor,
    all_op: bool,
    wkc: u16,
)
    ensures
        responds(m, all_op, wkc) <==> all_op && (m.wkc.expected is None || m.wkc.expected == Some(
            wkc,
        )),
        acceptable(w, wkc) <==> w.expected is None || w.expected == Some(wkc),
        learned(w, all_op, wkc).expected == if w.expected is None && all_op {
            Some(wkc)
        } else {
            w.expected
        },
        learned(w, all_op, wkc).was_ok == w.was_ok,
{
}

/// The controlword asks for the next step toward what is demanded, by the state
/// that the statusword shows: a fault is reset by one rising edge per held
/// request and otherwise left alone, as is its reaction; power comes up by
/// shutdown, switch on, enable operation, and goes down by shutdown.
pub proof fn controlwords_step_toward_the_demand(
    fired: bool,
    enable: bool,
    fault_reset: bool,
    sw: u16,
)
    ensures
        ({
            let cw = controlword_of(fired, enable, fault_reset, sw);
            let faulty = sw & 0x4F == 0x08;
            let reacting = sw & 0x4F == 0x0F;
            let ready = sw & 0x6F == 0x21;
            let on = sw & 0x6F == 0x23 || sw & 0x6F == 0x27 || sw & 0x6F == 0x07;
            &&& faulty ==> cw == if fault_reset && !fired {
                0x80u16
            } else {
                0
            }
            &&& reacting ==> cw == 0
            &&& ready ==> cw == if enable {
                0x07u16
            } else {
                0x06
            }
            &&& on ==> cw == if enable {
                0x0Fu16
            } else {
                0x06
            }
            &&& !faulty && !reacting && !ready && !on ==> cw == 0x06
            &&& fired_after(fired, fault_reset, sw) <==> fault_reset && (fired || faulty)
        }),
{
    statuswords_show_one_state(sw, State::OperationEnabled);
    statuswords_show_one_state(sw, State::SwitchedOn);
    statuswords_show_one_state(sw, State::ReadyToSwitchOn);
    statuswords_show_one_state(sw, State::QuickStopActive);
    statuswords_show_one_state(sw, State::SwitchOnDisabled);
    statuswords_show_one_state(sw, State::FaultReactionActive);
    statuswords_show_one_state(sw, State::Fault);
}

/// A statusword stands for a drive that is operational, stopping quickly, in
/// fault, or, by whether power is requested, enabling or disabled.
pub proof fn statuswords_stand_for_the_drive(enable: bool, sw: u16)
    ensures
        ({
            let drive = drive_status_of(enable, sw);
            let faulty = sw & 0x4F == 0x08 || sw & 0x4F == 0x0F;
            &&& drive is Enabled <==> sw & 0x6F == 0x27
            &&& drive is QuickStop <==> sw & 0x6F == 0x07
            &&& drive is Fault <==> faulty
            &&& drive is Enabling <==> enable && sw & 0x6F != 0x27 && sw & 0x6F != 0x07 && !faulty
            &&& drive is Disabled <==> !enable && sw & 0x6F != 0x27 && sw & 0x6F != 0x07 && !faulty
            &&& !(drive is Offline)
        }),
{
    statuswords_show_one_state(sw, State::OperationEnabled);
    statuswords_show_one_state(sw, State::QuickStopActive);
    statuswords_show_one_state(sw, State::FaultReactionActive);
    statuswords_show_one_state(sw, State::Fault);
}

/// The output bytes of an axis: the controlword in the first two, the target in
/// the next four.
pub proof fn outputs_stand_in_their_bytes(controlword: u16, target: i32)
    ensures
        ({
            let b = rx_image(controlword, target);
            &&& b.len() == 6
            &&& b[0] + b[1] * 0x100 == controlword
            &&& four_signed_bytes(b, 2) == target
        }),
{
    let b = rx_image(controlword, target);
    let t = crate::shm::words::signed_bits(target);
    let p = le_bytes(controlword as int, 2);
    let q = le_bytes(t as int, 4);
    assert(p[0] == controlword % 0x100 && p[1] == (controlword / 0x100) % 0x100);
    let v = t as int;
    vstd::arithmetic::div_mod::lemma_div_denominator(v, 0x100, 0x100);
    vstd::arithmetic::div_mod::lemma_div_denominator(v, 0x1_0000, 0x100);
    assert(q[0] == v % 0x100 && q[1] == (v / 0x100) % 0x100 && q[2] == (v / 0x1_0000) % 0x100
        && q[3] == (v / 0x100_0000) % 0x100);
    assert(b[2] == q[0] && b[3] == q[1] && b[4] == q[2] && b[5] == q[3]);
    assert(v / 0x100_0000 < 0x100);
    assert(v < 0x8000_0000 <==> v / 0x100_0000 < 0x80);
}

/// What is sent to a drive: the controlword that answers its last statusword,
/// and the setpoint position where the drive follows targets and a position is
/// asked for, else the target it had. The request for power is noted, and
/// statusword and fault stay.
pub proof fn outputs_send_the_setpoint(a: AxisRt, out: AxisOut, counts: i32)
    ensures
        ({
            let n = commanded(a, out, counts);
            let b = output_image(a, out, counts);
            let follows = a.statusword & 0x6F == 0x27;
            let target = if follows && out.setpoint is CyclicPosition {
                counts
            } else {
                a.target
            };
            &&& n.target == target
            &&& n.enable == out.enable
            &&& n.statusword == a.statusword
            &&& n.was_fault == a.was_fault
            &&& n.seq.reset_fired <==> out.fault_reset && (a.seq.reset_fired || a.statusword & 0x4F
                == 0x08)
            &&& b.len() == 6
            &&& b[0] + b[1] * 0x100 == controlword_of(
                a.seq.reset_fired,
                out.enable,
                out.fault_reset,
                a.statusword,
            )
            &&& four_signed_bytes(b, 2) == target
        }),
{
    statuswords_stand_for_the_drive(a.enable, a.statusword);
    controlwords_step_toward_the_demand(
        a.seq.reset_fired,
        out.enable,
        out.fault_reset,
        a.statusword,
    );
    outputs_stand_in_their_bytes(
        controlword_of(a.seq.reset_fired, out.enable, out.fault_reset, a.statusword),
        commanded(a, out, counts).target,
    );
}

/// A queue of events takes the newest last, and drops it when 64 are pending.
pub proof fn events_queue_up_to_the_capacity(events: Seq<BusEvent>, ev: BusEvent)
    ensures
        events.len() < 64 ==> with_event(events, ev) == events.push(ev),
        events.len() >= 64 ==> with_event(events, ev) == events,
{
}

/// When the bus falls silent every axis is reported offline, when it responds
/// again online, in order; no other transaction reports either.
pub proof fn axes_come_and_go_together(
    m: BackendModel,
    all_op: bool,
    wkc: u16,
    inputs: Seq<TxPdo>,
    n: int,
)
    requires
        0 <= n <= m.axes.len(),
        m.events.len() + m.axes.len() <= 64,
    ensures
        ({
            let good = all_op && (m.wkc.expected is None || m.wkc.expected == Some(wkc));
            let told = Seq::new(
                n as nat,
                |i: int|
                    if good {
                        BusEvent::AxisOnline(AxisId(i as usize))
                    } else {
                        BusEvent::AxisOffline(AxisId(i as usize))
                    },
            );
            let start = if good != m.was_responding {
                with_axis_events(m.events, good, m.axes.len() as int)
            } else {
                m.events
            };
            &&& with_axis_events(m.events, good, n) == m.events + told
            &&& transacted(m, all_op, wkc, inputs).events == with_fault_events(
                start,
                m.axes,
                inputs,
                good,
                m.axes.len() as int,
            )
        }),
    decreases n,
{
    let good = all_op && (m.wkc.expected is None || m.wkc.expected == Some(wkc));
    assert(good == responds(m, all_op, wkc));
    let told = Seq::new(
        n as nat,
        |i: int|
            if good {
                BusEvent::AxisOnline(AxisId(i as usize))
            } else {
                BusEvent::AxisOffline(AxisId(i as usize))
            },
    );
    if n > 0 {
        axes_come_and_go_together(m, all_op, wkc, inputs, n - 1);
        let fewer = Seq::new(
            (n - 1) as nat,
            |i: int|
                if good {
                    BusEvent::AxisOnline(AxisId(i as usize))
                } else {
                    BusEvent::AxisOffline(AxisId(i as usize))
                },
        );
        assert(told =~= fewer.push(told[n - 1]));
        assert(m.events + told =~= (m.events + fewer).push(told[n - 1]));
    } else {
        assert(m.events + told =~= m.events);
    }
}

/// A fault of an axis is reported in the transaction that first shows it, with
/// the statusword as its code, axis by axis.
pub proof fn new_faults_are_reported(
    events: Seq<BusEvent>,
    axes: Seq<AxisRt>,
    inputs: Seq<TxPdo>,
    responding: bool,
    n: int,
)
    requires
        0 <= n < axes.len(),
    ensures
        ({
            let before = with_fault_events(events, axes, inputs, responding, n);
            let after = with_fault_events(events, axes, inputs, responding, n + 1);
            let sw = inputs[n].statusword;
            let fault = responding && (sw & 0x4F == 0x08 || sw & 0x4F == 0x0F);
            &&& with_fault_events(events, axes, inputs, responding, 0) == events
            &&& fault && !axes[n].was_fault && before.len() < 64 ==> after == before.push(
                BusEvent::AxisFault { axis: AxisId(n as usize), code: sw as u32 },
            )
            &&& !fault || axes[n].was_fault || before.len() >= 64 ==> after == before
        }),
{
    statuswords_stand_for_the_drive(axes[n].enable, inputs[n].statusword);
}

/// Frames are given up after four cycles, but not before 2 ms.
pub proof fn frames_are_given_four_cycles(cycle: Duration)
    requires
        cycle.nanos * 4 <= u128::MAX,
    ensures
        pdu_timeout_of(cycle).nanos >= 4 * cycle.nanos,
        pdu_timeout_of(cycle).nanos >= 2_000_000,
        pdu_timeout_of(cycle).nanos == 4 * cycle.nanos || pdu_timeout_of(cycle).nanos == 2_000_000,
{
}

/// Every drive is put into cyclic position mode first. Where its image is
/// configured, outputs and then inputs are each taken out of use, emptied,
/// filled entry by entry, counted, and put back into use: 6 bytes of controlword
/// and target, 10 of statusword, position and velocity, and 4 of digital inputs
/// where they are wanted.
pub proof fn drives_are_configured_in_order(configure_pdo: bool, din: bool)
    ensures
        ({
            let s = drive_script_of(configure_pdo, din);
            let d: int = if din {
                1
            } else {
                0
            };
            &&& s[0].index == 0x6060 && s[0].sub == 0 && s[0].data == SdoValue::U8(8)
            &&& !configure_pdo ==> s.len() == 1
            &&& configure_pdo ==> s.len() == 16 + d
            &&& configure_pdo ==> s[1].index == 0x1C12 && s[1].sub == 0 && s[1].data
                == SdoValue::U8(0)
            &&& configure_pdo ==> s[2].index == 0x1600 && s[2].sub == 0 && s[2].data
                == SdoValue::U8(0)
            &&& configure_pdo ==> s[3].index == 0x1600 && s[3].sub == 1 && s[3].data
                == SdoValue::U32(0x6040_0010)
            &&& configure_pdo ==> s[4].index == 0x1600 && s[4].sub == 2 && s[4].data
                == SdoValue::U32(0x607A_0020)
            &&& configure_pdo ==> s[5].index == 0x1600 && s[5].sub == 0 && s[5].data
                == SdoValue::U8(2)
            &&& configure_pdo ==> s[6].index == 0x1C12 && s[6].sub == 1 && s[6].data
                == SdoValue::U16(0x1600)
            &&& configure_pdo ==> s[7].index == 0x1C12 && s[7].sub == 0 && s[7].data
                == SdoValue::U8(1)
            &&& configure_pdo ==> s[8].index == 0x1C13 && s[8].sub == 0 && s[8].data
                == SdoValue::U8(0)
            &&& configure_pdo ==> s[9].index == 0x1A00 && s[9].sub == 0 && s[9].data
                == SdoValue::U8(0)
            &&& configure_pdo ==> s[10].index == 0x1A00 && s[10].sub == 1 && s[10].data
                == SdoValue::U32(0x6041_0010)
            &&& configure_pdo ==> s[11].index == 0x1A00 && s[11].sub == 2 && s[11].data
                == SdoValue::U32(0x6064_0020)
            &&& configure_pdo ==> s[12].index == 0x1A00 && s[12].sub == 3 && s[12].data
                == SdoValue::U32(0x606C_0020)
            &&& configure_pdo && din ==> s[13].index == 0x1A00 && s[13].sub == 4 && s[13].data
                == SdoValue::U32(0x60FD_0020)
            &&& configure_pdo ==> s[13 + d].index == 0x1A00 && s[13 + d].sub == 0 && s[13 + d].data
                == SdoValue::U8((3 + d) as u8)
            &&& configure_pdo ==> s[14 + d].index == 0x1C13 && s[14 + d].sub == 1 && s[14 + d].data
                == SdoValue::U16(0x1A00)
            &&& configure_pdo ==> s[15 + d].index == 0x1C13 && s[15 + d].sub == 0 && s[15 + d].data
                == SdoValue::U8(1)
        }),
{
}

/// Everything of a bus but its start-up phase.
pub open spec fn same_but_phase(a: BackendModel, b: BackendModel) -> bool {
    a == (BackendModel { phase: a.phase, ..b })
}

/// What comes after each step of start-up that succeeds: the scan after the
/// interface, the request for operation after clocks and image, cycles with a
/// pause between them until every device is operational or ten seconds have
/// passed.
pub proof fn startup_goes_step_by_step(m: BackendModel, ev: StartEvent)
    requires
        answers(m.phase, ev),
    ensures
        ({
            let (n, action) = start_step(m, ev);
            &&& m.phase is Opening && ev is Done ==> action is Scan && n.phase is Scanning
                && same_but_phase(n, m)
            &&& (m.phase is ConfiguringClocks || m.phase is ConfiguringImage) && ev is Done
                ==> action is RequestOp && n.phase is Requesting && same_but_phase(n, m)
            &&& ev matches StartEvent::Requested { now } ==> action is Exchange && n.phase == (
            StartPhase::Entering {
                deadline: Instant { nanos: (now.nanos + 10_000_000_000) as u128 },
            }) && n.state is SafeOp && n.events == with_event(
                m.events,
                BusEvent::BusStateChanged(BusState::SafeOp),
            )
            &&& m.phase matches StartPhase::Pausing { deadline } ==> action is Exchange && n.phase
                == (StartPhase::Entering { deadline }) && same_but_phase(n, m)
            &&& ev matches StartEvent::Exchanged { all_op, wkc, now } ==> {
                let deadline = m.phase->Entering_deadline;
                &&& n.wkc.expected == if all_op && m.wkc.expected is None {
                    Some(wkc)
                } else {
                    m.wkc.expected
                }
                &&& !all_op && now.nanos > deadline.nanos ==> action == (StartAction::Fail {
                    error: FieldbusError::Timeout,
                })
                &&& !all_op && now.nanos <= deadline.nanos ==> action == (StartAction::Wait {
                    pause: m.cycle,
                }) && n.phase == (StartPhase::Pausing { deadline })
                &&& all_op && m.mappings.len() > 0 ==> action == (StartAction::Inspect {
                    subdevice: m.mappings[0].subdevice,
                }) && n.phase == (StartPhase::Inspecting { axis: 0 })
            }
        }),
{
}

/// A step of start-up that fails ends it, under the name of what failed; a
/// device that is missing is named by its place.
pub proof fn failed_steps_are_named(m: BackendModel, why: &'static str)
    requires
        m.phase matches StartPhase::Writing { axis, .. } ==> axis < m.mappings.len(),
        m.phase matches StartPhase::Inspecting { axis } ==> axis < m.mappings.len(),
    ensures
        ({
            let (n, action) = start_step(m, StartEvent::Failed { why });
            let (gone, missing) = start_step(m, StartEvent::Missing);
            &&& n.phase is Idle && same_but_phase(n, m)
            &&& gone.phase is Idle && same_but_phase(gone, m)
            &&& m.phase is Opening ==> action == (StartAction::Fail {
                error: FieldbusError::Exchange(why),
            })
            &&& m.phase is Scanning ==> action == (StartAction::Fail {
                error: FieldbusError::Exchange("topology scan"),
            })
            &&& m.phase matches StartPhase::Writing { at, .. } ==> action == (StartAction::Fail {
                error: FieldbusError::Exchange(
                    drive_script_of(m.configure_pdo, m.din)[at as int].what,
                ),
            })
            &&& m.phase is ConfiguringClocks ==> action == (StartAction::Fail {
                error: FieldbusError::Exchange("configure distributed clocks"),
            })
            &&& m.phase is ConfiguringImage ==> action == (StartAction::Fail {
                error: FieldbusError::Exchange("configure PDI"),
            })
            &&& m.phase is Requesting ==> action == (StartAction::Fail {
                error: FieldbusError::Exchange("request OP"),
            })
            &&& m.phase is Entering ==> action == (StartAction::Fail {
                error: FieldbusError::Exchange("tx/rx while entering OP"),
            })
            &&& m.phase matches StartPhase::Writing { axis, .. } ==> missing == (
            StartAction::Fail {
                error: FieldbusError::NoSuchAxis(AxisId(m.mappings[axis as int].subdevice)),
            })
            &&& m.phase matches StartPhase::Inspecting { axis } ==> missing == (StartAction::Fail {
                error: FieldbusError::NoSuchAxis(AxisId(m.mappings[axis as int].subdevice)),
            })
        }),
{
}

/// After a scan that found every mapped device the bus is in PRE-OP and says
/// so, and the first drive gets the first entry of the script.
pub proof fn scans_lead_to_configuration(m: BackendModel, count: usize)
    requires
        m.phase is Scanning,
        0 < m.mappings.len() <= usize::MAX,
        forall|a: int| 0 <= a < m.mappings.len() ==> (#[trigger] m.mappings[a]).subdevice < count,
    ensures
        ({
            let (n, action) = start_step(m, StartEvent::Scanned { count });
            &&& n.state is PreOp
            &&& n.devices == count
            &&& n.events == with_event(m.events, BusEvent::BusStateChanged(BusState::PreOp))
            &&& n.phase == (StartPhase::Writing { axis: 0, at: 0 })
            &&& action == (StartAction::Write {
                subdevice: m.mappings[0].subdevice,
                write: drive_script_of(m.configure_pdo, m.din)[0],
            })
        }),
{
    lemma_all_mapped(m, count as int, 0);
}

proof fn lemma_all_mapped(m: BackendModel, count: int, from: int)
    requires
        0 <= from <= m.mappings.len(),
        forall|a: int| 0 <= a < m.mappings.len() ==> (#[trigger] m.mappings[a]).subdevice < count,
    ensures
        crate::ethercat::backend::first_unmapped(m.mappings, count, from) is None,
    decreases m.mappings.len() - from,
{
    if from < m.mappings.len() {
        lemma_all_mapped(m, count, from + 1);
    }
}

/// Clocks are switched on for the mapped devices only, in the order of the
/// chain, and then configured: the first pulse after 100 ms, one every cycle,
/// shifted by a quarter of it.
pub proof fn clocks_are_set_for_mapped_devices(m: BackendModel, from: int)
    requires
        0 <= from,
    ensures
        ({
            let (n, action) = syncing(m, from);
            &&& same_but_phase(n, m)
            &&& match action {
                StartAction::EnableSync { subdevice } => {
                    &&& from <= subdevice < m.devices
                    &&& exists|a: int|
                        0 <= a < m.mappings.len() && (#[trigger] m.mappings[a]).subdevice
                            == subdevice
                    &&& forall|a: int|
                        0 <= a < m.mappings.len() ==> !(from <= (
                        #[trigger] m.mappings[a]).subdevice < subdevice)
                    &&& n.phase == (StartPhase::Syncing { device: subdevice })
                },
                StartAction::ConfigureClocks { start_delay, sync0_period, sync0_shift } => {
                    &&& forall|a: int|
                        0 <= a < m.mappings.len() ==> !(from <= (
                        #[trigger] m.mappings[a]).subdevice < m.devices)
                    &&& start_delay.nanos == 100_000_000
                    &&& sync0_period == m.cycle
                    &&& sync0_shift.nanos == m.cycle.nanos / 4
                    &&& n.phase is ConfiguringClocks
                },
                _ => false,
            }
        }),
    decreases m.devices - from,
{
    if from < m.devices && !crate::ethercat::backend::is_mapped(m.mappings, from) {
        clocks_are_set_for_mapped_devices(m, from + 1);
    }
}

/// After the last entry of the last drive come the clocks, or the image where
/// there are no distributed clocks.
pub proof fn configured_drives_are_clocked(m: BackendModel)
    requires
        m.phase is Writing,
        m.phase->Writing_axis + 1 == m.mappings.len(),
        m.phase->at + 1 == drive_script_of(m.configure_pdo, m.din).len(),
    ensures
        m.dc ==> start_step(m, StartEvent::Done) == syncing(m, 0),
        !m.dc ==> start_step(m, StartEvent::Done).1 is ConfigureImage && start_step(
            m,
            StartEvent::Done,
        ).0.phase is ConfiguringImage,
{
}

/// A bus that goes live is in operation and says so, reports every axis online,
/// counts as responding, and runs.
pub proof fn live_buses_report_their_axes(m: BackendModel)
    ensures
        ({
            let (n, action) = live(m);
            &&& action is Live
            &&& n.state is Op
            &&& n.running
            &&& n.was_responding
            &&& n.phase is Idle
            &&& n.events == with_axis_events(
                with_event(m.events, BusEvent::BusStateChanged(BusState::Op)),
                true,
                m.axes.len() as int,
            )
            &&& n.axes == m.axes
            &&& n.wkc == m.wkc
        }),
{
}

/// Starting a bus that does not run opens the interface, with nothing learned of
/// the working counter; a bus that runs refuses and stays as it is.
pub proof fn starts_open_the_interface(
    bus: &mut EthercatBackend,
    r: Result<StartAction, FieldbusError>,
)
    requires
        call_ensures(EthercatBackend::start, (bus,), r),
    ensures
        r is Err <==> old(bus)@.running,
        r is Err ==> r->Err_0 == FieldbusError::InvalidState(old(bus)@.state) && final(bus)@ == old(
            bus,
        )@,
        r is Ok ==> r->Ok_0 == (StartAction::OpenInterface {
            pdu_timeout: pdu_timeout_of(old(bus)@.cycle),
        }),
        r is Ok ==> final(bus)@.phase is Opening && final(bus)@.wkc.expected is None,
        r is Ok ==> final(bus)@.axes == old(bus)@.axes && final(bus)@.state == old(bus)@.state,
{
}

/// The outputs of a running bus are those of each axis' own setpoint and
/// demand; a bus that does not run refuses and changes nothing.
pub proof fn running_buses_write_every_axis(
    bus: &mut EthercatBackend,
    outs: &[AxisOut],
    counts: &[i32],
    images: &mut [[u8; 6]],
    r: Result<(), FieldbusError>,
    i: int,
)
    requires
        call_ensures(EthercatBackend::write_outputs, (bus, outs, counts, images), r),
        0 <= i < old(bus)@.axes.len(),
        outs@.len() == old(bus)@.axes.len(),
    ensures
        r is Ok <==> old(bus)@.running,
        r is Err ==> r->Err_0 == FieldbusError::InvalidState(old(bus)@.state) && final(bus)@ == old(
            bus,
        )@ && final(images)@ == old(images)@,
        r is Ok ==> final(images)@[i]@ == output_image(old(bus)@.axes[i], outs@[i], counts@[i]),
        r is Ok ==> final(bus)@.axes[i] == commanded(old(bus)@.axes[i], outs@[i], counts@[i]),
        r is Ok ==> final(bus)@.axes.len() == old(bus)@.axes.len() && final(bus)@.running,
{
}

/// The inputs of every axis are those of its own bytes, position and velocity;
/// the exchange counts as good where the bus responds, and the bus's own pacing
/// is passed on.
pub proof fn transactions_show_every_axis(
    bus: &mut EthercatBackend,
    all_op: bool,
    wkc: u16,
    wait: Option<Duration>,
    raws: &[[u8; 14]],
    positions: &[Scalar],
    velocities: &[Scalar],
    ins: &mut [AxisIn],
    r: ExchangeStatus,
    i: int,
)
    requires
        call_ensures(
            EthercatBackend::read_inputs,
            (bus, all_op, wkc, wait, raws, positions, velocities, ins),
            r,
        ),
        0 <= i < old(bus)@.axes.len(),
        raws@.len() == old(bus)@.axes.len(),
        old(ins)@.len() == old(bus)@.axes.len(),
    ensures
        ({
            let m = old(bus)@;
            let b = raws@[i]@;
            let good = all_op && (m.wkc.expected is None || m.wkc.expected == Some(wkc));
            let shown = final(ins)@[i];
            &&& r.all_axes_responding == good && r.working_counter_ok == good && r.inputs_fresh
            &&& r.next_cycle_wait == wait
            &&& shown.act_pos == positions@[i]
            &&& shown.act_vel == velocities@[i]
            &&& shown.drive == drive_by_byte(b[0], m.axes[i].enable, good)
            &&& shown.pos_limit <==> m.din && b[10] & 0x02 != 0
            &&& shown.neg_limit <==> m.din && b[10] & 0x01 != 0
            &&& final(bus)@ == transacted(m, all_op, wkc, decoded(raws@, m.din))
        }),
{
    let m = old(bus)@;
    assert(raws@[i]@.len() == 14);
    inputs_show_the_bytes(
        m.axes[i],
        raws@[i]@,
        m.din,
        responds(m, all_op, wkc),
        positions@[i],
        velocities@[i],
    );
    assert(final(ins)@.len() == old(ins)@.len());
    assert(final(ins)@[i] == input_seen(
        m.axes[i],
        decoded(raws@, m.din)[i],
        responds(m, all_op, wkc),
        positions@[i],
        velocities@[i],
    ));
}

/// On the way down a drive is sent controlword 0 and the target it had.
pub proof fn stops_take_the_power_off(bus: &EthercatBackend, i: usize, r: [u8; 6])
    requires
        call_ensures(EthercatBackend::stop_image, (bus, i), r),
    ensures
        r@[0] == 0 && r@[1] == 0,
        four_signed_bytes(r@, 2) == bus@.axes[i as int].target,
{
    outputs_stand_in_their_bytes(0, bus@.axes[i as int].target);
}

/// A running bus that is stopped runs no more and is asked for its first
/// exchange with the power off; one that does not run has nothing to do.
pub proof fn stops_begin_with_an_exchange(bus: &mut EthercatBackend, r: StopAction)
    requires
        call_ensures(EthercatBackend::stop, (bus,), r),
    ensures
        !final(bus)@.running,
        old(bus)@.running ==> r == (StopAction::Exchange { pause: old(bus)@.cycle }),
        !old(bus)@.running ==> r is Done && final(bus)@ == old(bus)@,
        final(bus)@.axes == old(bus)@.axes && final(bus)@.events == old(bus)@.events,
{
}

/// Events come out of a bus, and of its queue, in the order in which they
/// happened, each once.
pub proof fn bus_events_come_out_in_order(
    bus: &mut EthercatBackend,
    r: Option<BusEvent>,
    ring: &mut EventRing,
    e: Option<BusEvent>,
    i: int,
)
    requires
        call_ensures(EthercatBackend::poll_event, (bus,), r),
        call_ensures(EventRing::pop, (ring,), e),
        0 <= i,
    ensures
        r is None <==> old(bus)@.events.len() == 0,
        r is Some ==> r->0 == old(bus)@.events[0],
        r is Some ==> final(bus)@.events.len() == old(bus)@.events.len() - 1,
        r is Some && i + 1 < old(bus)@.events.len() ==> final(bus)@.events[i] == old(
            bus,
        )@.events[i + 1],
        e is None <==> old(ring)@.len() == 0,
        e is Some ==> e->0 == old(ring)@[0] && final(ring)@.len() == old(ring)@.len() - 1,
        e is Some && i + 1 < old(ring)@.len() ==> final(ring)@[i] == old(ring)@[i + 1],
{
}

/// A counter is good where it is the learned one or none is learned; the change
/// from the cycle before is told, and noted for the next.
pub proof fn counter_changes_are_told(monitor: &mut WkcMonitor, wkc: u16, r: WkcVerdict)
    requires
        call_ensures(WkcMonitor::check, (monitor, wkc), r),
    ensures
        r.ok <==> old(monitor).expected is None || old(monitor).expected == Some(wkc),
        r.edge <==> r.ok != old(monitor).was_ok,
        final(monitor).was_ok == r.ok,
        final(monitor).expected == old(monitor).expected,
{
}

/// A drive's image is checked for 6 bytes of outputs and 10 of inputs, 14 with
/// digital inputs; a bus takes a fresh position every cycle and nothing else.
pub proof fn buses_serve_cyclic_positions(
    bus: &EthercatBackend,
    axis: AxisId,
    can: AxisCapability,
    m: BackendModel,
    inputs: usize,
    outputs: usize,
)
    requires
        call_ensures(EthercatBackend::capability, (bus, axis), can),
        m.phase is Inspecting,
    ensures
        can.cycle == (CycleClass::HardRt { cycle: bus@.cycle }),
        can.setpoint is CyclicTrajectory,
        can.modes.position && !can.modes.velocity && !can.modes.torque && !can.modes.homing,
        start_step(m, StartEvent::Inspected { inputs, outputs }).1 == (StartAction::Fail {
            error: FieldbusError::Exchange("PDI layout mismatch"),
        }) <==> outputs < 6 || inputs < 10 || m.din && inputs < 14,
        input_size(true) == 14 && input_size(false) == 10,
{
}

/// Start-up goes on where it stands: after an entry of the script with the next
/// one, of this drive or the next; after the clock of a device with the next
/// mapped one; after the image of the last drive, or with no drive at all, the
/// bus is live.
pub proof fn startup_goes_on_where_it_stands(m: BackendModel, ev: StartEvent)
    requires
        answers(m.phase, ev),
        m.mappings.len() <= usize::MAX,
        m.phase matches StartPhase::Writing { axis, at } ==> axis < m.mappings.len() && at
            < drive_script_of(m.configure_pdo, m.din).len(),
        m.phase matches StartPhase::Inspecting { axis } ==> axis < m.mappings.len(),
    ensures
        ({
            let (n, action) = start_step(m, ev);
            let length = drive_script_of(m.configure_pdo, m.din).len();
            &&& m.phase matches StartPhase::Writing { axis, at } ==> ev is Done ==> {
                &&& at + 1 < length ==> n.phase == (StartPhase::Writing {
                    axis,
                    at: (at + 1) as usize,
                }) && same_but_phase(n, m)
                &&& at + 1 == length && axis + 1 < m.mappings.len() ==> n.phase == (
                StartPhase::Writing { axis: (axis + 1) as usize, at: 0 }) && same_but_phase(n, m)
            }
            &&& m.phase matches StartPhase::Syncing { device } ==> start_step(m, ev) == syncing(
                m,
                device + 1,
            )
            &&& m.phase matches StartPhase::Inspecting { axis } ==> (
            ev matches StartEvent::Inspected { inputs, outputs } ==> outputs >= 6 && inputs >= 14
                && axis + 1 == m.mappings.len() ==> start_step(m, ev) == live(m))
            &&& ev matches StartEvent::Exchanged { all_op, wkc, now } ==> all_op
                && m.mappings.len() == 0 ==> action is Live && n.running && n.state is Op
        }),
{
}

} // verus!
