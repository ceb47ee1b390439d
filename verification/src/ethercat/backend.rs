//! The decisions of an EtherCAT bus: start-up, cyclic exchange, shutdown.
//!
//! Start-up is a dialogue: `start` and `advance` say what to do on the bus next,
//! and the caller reports what came of it. So is shutdown, with `stop` and
//! `stop_advance`; it is best effort, so nothing is reported back. A cyclic exchange is two halves
//! around the bus transaction: `write_outputs` before it, with controlwords
//! from the previous cycle's statuswords, and `read_inputs` after it. While a
//! drive does not follow targets its target is its actual position, so that
//! enabling never commands a jump.
use vstd::prelude::*;

use crate::ethercat::cia402::{controlword_of, drive_status_of, fired_after, Cia402};
use crate::ethercat::config::{AxisMapping, EcatConfig};
use crate::ethercat::events::{with_event, EventRing};
use crate::ethercat::pdo::{
    decode_tx, encode_rx, input_size, inputs_in, obj, rx_image, tx_bytes, TxPdo, DIN_NEG_LIMIT,
    DIN_POS_LIMIT, RX_BYTES, RX_MAPPING, TX_MAPPING_BASE, TX_MAPPING_DIN,
};
use crate::ethercat::wkc::{acceptable, fresh_monitor, learned, WkcMonitor};
use crate::fieldbus::{
    AcyclicAccess, AxisCapability, AxisId, AxisIn, AxisOut, BusEvent, BusState, CycleClass,
    DriveStatus, ExchangeStatus, FieldbusError, OpModes, ParamAddr, Setpoint, SetpointKind,
};
use crate::scalar::Scalar;
use crate::time::{Duration, Instant};

verus! {

/// How long the devices may take to become operational.
pub const OP_TIMEOUT_NANOS: u128 = 10_000_000_000;

/// Delay before the first SYNC0 pulse.
pub const SYNC0_START_DELAY_NANOS: u128 = 100_000_000;

/// Cycles of controlword 0 before the bus is taken down.
pub const STOP_CYCLES: usize = 5;

/// A value written to the object dictionary.
#[derive(Clone, Copy, Debug, PartialEq, Eq, Structural)]
pub enum SdoValue {
    U8(u8),
    U16(u16),
    U32(u32),
}

/// One write to the object dictionary, and what its failure is called.
#[derive(Clone, Copy, Debug, PartialEq, Eq)]
pub struct SdoWrite {
    pub index: u16,
    pub sub: u8,
    pub data: SdoValue,
    pub what: &'static str,
}

/// Per-axis runtime state.
#[derive(Clone, Copy, Debug, PartialEq, Eq, Structural)]
pub struct AxisRt {
    pub seq: Cia402,
    /// Statusword of the previous cycle.
    pub statusword: u16,
    /// Last target written, in increments.
    pub target: i32,
    pub enable: bool,
    pub was_fault: bool,
}

/// Where start-up stands.
#[derive(Clone, Copy, Debug, PartialEq, Eq, Structural)]
pub enum StartPhase {
    /// Not starting.
    Idle,
    Opening,
    Scanning,
    /// Writing entry `at` of the script to the drive of `axis`.
    Writing { axis: usize, at: usize },
    /// Switching on the clock of a device.
    Syncing { device: usize },
    ConfiguringClocks,
    ConfiguringImage,
    Requesting,
    /// Exchanging until every device is operational.
    Entering { deadline: Instant },
    Pausing { deadline: Instant },
    /// Checking the process image of `axis`.
    Inspecting { axis: usize },
}

/// What to do on the bus next.
#[derive(Clone, Copy, Debug, PartialEq, Eq)]
pub enum StartAction {
    /// Open the interface, frames lost after `pdu_timeout`.
    OpenInterface { pdu_timeout: Duration },
    Scan,
    Write { subdevice: usize, write: SdoWrite },
    EnableSync { subdevice: usize },
    ConfigureClocks { start_delay: Duration, sync0_period: Duration, sync0_shift: Duration },
    ConfigureImage,
    RequestOp,
    Exchange,
    Wait { pause: Duration },
    Inspect { subdevice: usize },
    /// The bus is live.
    Live,
    /// Start-up failed.
    Fail { error: FieldbusError },
}

/// What came of an action.
#[derive(Clone, Copy, Debug, PartialEq, Eq)]
pub enum StartEvent {
    Done,
    /// The action failed; `why` counts where the interface was opened.
    Failed { why: &'static str },
    /// The scan found this many devices.
    Scanned { count: usize },
    /// Operation was requested at this time.
    Requested { now: Instant },
    Exchanged { all_op: bool, wkc: u16, now: Instant },
    /// Sizes of a device's process image.
    Inspected { inputs: usize, outputs: usize },
    /// The device is not there.
    Missing,
}

/// Where shutdown stands.
#[derive(Clone, Copy, Debug, PartialEq, Eq, Structural)]
pub enum StopPhase {
    /// Not stopping.
    Idle,
    /// This many exchanges with the power off were asked for.
    Cycling { done: usize },
    /// SAFE-OP was asked for.
    Lowered,
    /// PRE-OP was asked for.
    Parked,
}

/// What to do on the bus next, on the way down. A failure changes nothing of
/// what follows.
#[derive(Clone, Copy, Debug, PartialEq, Eq, Structural)]
pub enum StopAction {
    /// Exchange once, with the image of `stop_image` for each axis, then wait.
    Exchange { pause: Duration },
    EnterSafeOp,
    EnterPreOp,
    /// Nothing is left to do.
    Done,
}

/// The state of a bus.
pub struct BackendModel {
    pub ifname: Seq<char>,
    pub cycle: Duration,
    pub mappings: Seq<AxisMapping>,
    pub dc: bool,
    pub configure_pdo: bool,
    pub din: bool,
    pub state: BusState,
    pub axes: Seq<AxisRt>,
    pub events: Seq<BusEvent>,
    pub running: bool,
    pub was_responding: bool,
    pub wkc: WkcMonitor,
    pub phase: StartPhase,
    pub stopping: StopPhase,
    /// The devices found by the scan.
    pub devices: usize,
}

/// One bus.
pub struct EthercatBackend {
    cfg: EcatConfig,
    state: BusState,
    axes: Vec<AxisRt>,
    events: EventRing,
    running: bool,
    was_responding: bool,
    wkc: WkcMonitor,
    phase: StartPhase,
    stopping: StopPhase,
    devices: usize,
    script: Vec<SdoWrite>,
}

/// Frames count as lost after four cycles, but no sooner than 2 ms.
pub open spec fn pdu_timeout_of(cycle: Duration) -> Duration {
    Duration {
        nanos: if cycle.nanos * 4 >= 2_000_000 {
            (cycle.nanos * 4) as u128
        } else {
            2_000_000
        },
    }
}

/// Frames count as lost after four cycles, but no sooner than 2 ms.
pub fn pdu_timeout(cycle: Duration) -> (r: Duration)
    requires
        cycle.nanos * 4 <= u128::MAX,
    ensures
        r == pdu_timeout_of(cycle),
{
    let four: u128 = cycle.nanos * 4;
    if four >= 2_000_000 {
        Duration { nanos: four }
    } else {
        Duration { nanos: 2_000_000 }
    }
}

/// Select cyclic position mode.
pub open spec fn mode_script() -> Seq<SdoWrite> {
    seq![
        SdoWrite {
            index: obj::MODES_OF_OPERATION,
            sub: 0,
            data: SdoValue::U8(obj::MODE_CSP),
            what: "set modes of operation",
        },
    ]
}

/// Map the outputs: clear the assignment and the mapping, write the entries,
/// their count, and assign the mapping again.
pub open spec fn rx_script() -> Seq<SdoWrite> {
    seq![
        SdoWrite {
            index: obj::SM2_PDO_ASSIGN,
            sub: 0,
            data: SdoValue::U8(0),
            what: "clear 0x1C12",
        },
        SdoWrite { index: obj::RX_PDO_MAP, sub: 0, data: SdoValue::U8(0), what: "clear 0x1600" },
        SdoWrite {
            index: obj::RX_PDO_MAP,
            sub: 1,
            data: SdoValue::U32(0x6040_0010),
            what: "write 0x1600 entry",
        },
        SdoWrite {
            index: obj::RX_PDO_MAP,
            sub: 2,
            data: SdoValue::U32(0x607A_0020),
            what: "write 0x1600 entry",
        },
        SdoWrite { index: obj::RX_PDO_MAP, sub: 0, data: SdoValue::U8(2), what: "finalise 0x1600" },
        SdoWrite {
            index: obj::SM2_PDO_ASSIGN,
            sub: 1,
            data: SdoValue::U16(obj::RX_PDO_MAP),
            what: "assign 0x1600",
        },
        SdoWrite {
            index: obj::SM2_PDO_ASSIGN,
            sub: 0,
            data: SdoValue::U8(1),
            what: "finalise 0x1C12",
        },
    ]
}

/// Map the inputs, digital inputs last where they are wanted.
pub open spec fn tx_script(din: bool) -> Seq<SdoWrite> {
    seq![
        SdoWrite {
            index: obj::SM3_PDO_ASSIGN,
            sub: 0,
            data: SdoValue::U8(0),
            what: "clear 0x1C13",
        },
        SdoWrite { index: obj::TX_PDO_MAP, sub: 0, data: SdoValue::U8(0), what: "clear 0x1A00" },
        SdoWrite {
            index: obj::TX_PDO_MAP,
            sub: 1,
            data: SdoValue::U32(0x6041_0010),
            what: "write 0x1A00 entry",
        },
        SdoWrite {
            index: obj::TX_PDO_MAP,
            sub: 2,
            data: SdoValue::U32(0x6064_0020),
            what: "write 0x1A00 entry",
        },
        SdoWrite {
            index: obj::TX_PDO_MAP,
            sub: 3,
            data: SdoValue::U32(0x606C_0020),
            what: "write 0x1A00 entry",
        },
    ] + (if din {
        seq![
            SdoWrite {
                index: obj::TX_PDO_MAP,
                sub: 4,
                data: SdoValue::U32(TX_MAPPING_DIN),
                what: "write 0x1A00 din entry",
            },
        ]
    } else {
        Seq::<SdoWrite>::empty()
    }) + seq![
        SdoWrite {
            index: obj::TX_PDO_MAP,
            sub: 0,
            data: SdoValue::U8(
                if din {
                    4
                } else {
                    3
                },
            ),
            what: "finalise 0x1A00",
        },
        SdoWrite {
            index: obj::SM3_PDO_ASSIGN,
            sub: 1,
            data: SdoValue::U16(obj::TX_PDO_MAP),
            what: "assign 0x1A00",
        },
        SdoWrite {
            index: obj::SM3_PDO_ASSIGN,
            sub: 0,
            data: SdoValue::U8(1),
            what: "finalise 0x1C13",
        },
    ]
}

/// The writes that every drive gets before the bus enters operation.
pub open spec fn drive_script_of(configure_pdo: bool, din: bool) -> Seq<SdoWrite> {
    if configure_pdo {
        mode_script() + rx_script() + tx_script(din)
    } else {
        mode_script()
    }
}

fn write_u8(index: u16, sub: u8, value: u8, what: &'static str) -> (r: SdoWrite)
    ensures
        r == (SdoWrite { index, sub, data: SdoValue::U8(value), what }),
{
    SdoWrite { index, sub, data: SdoValue::U8(value), what }
}

fn write_u16(index: u16, sub: u8, value: u16, what: &'static str) -> (r: SdoWrite)
    ensures
        r == (SdoWrite { index, sub, data: SdoValue::U16(value), what }),
{
    SdoWrite { index, sub, data: SdoValue::U16(value), what }
}

fn write_u32(index: u16, sub: u8, value: u32, what: &'static str) -> (r: SdoWrite)
    ensures
        r == (SdoWrite { index, sub, data: SdoValue::U32(value), what }),
{
    SdoWrite { index, sub, data: SdoValue::U32(value), what }
}

/// The writes that every drive gets before the bus enters operation.
pub fn drive_script(configure_pdo: bool, din: bool) -> (r: Vec<SdoWrite>)
    ensures
        r@ == drive_script_of(configure_pdo, din),
{
    let mut s: Vec<SdoWrite> = Vec::new();
    s.push(write_u8(obj::MODES_OF_OPERATION, 0, obj::MODE_CSP, "set modes of operation"));
    assert(s@ =~= mode_script());
    if !configure_pdo {
        return s;
    }
    s.push(write_u8(obj::SM2_PDO_ASSIGN, 0, 0, "clear 0x1C12"));
    s.push(write_u8(obj::RX_PDO_MAP, 0, 0, "clear 0x1600"));
    s.push(write_u32(obj::RX_PDO_MAP, 1, RX_MAPPING[0], "write 0x1600 entry"));
    s.push(write_u32(obj::RX_PDO_MAP, 2, RX_MAPPING[1], "write 0x1600 entry"));
    s.push(write_u8(obj::RX_PDO_MAP, 0, 2, "finalise 0x1600"));
    s.push(write_u16(obj::SM2_PDO_ASSIGN, 1, obj::RX_PDO_MAP, "assign 0x1600"));
    s.push(write_u8(obj::SM2_PDO_ASSIGN, 0, 1, "finalise 0x1C12"));
    assert(s@ =~= mode_script() + rx_script());
    s.push(write_u8(obj::SM3_PDO_ASSIGN, 0, 0, "clear 0x1C13"));
    s.push(write_u8(obj::TX_PDO_MAP, 0, 0, "clear 0x1A00"));
    s.push(write_u32(obj::TX_PDO_MAP, 1, TX_MAPPING_BASE[0], "write 0x1A00 entry"));
    s.push(write_u32(obj::TX_PDO_MAP, 2, TX_MAPPING_BASE[1], "write 0x1A00 entry"));
    s.push(write_u32(obj::TX_PDO_MAP, 3, TX_MAPPING_BASE[2], "write 0x1A00 entry"));
    let mut n: u8 = 3;
    if din {
        s.push(write_u32(obj::TX_PDO_MAP, 4, TX_MAPPING_DIN, "write 0x1A00 din entry"));
        n = 4;
    }
    s.push(write_u8(obj::TX_PDO_MAP, 0, n, "finalise 0x1A00"));
    s.push(write_u16(obj::SM3_PDO_ASSIGN, 1, obj::TX_PDO_MAP, "assign 0x1A00"));
    s.push(write_u8(obj::SM3_PDO_ASSIGN, 0, 1, "finalise 0x1C13"));
    assert(s@ =~= drive_script_of(configure_pdo, din));
    s
}

/// A fresh axis.
pub open spec fn fresh_axis() -> AxisRt {
    AxisRt {
        seq: Cia402 { reset_fired: false },
        statusword: 0,
        target: 0,
        enable: false,
        was_fault: false,
    }
}

/// Start-up fails with this error.
pub open spec fn failing(m: BackendModel, error: FieldbusError) -> (BackendModel, StartAction) {
    (BackendModel { phase: StartPhase::Idle, ..m }, StartAction::Fail { error })
}

/// The bus enters this state and says so.
pub open spec fn entered(m: BackendModel, state: BusState) -> BackendModel {
    BackendModel {
        state,
        events: with_event(m.events, BusEvent::BusStateChanged(state)),
        ..m
    }
}

/// The pending events after all of `n` axes came online, or went offline.
pub open spec fn with_axis_events(events: Seq<BusEvent>, online: bool, n: int) -> Seq<BusEvent>
    decreases n,
{
    if n <= 0 {
        events
    } else {
        with_event(
            with_axis_events(events, online, n - 1),
            if online {
                BusEvent::AxisOnline(AxisId((n - 1) as usize))
            } else {
                BusEvent::AxisOffline(AxisId((n - 1) as usize))
            },
        )
    }
}

/// The bus is live.
pub open spec fn live(m: BackendModel) -> (BackendModel, StartAction) {
    let e = entered(m, BusState::Op);
    (
        BackendModel {
            events: with_axis_events(e.events, true, m.axes.len() as int),
            was_responding: true,
            running: true,
            phase: StartPhase::Idle,
            ..e
        },
        StartAction::Live,
    )
}

/// Check the process image of `axis`, or go live after the last.
pub open spec fn inspecting(m: BackendModel, axis: int) -> (BackendModel, StartAction) {
    if axis < m.mappings.len() {
        (
            BackendModel { phase: StartPhase::Inspecting { axis: axis as usize }, ..m },
            StartAction::Inspect { subdevice: m.mappings[axis].subdevice },
        )
    } else {
        live(m)
    }
}

/// Some axis is mapped to this device.
pub open spec fn is_mapped(mappings: Seq<AxisMapping>, device: int) -> bool {
    exists|a: int| 0 <= a < mappings.len() && (#[trigger] mappings[a]).subdevice == device
}

/// Switch on the clock of the first mapped device from `from` on, or configure
/// the clocks after the last.
pub open spec fn syncing(m: BackendModel, from: int) -> (BackendModel, StartAction)
    decreases m.devices - from,
{
    if from >= m.devices {
        (
            BackendModel { phase: StartPhase::ConfiguringClocks, ..m },
            StartAction::ConfigureClocks {
                start_delay: Duration { nanos: SYNC0_START_DELAY_NANOS },
                sync0_period: m.cycle,
                sync0_shift: Duration { nanos: m.cycle.nanos / 4 },
            },
        )
    } else if is_mapped(m.mappings, from) {
        (
            BackendModel { phase: StartPhase::Syncing { device: from as usize }, ..m },
            StartAction::EnableSync { subdevice: from as usize },
        )
    } else {
        syncing(m, from + 1)
    }
}

/// The drives are configured: clocks next, or the process image.
pub open spec fn configured(m: BackendModel) -> (BackendModel, StartAction) {
    if m.dc {
        syncing(m, 0)
    } else {
        (
            BackendModel { phase: StartPhase::ConfiguringImage, ..m },
            StartAction::ConfigureImage,
        )
    }
}

/// Write entry `at` of the script to the drive of `axis`; after the last entry
/// comes the next axis, after the last axis the drives are configured.
pub open spec fn writing(m: BackendModel, axis: int, at: int) -> (BackendModel, StartAction) {
    let script = drive_script_of(m.configure_pdo, m.din);
    let (a, w) = if at < script.len() {
        (axis, at)
    } else {
        (axis + 1, 0)
    };
    if a < m.mappings.len() {
        (
            BackendModel {
                phase: StartPhase::Writing { axis: a as usize, at: w as usize },
                ..m
            },
            StartAction::Write { subdevice: m.mappings[a].subdevice, write: script[w] },
        )
    } else {
        configured(m)
    }
}

/// The first axis from `from` on that is mapped beyond the devices found.
pub open spec fn first_unmapped(mappings: Seq<AxisMapping>, devices: int, from: int) -> Option<int>
    decreases mappings.len() - from,
{
    if from >= mappings.len() {
        None
    } else if mappings[from].subdevice >= devices {
        Some(from)
    } else {
        first_unmapped(mappings, devices, from + 1)
    }
}

/// The scan found this many devices.
pub open spec fn scanned(m: BackendModel, count: usize) -> (BackendModel, StartAction) {
    let e = BackendModel { devices: count, ..entered(m, BusState::PreOp) };
    match first_unmapped(m.mappings, count as int, 0) {
        Some(a) => failing(e, FieldbusError::NoSuchAxis(AxisId(m.mappings[a].subdevice))),
        None => writing(e, 0, 0),
    }
}

/// A cycle on the way into operation.
pub open spec fn entering(
    m: BackendModel,
    deadline: Instant,
    all_op: bool,
    wkc: u16,
    now: Instant,
) -> (BackendModel, StartAction) {
    let l = BackendModel { wkc: learned(m.wkc, all_op, wkc), ..m };
    if all_op {
        inspecting(l, 0)
    } else if now.nanos > deadline.nanos {
        failing(l, FieldbusError::Timeout)
    } else {
        (
            BackendModel { phase: StartPhase::Pausing { deadline }, ..l },
            StartAction::Wait { pause: m.cycle },
        )
    }
}

/// The event is one that the action of this phase can have.
pub open spec fn answers(phase: StartPhase, ev: StartEvent) -> bool {
    match phase {
        StartPhase::Idle => false,
        StartPhase::Opening | StartPhase::ConfiguringClocks | StartPhase::ConfiguringImage => ev
            is Done || ev is Failed,
        StartPhase::Scanning => ev is Scanned || ev is Failed,
        StartPhase::Writing { .. } => ev is Done || ev is Failed || ev is Missing,
        StartPhase::Syncing { .. } | StartPhase::Pausing { .. } => ev is Done,
        StartPhase::Requesting => match ev {
            StartEvent::Requested { now } => now.nanos + OP_TIMEOUT_NANOS <= u128::MAX,
            StartEvent::Failed { .. } => true,
            _ => false,
        },
        StartPhase::Entering { .. } => ev is Exchanged || ev is Failed,
        StartPhase::Inspecting { .. } => ev is Inspected || ev is Missing,
    }
}

/// What a failure of this phase's action is called.
pub open spec fn failure_of(m: BackendModel, why: &'static str) -> FieldbusError {
    match m.phase {
        StartPhase::Opening => FieldbusError::Exchange(why),
        StartPhase::Scanning => FieldbusError::Exchange("topology scan"),
        StartPhase::Writing { at, .. } => FieldbusError::Exchange(
            drive_script_of(m.configure_pdo, m.din)[at as int].what,
        ),
        StartPhase::ConfiguringClocks => FieldbusError::Exchange("configure distributed clocks"),
        StartPhase::ConfiguringImage => FieldbusError::Exchange("configure PDI"),
        StartPhase::Requesting => FieldbusError::Exchange("request OP"),
        _ => FieldbusError::Exchange("tx/rx while entering OP"),
    }
}

/// The device that this phase's action is about.
pub open spec fn device_of(m: BackendModel) -> usize {
    match m.phase {
        StartPhase::Writing { axis, .. } | StartPhase::Inspecting { axis } => {
            m.mappings[axis as int].subdevice
        },
        _ => 0,
    }
}

/// Start-up after an event: the new state, and what to do next.
pub open spec fn start_step(m: BackendModel, ev: StartEvent) -> (BackendModel, StartAction) {
    match ev {
        StartEvent::Failed { why } => failing(m, failure_of(m, why)),
        StartEvent::Missing => failing(m, FieldbusError::NoSuchAxis(AxisId(device_of(m)))),
        StartEvent::Scanned { count } => scanned(m, count),
        StartEvent::Requested { now } => (
            BackendModel {
                phase: StartPhase::Entering {
                    deadline: Instant { nanos: (now.nanos + OP_TIMEOUT_NANOS) as u128 },
                },
                ..entered(m, BusState::SafeOp)
            },
            StartAction::Exchange,
        ),
        StartEvent::Exchanged { all_op, wkc, now } => entering(
            m,
            m.phase->Entering_deadline,
            all_op,
            wkc,
            now,
        ),
        StartEvent::Inspected { inputs, outputs } => if inputs < input_size(m.din) || outputs
            < RX_BYTES {
            failing(m, FieldbusError::Exchange("PDI layout mismatch"))
        } else {
            inspecting(m, m.phase->Inspecting_axis + 1)
        },
        StartEvent::Done => match m.phase {
            StartPhase::Opening => (
                BackendModel { phase: StartPhase::Scanning, ..m },
                StartAction::Scan,
            ),
            StartPhase::Writing { axis, at } => writing(m, axis as int, at + 1),
            StartPhase::Syncing { device } => syncing(m, device + 1),
            StartPhase::Pausing { deadline } => (
                BackendModel { phase: StartPhase::Entering { deadline }, ..m },
                StartAction::Exchange,
            ),
            _ => (
                BackendModel { phase: StartPhase::Requesting, ..m },
                StartAction::RequestOp,
            ),
        },
    }
}

/// Shutdown, one step on: the new state, and what to do next. The power goes off
/// for `STOP_CYCLES` exchanges, then the devices go down to SAFE-OP and PRE-OP,
/// and last the bus is back in its initial state.
pub open spec fn stop_step(m: BackendModel) -> (BackendModel, StopAction) {
    match m.stopping {
        StopPhase::Idle => (m, StopAction::Done),
        StopPhase::Cycling { done } => if done < STOP_CYCLES {
            (
                BackendModel { stopping: StopPhase::Cycling { done: (done + 1) as usize }, ..m },
                StopAction::Exchange { pause: m.cycle },
            )
        } else {
            (BackendModel { stopping: StopPhase::Lowered, ..m }, StopAction::EnterSafeOp)
        },
        StopPhase::Lowered => (
            BackendModel { stopping: StopPhase::Parked, ..m },
            StopAction::EnterPreOp,
        ),
        StopPhase::Parked => (
            BackendModel { stopping: StopPhase::Idle, ..entered(m, BusState::Init) },
            StopAction::Done,
        ),
    }
}

/// A running bus that begins to stop: it runs no more, and nothing was asked for
/// yet.
pub open spec fn stop_begun(m: BackendModel) -> BackendModel {
    BackendModel { running: false, stopping: StopPhase::Cycling { done: 0 }, ..m }
}

/// An axis after its outputs for a cycle were encoded. `counts` is the setpoint
/// position in increments; it is taken only by a drive that follows targets.
pub open spec fn commanded(a: AxisRt, out: AxisOut, counts: i32) -> AxisRt {
    AxisRt {
        seq: Cia402 {
            reset_fired: fired_after(a.seq.reset_fired, out.fault_reset, a.statusword),
        },
        target: if drive_status_of(a.enable, a.statusword) is Enabled && out.setpoint
            is CyclicPosition {
            counts
        } else {
            a.target
        },
        enable: out.enable,
        ..a
    }
}

/// The output bytes of an axis for a cycle.
pub open spec fn output_image(a: AxisRt, out: AxisOut, counts: i32) -> Seq<u8> {
    rx_image(
        controlword_of(a.seq.reset_fired, out.enable, out.fault_reset, a.statusword),
        commanded(a, out, counts).target,
    )
}

/// The drive status of an axis: offline unless the whole bus responds.
pub open spec fn drive_seen(a: AxisRt, tx: TxPdo, responding: bool) -> DriveStatus {
    if responding {
        drive_status_of(a.enable, tx.statusword)
    } else {
        DriveStatus::Offline
    }
}

/// An axis after its inputs of a cycle were decoded.
pub open spec fn observed(a: AxisRt, tx: TxPdo, responding: bool) -> AxisRt {
    let drive = drive_seen(a, tx, responding);
    AxisRt {
        statusword: tx.statusword,
        target: if drive is Enabled {
            a.target
        } else {
            tx.position
        },
        was_fault: drive is Fault,
        ..a
    }
}

/// The inputs of an axis. `act_pos` and `act_vel` are the decoded position and
/// velocity in user units.
pub open spec fn input_seen(
    a: AxisRt,
    tx: TxPdo,
    responding: bool,
    act_pos: Scalar,
    act_vel: Scalar,
) -> AxisIn {
    AxisIn {
        act_pos,
        act_vel,
        drive: drive_seen(a, tx, responding),
        fault_code: 0,
        pos_limit: tx.digital_inputs & DIN_POS_LIMIT != 0,
        neg_limit: tx.digital_inputs & DIN_NEG_LIMIT != 0,
        homed: false,
    }
}

/// The pending events after the first `n` axes were read: each fault that was
/// not there the cycle before is reported.
pub open spec fn with_fault_events(
    events: Seq<BusEvent>,
    axes: Seq<AxisRt>,
    inputs: Seq<TxPdo>,
    responding: bool,
    n: int,
) -> Seq<BusEvent>
    decreases n,
{
    if n <= 0 {
        events
    } else {
        let before = with_fault_events(events, axes, inputs, responding, n - 1);
        let i = n - 1;
        if drive_seen(axes[i], inputs[i], responding) is Fault && !axes[i].was_fault {
            with_event(
                before,
                BusEvent::AxisFault {
                    axis: AxisId(i as usize),
                    code: inputs[i].statusword as u32,
                },
            )
        } else {
            before
        }
    }
}

/// Every device is operational, and the working counter is the learned one.
pub open spec fn responds(m: BackendModel, all_op: bool, wkc: u16) -> bool {
    all_op && acceptable(m.wkc, wkc)
}

/// The inputs decoded from the raw bytes of each axis.
pub open spec fn decoded(raws: Seq<[u8; 14]>, din: bool) -> Seq<TxPdo> {
    Seq::new(raws.len(), |i: int| inputs_in(raws[i]@, din))
}

/// The bus after a transaction.
pub open spec fn transacted(
    m: BackendModel,
    all_op: bool,
    wkc: u16,
    inputs: Seq<TxPdo>,
) -> BackendModel {
    let responding = responds(m, all_op, wkc);
    let edge_events = if responding != m.was_responding {
        with_axis_events(m.events, responding, m.axes.len() as int)
    } else {
        m.events
    };
    BackendModel {
        wkc: WkcMonitor { was_ok: acceptable(m.wkc, wkc), ..m.wkc },
        was_responding: responding,
        axes: Seq::new(m.axes.len(), |i: int| observed(m.axes[i], inputs[i], responding)),
        events: with_fault_events(
            edge_events,
            m.axes,
            inputs,
            responding,
            m.axes.len() as int,
        ),
        ..m
    }
}

impl View for EthercatBackend {
    type V = BackendModel;

    closed spec fn view(&self) -> BackendModel {
        BackendModel {
            ifname: self.cfg.ifname@,
            cycle: self.cfg.cycle,
            mappings: self.cfg.axes@,
            dc: self.cfg.dc,
            configure_pdo: self.cfg.configure_pdo,
            din: self.cfg.map_digital_inputs,
            state: self.state,
            axes: self.axes@,
            events: self.events@,
            running: self.running,
            was_responding: self.was_responding,
            wkc: self.wkc,
            phase: self.phase,
            stopping: self.stopping,
            devices: self.devices,
        }
    }
}

impl EthercatBackend {
    /// One runtime state per configured axis, a script that matches the
    /// configuration, and a start-up phase within both. A bus runs, starts or
    /// stops, one at a time.
    pub closed spec fn valid(self) -> bool {
        &&& self.events.valid()
        &&& self.axes@.len() == self.cfg.axes@.len()
        &&& self.script@ == drive_script_of(self.cfg.configure_pdo, self.cfg.map_digital_inputs)
        &&& self.cfg.cycle.nanos * 4 <= u128::MAX
        &&& !(self.phase is Idle) ==> !self.running
        &&& !(self.stopping is Idle) ==> !self.running && self.phase is Idle
        &&& match self.phase {
            StartPhase::Writing { axis, at } => axis < self.cfg.axes@.len() && at
                < self.script@.len(),
            StartPhase::Syncing { device } => device < self.devices,
            StartPhase::Inspecting { axis } => axis < self.cfg.axes@.len(),
            _ => true,
        }
    }

    pub fn new(cfg: EcatConfig) -> (r: EthercatBackend)
        requires
            cfg.cycle.nanos * 4 <= u128::MAX,
        ensures
            r.valid(),
            r@ == (BackendModel {
                ifname: cfg.ifname@,
                cycle: cfg.cycle,
                mappings: cfg.axes@,
                dc: cfg.dc,
                configure_pdo: cfg.configure_pdo,
                din: cfg.map_digital_inputs,
                state: BusState::Init,
                axes: Seq::new(cfg.axes@.len(), |i: int| fresh_axis()),
                events: Seq::<BusEvent>::empty(),
                running: false,
                was_responding: false,
                wkc: fresh_monitor(),
                phase: StartPhase::Idle,
                stopping: StopPhase::Idle,
                devices: 0,
            }),
    {
        let count: usize = cfg.axes.len();
        let mut axes: Vec<AxisRt> = Vec::new();
        while axes.len() < count
            invariant
                axes@.len() <= count,
                forall|i: int| 0 <= i < axes@.len() ==> #[trigger] axes@[i] == fresh_axis(),
            decreases count - axes@.len(),
        {
            axes.push(
                AxisRt {
                    seq: Cia402 { reset_fired: false },
                    statusword: 0,
                    target: 0,
                    enable: false,
                    was_fault: false,
                },
            );
        }
        let script = drive_script(cfg.configure_pdo, cfg.map_digital_inputs);
        let r = EthercatBackend {
            cfg,
            state: BusState::Init,
            axes,
            events: EventRing::new(),
            running: false,
            was_responding: false,
            wkc: WkcMonitor { expected: None, was_ok: true },
            phase: StartPhase::Idle,
            stopping: StopPhase::Idle,
            devices: 0,
            script,
        };
        assert(r@.axes =~= Seq::new(cfg.axes@.len(), |i: int| fresh_axis()));
        r
    }

    pub fn axis_count(&self) -> (r: usize)
        ensures
            r == self@.axes.len(),
    {
        self.axes.len()
    }

    /// Every axis takes a fresh position every cycle.
    pub fn capability(&self, axis: AxisId) -> (r: AxisCapability)
        ensures
            r.cycle == (CycleClass::HardRt { cycle: self@.cycle }),
            r.setpoint is CyclicTrajectory,
            r.modes == (OpModes { position: true, velocity: false, torque: false, homing: false }),
    {
        AxisCapability {
            cycle: CycleClass::HardRt { cycle: self.cfg.cycle },
            setpoint: SetpointKind::CyclicTrajectory,
            modes: OpModes { position: true, velocity: false, torque: false, homing: false },
        }
    }

    pub fn bus_state(&self) -> (r: BusState)
        ensures
            r == self@.state,
    {
        self.state
    }

    /// The configuration of this bus.
    pub fn config(&self) -> (r: &EcatConfig)
        ensures
            r.ifname@ == self@.ifname,
            r.axes@ == self@.mappings,
            r.cycle == self@.cycle,
            r.dc == self@.dc,
            r.configure_pdo == self@.configure_pdo,
            r.map_digital_inputs == self@.din,
    {
        &self.cfg
    }

    /// Begin start-up. A running bus refuses; a shutdown under way is given up.
    pub fn start(&mut self) -> (r: Result<StartAction, FieldbusError>)
        requires
            old(self).valid(),
        ensures
            final(self).valid(),
            if old(self)@.running {
                r == Err::<StartAction, FieldbusError>(
                    FieldbusError::InvalidState(old(self)@.state),
                ) && final(self)@ == old(self)@
            } else {
                r == Ok::<StartAction, FieldbusError>(
                    StartAction::OpenInterface { pdu_timeout: pdu_timeout_of(old(self)@.cycle) },
                ) && final(self)@ == (BackendModel {
                    phase: StartPhase::Opening,
                    stopping: StopPhase::Idle,
                    wkc: fresh_monitor(),
                    ..old(self)@
                })
            },
    {
        if self.running {
            return Err(FieldbusError::InvalidState(self.state));
        }
        self.stopping = StopPhase::Idle;
        self.phase = StartPhase::Opening;
        self.wkc = WkcMonitor { expected: None, was_ok: true };
        Ok(StartAction::OpenInterface { pdu_timeout: pdu_timeout(self.cfg.cycle) })
    }

    fn fail(&mut self, error: FieldbusError) -> (r: StartAction)
        requires
            old(self).valid(),
        ensures
            final(self).valid(),
            (final(self)@, r) == failing(old(self)@, error),
    {
        self.phase = StartPhase::Idle;
        StartAction::Fail { error }
    }

    fn enter(&mut self, state: BusState)
        requires
            old(self).valid(),
        ensures
            final(self).valid(),
            final(self)@ == entered(old(self)@, state),
    {
        self.state = state;
        self.events.push(BusEvent::BusStateChanged(state));
    }

    fn push_axis_events(&mut self, online: bool)
        requires
            old(self).valid(),
        ensures
            final(self).valid(),
            final(self)@ == (BackendModel {
                events: with_axis_events(
                    old(self)@.events,
                    online,
                    old(self)@.axes.len() as int,
                ),
                ..old(self)@
            }),
    {
        let n: usize = self.axes.len();
        let ghost before = self@;
        let mut i: usize = 0;
        while i < n
            invariant
                n == before.axes.len(),
                i <= n,
                self.valid(),
                self@ == (BackendModel {
                    events: with_axis_events(before.events, online, i as int),
                    ..before
                }),
            decreases n - i,
        {
            let ev = if online {
                BusEvent::AxisOnline(AxisId(i))
            } else {
                BusEvent::AxisOffline(AxisId(i))
            };
            self.events.push(ev);
            i += 1;
        }
    }

    fn inspect(&mut self, axis: usize) -> (r: StartAction)
        requires
            old(self).valid(),
            !(old(self)@.phase is Idle),
        ensures
            final(self).valid(),
            (final(self)@, r) == inspecting(old(self)@, axis as int),
    {
        if axis < self.cfg.axes.len() {
            self.phase = StartPhase::Inspecting { axis };
            StartAction::Inspect { subdevice: self.cfg.axes[axis].subdevice }
        } else {
            self.enter(BusState::Op);
            self.push_axis_events(true);
            self.was_responding = true;
            self.running = true;
            self.phase = StartPhase::Idle;
            StartAction::Live
        }
    }

    fn mapped(&self, device: usize) -> (r: bool)
        ensures
            r == is_mapped(self@.mappings, device as int),
    {
        let mut a: usize = 0;
        while a < self.cfg.axes.len()
            invariant
                a <= self.cfg.axes@.len(),
                forall|k: int| 0 <= k < a ==> (#[trigger] self.cfg.axes@[k]).subdevice != device,
            decreases self.cfg.axes@.len() - a,
        {
            if self.cfg.axes[a].subdevice == device {
                return true;
            }
            a += 1;
        }
        false
    }

    fn sync_from(&mut self, from: usize) -> (r: StartAction)
        requires
            old(self).valid(),
            !(old(self)@.phase is Idle),
        ensures
            final(self).valid(),
            (final(self)@, r) == syncing(old(self)@, from as int),
    {
        let mut device: usize = from;
        while device < self.devices
            invariant
                self.valid(),
                self@ == old(self)@,
                !(old(self)@.phase is Idle),
                syncing(old(self)@, from as int) == syncing(old(self)@, device as int),
            decreases self.devices - device,
        {
            if self.mapped(device) {
                self.phase = StartPhase::Syncing { device };
                return StartAction::EnableSync { subdevice: device };
            }
            device += 1;
        }
        self.phase = StartPhase::ConfiguringClocks;
        StartAction::ConfigureClocks {
            start_delay: Duration { nanos: SYNC0_START_DELAY_NANOS },
            sync0_period: self.cfg.cycle,
            sync0_shift: Duration { nanos: self.cfg.cycle.nanos / 4 },
        }
    }

    fn write(&mut self, axis: usize, at: usize) -> (r: StartAction)
        requires
            old(self).valid(),
            !(old(self)@.phase is Idle),
            at <= drive_script_of(old(self)@.configure_pdo, old(self)@.din).len(),
            axis <= old(self)@.mappings.len(),
            axis == old(self)@.mappings.len() ==> at
                < drive_script_of(old(self)@.configure_pdo, old(self)@.din).len(),
        ensures
            final(self).valid(),
            (final(self)@, r) == writing(old(self)@, axis as int, at as int),
    {
        assert(self.script@.len() > 0);
        let count: usize = self.cfg.axes.len();
        let next = at >= self.script.len();
        let a: usize = if next {
            axis + 1
        } else {
            axis
        };
        let w: usize = if next {
            0
        } else {
            at
        };
        if a < count {
            self.phase = StartPhase::Writing { axis: a, at: w };
            StartAction::Write { subdevice: self.cfg.axes[a].subdevice, write: self.script[w] }
        } else if self.cfg.dc {
            self.sync_from(0)
        } else {
            self.phase = StartPhase::ConfiguringImage;
            StartAction::ConfigureImage
        }
    }

    fn scan_done(&mut self, count: usize) -> (r: StartAction)
        requires
            old(self).valid(),
            old(self)@.phase is Scanning,
        ensures
            final(self).valid(),
            (final(self)@, r) == scanned(old(self)@, count),
    {
        self.enter(BusState::PreOp);
        self.devices = count;
        let ghost e = self@;
        let mut a: usize = 0;
        while a < self.cfg.axes.len()
            invariant
                a <= self.cfg.axes@.len(),
                self.valid(),
                self@ == e,
                e.mappings == old(self)@.mappings,
                first_unmapped(e.mappings, count as int, 0) == first_unmapped(
                    e.mappings,
                    count as int,
                    a as int,
                ),
                e == (BackendModel {
                    devices: count,
                    ..entered(old(self)@, BusState::PreOp)
                }),
            decreases self.cfg.axes@.len() - a,
        {
            let subdevice: usize = self.cfg.axes[a].subdevice;
            if subdevice >= count {
                return self.fail(FieldbusError::NoSuchAxis(AxisId(subdevice)));
            }
            a += 1;
        }
        self.write(0, 0)
    }

    fn failure(&self, why: &'static str) -> (r: FieldbusError)
        requires
            self.valid(),
        ensures
            r == failure_of(self@, why),
    {
        match self.phase {
            StartPhase::Opening => FieldbusError::Exchange(why),
            StartPhase::Scanning => FieldbusError::Exchange("topology scan"),
            StartPhase::Writing { at, .. } => FieldbusError::Exchange(self.script[at].what),
            StartPhase::ConfiguringClocks => FieldbusError::Exchange(
                "configure distributed clocks",
            ),
            StartPhase::ConfiguringImage => FieldbusError::Exchange("configure PDI"),
            StartPhase::Requesting => FieldbusError::Exchange("request OP"),
            _ => FieldbusError::Exchange("tx/rx while entering OP"),
        }
    }

    fn device(&self) -> (r: usize)
        requires
            self.valid(),
        ensures
            r == device_of(self@),
    {
        match self.phase {
            StartPhase::Writing { axis, .. } => self.cfg.axes[axis].subdevice,
            StartPhase::Inspecting { axis } => self.cfg.axes[axis].subdevice,
            _ => 0,
        }
    }

    /// Continue start-up with what came of the last action.
    pub fn advance(&mut self, ev: StartEvent) -> (r: StartAction)
        requires
            old(self).valid(),
            answers(old(self)@.phase, ev),
        ensures
            final(self).valid(),
            (final(self)@, r) == start_step(old(self)@, ev),
    {
        match ev {
            StartEvent::Failed { why } => {
                let error = self.failure(why);
                self.fail(error)
            },
            StartEvent::Missing => {
                let device: usize = self.device();
                self.fail(FieldbusError::NoSuchAxis(AxisId(device)))
            },
            StartEvent::Scanned { count } => self.scan_done(count),
            StartEvent::Requested { now } => {
                self.enter(BusState::SafeOp);
                self.phase = StartPhase::Entering {
                    deadline: Instant { nanos: now.nanos + OP_TIMEOUT_NANOS },
                };
                StartAction::Exchange
            },
            StartEvent::Exchanged { all_op, wkc, now } => {
                self.wkc.learn(all_op, wkc);
                if all_op {
                    return self.inspect(0);
                }
                let deadline: Instant = match self.phase {
                    StartPhase::Entering { deadline } => deadline,
                    _ => now,
                };
                if now.nanos > deadline.nanos {
                    return self.fail(FieldbusError::Timeout);
                }
                self.phase = StartPhase::Pausing { deadline };
                StartAction::Wait { pause: self.cfg.cycle }
            },
            StartEvent::Inspected { inputs, outputs } => {
                if inputs < tx_bytes(self.cfg.map_digital_inputs) || outputs < RX_BYTES {
                    return self.fail(FieldbusError::Exchange("PDI layout mismatch"));
                }
                let axis: usize = match self.phase {
                    StartPhase::Inspecting { axis } => axis,
                    _ => 0,
                };
                let count: usize = self.cfg.axes.len();
                assert(axis < count);
                self.inspect(axis + 1)
            },
            StartEvent::Done => self.step_done(),
        }
    }

    fn step_done(&mut self) -> (r: StartAction)
        requires
            old(self).valid(),
            answers(old(self)@.phase, StartEvent::Done),
        ensures
            final(self).valid(),
            (final(self)@, r) == start_step(old(self)@, StartEvent::Done),
    {
        match self.phase {
            StartPhase::Opening => {
                self.phase = StartPhase::Scanning;
                StartAction::Scan
            },
            StartPhase::Writing { axis, at } => {
                let length: usize = self.script.len();
                assert(at < length);
                self.write(axis, at + 1)
            },
            StartPhase::Syncing { device } => self.sync_from(device + 1),
            StartPhase::Pausing { deadline } => {
                self.phase = StartPhase::Entering { deadline };
                StartAction::Exchange
            },
            _ => {
                self.phase = StartPhase::Requesting;
                StartAction::RequestOp
            },
        }
    }

    /// One axis' output bytes for a cycle. `counts` is the setpoint position in
    /// increments.
    fn write_axis_outputs(axis: &mut AxisRt, out: &AxisOut, counts: i32) -> (r: [u8; 6])
        ensures
            *final(axis) == commanded(*old(axis), *out, counts),
            r@ == output_image(*old(axis), *out, counts),
    {
        let enabled = Cia402::drive_status(axis.enable, axis.statusword) == DriveStatus::Enabled;
        axis.enable = out.enable;
        let cw: u16 = axis.seq.controlword(out.enable, out.fault_reset, axis.statusword);
        if enabled {
            match out.setpoint {
                Setpoint::CyclicPosition { .. } => {
                    axis.target = counts;
                },
                // Hold, and everything this mode cannot express: keep the target.
                _ => {},
            }
        }
        let mut image: [u8; 6] = [0, 0, 0, 0, 0, 0];
        encode_rx(&mut image, cw, axis.target);
        assert(image@ =~= rx_image(cw, axis.target));
        image
    }

    /// First half of an exchange: the output bytes of every axis. `counts[i]` is
    /// the setpoint position of axis `i` in increments. A bus that is not running
    /// refuses.
    pub fn write_outputs(
        &mut self,
        outs: &[AxisOut],
        counts: &[i32],
        images: &mut [[u8; 6]],
    ) -> (r: Result<(), FieldbusError>)
        requires
            old(self).valid(),
            outs@.len() == old(self)@.axes.len(),
            counts@.len() == old(self)@.axes.len(),
            old(images)@.len() == old(self)@.axes.len(),
        ensures
            final(self).valid(),
            final(images)@.len() == old(images)@.len(),
            if old(self)@.running {
                &&& r is Ok
                &&& final(self)@ == (BackendModel {
                    axes: Seq::new(
                        old(self)@.axes.len(),
                        |i: int| commanded(old(self)@.axes[i], outs@[i], counts@[i]),
                    ),
                    ..old(self)@
                })
                &&& forall|i: int|
                    0 <= i < outs@.len() ==> (#[trigger] final(images)@[i])@ == output_image(
                        old(self)@.axes[i],
                        outs@[i],
                        counts@[i],
                    )
            } else {
                &&& r == Err::<(), FieldbusError>(FieldbusError::InvalidState(old(self)@.state))
                &&& final(self)@ == old(self)@
                &&& final(images)@ == old(images)@
            },
    {
        if !self.running {
            return Err(FieldbusError::InvalidState(self.state));
        }
        let n: usize = self.axes.len();
        let ghost before = self.axes@;
        let mut i: usize = 0;
        while i < n
            invariant
                n == before.len(),
                i <= n,
                outs@.len() == n,
                counts@.len() == n,
                images@.len() == n,
                self.valid(),
                self.axes@.len() == n,
                self@ == (BackendModel { axes: self.axes@, ..old(self)@ }),
                forall|k: int|
                    0 <= k < i ==> #[trigger] self.axes@[k] == commanded(
                        before[k],
                        outs@[k],
                        counts@[k],
                    ),
                forall|k: int| i <= k < n ==> #[trigger] self.axes@[k] == before[k],
                forall|k: int|
                    0 <= k < i ==> (#[trigger] images@[k])@ == output_image(
                        before[k],
                        outs@[k],
                        counts@[k],
                    ),
            decreases n - i,
        {
            let mut axis: AxisRt = self.axes[i];
            let image = Self::write_axis_outputs(&mut axis, &outs[i], counts[i]);
            self.axes[i] = axis;
            images[i] = image;
            i += 1;
        }
        assert(self@.axes =~= Seq::new(
            before.len(),
            |k: int| commanded(before[k], outs@[k], counts@[k]),
        ));
        Ok(())
    }

    /// One axis' inputs of a cycle.
    fn read_axis_inputs(
        &mut self,
        i: usize,
        tx: TxPdo,
        responding: bool,
        act_pos: Scalar,
        act_vel: Scalar,
    ) -> (r: AxisIn)
        requires
            old(self).valid(),
            i < old(self)@.axes.len(),
        ensures
            final(self).valid(),
            r == input_seen(old(self)@.axes[i as int], tx, responding, act_pos, act_vel),
            final(self)@ == (BackendModel {
                axes: old(self)@.axes.update(
                    i as int,
                    observed(old(self)@.axes[i as int], tx, responding),
                ),
                events: if drive_seen(old(self)@.axes[i as int], tx, responding) is Fault && !old(
                    self,
                )@.axes[i as int].was_fault {
                    with_event(
                        old(self)@.events,
                        BusEvent::AxisFault { axis: AxisId(i), code: tx.statusword as u32 },
                    )
                } else {
                    old(self)@.events
                },
                ..old(self)@
            }),
    {
        let mut axis: AxisRt = self.axes[i];
        axis.statusword = tx.statusword;
        let drive = if responding {
            Cia402::drive_status(axis.enable, tx.statusword)
        } else {
            DriveStatus::Offline
        };
        if drive != DriveStatus::Enabled {
            axis.target = tx.position;
        }
        let fault = drive == DriveStatus::Fault;
        if fault && !axis.was_fault {
            self.events.push(
                BusEvent::AxisFault { axis: AxisId(i), code: tx.statusword as u32 },
            );
        }
        axis.was_fault = fault;
        self.axes[i] = axis;
        AxisIn {
            act_pos,
            act_vel,
            drive,
            fault_code: 0,
            pos_limit: tx.digital_inputs & DIN_POS_LIMIT != 0,
            neg_limit: tx.digital_inputs & DIN_NEG_LIMIT != 0,
            homed: false,
        }
    }

    /// Second half of an exchange, after the transaction: whether the bus
    /// responds, and the inputs of every axis. `raws[i]` are the input bytes of
    /// axis `i`, `positions[i]` and `velocities[i]` the position and velocity
    /// they hold in user units.
    pub fn read_inputs(
        &mut self,
        all_op: bool,
        wkc: u16,
        next_cycle_wait: Option<Duration>,
        raws: &[[u8; 14]],
        positions: &[Scalar],
        velocities: &[Scalar],
        ins: &mut [AxisIn],
    ) -> (r: ExchangeStatus)
        requires
            old(self).valid(),
            raws@.len() == old(self)@.axes.len(),
            positions@.len() == old(self)@.axes.len(),
            velocities@.len() == old(self)@.axes.len(),
            old(ins)@.len() == old(self)@.axes.len(),
        ensures
            final(self).valid(),
            final(self)@ == transacted(
                old(self)@,
                all_op,
                wkc,
                decoded(raws@, old(self)@.din),
            ),
            r == (ExchangeStatus {
                all_axes_responding: responds(old(self)@, all_op, wkc),
                inputs_fresh: true,
                working_counter_ok: responds(old(self)@, all_op, wkc),
                next_cycle_wait,
            }),
            final(ins)@.len() == old(ins)@.len(),
            forall|i: int|
                0 <= i < final(ins)@.len() ==> #[trigger] final(ins)@[i] == input_seen(
                    old(self)@.axes[i],
                    decoded(raws@, old(self)@.din)[i],
                    responds(old(self)@, all_op, wkc),
                    positions@[i],
                    velocities@[i],
                ),
    {
        let verdict = self.wkc.check(wkc);
        let responding = all_op && verdict.ok;
        if responding != self.was_responding {
            self.push_axis_events(responding);
            self.was_responding = responding;
        }
        let n: usize = self.axes.len();
        let with_din: bool = self.cfg.map_digital_inputs;
        let ghost start = self@;
        let ghost inputs = decoded(raws@, with_din);
        let mut i: usize = 0;
        while i < n
            invariant
                n == start.axes.len(),
                i <= n,
                raws@.len() == n,
                positions@.len() == n,
                velocities@.len() == n,
                ins@.len() == n,
                inputs == decoded(raws@, with_din),
                start.axes == old(self)@.axes,
                self.valid(),
                self@.axes.len() == n,
                self@ == (BackendModel {
                    axes: self@.axes,
                    events: with_fault_events(
                        start.events,
                        start.axes,
                        inputs,
                        responding,
                        i as int,
                    ),
                    ..start
                }),
                forall|k: int|
                    0 <= k < i ==> #[trigger] self@.axes[k] == observed(
                        start.axes[k],
                        inputs[k],
                        responding,
                    ),
                forall|k: int| i <= k < n ==> #[trigger] self@.axes[k] == start.axes[k],
                forall|k: int|
                    0 <= k < i ==> #[trigger] ins@[k] == input_seen(
                        start.axes[k],
                        inputs[k],
                        responding,
                        positions@[k],
                        velocities@[k],
                    ),
            decreases n - i,
        {
            let raw: &[u8; 14] = &raws[i];
            let tx = decode_tx(raw, with_din);
            assert(tx == inputs[i as int]);
            let input = self.read_axis_inputs(i, tx, responding, positions[i], velocities[i]);
            ins[i] = input;
            i += 1;
        }
        assert(self@.axes =~= Seq::new(
            start.axes.len(),
            |k: int| observed(start.axes[k], inputs[k], responding),
        ));
        ExchangeStatus {
            all_axes_responding: responding,
            inputs_fresh: true,
            working_counter_ok: responding,
            next_cycle_wait,
        }
    }

    /// Begin shutdown. Where the bus is not running nothing is to do.
    pub fn stop(&mut self) -> (r: StopAction)
        requires
            old(self).valid(),
        ensures
            final(self).valid(),
            (final(self)@, r) == if old(self)@.running {
                stop_step(stop_begun(old(self)@))
            } else {
                (old(self)@, StopAction::Done)
            },
    {
        if !self.running {
            return StopAction::Done;
        }
        self.running = false;
        self.stopping = StopPhase::Cycling { done: 0 };
        self.stop_advance()
    }

    /// Continue shutdown once the last action was tried.
    pub fn stop_advance(&mut self) -> (r: StopAction)
        requires
            old(self).valid(),
        ensures
            final(self).valid(),
            (final(self)@, r) == stop_step(old(self)@),
    {
        match self.stopping {
            StopPhase::Idle => StopAction::Done,
            StopPhase::Cycling { done } => {
                if done < STOP_CYCLES {
                    self.stopping = StopPhase::Cycling { done: done + 1 };
                    StopAction::Exchange { pause: self.cfg.cycle }
                } else {
                    self.stopping = StopPhase::Lowered;
                    StopAction::EnterSafeOp
                }
            },
            StopPhase::Lowered => {
                self.stopping = StopPhase::Parked;
                StopAction::EnterPreOp
            },
            StopPhase::Parked => {
                self.enter(BusState::Init);
                self.stopping = StopPhase::Idle;
                StopAction::Done
            },
        }
    }

    /// Output bytes that take the power off axis `i` where it stands.
    pub fn stop_image(&self, i: usize) -> (r: [u8; 6])
        requires
            i < self@.axes.len(),
        ensures
            r@ == rx_image(0, self@.axes[i as int].target),
    {
        let mut image: [u8; 6] = [0, 0, 0, 0, 0, 0];
        encode_rx(&mut image, 0, self.axes[i].target);
        assert(image@ =~= rx_image(0, self.axes@[i as int].target));
        image
    }

    /// Take the oldest pending event.
    pub fn poll_event(&mut self) -> (r: Option<BusEvent>)
        requires
            old(self).valid(),
        ensures
            final(self).valid(),
            if old(self)@.events.len() == 0 {
                r is None && final(self)@ == old(self)@
            } else {
                r == Some(old(self)@.events[0]) && final(self)@ == (BackendModel {
                    events: old(self)@.events.skip(1),
                    ..old(self)@
                })
            },
    {
        self.events.pop()
    }

    pub fn acyclic(&self) -> EthercatAcyclic {
        EthercatAcyclic {  }
    }
}

/// Parameter access, not available on this bus yet.
pub struct EthercatAcyclic {}

impl AcyclicAccess for EthercatAcyclic {
    fn read(&mut self, axis: AxisId, addr: ParamAddr, buf: &mut [u8]) -> (r: Result<
        usize,
        FieldbusError,
    >)
        ensures
            r == Err::<usize, FieldbusError>(
                FieldbusError::Unsupported(
                    "EtherCAT acyclic channel lands with the homing work (README ADR-12)",
                ),
            ),
            final(buf)@ == old(buf)@,
    {
        Err(
            FieldbusError::Unsupported(
                "EtherCAT acyclic channel lands with the homing work (README ADR-12)",
            ),
        )
    }

    fn write(&mut self, axis: AxisId, addr: ParamAddr, data: &[u8]) -> (r: Result<
        (),
        FieldbusError,
    >)
        ensures
            r == Err::<(), FieldbusError>(
                FieldbusError::Unsupported(
                    "EtherCAT acyclic channel lands with the homing work (README ADR-12)",
                ),
            ),
    {
        Err(
            FieldbusError::Unsupported(
                "EtherCAT acyclic channel lands with the homing work (README ADR-12)",
            ),
        )
    }
}

} // verus!
