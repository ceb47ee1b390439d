//! The trace sample of a cycle.
use vstd::prelude::*;

use crate::daemon::engine::CycleReport;
use crate::fieldbus::{AxisIn, AxisOut, BusState, DriveStatus};
use crate::motion::axis::flag_if;
use crate::shm::layout::{AxisState, PlcData};
use crate::shm::trace::{blank_axis_sample, TraceAxisSample, TraceSample};

verus! {

pub const EXCHANGE_ERROR: u8 = 0x01;

pub const CMD_FRESH: u8 = 0x02;

pub const CMD_VALID: u8 = 0x04;

pub const OVERRUN: u8 = 0x08;

pub const WKC_ERROR: u8 = 0x10;

/// `bit` where the condition holds, nothing where it does not.
pub open spec fn bit_if(condition: bool, bit: u8) -> u8 {
    if condition {
        bit
    } else {
        0
    }
}

fn bit(condition: bool, value: u8) -> (r: u8)
    ensures
        r == bit_if(condition, value),
{
    if condition {
        value
    } else {
        0
    }
}

fn flag(condition: bool, value: u32) -> (r: u32)
    ensures
        r == flag_if(condition, value),
{
    if condition {
        value
    } else {
        0
    }
}

/// The status bits of a cycle.
pub open spec fn status_bits_of(report: CycleReport, overrun: bool) -> u8 {
    bit_if(!report.exchange_ok, EXCHANGE_ERROR) | bit_if(report.fresh, CMD_FRESH) | bit_if(
        report.cmd_ok,
        CMD_VALID,
    ) | bit_if(overrun, OVERRUN) | bit_if(report.wkc_error, WKC_ERROR)
}

/// The status bits of a cycle.
pub fn status_bits(report: &CycleReport, overrun: bool) -> (r: u8)
    ensures
        r == status_bits_of(*report, overrun),
{
    bit(!report.exchange_ok, EXCHANGE_ERROR) | bit(report.fresh, CMD_FRESH) | bit(
        report.cmd_ok,
        CMD_VALID,
    ) | bit(overrun, OVERRUN) | bit(report.wkc_error, WKC_ERROR)
}

/// Each status bit tells one thing about the cycle.
pub proof fn status_bits_tell_the_cycle(report: CycleReport, overrun: bool)
    ensures
        ({
            let b = status_bits_of(report, overrun);
            &&& (b & EXCHANGE_ERROR != 0) <==> !report.exchange_ok
            &&& (b & CMD_FRESH != 0) <==> report.fresh
            &&& (b & CMD_VALID != 0) <==> report.cmd_ok
            &&& (b & OVERRUN != 0) <==> overrun
            &&& (b & WKC_ERROR != 0) <==> report.wkc_error
            &&& b < 0x20
        }),
{
    lemma_status_bits(
        !report.exchange_ok,
        report.fresh,
        report.cmd_ok,
        overrun,
        report.wkc_error,
    );
}

proof fn lemma_status_bits(a: bool, b: bool, c: bool, d: bool, e: bool)
    by (bit_vector)
    ensures
        ({
            let bits: u8 = (if a { 0x01u8 } else { 0 }) | (if b { 0x02u8 } else { 0 }) | (if c {
                0x04u8
            } else {
                0
            }) | (if d { 0x08u8 } else { 0 }) | (if e { 0x10u8 } else { 0 });
            &&& (bits & 0x01 != 0) <==> a
            &&& (bits & 0x02 != 0) <==> b
            &&& (bits & 0x04 != 0) <==> c
            &&& (bits & 0x08 != 0) <==> d
            &&& (bits & 0x10 != 0) <==> e
            &&& bits < 0x20
        }),
{
}

/// The number that stands for a bus state.
pub open spec fn bus_state_code(state: BusState) -> u8 {
    match state {
        BusState::Init => 0,
        BusState::PreOp => 1,
        BusState::SafeOp => 2,
        BusState::Op => 3,
    }
}

/// The number that stands for a drive status.
pub open spec fn drive_code(drive: DriveStatus) -> u32 {
    match drive {
        DriveStatus::Offline => 0,
        DriveStatus::Disabled => 1,
        DriveStatus::Enabling => 2,
        DriveStatus::Enabled => 3,
        DriveStatus::QuickStop => 4,
        DriveStatus::Fault => 5,
    }
}

/// The input and output bits of an axis.
pub open spec fn io_bits_of(input: AxisIn, out: AxisOut) -> u32 {
    flag_if(input.pos_limit, 0x01) | flag_if(input.neg_limit, 0x02) | flag_if(input.homed, 0x04)
        | flag_if(out.enable, 0x08) | flag_if(out.fault_reset, 0x10)
}

/// The sample of one axis.
pub open spec fn axis_sample_of(st: AxisState, input: AxisIn, out: AxisOut) -> TraceAxisSample {
    TraceAxisSample {
        act_pos: input.act_pos,
        act_vel: input.act_vel,
        set_pos: st.set_pos,
        set_vel: st.set_vel,
        step: st.step,
        flags: st.flags,
        error_id: st.error_id,
        fault_code: input.fault_code,
        drive_status: drive_code(input.drive),
        io_bits: io_bits_of(input, out),
    }
}

/// The sample of slot `i`: blank where there is no such axis.
pub open spec fn slot_sample(
    d: PlcData,
    ins: Seq<AxisIn>,
    outs: Seq<AxisOut>,
    i: int,
) -> TraceAxisSample {
    if i < ins.len() && i < outs.len() {
        axis_sample_of(d.machine.axes[i], ins[i], outs[i])
    } else {
        blank_axis_sample()
    }
}

fn axis_sample(st: &AxisState, input: &AxisIn, out: &AxisOut) -> (r: TraceAxisSample)
    ensures
        r == axis_sample_of(*st, *input, *out),
{
    let drive_status: u32 = match input.drive {
        DriveStatus::Offline => 0,
        DriveStatus::Disabled => 1,
        DriveStatus::Enabling => 2,
        DriveStatus::Enabled => 3,
        DriveStatus::QuickStop => 4,
        DriveStatus::Fault => 5,
    };
    let io_bits: u32 = flag(input.pos_limit, 0x01) | flag(input.neg_limit, 0x02) | flag(
        input.homed,
        0x04,
    ) | flag(out.enable, 0x08) | flag(out.fault_reset, 0x10);
    TraceAxisSample {
        act_pos: input.act_pos,
        act_vel: input.act_vel,
        set_pos: st.set_pos,
        set_vel: st.set_vel,
        step: st.step,
        flags: st.flags,
        error_id: st.error_id,
        fault_code: input.fault_code,
        drive_status,
        io_bits,
    }
}

/// Build the trace sample of a cycle from the published data, the inputs and
/// the outputs.
pub fn trace_sample(
    d: &PlcData,
    ins: &[AxisIn],
    outs: &[AxisOut],
    bus_state: BusState,
    t_mono_ns: u64,
    period_ns: u32,
    exchange_ns: u32,
    status_bits: u8,
) -> (r: TraceSample)
    ensures
        r.cycle == d.header.cycle,
        r.t_mono_ns == t_mono_ns,
        r.period_ns == period_ns,
        r.exchange_ns == exchange_ns,
        r.bus_state == bus_state_code(bus_state),
        r.status_bits == status_bits,
        r._pad == 0,
        r.run_state == d.machine.run_state,
        forall|i: int| 0 <= i < 4 ==> #[trigger] r.axes[i] == slot_sample(*d, ins@, outs@, i),
{
    let mut s = TraceSample::default();
    s.cycle = d.header.cycle;
    s.t_mono_ns = t_mono_ns;
    s.period_ns = period_ns;
    s.exchange_ns = exchange_ns;
    s.bus_state = match bus_state {
        BusState::Init => 0,
        BusState::PreOp => 1,
        BusState::SafeOp => 2,
        BusState::Op => 3,
    };
    s.status_bits = status_bits;
    s.run_state = d.machine.run_state;
    let mut i: usize = 0;
    while i < 4
        invariant
            i <= 4,
            s.cycle == d.header.cycle,
            s.t_mono_ns == t_mono_ns,
            s.period_ns == period_ns,
            s.exchange_ns == exchange_ns,
            s.bus_state == bus_state_code(bus_state),
            s.status_bits == status_bits,
            s._pad == 0,
            s.run_state == d.machine.run_state,
            forall|k: int| 0 <= k < i ==> #[trigger] s.axes[k] == slot_sample(*d, ins@, outs@, k),
            forall|k: int| i <= k < 4 ==> #[trigger] s.axes[k] == blank_axis_sample(),
        decreases 4 - i,
    {
        if i < ins.len() && i < outs.len() {
            s.axes[i] = axis_sample(&d.machine.axes[i], &ins[i], &outs[i]);
        }
        i += 1;
    }
    s
}

/// The sample of an axis shows its inputs, the setpoint, step, flags and error
/// that were published, its drive status by number, and one bit each for its
/// limit switches, its reference and what was asked of the drive. A slot without
/// an axis is blank.
pub proof fn samples_show_the_axis(
    d: PlcData,
    ins: Seq<AxisIn>,
    outs: Seq<AxisOut>,
    i: int,
)
    requires
        0 <= i < 4,
    ensures
        ({
            let s = slot_sample(d, ins, outs, i);
            let served = i < ins.len() && i < outs.len();
            &&& served ==> {
                let published = d.machine.axes[i];
                &&& s.act_pos == ins[i].act_pos
                &&& s.act_vel == ins[i].act_vel
                &&& s.set_pos == published.set_pos
                &&& s.set_vel == published.set_vel
                &&& s.step == published.step
                &&& s.flags == published.flags
                &&& s.error_id == published.error_id
                &&& s.fault_code == ins[i].fault_code
                &&& s.drive_status == 0 <==> ins[i].drive is Offline
                &&& s.drive_status == 1 <==> ins[i].drive is Disabled
                &&& s.drive_status == 2 <==> ins[i].drive is Enabling
                &&& s.drive_status == 3 <==> ins[i].drive is Enabled
                &&& s.drive_status == 4 <==> ins[i].drive is QuickStop
                &&& s.drive_status == 5 <==> ins[i].drive is Fault
                &&& (s.io_bits & 0x01 != 0) <==> ins[i].pos_limit
                &&& (s.io_bits & 0x02 != 0) <==> ins[i].neg_limit
                &&& (s.io_bits & 0x04 != 0) <==> ins[i].homed
                &&& (s.io_bits & 0x08 != 0) <==> outs[i].enable
                &&& (s.io_bits & 0x10 != 0) <==> outs[i].fault_reset
                &&& s.io_bits < 0x20
            }
            &&& !served ==> {
                &&& s.act_pos.bits == 0 && s.act_vel.bits == 0 && s.set_pos.bits == 0
                    && s.set_vel.bits == 0
                &&& s.step == 0 && s.flags == 0 && s.error_id == 0 && s.fault_code == 0
                &&& s.drive_status == 0 && s.io_bits == 0
            }
        }),
{
    if i < ins.len() && i < outs.len() {
        lemma_io_bits(
            ins[i].pos_limit,
            ins[i].neg_limit,
            ins[i].homed,
            outs[i].enable,
            outs[i].fault_reset,
        );
    }
}

proof fn lemma_io_bits(a: bool, b: bool, c: bool, d: bool, e: bool)
    by (bit_vector)
    ensures
        ({
            let bits: u32 = (if a { 0x01u32 } else { 0 }) | (if b { 0x02u32 } else { 0 }) | (if c {
                0x04u32
            } else {
                0
            }) | (if d { 0x08u32 } else { 0 }) | (if e { 0x10u32 } else { 0 });
            &&& (bits & 0x01 != 0) <==> a
            &&& (bits & 0x02 != 0) <==> b
            &&& (bits & 0x04 != 0) <==> c
            &&& (bits & 0x08 != 0) <==> d
            &&& (bits & 0x10 != 0) <==> e
            &&& bits < 0x20
        }),
{
}

/// Whatever `trace_sample` returns is the sample of this very cycle: its number,
/// times, bus state by number, status bits and run state, and a slot for each
/// axis.
pub proof fn trace_samples_show_the_cycle(
    d: &PlcData,
    ins: &[AxisIn],
    outs: &[AxisOut],
    bus_state: BusState,
    t_mono_ns: u64,
    period_ns: u32,
    exchange_ns: u32,
    status_bits: u8,
    r: TraceSample,
)
    requires
        call_ensures(
            trace_sample,
            (d, ins, outs, bus_state, t_mono_ns, period_ns, exchange_ns, status_bits),
            r,
        ),
    ensures
        r.cycle == d.header.cycle,
        r.t_mono_ns == t_mono_ns,
        r.period_ns == period_ns,
        r.exchange_ns == exchange_ns,
        r.status_bits == status_bits,
        r.run_state == d.machine.run_state,
        r.bus_state == 0 <==> bus_state is Init,
        r.bus_state == 1 <==> bus_state is PreOp,
        r.bus_state == 2 <==> bus_state is SafeOp,
        r.bus_state == 3 <==> bus_state is Op,
        forall|i: int| 0 <= i < 4 ==> #[trigger] r.axes[i] == slot_sample(*d, ins@, outs@, i),
{
}

/// The status bits have the places that trace readers know.
pub proof fn status_bits_have_their_places(report: CycleReport, overrun: bool)
    ensures
        ({
            let b = status_bits_of(report, overrun);
            &&& (b & 0x01 != 0) <==> !report.exchange_ok
            &&& (b & 0x02 != 0) <==> report.fresh
            &&& (b & 0x04 != 0) <==> report.cmd_ok
            &&& (b & 0x08 != 0) <==> overrun
            &&& (b & 0x10 != 0) <==> report.wkc_error
            &&& b < 0x20
        }),
{
    status_bits_tell_the_cycle(report, overrun);
}

} // verus!
