//! What a cycle of the daemon does with the exchange, the command and the axes,
//! told by the fields of the command, the inputs and the published data.
use vstd::prelude::*;

use crate::daemon::engine::{
    alarms_of, begun, begun_report, cycled, data_of, engine_demand, outputs_from, phase_of,
    published_slot, report_of, stop_outputs, stop_stepped, stop_word, stopped, Begun, CycleReport,
    Engine, EngineConfig, EngineModel, Shutdown, ShutdownPhase,
};
use crate::fieldbus::{AxisIn, AxisOut, BusState, ExchangeStatus, FieldbusError, Setpoint};
use crate::motion::axis::{demand_of, outputs_of, tick_of, Advance, AxisModel, TickInput};
use crate::motion::command_laws::{creeping, status_tells_the_axis, zero};
use crate::motion::step::step_number;
use crate::shm::channel::{latch_report, latched, LatchModel};
use crate::shm::layout::{AxisState, PlcCommand, PlcData};
use crate::shm::seqlock::ReadError;
use crate::time::Instant;

verus! {

/// A published slot shows this axis and its inputs.
pub open spec fn shows_axis(slot: AxisState, axis: AxisModel, input: AxisIn) -> bool {
    &&& slot.act_pos == input.act_pos
    &&& slot.act_vel == input.act_vel
    &&& slot.set_pos == axis.set_pos
    &&& slot.set_vel == axis.set_vel
    &&& slot.step == step_number(axis.step)
    &&& slot.error_id == axis.error_id
    &&& (slot.flags & 0x01 != 0) <==> input.drive is Enabled
    &&& (slot.flags & 0x02 != 0) <==> axis.busy
    &&& (slot.flags & 0x04 != 0) <==> axis.error
    &&& (slot.flags & 0x08 != 0) <==> zero(axis.set_vel) && creeping(input)
    &&& (slot.flags & 0x10 != 0) <==> input.pos_limit
    &&& (slot.flags & 0x20 != 0) <==> input.neg_limit
    &&& slot.flags < 0x40
}

/// The published data tells this engine's state: alarms for a failed exchange
/// and for a silent operator, the state of the bus, the run bit of the machine
/// word, and the production state that the command in force asks for.
pub open spec fn tells_the_machine(
    d: PlcData,
    m: EngineModel,
    before: PlcData,
    bus_state: BusState,
    machine_word: u32,
) -> bool {
    &&& (d.system.alarm_flags & 0x1 != 0) <==> m.exchange_err is Some
    &&& (d.system.alarm_flags & 0x2 != 0) <==> m.tripped
    &&& d.system.alarm_flags < 4
    &&& d.system.status_flags == if bus_state is Op {
        1u32
    } else {
        0
    }
    &&& d.system.temperature.bits == 0x4039_0000_0000_0000
    &&& d.machine.run_state == if machine_word & 0x04 != 0 {
        1u32
    } else {
        0
    }
    &&& d.machine.alarms == 0
    &&& d.production.n_production_state == m.latch.current.production.n_production_state
    &&& d.header.magic == before.header.magic
    &&& d.header.version == before.header.version
    &&& d.header.flags == before.header.flags
    &&& d.header.cycle == if before.header.cycle == u64::MAX {
        0
    } else {
        (before.header.cycle + 1) as u64
    }
}

proof fn lemma_data(
    m: EngineModel,
    ins: Seq<AxisIn>,
    bus_state: BusState,
    machine_word: u32,
    i: int,
)
    requires
        0 <= i < 4,
    ensures
        ({
            let d = data_of(m, ins, bus_state, machine_word);
            &&& tells_the_machine(d, m, m.data, bus_state, machine_word)
            &&& i < m.axes.len() ==> shows_axis(d.machine.axes[i], m.axes[i], ins[i])
            &&& i >= m.axes.len() ==> d.machine.axes[i] == m.data.machine.axes[i]
        }),
{
    let d = data_of(m, ins, bus_state, machine_word);
    assert(d.machine.axes[i] == published_slot(m, ins, i));
    if i < m.axes.len() {
        status_tells_the_axis(m.axes[i], ins[i]);
    }
    lemma_two_bits(m.exchange_err is Some, m.tripped);
}

proof fn lemma_two_bits(a: bool, b: bool)
    by (bit_vector)
    ensures
        (((if a { 1u32 } else { 0 }) | (if b { 2u32 } else { 0 })) & 1 != 0) == a,
        (((if a { 1u32 } else { 0 }) | (if b { 2u32 } else { 0 })) & 2 != 0) == b,
        ((if a { 1u32 } else { 0 }) | (if b { 2u32 } else { 0 })) < 4,
{
}

/// Every cycle, and every step of the controlled stop, publishes each served
/// axis as it is after the cycle, with the inputs it was ticked on, and the
/// state of the machine; slots of axes that are not served stay.
pub proof fn cycles_publish_every_axis(
    m: EngineModel,
    b: Begun,
    now: Instant,
    ins: Seq<AxisIn>,
    advances: Seq<Advance>,
    bus_state: BusState,
    i: int,
)
    requires
        0 <= i < 4,
    ensures
        ({
            let after = cycled(m, b, ins, advances, bus_state);
            let halted = stopped(m, b, now, ins, advances, bus_state);
            &&& after.axes.len() == m.axes.len() && halted.axes.len() == m.axes.len()
            &&& i < m.axes.len() ==> shows_axis(after.data.machine.axes[i], after.axes[i], ins[i])
            &&& i < m.axes.len() ==> shows_axis(halted.data.machine.axes[i], halted.axes[i], ins[i])
            &&& i >= m.axes.len() ==> after.data.machine.axes[i] == m.data.machine.axes[i]
            &&& i >= m.axes.len() ==> halted.data.machine.axes[i] == m.data.machine.axes[i]
            &&& tells_the_machine(after.data, after, m.data, bus_state, b.machine_word)
            &&& tells_the_machine(halted.data, halted, m.data, bus_state, b.machine_word)
        }),
{
    let t = EngineModel { data: m.data, ..cycled(m, b, ins, advances, bus_state) };
    lemma_data(t, ins, bus_state, b.machine_word, i);
    let s = stop_stepped(m, b, now, ins, advances);
    lemma_data(s, ins, bus_state, stop_word(b.machine_word), i);
    let w = b.machine_word;
    assert((w | 0x02u32) & 0x04 == w & 0x04) by (bit_vector);
}

/// A cycle with a good exchange ticks every axis on its own request, input and
/// profile outcome, with the emergency stop of the machine word, and its outputs
/// are those of the ticked axes; after a failed one no axis ticks. Nothing else
/// of the engine changes but the published data.
pub proof fn cycles_tick_on_good_exchanges(
    m: EngineModel,
    b: Begun,
    ins: Seq<AxisIn>,
    advances: Seq<Advance>,
    bus_state: BusState,
    i: int,
)
    requires
        0 <= i < m.axes.len(),
    ensures
        ({
            let after = cycled(m, b, ins, advances, bus_state);
            &&& b.exchange_ok ==> after.axes[i] == tick_of(
                m.axes[i],
                TickInput {
                    req: m.reqs[i],
                    ems: b.machine_word & 0x02 != 0,
                    input: ins[i],
                    advance: advances[i],
                },
            )
            &&& !b.exchange_ok ==> after.axes[i] == m.axes[i]
            &&& outputs_from(after.axes, ins)[i] == outputs_of(after.axes[i], ins[i])
            &&& outputs_from(after.axes, ins).len() == m.axes.len()
            &&& after.latch == m.latch && after.reqs == m.reqs && after.tripped == m.tripped
            &&& after.exchange_err == m.exchange_err && after.wkc_errors == m.wkc_errors
            &&& after.last_fresh == m.last_fresh && after.cmd_ok == m.cmd_ok
            &&& after.shutdown == m.shutdown
        }),
{
}

/// The profile step that an axis needs is that of its own request and input,
/// with the emergency stop of the machine word; in the controlled stop it is
/// that of an emergency stop, and none once drives are being disabled. After a
/// failed exchange none is needed.
pub proof fn axes_need_the_profile_of_their_request(
    m: EngineModel,
    b: Begun,
    i: int,
    input: AxisIn,
)
    requires
        0 <= i < m.axes.len(),
    ensures
        ({
            let normal = engine_demand(m, b, false, i, input);
            let stopping = engine_demand(m, b, true, i, input);
            let ems = b.machine_word & 0x02 != 0;
            let off = m.shutdown is Disable || m.shutdown is Done;
            &&& b.exchange_ok ==> normal == demand_of(m.axes[i], m.reqs[i], ems, input)
            &&& b.exchange_ok && !off ==> stopping == demand_of(m.axes[i], m.reqs[i], true, input)
            &&& off ==> stopping is Rest
            &&& !b.exchange_ok ==> normal is Rest && stopping is Rest
        }),
{
    let w = b.machine_word;
    assert((w | 0x02u32) & 0x02 != 0) by (bit_vector);
}

/// The read brought a command that was not latched before: the first one, or
/// one under another cycle number.
pub open spec fn brings_news(m: LatchModel, read: Result<PlcCommand, ReadError>) -> bool {
    read matches Ok(c) && (!m.valid || c.header.cycle != m.last_cycle)
}

/// A command is latched when it is the first or its cycle number changed, whole,
/// and stays in force until the next; any other read, and a failed one, leaves
/// the latch as it is.
pub proof fn news_replace_the_command(m: LatchModel, read: Result<PlcCommand, ReadError>)
    ensures
        brings_news(m, read) ==> latched(m, read) == (LatchModel {
            last_cycle: read->Ok_0.header.cycle,
            current: read->Ok_0,
            valid: true,
        }),
        !brings_news(m, read) ==> latched(m, read) == m,
        match read {
            Ok(_) => latch_report(m, read) == Ok::<bool, ReadError>(brings_news(m, read)),
            Err(e) => latch_report(m, read) == Err::<bool, ReadError>(e),
        },
{
}

/// The first half of a cycle notes the exchange and the read: a failed exchange
/// leaves its error, a good one clears it, one with a wrong working counter is
/// counted; a new command restarts the silence clock. Axes, published data and
/// the controlled stop are untouched.
pub proof fn cycles_begin_by_taking_note(
    m: EngineModel,
    now: Instant,
    exchange: Result<ExchangeStatus, FieldbusError>,
    read: Result<PlcCommand, ReadError>,
)
    requires
        m.wkc_errors < u64::MAX,
    ensures
        ({
            let after = begun(m, now, exchange, read);
            let b = begun_report(m, exchange, read);
            let miscounted = exchange matches Ok(st) && !st.working_counter_ok;
            &&& after.exchange_err == match exchange {
                Ok(_) => None::<FieldbusError>,
                Err(e) => Some(e),
            }
            &&& after.wkc_errors == m.wkc_errors + if miscounted {
                1int
            } else {
                0
            }
            &&& after.cmd_ok <==> read is Ok
            &&& after.last_fresh == if brings_news(m.latch, read) {
                now
            } else {
                m.last_fresh
            }
            &&& after.latch.current == if brings_news(m.latch, read) {
                read->Ok_0
            } else {
                m.latch.current
            }
            &&& after.axes == m.axes && after.data == m.data && after.shutdown == m.shutdown
            &&& after.cmd_timeout == m.cmd_timeout && after.shutdown_timeout == m.shutdown_timeout
            &&& b.exchange_ok <==> exchange is Ok
            &&& b.wkc_error <==> miscounted
            &&& b.fresh <==> brings_news(m.latch, read)
            &&& b.machine_word == after.latch.current.machine.control_flags
        }),
{
}

/// More than the time allowed has passed without a new command, this one
/// included.
pub open spec fn silent(
    m: EngineModel,
    now: Instant,
    read: Result<PlcCommand, ReadError>,
) -> bool {
    let since = if brings_news(m.latch, read) {
        now.nanos
    } else {
        m.last_fresh.nanos
    };
    m.cmd_timeout matches Some(limit) && now.nanos > since && now.nanos - since > limit.nanos
}

/// Each axis gets the request that the command in force holds for it: word,
/// velocities and position as they are, but without jog bits where the operator
/// is silent. It is fresh when the command is new and touches the axis: a
/// command without the marker touches all.
pub proof fn requests_are_those_of_the_command(
    m: EngineModel,
    now: Instant,
    exchange: Result<ExchangeStatus, FieldbusError>,
    read: Result<PlcCommand, ReadError>,
    i: int,
)
    requires
        0 <= i < m.reqs.len(),
        i < 4,
    ensures
        ({
            let after = begun(m, now, exchange, read);
            let c = after.latch.current;
            let a = c.machine.axes[i];
            let r = after.reqs[i];
            let bit: u16 = if i == 0 {
                1
            } else if i == 1 {
                2
            } else if i == 2 {
                4
            } else {
                8
            };
            &&& after.reqs.len() == m.reqs.len()
            &&& r.word == if silent(m, now, read) {
                a.control_flags & !0x30u32
            } else {
                a.control_flags
            }
            &&& r.jog_vel == a.jog_vel
            &&& r.move_abs_pos == a.move_abs_pos
            &&& r.move_abs_vel == a.move_abs_vel
            &&& r.fresh <==> brings_news(m.latch, read) && (c.header.flags & 0x8000 == 0
                || c.header.flags & bit != 0)
        }),
{
    let w = begun(m, now, exchange, read).latch.current.machine.axes[i].control_flags;
    assert(w & 0x30u32 == 0 ==> w & !0x30u32 == w) by (bit_vector);
    crate::daemon::cmdflags::touch_bits_are_distinct(0, 1);
}

/// The silence alarm goes up when a silent operator's command holds a jog of a
/// served axis, stays up through the silence and goes down with a new command.
pub proof fn silence_is_alarmed_while_a_jog_is_held(
    m: EngineModel,
    now: Instant,
    exchange: Result<ExchangeStatus, FieldbusError>,
    read: Result<PlcCommand, ReadError>,
    i: int,
)
    requires
        0 <= i < m.reqs.len(),
        i < 4,
    ensures
        ({
            let after = begun(m, now, exchange, read);
            let axes = after.latch.current.machine.axes;
            let n = m.reqs.len();
            &&& silent(m, now, read) && axes[i].control_flags & 0x30 != 0 ==> after.tripped
            &&& m.tripped && !brings_news(m.latch, read) ==> after.tripped
            &&& after.tripped && !(m.tripped && !brings_news(m.latch, read)) ==> silent(
                m,
                now,
                read,
            ) && (axes[0].control_flags & 0x30 != 0 || n > 1 && axes[1].control_flags & 0x30 != 0
                || n > 2 && axes[2].control_flags & 0x30 != 0 || n > 3 && axes[3].control_flags
                & 0x30 != 0)
            &&& brings_news(m.latch, read) ==> !after.tripped
            &&& (alarms_of(after) & 0x2 != 0) <==> after.tripped
            &&& (alarms_of(after) & 0x1 != 0) <==> exchange is Err
        }),
{
    let after = begun(m, now, exchange, read);
    lemma_two_bits(after.exchange_err is Some, after.tripped);
}

/// A cycle reports what its first half found and what it published.
pub proof fn reports_tell_the_cycle(m: EngineModel, b: Begun)
    ensures
        ({
            let r = report_of(m, b);
            &&& r.exchange_ok == b.exchange_ok
            &&& r.fresh == b.fresh
            &&& r.cmd_ok == m.cmd_ok
            &&& r.wkc_error == b.wkc_error
            &&& r.alarm_flags == m.data.system.alarm_flags
        }),
{
}

/// The controlled stop ramps down first. Every step with a good exchange ticks
/// all axes under emergency stop, whatever the machine word, and puts out what
/// they ask for; a failed one ticks nothing and leaves the outputs. It is over
/// when a good exchange shows every axis at rest, or when the time allowed has
/// passed since its first step; ten cycles of power off follow.
pub proof fn the_controlled_stop_ramps_down_first(
    m: EngineModel,
    b: Begun,
    now: Instant,
    ins: Seq<AxisIn>,
    advances: Seq<Advance>,
    bus_state: BusState,
    before: Seq<AxisOut>,
    i: int,
)
    requires
        m.shutdown is NotStarted || m.shutdown is Decel,
        0 <= i < m.axes.len(),
        before.len() == m.axes.len(),
    ensures
        ({
            let after = stopped(m, b, now, ins, advances, bus_state);
            let outs = stop_outputs(m, b, now, ins, advances, before);
            let since = match m.shutdown {
                Shutdown::Decel { since } => since,
                _ => now,
            };
            let elapsed = if now.nanos >= since.nanos {
                now.nanos - since.nanos
            } else {
                0
            };
            let rests = forall|k: int|
                0 <= k < after.axes.len() ==> zero((#[trigger] after.axes[k]).set_vel) && creeping(
                    ins[k],
                );
            let over = b.exchange_ok && rests || elapsed >= m.shutdown_timeout.nanos;
            &&& b.exchange_ok ==> after.axes[i] == tick_of(
                m.axes[i],
                TickInput { req: m.reqs[i], ems: true, input: ins[i], advance: advances[i] },
            )
            &&& b.exchange_ok ==> outs[i] == outputs_of(after.axes[i], ins[i])
            &&& !b.exchange_ok ==> after.axes[i] == m.axes[i] && outs[i] == before[i]
            &&& outs.len() == before.len()
            &&& over ==> after.shutdown == (Shutdown::Disable { cycles_left: 10 })
            &&& !over ==> after.shutdown == (Shutdown::Decel { since })
        }),
{
    let w = b.machine_word;
    assert((w | 0x02u32) & 0x02 != 0) by (bit_vector);
    let after = stopped(m, b, now, ins, advances, bus_state);
    if forall|k: int|
        0 <= k < after.axes.len() ==> zero((#[trigger] after.axes[k]).set_vel) && creeping(ins[k]) {
        assert(crate::daemon::engine::all_still(after.axes, ins));
    } else {
        let k = choose|k: int|
            0 <= k < after.axes.len() && !(zero((#[trigger] after.axes[k]).set_vel) && creeping(
                ins[k],
            ));
        assert(!crate::motion::axis::at_standstill(after.axes[k], ins[k]));
    }
}

/// After the ramp-down every output is off, with no axis ticking, for as many
/// steps as are left; then the stop is done, stays done, and leaves axes and
/// outputs alone. Each stage is reported as what it is.
pub proof fn the_controlled_stop_counts_its_cycles_down(
    m: EngineModel,
    b: Begun,
    now: Instant,
    ins: Seq<AxisIn>,
    advances: Seq<Advance>,
    bus_state: BusState,
    before: Seq<AxisOut>,
    i: int,
)
    requires
        m.shutdown is Disable || m.shutdown is Done,
        0 <= i < before.len(),
    ensures
        ({
            let after = stopped(m, b, now, ins, advances, bus_state);
            let outs = stop_outputs(m, b, now, ins, advances, before);
            &&& after.axes == m.axes
            &&& outs.len() == before.len()
            &&& m.shutdown is Disable ==> outs[i] == (AxisOut {
                enable: false,
                fault_reset: false,
                setpoint: Setpoint::Hold,
            })
            &&& m.shutdown is Done ==> outs[i] == before[i] && after.shutdown is Done
            &&& m.shutdown matches Shutdown::Disable { cycles_left } ==> after.shutdown == if cycles_left
                > 1 {
                Shutdown::Disable { cycles_left: (cycles_left - 1) as u32 }
            } else {
                Shutdown::Done
            }
        }),
        phase_of(m.shutdown) == match m.shutdown {
            Shutdown::Disable { .. } => ShutdownPhase::Disable,
            _ => ShutdownPhase::Done,
        },
{
}

/// Until the ramp-down is over the stop is reported as ramping down.
pub proof fn ramp_downs_are_reported(s: Shutdown)
    ensures
        phase_of(s) is Decel <==> s is NotStarted || s is Decel,
        phase_of(s) is Disable <==> s is Disable,
        phase_of(s) is Done <==> s is Done,
{
}

/// A new engine serves as many idle axes as it was configured for, under the
/// configured limits and times; nothing is latched, alarmed, counted or
/// stopping, and the silence clock starts now.
pub proof fn new_engines_are_idle(cfg: EngineConfig, now: Instant, r: Engine, i: int)
    requires
        call_ensures(Engine::new, (cfg, now), r),
        0 <= i < cfg.axes,
    ensures
        r@.axes.len() == cfg.axes && r@.reqs.len() == cfg.axes,
        r@.axes[i].step is Idle && r@.axes[i].params == cfg.params && !r@.axes[i].out_enable,
        r@.reqs[i].word == 0 && !r@.reqs[i].fresh,
        r@.cmd_timeout == cfg.cmd_timeout,
        r@.shutdown_timeout == cfg.shutdown_timeout,
        r@.last_fresh == now,
        !r@.latch.valid,
        !r@.cmd_ok && !r@.tripped && r@.exchange_err is None && r@.wkc_errors == 0,
        r@.shutdown is NotStarted,
        r@.data.header.magic == 0x504C_4344 && r@.data.header.version == 4,
        r@.data.header.cycle == 0,
{
}

/// A whole cycle, from exchange and read to outputs: with a good exchange every
/// axis ticks on the request that the command in force makes, and puts out what
/// it then asks for; with a failed one the outputs stay. The report is that of
/// this cycle, and what was published is what `data` shows.
pub proof fn engines_run_whole_cycles(
    engine: &mut Engine,
    b: &Begun,
    ins: &[AxisIn],
    advances: &[Advance],
    outs: &mut [AxisOut],
    bus_state: BusState,
    r: CycleReport,
    shown: &Engine,
    data: &PlcData,
    i: int,
)
    requires
        call_ensures(Engine::cycle, (engine, b, ins, advances, outs, bus_state), r),
        call_ensures(Engine::data, (shown,), data),
        0 <= i < old(engine)@.axes.len(),
    ensures
        final(engine)@ == cycled(old(engine)@, *b, ins@, advances@, bus_state),
        b.exchange_ok ==> final(outs)@[i] == outputs_of(
            tick_of(
                old(engine)@.axes[i],
                TickInput {
                    req: old(engine)@.reqs[i],
                    ems: b.machine_word & 0x02 != 0,
                    input: ins@[i],
                    advance: advances@[i],
                },
            ),
            ins@[i],
        ),
        !b.exchange_ok ==> final(outs)@ == old(outs)@,
        r.exchange_ok == b.exchange_ok && r.fresh == b.fresh && r.wkc_error == b.wkc_error,
        r.cmd_ok == old(engine)@.cmd_ok,
        r.alarm_flags == final(engine)@.data.system.alarm_flags,
        *data == shown@.data,
{
}

/// The first half of a cycle and a step of the controlled stop are what the laws
/// above tell of them.
pub proof fn engines_begin_and_stop_as_told(
    engine: &mut Engine,
    now: Instant,
    exchange: &Result<ExchangeStatus, FieldbusError>,
    read: Result<PlcCommand, ReadError>,
    b: Begun,
    other: &mut Engine,
    at: &Begun,
    ins: &[AxisIn],
    advances: &[Advance],
    outs: &mut [AxisOut],
    bus_state: BusState,
    r: (CycleReport, ShutdownPhase),
)
    requires
        call_ensures(Engine::begin, (engine, now, exchange, read), b),
        call_ensures(Engine::shutdown_step, (other, now, at, ins, advances, outs, bus_state), r),
    ensures
        final(engine)@ == begun(old(engine)@, now, *exchange, read),
        b == begun_report(old(engine)@, *exchange, read),
        final(other)@ == stopped(old(other)@, *at, now, ins@, advances@, bus_state),
        final(outs)@ == stop_outputs(old(other)@, *at, now, ins@, advances@, old(outs)@),
        r.0 == report_of(final(other)@, *at),
        r.1 is Decel <==> final(other)@.shutdown is NotStarted || final(other)@.shutdown is Decel,
        r.1 is Disable <==> final(other)@.shutdown is Disable,
        r.1 is Done <==> final(other)@.shutdown is Done,
{
}

} // verus!
