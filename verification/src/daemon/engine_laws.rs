//! What holds of every cycle of the daemon.
use vstd::prelude::*;

use crate::daemon::cmdflags::{touch_bit_of, ALARM_BUS_FAULT, TOUCH_MASK_PRESENT};
use crate::daemon::engine::{
    alarms_of, all_still, begun, begun_report, cycled, data_of, decel_over, effective_word,
    is_stale, phase_of, published_slot, read_is_fresh, request_of, stop_begun, stop_outputs,
    stop_stepped, stop_word, stopped, ticked, Begun, EngineModel, Shutdown, JOG_BITS,
    SHUTDOWN_DISABLE_CYCLES,
};
use crate::fieldbus::{axis_out_off, AxisIn, AxisOut, BusState, ExchangeStatus, FieldbusError};
use crate::motion::axis::{homing_step, status_of, tick_of, Advance, TickInput};
use crate::motion::axis_laws::{
    ems_stops_and_freezes, held_home_never_restarts, held_move_never_restarts,
    released_commands_stop, run_of,
};
use crate::motion::flags::cmd;
use crate::motion::machine::{axis_tick, ems_held};
use crate::motion::step::motion_step;
use crate::shm::channel::latched;
use crate::shm::layout::PlcCommand;
use crate::shm::seqlock::ReadError;
use crate::time::Instant;

verus! {

/// The published cycle counter advances by one in every cycle and every step of
/// the controlled stop, whether or not the exchange succeeded: a frozen counter
/// means a dead daemon, never a dead bus.
pub proof fn the_cycle_counter_always_advances(
    m: EngineModel,
    b: Begun,
    now: Instant,
    ins: Seq<AxisIn>,
    advances: Seq<Advance>,
    bus_state: BusState,
)
    requires
        m.data.header.cycle < u64::MAX,
    ensures
        cycled(m, b, ins, advances, bus_state).data.header.cycle == m.data.header.cycle + 1,
        stopped(m, b, now, ins, advances, bus_state).data.header.cycle == m.data.header.cycle + 1,
{
}

/// Through a bus fault the state machines stand still and keep their published
/// status, the fault alarm is up, and commands are latched all the same; the
/// first good exchange takes the alarm down.
pub proof fn bus_faults_freeze_but_publish(
    m: EngineModel,
    now: Instant,
    e: FieldbusError,
    st: ExchangeStatus,
    read: Result<PlcCommand, ReadError>,
    ins: Seq<AxisIn>,
    advances: Seq<Advance>,
    bus_state: BusState,
)
    requires
        m.wkc_errors < u64::MAX,
    ensures
        ({
            let failed = Err::<ExchangeStatus, FieldbusError>(e);
            let good = Ok::<ExchangeStatus, FieldbusError>(st);
            let down = begun(m, now, failed, read);
            let after = cycled(down, begun_report(m, failed, read), ins, advances, bus_state);
            let up = begun(down, now, good, read);
            &&& after.axes == m.axes
            &&& after.latch == latched(m.latch, read)
            &&& after.data.system.alarm_flags & ALARM_BUS_FAULT != 0
            &&& forall|i: int|
                0 <= i < 4 && i < m.axes.len() ==> (#[trigger] after.data.machine.axes[i]).step
                    == status_of(m.axes[i], ins[i]).step
            &&& alarms_of(up) & ALARM_BUS_FAULT == 0
        }),
{
    let failed = Err::<ExchangeStatus, FieldbusError>(e);
    let down = begun(m, now, failed, read);
    let after = cycled(down, begun_report(m, failed, read), ins, advances, bus_state);
    let up = begun(down, now, Ok::<ExchangeStatus, FieldbusError>(st), read);
    lemma_alarm_bits(true, down.tripped);
    lemma_alarm_bits(false, up.tripped);
    assert forall|i: int| 0 <= i < 4 && i < m.axes.len() implies (
    #[trigger] after.data.machine.axes[i]).step == status_of(m.axes[i], ins[i]).step by {
        assert(after.data.machine.axes[i] == published_slot(down, ins, i));
    }
}

proof fn lemma_alarm_bits(a: bool, b: bool)
    by (bit_vector)
    ensures
        (((if a { 1u32 } else { 0 }) | (if b { 2u32 } else { 0 })) & 1 != 0) == a,
        (((if a { 1u32 } else { 0 }) | (if b { 2u32 } else { 0 })) & 2 != 0) == b,
{
}

/// A message is a new request for the axes that it touched and for no other: one
/// that marks its axes re-arms only those, one without marks re-arms all.
pub proof fn messages_arm_only_the_axes_they_touch(
    m: EngineModel,
    now: Instant,
    exchange: Result<ExchangeStatus, FieldbusError>,
    read: Result<PlcCommand, ReadError>,
    i: int,
)
    requires
        0 <= i < m.reqs.len(),
        i < 4,
    ensures
        ({
            let flags = latched(m.latch, read).current.header.flags;
            let fresh = begun(m, now, exchange, read).reqs[i].fresh;
            &&& !read_is_fresh(m, read) ==> !fresh
            &&& read_is_fresh(m, read) && flags & TOUCH_MASK_PRESENT == 0 ==> fresh
            &&& read_is_fresh(m, read) && flags & TOUCH_MASK_PRESENT != 0 ==> (fresh <==> flags
                & touch_bit_of(i as usize) != 0)
        }),
{
}

/// A message about other axes restarts nothing: through a whole cycle, an axis
/// whose move (or homing) is finished and latched stays out of it unless a new
/// message touches this very axis.
pub proof fn messages_for_other_axes_restart_nothing(
    m: EngineModel,
    now: Instant,
    exchange: Result<ExchangeStatus, FieldbusError>,
    read: Result<PlcCommand, ReadError>,
    ins: Seq<AxisIn>,
    advances: Seq<Advance>,
    bus_state: BusState,
    i: int,
)
    requires
        m.reqs.len() == m.axes.len(),
        0 <= i < m.axes.len(),
        i < 4,
        ({
            let flags = latched(m.latch, read).current.header.flags;
            !read_is_fresh(m, read) || flags & TOUCH_MASK_PRESENT != 0 && flags & touch_bit_of(
                i as usize,
            ) == 0
        }),
    ensures
        ({
            let b = begun_report(m, exchange, read);
            let after = cycled(begun(m, now, exchange, read), b, ins, advances, bus_state).axes[i];
            &&& m.axes[i].move_abs_rearm && !(m.axes[i].step is MoveAbs) ==> after.move_abs_rearm
                && !(after.step is MoveAbs)
            &&& m.axes[i].home_rearm && !homing_step(m.axes[i].step) ==> after.home_rearm
                && !homing_step(after.step)
        }),
{
    messages_arm_only_the_axes_they_touch(m, now, exchange, read, i);
    let e = begun(m, now, exchange, read);
    let b = begun_report(m, exchange, read);
    let t = axis_tick(b.machine_word, e.reqs, ins, advances, i);
    assert(!t.req.fresh);
    let one = seq![t];
    assert(one.drop_last() =~= Seq::<TickInput>::empty());
    reveal_with_fuel(run_of, 2);
    assert(run_of(e.axes[i], one) == tick_of(e.axes[i], t));
    if m.axes[i].move_abs_rearm && !(m.axes[i].step is MoveAbs) {
        held_move_never_restarts(e.axes[i], one);
    }
    if m.axes[i].home_rearm && !homing_step(m.axes[i].step) {
        held_home_never_restarts(e.axes[i], one);
    }
}

/// A silent operator's word loses its jog bits and nothing else.
pub proof fn only_jog_bits_are_stripped(word: u32, bit: u32)
    requires
        bit & JOG_BITS == 0,
    ensures
        effective_word(word, true) & JOG_BITS == 0,
        effective_word(word, true) & cmd::JOG_POS == 0,
        effective_word(word, true) & cmd::JOG_NEG == 0,
        effective_word(word, true) & bit == word & bit,
        effective_word(word, false) == word,
{
    assert((word & !0x30u32) & 0x30 == 0 && (word & !0x30u32) & 0x10 == 0 && (word & !0x30u32)
        & 0x20 == 0) by (bit_vector);
    assert(word & 0x30u32 == 0 ==> word & 0x10 == 0 && word & 0x20 == 0) by (bit_vector);
    assert(bit & 0x30u32 == 0 ==> (word & !0x30u32) & bit == word & bit) by (bit_vector);
}

/// The machine word, with its emergency stop, is never touched by the silence
/// of the operator.
pub proof fn emergency_stop_outlives_silence(
    m: EngineModel,
    now: Instant,
    exchange: Result<ExchangeStatus, FieldbusError>,
    read: Result<PlcCommand, ReadError>,
)
    ensures
        begun_report(m, exchange, read).machine_word == latched(
            m.latch,
            read,
        ).current.machine.control_flags,
        begun(m, now, exchange, read).latch == latched(m.latch, read),
{
}

/// The silence alarm holds until a new command arrives, and a new command takes
/// it down at once.
pub proof fn new_commands_end_the_silence(
    m: EngineModel,
    now: Instant,
    exchange: Result<ExchangeStatus, FieldbusError>,
    read: Result<PlcCommand, ReadError>,
)
    ensures
        m.tripped && !read_is_fresh(m, read) ==> begun(m, now, exchange, read).tripped,
        read_is_fresh(m, read) ==> !begun(m, now, exchange, read).tripped,
        read_is_fresh(m, read) ==> begun(m, now, exchange, read).last_fresh == now,
{
}

/// A jog whose operator fell silent is ramped down.
pub proof fn silent_jogs_are_stopped(
    m: EngineModel,
    c: PlcCommand,
    fresh: bool,
    i: int,
    ems: bool,
    input: AxisIn,
    advance: Advance,
)
    requires
        0 <= i < 4,
        i < m.axes.len(),
        m.axes[i].step is JogPos && !input.pos_limit || m.axes[i].step is JogNeg
            && !input.neg_limit,
        input.drive is Enabled,
    ensures
        tick_of(
            m.axes[i],
            TickInput { req: request_of(c, true, fresh, i), ems, input, advance },
        ).step is Stopping,
{
    let req = request_of(c, true, fresh, i);
    assert(0u32 & 0x30u32 == 0) by (bit_vector);
    only_jog_bits_are_stripped(c.machine.axes[i].control_flags, 0);
    let t = TickInput { req, ems, input, advance };
    if ems {
        ems_stops_and_freezes(m.axes[i], t);
    } else {
        released_commands_stop(m.axes[i], t);
    }
}

/// With the emergency stop in force, a cycle with a good exchange leaves no axis
/// in a motion step; so does every step of the ramp-down.
pub proof fn emergency_stop_halts_all_axes(
    m: EngineModel,
    machine_word: u32,
    ins: Seq<AxisIn>,
    advances: Seq<Advance>,
    i: int,
)
    requires
        ems_held(machine_word),
        0 <= i < m.axes.len(),
    ensures
        !motion_step(ticked(m, machine_word, ins, advances).axes[i].step),
{
    ems_stops_and_freezes(m.axes[i], axis_tick(machine_word, m.reqs, ins, advances, i));
}

/// The controlled stop always forces the emergency stop.
pub proof fn the_controlled_stop_forces_ems(machine_word: u32)
    ensures
        ems_held(stop_word(machine_word)),
{
    assert((machine_word | 0x02u32) & 0x02 != 0) by (bit_vector);
}

/// Power is taken away only after the ramp-down: the step that ends it saw every
/// axis stand still in a good exchange, or ran out of time.
pub proof fn power_stays_until_standstill_or_timeout(
    m: EngineModel,
    b: Begun,
    now: Instant,
    since: Instant,
    ins: Seq<AxisIn>,
    advances: Seq<Advance>,
)
    requires
        m.shutdown == (Shutdown::Decel { since }),
        !(stop_stepped(m, b, now, ins, advances).shutdown is Decel),
    ensures
        b.exchange_ok && all_still(stop_stepped(m, b, now, ins, advances).axes, ins) || now.since(
            since,
        ) >= m.shutdown_timeout.nanos,
{
}

/// While drives are being disabled every output asks for power off and no
/// motion, and no axis ticks.
pub proof fn disabling_switches_everything_off(
    m: EngineModel,
    b: Begun,
    now: Instant,
    ins: Seq<AxisIn>,
    advances: Seq<Advance>,
    before: Seq<AxisOut>,
    i: int,
)
    requires
        m.shutdown is Disable,
        0 <= i < before.len(),
    ensures
        stop_outputs(m, b, now, ins, advances, before)[i] == axis_out_off(),
        stop_stepped(m, b, now, ins, advances).axes == m.axes,
{
}

/// Progress of the controlled stop in a step; `over` says whether the ramp-down
/// is over.
pub open spec fn stop_next(s: Shutdown, over: bool) -> Shutdown {
    match s {
        Shutdown::Decel { since } => if over {
            Shutdown::Disable { cycles_left: SHUTDOWN_DISABLE_CYCLES }
        } else {
            s
        },
        Shutdown::Disable { cycles_left } => if cycles_left <= 1 {
            Shutdown::Done
        } else {
            Shutdown::Disable { cycles_left: (cycles_left - 1) as u32 }
        },
        _ => Shutdown::Done,
    }
}

/// Every step of the controlled stop makes this progress, and the ramp-down is
/// over no later than its timeout.
pub proof fn stop_steps_make_progress(
    m: EngineModel,
    b: Begun,
    now: Instant,
    ins: Seq<AxisIn>,
    advances: Seq<Advance>,
)
    ensures
        exists|over: bool|
            stop_stepped(m, b, now, ins, advances).shutdown == #[trigger] stop_next(
                stop_begun(m.shutdown, now),
                over,
            ) && (stop_begun(m.shutdown, now) matches Shutdown::Decel { since } ==> now.since(since)
                >= m.shutdown_timeout.nanos ==> over),
{
    match stop_begun(m.shutdown, now) {
        Shutdown::Decel { since } => {
            let t = if b.exchange_ok {
                ticked(m, stop_word(b.machine_word), ins, advances)
            } else {
                m
            };
            let over = decel_over(t, b, since, now, ins);
            assert(stop_stepped(m, b, now, ins, advances).shutdown == stop_next(
                stop_begun(m.shutdown, now),
                over,
            ));
        },
        _ => {
            assert(stop_stepped(m, b, now, ins, advances).shutdown == stop_next(
                stop_begun(m.shutdown, now),
                true,
            ));
        },
    }
}

/// Progress after a run of steps.
pub open spec fn stop_run(s: Shutdown, overs: Seq<bool>) -> Shutdown
    decreases overs.len(),
{
    if overs.len() == 0 {
        s
    } else {
        stop_next(stop_run(s, overs.drop_last()), overs.last())
    }
}

/// The controlled stop always ends: ten steps after the one that ends the
/// ramp-down it is done, whatever happens meanwhile, and it stays done.
pub proof fn the_controlled_stop_ends(since: Instant, overs: Seq<bool>, end: int)
    requires
        0 <= end < overs.len(),
        overs[end],
        overs.len() >= end + 1 + SHUTDOWN_DISABLE_CYCLES,
    ensures
        phase_of(stop_run(Shutdown::Decel { since }, overs)) is Done,
    decreases overs.len(),
{
    lemma_stop_run(since, overs, end);
}

/// Where a run of steps stands.
proof fn lemma_stop_run(since: Instant, overs: Seq<bool>, end: int)
    requires
        0 <= end < overs.len(),
        overs[end],
    ensures
        match stop_run(Shutdown::Decel { since }, overs) {
            Shutdown::Disable { cycles_left } => cycles_left >= 1 && cycles_left + overs.len()
                <= end + 1 + SHUTDOWN_DISABLE_CYCLES,
            Shutdown::Done => true,
            _ => false,
        },
    decreases overs.len(),
{
    let before = overs.drop_last();
    if end < before.len() {
        assert(before[end] == overs[end]);
        lemma_stop_run(since, before, end);
    } else {
        lemma_stop_early(since, before);
    }
}

/// A run of steps is ramping down, disabling with at most the steps left, or
/// done.
proof fn lemma_stop_early(since: Instant, overs: Seq<bool>)
    ensures
        match stop_run(Shutdown::Decel { since }, overs) {
            Shutdown::Decel { since: s } => s == since,
            Shutdown::Disable { cycles_left } => 1 <= cycles_left <= SHUTDOWN_DISABLE_CYCLES,
            Shutdown::Done => true,
            _ => false,
        },
    decreases overs.len(),
{
    if overs.len() > 0 {
        lemma_stop_early(since, overs.drop_last());
    }
}

/// Slots beyond the served axes are never written.
pub proof fn unserved_slots_stay(
    m: EngineModel,
    ins: Seq<AxisIn>,
    bus_state: BusState,
    machine_word: u32,
    i: int,
)
    requires
        m.axes.len() <= i < 4,
        0 <= i,
    ensures
        data_of(m, ins, bus_state, machine_word).machine.axes[i] == m.data.machine.axes[i],
{
}

/// Nothing is stale without a timeout, and a jog is stripped only after more
/// than the timeout has passed since the last new command.
pub proof fn only_long_silence_is_stale(m: EngineModel, now: Instant)
    ensures
        m.cmd_timeout is None ==> !is_stale(m, now),
        m.cmd_timeout matches Some(t) ==> (is_stale(m, now) <==> now.since(m.last_fresh) > t.nanos),
{
}

} // verus!
