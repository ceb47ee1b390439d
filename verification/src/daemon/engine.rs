//! The daemon's cycle between two bus exchanges: latch the command, tick the
//! state machines, fill the published data; and the controlled stop.
//!
//! A cycle has two halves around the profile arithmetic. `begin` takes the
//! result of the exchange and of one read of the command segment, and builds
//! the requests. `demand` then says which profile step an axis needs, and
//! `cycle` or `shutdown_step` takes the outcomes. The data to publish is in
//! `data` afterwards.
use vstd::prelude::*;

use crate::daemon::cmdflags::{
    axis_fresh, touches, ALARM_BUS_FAULT, ALARM_CMD_TIMEOUT, STATUS_BUS_OP,
};
use crate::fieldbus::{
    axis_out_off, AxisIn, AxisOut, BusState, ExchangeStatus, FieldbusError, Setpoint,
};
use crate::motion::axis::{
    at_standstill, demand_of, flag_if, initial_axis, no_request, outputs_of, status_of, tick_of,
    Advance, AxisModel, AxisParams, AxisRequest, AxisStatus, Demand,
};
use crate::motion::axis_laws::status_flags_tell_the_state;
use crate::motion::flags::{machine_cmd, status};
use crate::motion::machine::{axis_tick, ems_held, run_state_of, MachineControl};
use crate::scalar::Scalar;
use crate::shm::channel::{
    advance_cycle, empty_latch, fresh_data, latch_report, latched, new_data, next_cycle, CmdLatch,
    LatchModel,
};
use crate::shm::layout::{
    AxisCmd, AxisState, MachineState, PlcCommand, PlcData, ProductionState, SystemState,
};
use crate::shm::seqlock::ReadError;
use crate::time::{Duration, Instant};

verus! {

/// Cycles with power off before the bus is released.
pub const SHUTDOWN_DISABLE_CYCLES: u32 = 10;

/// Both jog bits.
pub const JOG_BITS: u32 = 0x30;

/// The published temperature: 25 °C.
pub const TEMPERATURE_BITS: u64 = 0x4039_0000_0000_0000;

#[derive(Clone, Copy, Debug)]
pub struct EngineConfig {
    /// Served axes.
    pub axes: usize,
    pub params: AxisParams,
    /// How long a held jog lives without a new command; none: forever.
    pub cmd_timeout: Option<Duration>,
    /// Upper bound on the ramp-down of the controlled stop.
    pub shutdown_timeout: Duration,
}

/// What one cycle did.
#[derive(Clone, Copy, Debug, Default, PartialEq, Eq, Structural)]
pub struct CycleReport {
    /// The exchange succeeded, and the state machines ticked.
    pub exchange_ok: bool,
    /// A new command was latched.
    pub fresh: bool,
    /// The command segment has a valid writer.
    pub cmd_ok: bool,
    /// The working counter was wrong.
    pub wkc_error: bool,
    /// The alarm flags published.
    pub alarm_flags: u32,
}

/// Where the controlled stop stands after a step.
#[derive(Clone, Copy, Debug, PartialEq, Eq, Structural)]
pub enum ShutdownPhase {
    /// Ramping down, waiting for standstill.
    Decel,
    /// Drives told to disable.
    Disable,
    /// The bus may be released.
    Done,
}

/// Progress of the controlled stop.
#[derive(Clone, Copy, Debug, PartialEq, Eq, Structural)]
pub enum Shutdown {
    NotStarted,
    Decel { since: Instant },
    Disable { cycles_left: u32 },
    Done,
}

/// What `begin` found.
#[derive(Clone, Copy, Debug, PartialEq, Eq, Structural)]
pub struct Begun {
    pub exchange_ok: bool,
    pub wkc_error: bool,
    pub fresh: bool,
    /// The machine word in force.
    pub machine_word: u32,
}

/// The state of the engine.
pub struct EngineModel {
    pub data: PlcData,
    pub latch: LatchModel,
    pub axes: Seq<AxisModel>,
    pub reqs: Seq<AxisRequest>,
    pub cmd_timeout: Option<Duration>,
    pub shutdown_timeout: Duration,
    /// When the last new command was latched.
    pub last_fresh: Instant,
    pub cmd_ok: bool,
    /// The jog of a silent operator is being stripped.
    pub tripped: bool,
    /// The last exchange failed, with this error.
    pub exchange_err: Option<FieldbusError>,
    pub wkc_errors: u64,
    pub shutdown: Shutdown,
}

pub struct Engine {
    data: PlcData,
    latch: CmdLatch,
    machine: MachineControl,
    reqs: Vec<AxisRequest>,
    cmd_timeout: Option<Duration>,
    shutdown_timeout: Duration,
    last_fresh: Instant,
    cmd_ok: bool,
    tripped: bool,
    exchange_err: Option<FieldbusError>,
    wkc_errors: u64,
    shutdown: Shutdown,
}

impl View for Engine {
    type V = EngineModel;

    closed spec fn view(&self) -> EngineModel {
        EngineModel {
            data: self.data,
            latch: self.latch@,
            axes: self.machine@,
            reqs: self.reqs@,
            cmd_timeout: self.cmd_timeout,
            shutdown_timeout: self.shutdown_timeout,
            last_fresh: self.last_fresh,
            cmd_ok: self.cmd_ok,
            tripped: self.tripped,
            exchange_err: self.exchange_err,
            wkc_errors: self.wkc_errors,
            shutdown: self.shutdown,
        }
    }
}

/// The engine after it noted the result of an exchange.
pub open spec fn exchange_noted(
    m: EngineModel,
    exchange: Result<ExchangeStatus, FieldbusError>,
) -> EngineModel {
    match exchange {
        Ok(st) => EngineModel {
            exchange_err: None,
            wkc_errors: (m.wkc_errors + if st.working_counter_ok {
                0int
            } else {
                1
            }) as u64,
            ..m
        },
        Err(e) => EngineModel { exchange_err: Some(e), ..m },
    }
}

/// A read of the command segment brought a new command.
pub open spec fn read_is_fresh(m: EngineModel, read: Result<PlcCommand, ReadError>) -> bool {
    latch_report(m.latch, read) == Ok::<bool, ReadError>(true)
}

/// The engine after one read of the command segment: a new command restarts the
/// silence clock and clears its alarm.
pub open spec fn command_polled(
    m: EngineModel,
    now: Instant,
    read: Result<PlcCommand, ReadError>,
) -> EngineModel {
    let fresh = read_is_fresh(m, read);
    EngineModel {
        latch: latched(m.latch, read),
        cmd_ok: read is Ok,
        last_fresh: if fresh {
            now
        } else {
            m.last_fresh
        },
        tripped: m.tripped && !fresh,
        ..m
    }
}

/// No new command has arrived for longer than allowed.
pub open spec fn is_stale(m: EngineModel, now: Instant) -> bool {
    m.cmd_timeout matches Some(t) && now.since(m.last_fresh) > t.nanos
}

/// The command word that is acted on: of a silent operator, the jog bits are
/// taken out and nothing else.
pub open spec fn effective_word(word: u32, stale: bool) -> u32 {
    if stale && word & JOG_BITS != 0 {
        word & !JOG_BITS
    } else {
        word
    }
}

/// The request of axis `i` from the command in force.
pub open spec fn request_of(c: PlcCommand, stale: bool, fresh: bool, i: int) -> AxisRequest {
    let a = c.machine.axes[i];
    AxisRequest {
        word: effective_word(a.control_flags, stale),
        jog_vel: a.jog_vel,
        move_abs_pos: a.move_abs_pos,
        move_abs_vel: a.move_abs_vel,
        fresh: fresh && touches(c.header.flags, i as usize),
    }
}

/// A jog of one of the first `n` axes is held.
pub open spec fn jog_held_below(c: PlcCommand, n: int) -> bool {
    exists|i: int| 0 <= i < n && (#[trigger] c.machine.axes[i]).control_flags & JOG_BITS != 0
}

/// The axes that have a slot in the segments.
pub open spec fn slots(n: nat) -> int {
    if n < 4 {
        n as int
    } else {
        4
    }
}

/// The engine after it built the requests of a cycle.
pub open spec fn requests_built(m: EngineModel, now: Instant, fresh: bool) -> EngineModel {
    let stale = is_stale(m, now);
    let c = m.latch.current;
    EngineModel {
        reqs: Seq::new(
            m.reqs.len(),
            |i: int|
                if i < 4 {
                    request_of(c, stale, fresh, i)
                } else {
                    m.reqs[i]
                },
        ),
        tripped: m.tripped || stale && jog_held_below(c, slots(m.reqs.len())),
        ..m
    }
}

/// The engine after the first half of a cycle.
pub open spec fn begun(
    m: EngineModel,
    now: Instant,
    exchange: Result<ExchangeStatus, FieldbusError>,
    read: Result<PlcCommand, ReadError>,
) -> EngineModel {
    requests_built(
        command_polled(exchange_noted(m, exchange), now, read),
        now,
        read_is_fresh(m, read),
    )
}

/// What the first half of a cycle found.
pub open spec fn begun_report(
    m: EngineModel,
    exchange: Result<ExchangeStatus, FieldbusError>,
    read: Result<PlcCommand, ReadError>,
) -> Begun {
    Begun {
        exchange_ok: exchange is Ok,
        wkc_error: exchange matches Ok(st) && !st.working_counter_ok,
        fresh: read_is_fresh(m, read),
        machine_word: latched(m.latch, read).current.machine.control_flags,
    }
}

/// The alarm flags to publish.
pub open spec fn alarms_of(m: EngineModel) -> u32 {
    flag_if(m.exchange_err is Some, ALARM_BUS_FAULT) | flag_if(m.tripped, ALARM_CMD_TIMEOUT)
}

/// The published state of an axis.
pub open spec fn axis_state_of(slot: AxisState, axis: AxisModel, input: AxisIn) -> AxisState {
    let st = status_of(axis, input);
    AxisState {
        act_pos: input.act_pos,
        act_vel: input.act_vel,
        set_pos: st.set_pos,
        set_vel: st.set_vel,
        step: st.step,
        flags: st.flags,
        error_id: st.error_id,
        ..slot
    }
}

/// Slot `i` of the published axes: served axes show their state, the others
/// stay as they are.
pub open spec fn published_slot(m: EngineModel, ins: Seq<AxisIn>, i: int) -> AxisState {
    if i < m.axes.len() {
        axis_state_of(m.data.machine.axes[i], m.axes[i], ins[i])
    } else {
        m.data.machine.axes[i]
    }
}

/// The data to publish at the end of a cycle.
pub open spec fn data_of(
    m: EngineModel,
    ins: Seq<AxisIn>,
    bus_state: BusState,
    machine_word: u32,
) -> PlcData {
    next_cycle(
        PlcData {
            system: SystemState {
                temperature: Scalar { bits: TEMPERATURE_BITS },
                status_flags: flag_if(bus_state is Op, STATUS_BUS_OP),
                alarm_flags: alarms_of(m),
            },
            machine: MachineState {
                axes: [
                    published_slot(m, ins, 0),
                    published_slot(m, ins, 1),
                    published_slot(m, ins, 2),
                    published_slot(m, ins, 3),
                ],
                run_state: run_state_of(machine_word),
                alarms: 0,
            },
            production: ProductionState {
                n_production_state: m.latch.current.production.n_production_state,
                ..m.data.production
            },
            ..m.data
        },
    )
}

/// The engine after its state machines ticked.
pub open spec fn ticked(
    m: EngineModel,
    machine_word: u32,
    ins: Seq<AxisIn>,
    advances: Seq<Advance>,
) -> EngineModel {
    EngineModel {
        axes: Seq::new(
            m.axes.len(),
            |i: int| tick_of(m.axes[i], axis_tick(machine_word, m.reqs, ins, advances, i)),
        ),
        ..m
    }
}

/// The outputs that the axes ask for.
pub open spec fn outputs_from(axes: Seq<AxisModel>, ins: Seq<AxisIn>) -> Seq<AxisOut> {
    Seq::new(axes.len(), |i: int| outputs_of(axes[i], ins[i]))
}

/// The engine after a normal cycle: a failed exchange ticks nothing, and the
/// data is published all the same.
pub open spec fn cycled(
    m: EngineModel,
    b: Begun,
    ins: Seq<AxisIn>,
    advances: Seq<Advance>,
    bus_state: BusState,
) -> EngineModel {
    let t = if b.exchange_ok {
        ticked(m, b.machine_word, ins, advances)
    } else {
        m
    };
    EngineModel { data: data_of(t, ins, bus_state, b.machine_word), ..t }
}

/// What a cycle reports.
pub open spec fn report_of(m: EngineModel, b: Begun) -> CycleReport {
    CycleReport {
        exchange_ok: b.exchange_ok,
        fresh: b.fresh,
        cmd_ok: m.cmd_ok,
        wkc_error: b.wkc_error,
        alarm_flags: m.data.system.alarm_flags,
    }
}

/// The machine word of the controlled stop: emergency stop is forced.
pub open spec fn stop_word(machine_word: u32) -> u32 {
    machine_word | machine_cmd::EMS
}

/// The controlled stop, begun with this cycle if it was not before.
pub open spec fn stop_begun(s: Shutdown, now: Instant) -> Shutdown {
    if s is NotStarted {
        Shutdown::Decel { since: now }
    } else {
        s
    }
}

/// Every axis stands still.
pub open spec fn all_still(axes: Seq<AxisModel>, ins: Seq<AxisIn>) -> bool {
    forall|i: int| 0 <= i < axes.len() ==> at_standstill(#[trigger] axes[i], ins[i])
}

/// The ramp-down is over: every axis is seen to stand still, or time is up. A
/// failed exchange shows nothing.
pub open spec fn decel_over(
    m: EngineModel,
    b: Begun,
    since: Instant,
    now: Instant,
    ins: Seq<AxisIn>,
) -> bool {
    b.exchange_ok && all_still(m.axes, ins) || now.since(since) >= m.shutdown_timeout.nanos
}

/// The engine after a step of the controlled stop, before it publishes.
pub open spec fn stop_stepped(
    m: EngineModel,
    b: Begun,
    now: Instant,
    ins: Seq<AxisIn>,
    advances: Seq<Advance>,
) -> EngineModel {
    match stop_begun(m.shutdown, now) {
        Shutdown::Decel { since } => {
            let t = if b.exchange_ok {
                ticked(m, stop_word(b.machine_word), ins, advances)
            } else {
                m
            };
            EngineModel {
                shutdown: if decel_over(t, b, since, now, ins) {
                    Shutdown::Disable { cycles_left: SHUTDOWN_DISABLE_CYCLES }
                } else {
                    Shutdown::Decel { since }
                },
                ..t
            }
        },
        Shutdown::Disable { cycles_left } => EngineModel {
            shutdown: if cycles_left <= 1 {
                Shutdown::Done
            } else {
                Shutdown::Disable { cycles_left: (cycles_left - 1) as u32 }
            },
            ..m
        },
        _ => EngineModel { shutdown: Shutdown::Done, ..m },
    }
}

/// The engine after a step of the controlled stop.
pub open spec fn stopped(
    m: EngineModel,
    b: Begun,
    now: Instant,
    ins: Seq<AxisIn>,
    advances: Seq<Advance>,
    bus_state: BusState,
) -> EngineModel {
    let t = stop_stepped(m, b, now, ins, advances);
    EngineModel { data: data_of(t, ins, bus_state, stop_word(b.machine_word)), ..t }
}

/// The phase that this progress is reported as.
pub open spec fn phase_of(s: Shutdown) -> ShutdownPhase {
    match s {
        Shutdown::NotStarted | Shutdown::Decel { .. } => ShutdownPhase::Decel,
        Shutdown::Disable { .. } => ShutdownPhase::Disable,
        Shutdown::Done => ShutdownPhase::Done,
    }
}

/// The outputs after a step of the controlled stop.
pub open spec fn stop_outputs(
    m: EngineModel,
    b: Begun,
    now: Instant,
    ins: Seq<AxisIn>,
    advances: Seq<Advance>,
    before: Seq<AxisOut>,
) -> Seq<AxisOut> {
    match stop_begun(m.shutdown, now) {
        Shutdown::Decel { .. } => if b.exchange_ok {
            outputs_from(stop_stepped(m, b, now, ins, advances).axes, ins)
        } else {
            before
        },
        Shutdown::Disable { .. } => Seq::new(before.len(), |i: int| axis_out_off()),
        _ => before,
    }
}

/// The profile step that axis `i` needs in the second half of a cycle.
pub open spec fn engine_demand(
    m: EngineModel,
    b: Begun,
    stopping: bool,
    i: int,
    input: AxisIn,
) -> Demand {
    if !b.exchange_ok || stopping && (m.shutdown is Disable || m.shutdown is Done) {
        Demand::Rest
    } else {
        demand_of(
            m.axes[i],
            m.reqs[i],
            ems_held(
                if stopping {
                    stop_word(b.machine_word)
                } else {
                    b.machine_word
                },
            ),
            input,
        )
    }
}

impl Engine {
    /// Every axis has a request.
    pub closed spec fn valid(self) -> bool {
        self.reqs@.len() == self.machine@.len()
    }

    /// `now` starts the silence clock.
    pub fn new(cfg: EngineConfig, now: Instant) -> (r: Engine)
        ensures
            r.valid(),
            r@ == (EngineModel {
                data: fresh_data(),
                latch: empty_latch(),
                axes: Seq::new(cfg.axes as nat, |i: int| initial_axis(cfg.params)),
                reqs: Seq::new(cfg.axes as nat, |i: int| no_request()),
                cmd_timeout: cfg.cmd_timeout,
                shutdown_timeout: cfg.shutdown_timeout,
                last_fresh: now,
                cmd_ok: false,
                tripped: false,
                exchange_err: None,
                wkc_errors: 0,
                shutdown: Shutdown::NotStarted,
            }),
    {
        let mut reqs: Vec<AxisRequest> = Vec::new();
        while reqs.len() < cfg.axes
            invariant
                reqs@.len() <= cfg.axes,
                forall|i: int| 0 <= i < reqs@.len() ==> #[trigger] reqs@[i] == no_request(),
            decreases cfg.axes - reqs@.len(),
        {
            reqs.push(
                AxisRequest {
                    word: 0,
                    jog_vel: Scalar::zero(),
                    move_abs_pos: Scalar::zero(),
                    move_abs_vel: Scalar::zero(),
                    fresh: false,
                },
            );
        }
        let r = Engine {
            data: new_data(),
            latch: CmdLatch::new(),
            machine: MachineControl::new(cfg.axes, cfg.params),
            reqs,
            cmd_timeout: cfg.cmd_timeout,
            shutdown_timeout: cfg.shutdown_timeout,
            last_fresh: now,
            cmd_ok: false,
            tripped: false,
            exchange_err: None,
            wkc_errors: 0,
            shutdown: Shutdown::NotStarted,
        };
        assert(r@.reqs =~= Seq::new(cfg.axes as nat, |i: int| no_request()));
        r
    }

    /// The data to publish, as of the last cycle.
    pub fn data(&self) -> (r: &PlcData)
        ensures
            *r == self@.data,
    {
        &self.data
    }

    /// Exchanges with a wrong working counter, since start.
    pub fn wkc_errors(&self) -> (r: u64)
        ensures
            r == self@.wkc_errors,
    {
        self.wkc_errors
    }

    /// First half of a cycle: note the exchange made with the previous outputs,
    /// take one read of the command segment, and build the requests.
    pub fn begin(
        &mut self,
        now: Instant,
        exchange: &Result<ExchangeStatus, FieldbusError>,
        read: Result<PlcCommand, ReadError>,
    ) -> (r: Begun)
        requires
            old(self).valid(),
            old(self)@.wkc_errors < u64::MAX,
        ensures
            final(self).valid(),
            final(self)@ == begun(old(self)@, now, *exchange, read),
            r == begun_report(old(self)@, *exchange, read),
    {
        let (exchange_ok, wkc_error) = self.note_exchange(exchange);
        let fresh = self.poll_command(now, read);
        let machine_word: u32 = self.build_requests(now, fresh);
        Begun { exchange_ok, wkc_error, fresh, machine_word }
    }

    fn note_exchange(&mut self, exchange: &Result<ExchangeStatus, FieldbusError>) -> (r: (bool, bool))
        requires
            old(self)@.wkc_errors < u64::MAX,
        ensures
            final(self)@ == exchange_noted(old(self)@, *exchange),
            final(self).valid() == old(self).valid(),
            r.0 == (exchange is Ok),
            r.1 == (exchange matches Ok(st) && !st.working_counter_ok),
    {
        match exchange {
            Ok(st) => {
                self.exchange_err = None;
                if !st.working_counter_ok {
                    self.wkc_errors = self.wkc_errors + 1;
                }
                (true, !st.working_counter_ok)
            },
            Err(e) => {
                self.exchange_err = Some(*e);
                (false, false)
            },
        }
    }

    fn poll_command(&mut self, now: Instant, read: Result<PlcCommand, ReadError>) -> (r: bool)
        ensures
            final(self)@ == command_polled(old(self)@, now, read),
            final(self).valid() == old(self).valid(),
            r == read_is_fresh(old(self)@, read),
    {
        let fresh = match self.latch.accept(read) {
            Ok(f) => {
                self.cmd_ok = true;
                f
            },
            Err(_) => {
                self.cmd_ok = false;
                false
            },
        };
        if fresh {
            self.last_fresh = now;
            self.tripped = false;
        }
        fresh
    }

    fn build_requests(&mut self, now: Instant, fresh: bool) -> (r: u32)
        requires
            old(self).valid(),
        ensures
            final(self).valid(),
            final(self)@ == requests_built(old(self)@, now, fresh),
            r == old(self)@.latch.current.machine.control_flags,
    {
        let c: PlcCommand = *self.latch.current();
        let flags: u16 = c.header.flags;
        let stale = match self.cmd_timeout {
            Some(t) => now.saturating_duration_since(self.last_fresh).nanos > t.nanos,
            None => false,
        };
        let n: usize = self.reqs.len();
        let count: usize = if n < 4 {
            n
        } else {
            4
        };
        let ghost before = self@;
        let mut stripped = false;
        let mut i: usize = 0;
        while i < count
            invariant
                count == slots(n as nat),
                n == before.reqs.len(),
                n == self.reqs@.len(),
                i <= count,
                self.valid(),
                c == before.latch.current,
                flags == c.header.flags,
                stale == is_stale(before, now),
                self@ == (EngineModel { reqs: self.reqs@, ..before }),
                stripped == (stale && jog_held_below(c, i as int)),
                forall|k: int|
                    0 <= k < i ==> #[trigger] self.reqs@[k] == request_of(c, stale, fresh, k),
                forall|k: int| i <= k < n ==> #[trigger] self.reqs@[k] == before.reqs[k],
            decreases count - i,
        {
            let a: AxisCmd = c.machine.axes[i];
            let mut word: u32 = a.control_flags;
            if stale && word & JOG_BITS != 0 {
                word = word & !JOG_BITS;
                stripped = true;
            }
            self.reqs[i] = AxisRequest {
                word,
                jog_vel: a.jog_vel,
                move_abs_pos: a.move_abs_pos,
                move_abs_vel: a.move_abs_vel,
                fresh: axis_fresh(fresh, flags, i),
            };
            assert(c.machine.axes[i as int].control_flags & JOG_BITS != 0 ==> jog_held_below(
                c,
                i + 1,
            ));
            i += 1;
        }
        if stripped {
            self.tripped = true;
        }
        assert(self@.reqs =~= requests_built(before, now, fresh).reqs);
        c.machine.control_flags
    }

    fn alarm_flags(&self) -> (r: u32)
        ensures
            r == alarms_of(self@),
    {
        let bus: u32 = if self.exchange_err.is_some() {
            ALARM_BUS_FAULT
        } else {
            0
        };
        let silent: u32 = if self.tripped {
            ALARM_CMD_TIMEOUT
        } else {
            0
        };
        bus | silent
    }

    /// The profile step that axis `i` needs in the second half of a cycle, or of
    /// a step of the controlled stop.
    pub fn demand(&self, b: &Begun, stopping: bool, i: usize, input: &AxisIn) -> (r: Demand)
        requires
            self.valid(),
            i < self@.axes.len(),
        ensures
            r == engine_demand(self@, *b, stopping, i as int, *input),
    {
        if !b.exchange_ok {
            return Demand::Rest;
        }
        if stopping {
            match self.shutdown {
                Shutdown::Disable { .. } | Shutdown::Done => {
                    return Demand::Rest;
                },
                _ => {},
            }
            return self.machine.demand(
                i,
                b.machine_word | machine_cmd::EMS,
                &self.reqs[i],
                input,
            );
        }
        self.machine.demand(i, b.machine_word, &self.reqs[i], input)
    }

    fn publish(&mut self, ins: &[AxisIn], bus_state: BusState, machine_word: u32)
        requires
            old(self).valid(),
            ins@.len() == old(self)@.axes.len(),
        ensures
            final(self).valid(),
            final(self)@ == (EngineModel {
                data: data_of(old(self)@, ins@, bus_state, machine_word),
                ..old(self)@
            }),
    {
        let ghost m = self@;
        let alarms: u32 = self.alarm_flags();
        let mut d: PlcData = self.data;
        d.system = SystemState {
            temperature: Scalar { bits: TEMPERATURE_BITS },
            status_flags: if bus_state == BusState::Op {
                STATUS_BUS_OP
            } else {
                0
            },
            alarm_flags: alarms,
        };
        let n: usize = ins.len();
        let mut i: usize = 0;
        while i < 4 && i < n
            invariant
                i <= 4,
                i <= n,
                n == ins@.len(),
                n == self.machine@.len(),
                self@ == m,
                d.header == m.data.header,
                d.production == m.data.production,
                d.system == (SystemState {
                    temperature: Scalar { bits: TEMPERATURE_BITS },
                    status_flags: flag_if(bus_state is Op, STATUS_BUS_OP),
                    alarm_flags: alarms,
                }),
                forall|k: int|
                    0 <= k < i ==> #[trigger] d.machine.axes[k] == published_slot(m, ins@, k),
                forall|k: int|
                    i <= k < 4 ==> #[trigger] d.machine.axes[k] == m.data.machine.axes[k],
            decreases 4 - i,
        {
            let st: AxisStatus = self.machine.status(i, &ins[i]);
            let slot: AxisState = d.machine.axes[i];
            d.machine.axes[i] = AxisState {
                act_pos: ins[i].act_pos,
                act_vel: ins[i].act_vel,
                set_pos: st.set_pos,
                set_vel: st.set_vel,
                step: st.step,
                flags: st.flags,
                error_id: st.error_id,
                ..slot
            };
            i += 1;
        }
        d.machine.run_state = MachineControl::run_state(machine_word);
        d.machine.alarms = 0;
        d.production.n_production_state = self.latch.current().production.n_production_state;
        advance_cycle(&mut d);
        proof {
            let expected = data_of(m, ins@, bus_state, machine_word);
            assert forall|k: int| 0 <= k < 4 implies #[trigger] d.machine.axes[k]
                == expected.machine.axes[k] by {
                assert(d.machine.axes[k] == published_slot(m, ins@, k));
            }
            assert(d.machine.axes =~= expected.machine.axes);
        }
        self.data = d;
    }

    fn tick(
        &mut self,
        machine_word: u32,
        ins: &[AxisIn],
        advances: &[Advance],
        outs: &mut [AxisOut],
    )
        requires
            old(self).valid(),
            ins@.len() == old(self)@.axes.len(),
            advances@.len() == old(self)@.axes.len(),
            old(outs)@.len() == old(self)@.axes.len(),
        ensures
            final(self).valid(),
            final(self)@ == ticked(old(self)@, machine_word, ins@, advances@),
            final(outs)@ == outputs_from(final(self)@.axes, ins@),
    {
        self.machine.tick(machine_word, self.reqs.as_slice(), ins, advances, outs);
        assert(outs@ =~= outputs_from(self@.axes, ins@));
    }

    fn report(&self, b: &Begun) -> (r: CycleReport)
        ensures
            r == report_of(self@, *b),
    {
        CycleReport {
            exchange_ok: b.exchange_ok,
            fresh: b.fresh,
            cmd_ok: self.cmd_ok,
            wkc_error: b.wkc_error,
            alarm_flags: self.data.system.alarm_flags,
        }
    }

    /// Second half of a normal cycle. `advances[i]` is the outcome of the step
    /// that `demand` asks for axis `i`. After a failed exchange the inputs are
    /// stale: nothing ticks and the outputs stay, but the data is published.
    pub fn cycle(
        &mut self,
        b: &Begun,
        ins: &[AxisIn],
        advances: &[Advance],
        outs: &mut [AxisOut],
        bus_state: BusState,
    ) -> (r: CycleReport)
        requires
            old(self).valid(),
            ins@.len() == old(self)@.axes.len(),
            advances@.len() == old(self)@.axes.len(),
            old(outs)@.len() == old(self)@.axes.len(),
        ensures
            final(self).valid(),
            final(self)@ == cycled(old(self)@, *b, ins@, advances@, bus_state),
            final(outs)@ == if b.exchange_ok {
                outputs_from(final(self)@.axes, ins@)
            } else {
                old(outs)@
            },
            r == report_of(final(self)@, *b),
    {
        if b.exchange_ok {
            self.tick(b.machine_word, ins, advances, outs);
        }
        self.publish(ins, bus_state, b.machine_word);
        self.report(b)
    }

    fn standing_still(&self, ins: &[AxisIn]) -> (r: bool)
        requires
            ins@.len() == self@.axes.len(),
        ensures
            r == all_still(self@.axes, ins@),
    {
        let n: usize = ins.len();
        let mut i: usize = 0;
        while i < n
            invariant
                i <= n,
                n == ins@.len(),
                n == self@.axes.len(),
                forall|k: int| 0 <= k < i ==> at_standstill(#[trigger] self@.axes[k], ins@[k]),
            decreases n - i,
        {
            proof {
                status_flags_tell_the_state(self@.axes[i as int], ins@[i as int]);
            }
            if self.machine.status(i, &ins[i]).flags & status::STANDSTILL == 0 {
                return false;
            }
            i += 1;
        }
        true
    }

    fn switch_off(outs: &mut [AxisOut])
        ensures
            final(outs)@ == Seq::new(old(outs)@.len(), |i: int| axis_out_off()),
    {
        let n: usize = outs.len();
        let mut i: usize = 0;
        while i < n
            invariant
                i <= n,
                n == outs@.len(),
                forall|k: int| 0 <= k < i ==> #[trigger] outs@[k] == axis_out_off(),
            decreases n - i,
        {
            outs[i] = AxisOut { enable: false, fault_reset: false, setpoint: Setpoint::Hold };
            i += 1;
        }
        assert(outs@ =~= Seq::new(n as nat, |i: int| axis_out_off()));
    }

    /// Second half of one step of the controlled stop, in place of `cycle`:
    /// ramp every axis down under emergency stop until all are seen to stand
    /// still or time is up, then ten cycles with power off. After `Done` the bus
    /// may be released.
    pub fn shutdown_step(
        &mut self,
        now: Instant,
        b: &Begun,
        ins: &[AxisIn],
        advances: &[Advance],
        outs: &mut [AxisOut],
        bus_state: BusState,
    ) -> (r: (CycleReport, ShutdownPhase))
        requires
            old(self).valid(),
            ins@.len() == old(self)@.axes.len(),
            advances@.len() == old(self)@.axes.len(),
            old(outs)@.len() == old(self)@.axes.len(),
        ensures
            final(self).valid(),
            final(self)@ == stopped(old(self)@, *b, now, ins@, advances@, bus_state),
            final(outs)@ == stop_outputs(old(self)@, *b, now, ins@, advances@, old(outs)@),
            r.0 == report_of(final(self)@, *b),
            r.1 == phase_of(final(self)@.shutdown),
    {
        let machine_word: u32 = b.machine_word | machine_cmd::EMS;
        let shutdown = match self.shutdown {
            Shutdown::NotStarted => Shutdown::Decel { since: now },
            other => other,
        };
        match shutdown {
            Shutdown::Decel { since } => {
                if b.exchange_ok {
                    self.tick(machine_word, ins, advances, outs);
                }
                let still = b.exchange_ok && self.standing_still(ins);
                let timed_out = now.saturating_duration_since(since).nanos
                    >= self.shutdown_timeout.nanos;
                if still || timed_out {
                    self.shutdown = Shutdown::Disable { cycles_left: SHUTDOWN_DISABLE_CYCLES };
                } else {
                    self.shutdown = shutdown;
                }
            },
            Shutdown::Disable { cycles_left } => {
                Self::switch_off(outs);
                if cycles_left <= 1 {
                    self.shutdown = Shutdown::Done;
                } else {
                    self.shutdown = Shutdown::Disable { cycles_left: cycles_left - 1 };
                }
            },
            _ => {
                self.shutdown = Shutdown::Done;
            },
        }
        assert(self@ == stop_stepped(old(self)@, *b, now, ins@, advances@));
        self.publish(ins, bus_state, machine_word);
        let phase = match self.shutdown {
            Shutdown::NotStarted | Shutdown::Decel { .. } => ShutdownPhase::Decel,
            Shutdown::Disable { .. } => ShutdownPhase::Disable,
            Shutdown::Done => ShutdownPhase::Done,
        };
        (self.report(b), phase)
    }
}

} // verus!
