//! Configuration: an optional `key = value` file, overridden by flags.
//!
//! Every value is checked where it is set, so a bad line reports its number:
//! kinematic limits are finite and positive (a `stop_dec` of 0 would make the
//! emergency stop inert), `scale` is finite and non-zero (it is a divisor), and
//! counts are whole numbers.
//!
//! Binary64 arithmetic is not done here: each value text comes with its reading
//! as a number, if it has one.
use vstd::prelude::*;

use crate::ethercat::config::{AxisMapping, EcatConfig};
use crate::motion::axis::{default_params, AxisParams};
use crate::scalar::Scalar;
use crate::sim::{default_sim, SimConfig};
use crate::text::{
    before, cut_at, decimal, halves, join, lines, lines_of, numeral, parse_whole, same,
    split_at_first, trim, trimmed, whole_number,
};
use crate::time::Duration;

verus! {

/// Which bus is served.
#[derive(Clone, Copy, Debug, PartialEq, Eq, Structural)]
pub enum Backend {
    Sim,
    Ethercat,
}

/// The daemon's configuration.
#[derive(Clone, Debug)]
pub struct Config {
    pub backend: Backend,
    /// Served axes; the segments carry 4 slots.
    pub axes: usize,
    pub cycle: Duration,
    pub params: AxisParams,
    /// Tracking time constant of the simulated drives (s).
    pub sim_tau: Scalar,
    /// Network interface of the EtherCAT bus.
    pub ifname: String,
    /// Drive increments per user unit.
    pub scale: Scalar,
    /// Distributed clocks on the EtherCAT bus.
    pub ecat_dc: bool,
    /// Chain position of the first axis drive.
    pub first_axis_subdevice: usize,
    /// Window of the trace ring in seconds, 0 = no trace.
    pub trace_seconds: u64,
    /// A jog command older than this is no longer followed. `None` = off.
    pub cmd_timeout: Option<Duration>,
    /// Longest time the controlled stop waits for standstill.
    pub shutdown_timeout: Duration,
}

/// A configuration as a mathematical value.
#[verifier::ext_equal]
pub struct Settings {
    pub backend: Backend,
    pub axes: usize,
    pub cycle: Duration,
    pub params: AxisParams,
    pub sim_tau: Scalar,
    pub ifname: Seq<char>,
    pub scale: Scalar,
    pub ecat_dc: bool,
    pub first_axis_subdevice: usize,
    pub trace_seconds: u64,
    pub cmd_timeout: Option<Duration>,
    pub shutdown_timeout: Duration,
}

impl View for Config {
    type V = Settings;

    open spec fn view(&self) -> Settings {
        Settings {
            backend: self.backend,
            axes: self.axes,
            cycle: self.cycle,
            params: self.params,
            sim_tau: self.sim_tau,
            ifname: self.ifname@,
            scale: self.scale,
            ecat_dc: self.ecat_dc,
            first_axis_subdevice: self.first_axis_subdevice,
            trace_seconds: self.trace_seconds,
            cmd_timeout: self.cmd_timeout,
            shutdown_timeout: self.shutdown_timeout,
        }
    }
}

/// Four simulated axes at 2 ms, a minute of trace, a command time-out of one
/// second and two seconds for the controlled stop.
pub open spec fn default_settings() -> Settings {
    Settings {
        backend: Backend::Sim,
        axes: 4,
        cycle: Duration { nanos: 2_000_000 },
        params: default_params(),
        sim_tau: Scalar { bits: 0x3F9E_B851_EB85_1EB8 },
        ifname: Seq::empty(),
        scale: Scalar { bits: 0x40C3_8800_0000_0000 },
        ecat_dc: true,
        first_axis_subdevice: 0,
        trace_seconds: 60,
        cmd_timeout: Some(Duration { nanos: 1_000_000_000 }),
        shutdown_timeout: Duration { nanos: 2_000_000_000 },
    }
}

impl Default for Config {
    fn default() -> (r: Config)
        ensures
            r@ == default_settings(),
    {
        let r: Config = Config {
            backend: Backend::Sim,
            axes: 4,
            cycle: Duration::from_millis(2),
            params: AxisParams::default(),
            sim_tau: Scalar { bits: 0x3F9E_B851_EB85_1EB8 },
            ifname: String::new(),
            scale: Scalar { bits: 0x40C3_8800_0000_0000 },
            ecat_dc: true,
            first_axis_subdevice: 0,
            trace_seconds: 60,
            cmd_timeout: Some(Duration::from_millis(1000)),
            shutdown_timeout: Duration::from_millis(2000),
        };
        assert(r@ =~= default_settings());
        r
    }
}

/// What a value text means as a number.
#[derive(Debug)]
pub struct Number {
    /// The number itself.
    pub value: Scalar,
    /// Its thousandth.
    pub thousandth: Scalar,
    /// As many milliseconds, where a span of time can hold them.
    pub millis: Option<Duration>,
    /// The number as it is printed.
    pub shown: String,
}

/// Seconds of a span of time have 64 bits.
pub const SPAN_LIMIT: u128 = 18_446_744_073_709_551_616_000_000_000;

/// Finite and not negative.
pub open spec fn finite_not_negative(x: Scalar) -> bool {
    x.finite() && Scalar::zero_spec().le(x)
}

/// A reading whose span of time, if any, is within the clock's range, and whose
/// thousandth is finite and not negative where the number is.
pub open spec fn sound_reading(number: Option<Number>) -> bool {
    number matches Some(n) ==> {
        &&& n.millis matches Some(span) ==> span.nanos < SPAN_LIMIT
        &&& finite_not_negative(n.value) ==> finite_not_negative(n.thousandth)
    }
}

/// Sound readings of as many texts.
pub open spec fn sound_readings(numbers: Seq<Option<Number>>, len: nat) -> bool {
    &&& numbers.len() == len
    &&& forall|i: int| 0 <= i < numbers.len() ==> sound_reading(#[trigger] numbers[i])
}

/// A finite number.
pub open spec fn finite_of(key: Seq<char>, value: Seq<char>, number: Option<Number>) -> Result<
    Number,
    Seq<char>,
> {
    match number {
        None => Err(key + ": not a number: "@ + value),
        Some(n) => if n.value.finite() {
            Ok(n)
        } else {
            Err(key + ": must be finite, got "@ + value)
        },
    }
}

/// A finite number greater than zero.
pub open spec fn positive_of(key: Seq<char>, value: Seq<char>, number: Option<Number>) -> Result<
    Number,
    Seq<char>,
> {
    match finite_of(key, value, number) {
        Err(e) => Err(e),
        Ok(n) => if n.value.le(Scalar::zero_spec()) {
            Err(key + ": must be > 0, got "@ + value)
        } else {
            Ok(n)
        },
    }
}

/// A finite number that is not negative.
pub open spec fn non_negative_of(key: Seq<char>, value: Seq<char>, number: Option<Number>) -> Result<
    Number,
    Seq<char>,
> {
    match finite_of(key, value, number) {
        Err(e) => Err(e),
        Ok(n) => if n.value.lt(Scalar::zero_spec()) {
            Err(key + ": must be >= 0, got "@ + value)
        } else {
            Ok(n)
        },
    }
}

/// A number of milliseconds as a span of time.
pub open spec fn millis_of(key: Seq<char>, number: Number) -> Result<Duration, Seq<char>> {
    match number.millis {
        Some(d) => Ok(d),
        None => Err(key + ": out of range: "@ + number.shown@),
    }
}

/// A whole number up to `max`.
pub open spec fn integer_of(key: Seq<char>, value: Seq<char>, max: nat) -> Result<nat, Seq<char>> {
    match whole_number(value, max) {
        Some(n) => Ok(n),
        None => Err(key + ": not an integer: "@ + value),
    }
}

fn describe(key: &str, problem: &str, value: &str) -> (r: String)
    ensures
        r@ == key@ + problem@ + value@,
{
    let front: String = join(key, problem);
    join(front.as_str(), value)
}

/// Require a finite number: `nan` and `inf` are numbers too.
fn finite<'a>(key: &str, value: &str, number: &'a Option<Number>) -> (r: Result<&'a Number, String>)
    ensures
        match r {
            Ok(n) => finite_of(key@, value@, *number) == Ok::<Number, Seq<char>>(*n),
            Err(e) => finite_of(key@, value@, *number) == Err::<Number, Seq<char>>(e@),
        },
{
    match number {
        None => Err(describe(key, ": not a number: ", value)),
        Some(n) => if n.value.is_finite() {
            Ok(n)
        } else {
            Err(describe(key, ": must be finite, got ", value))
        },
    }
}

/// Require a finite number greater than zero.
fn positive<'a>(key: &str, value: &str, number: &'a Option<Number>) -> (r: Result<
    &'a Number,
    String,
>)
    ensures
        match r {
            Ok(n) => positive_of(key@, value@, *number) == Ok::<Number, Seq<char>>(*n),
            Err(e) => positive_of(key@, value@, *number) == Err::<Number, Seq<char>>(e@),
        },
{
    match finite(key, value, number) {
        Err(e) => Err(e),
        Ok(n) => if n.value.is_at_most(Scalar::zero()) {
            Err(describe(key, ": must be > 0, got ", value))
        } else {
            Ok(n)
        },
    }
}

/// Require a finite number that is not negative.
fn non_negative<'a>(key: &str, value: &str, number: &'a Option<Number>) -> (r: Result<
    &'a Number,
    String,
>)
    ensures
        match r {
            Ok(n) => non_negative_of(key@, value@, *number) == Ok::<Number, Seq<char>>(*n),
            Err(e) => non_negative_of(key@, value@, *number) == Err::<Number, Seq<char>>(e@),
        },
{
    match finite(key, value, number) {
        Err(e) => Err(e),
        Ok(n) => if n.value.is_less(Scalar::zero()) {
            Err(describe(key, ": must be >= 0, got ", value))
        } else {
            Ok(n)
        },
    }
}

/// Require a number of milliseconds that a span of time can hold.
fn millis(key: &str, number: &Number) -> (r: Result<Duration, String>)
    ensures
        match r {
            Ok(d) => millis_of(key@, *number) == Ok::<Duration, Seq<char>>(d),
            Err(e) => millis_of(key@, *number) == Err::<Duration, Seq<char>>(e@),
        },
{
    match number.millis {
        Some(d) => Ok(d),
        None => Err(describe(key, ": out of range: ", number.shown.as_str())),
    }
}

/// Require a whole number up to `max`.
fn integer(key: &str, value: &str, max: u64) -> (r: Result<u64, String>)
    ensures
        match r {
            Ok(n) => integer_of(key@, value@, max as nat) == Ok::<nat, Seq<char>>(n as nat),
            Err(e) => integer_of(key@, value@, max as nat) == Err::<nat, Seq<char>>(e@),
        },
{
    match parse_whole(value, max) {
        Some(n) => Ok(n),
        None => Err(describe(key, ": not an integer: ", value)),
    }
}

/// The configuration with `key` set to `value`, or why it cannot be.
pub open spec fn set_of(
    c: Settings,
    key: Seq<char>,
    value: Seq<char>,
    number: Option<Number>,
) -> Result<Settings, Seq<char>> {
    if key == "backend"@ {
        if value == "sim"@ {
            Ok(Settings { backend: Backend::Sim, ..c })
        } else if value == "ethercat"@ {
            Ok(Settings { backend: Backend::Ethercat, ..c })
        } else {
            Err("backend must be sim|ethercat, got "@ + value)
        }
    } else if key == "axes"@ {
        match integer_of(key, value, usize::MAX as nat) {
            Ok(n) => Ok(Settings { axes: n as usize, ..c }),
            Err(e) => Err(e),
        }
    } else if key == "cycle_ms"@ {
        match positive_of(key, value, number) {
            Ok(n) => match millis_of(key, n) {
                Ok(d) => Ok(Settings { cycle: d, ..c }),
                Err(e) => Err(e),
            },
            Err(e) => Err(e),
        }
    } else if key == "ifname"@ {
        Ok(Settings { ifname: value, ..c })
    } else if key == "max_vel"@ {
        match positive_of(key, value, number) {
            Ok(n) => Ok(Settings { params: AxisParams { max_vel: n.value, ..c.params }, ..c }),
            Err(e) => Err(e),
        }
    } else if key == "acc"@ {
        match positive_of(key, value, number) {
            Ok(n) => Ok(Settings { params: AxisParams { acc: n.value, ..c.params }, ..c }),
            Err(e) => Err(e),
        }
    } else if key == "dec"@ {
        match positive_of(key, value, number) {
            Ok(n) => Ok(Settings { params: AxisParams { dec: n.value, ..c.params }, ..c }),
            Err(e) => Err(e),
        }
    } else if key == "stop_dec"@ {
        match positive_of(key, value, number) {
            Ok(n) => Ok(Settings { params: AxisParams { stop_dec: n.value, ..c.params }, ..c }),
            Err(e) => Err(e),
        }
    } else if key == "sim_tau_ms"@ {
        match non_negative_of(key, value, number) {
            Ok(n) => Ok(Settings { sim_tau: n.thousandth, ..c }),
            Err(e) => Err(e),
        }
    } else if key == "scale"@ {
        match finite_of(key, value, number) {
            Ok(n) => if n.value.zero_valued() {
                Err(key + ": must be non-zero"@)
            } else {
                Ok(Settings { scale: n.value, ..c })
            },
            Err(e) => Err(e),
        }
    } else if key == "ecat_dc"@ {
        if value == "true"@ || value == "1"@ {
            Ok(Settings { ecat_dc: true, ..c })
        } else if value == "false"@ || value == "0"@ {
            Ok(Settings { ecat_dc: false, ..c })
        } else {
            Err(key + ": must be true|false, got "@ + value)
        }
    } else if key == "first_axis_subdevice"@ {
        match integer_of(key, value, usize::MAX as nat) {
            Ok(n) => Ok(Settings { first_axis_subdevice: n as usize, ..c }),
            Err(e) => Err(e),
        }
    } else if key == "trace_seconds"@ {
        match integer_of(key, value, u64::MAX as nat) {
            Ok(n) => Ok(Settings { trace_seconds: n as u64, ..c }),
            Err(e) => Err(e),
        }
    } else if key == "cmd_timeout_ms"@ {
        match non_negative_of(key, value, number) {
            Ok(n) => if n.value.zero_valued() {
                Ok(Settings { cmd_timeout: None, ..c })
            } else {
                match millis_of(key, n) {
                    Ok(d) => Ok(Settings { cmd_timeout: Some(d), ..c }),
                    Err(e) => Err(e),
                }
            },
            Err(e) => Err(e),
        }
    } else if key == "shutdown_timeout_ms"@ {
        match non_negative_of(key, value, number) {
            Ok(n) => match millis_of(key, n) {
                Ok(d) => Ok(Settings { shutdown_timeout: d, ..c }),
                Err(e) => Err(e),
            },
            Err(e) => Err(e),
        }
    } else {
        Err("unknown key "@ + key)
    }
}

/// A bound on whole numbers as an argument: the largest `usize`.
fn usize_limit() -> (r: u64)
    ensures
        r == usize::MAX,
{
    usize::MAX as u64
}

/// Set one configuration key. A refused value leaves the configuration as it is.
pub fn set(cfg: &mut Config, key: &str, value: &str, number: &Option<Number>) -> (r: Result<
    (),
    String,
>)
    ensures
        match r {
            Ok(_) => set_of(old(cfg)@, key@, value@, *number) == Ok::<Settings, Seq<char>>(
                final(cfg)@,
            ),
            Err(e) => {
                &&& set_of(old(cfg)@, key@, value@, *number) == Err::<Settings, Seq<char>>(e@)
                &&& final(cfg)@ == old(cfg)@
            },
        },
{
    if same(key, "backend") {
        if same(value, "sim") {
            cfg.backend = Backend::Sim;
        } else if same(value, "ethercat") {
            cfg.backend = Backend::Ethercat;
        } else {
            return Err(join("backend must be sim|ethercat, got ", value));
        }
    } else if same(key, "axes") {
        match integer(key, value, usize_limit()) {
            Ok(n) => cfg.axes = n as usize,
            Err(e) => return Err(e),
        }
    } else if same(key, "cycle_ms") {
        match positive(key, value, number) {
            Ok(n) => match millis(key, n) {
                Ok(d) => cfg.cycle = d,
                Err(e) => return Err(e),
            },
            Err(e) => return Err(e),
        }
    } else if same(key, "ifname") {
        cfg.ifname = value.to_owned();
    } else if same(key, "max_vel") {
        match positive(key, value, number) {
            Ok(n) => cfg.params.max_vel = n.value,
            Err(e) => return Err(e),
        }
    } else if same(key, "acc") {
        match positive(key, value, number) {
            Ok(n) => cfg.params.acc = n.value,
            Err(e) => return Err(e),
        }
    } else if same(key, "dec") {
        match positive(key, value, number) {
            Ok(n) => cfg.params.dec = n.value,
            Err(e) => return Err(e),
        }
    } else if same(key, "stop_dec") {
        match positive(key, value, number) {
            Ok(n) => cfg.params.stop_dec = n.value,
            Err(e) => return Err(e),
        }
    } else if same(key, "sim_tau_ms") {
        match non_negative(key, value, number) {
            Ok(n) => cfg.sim_tau = n.thousandth,
            Err(e) => return Err(e),
        }
    } else if same(key, "scale") {
        match finite(key, value, number) {
            Ok(n) => {
                if n.value.is_zero() {
                    return Err(join(key, ": must be non-zero"));
                }
                cfg.scale = n.value;
            },
            Err(e) => return Err(e),
        }
    } else if same(key, "ecat_dc") {
        if same(value, "true") || same(value, "1") {
            cfg.ecat_dc = true;
        } else if same(value, "false") || same(value, "0") {
            cfg.ecat_dc = false;
        } else {
            return Err(describe(key, ": must be true|false, got ", value));
        }
    } else if same(key, "first_axis_subdevice") {
        match integer(key, value, usize_limit()) {
            Ok(n) => cfg.first_axis_subdevice = n as usize,
            Err(e) => return Err(e),
        }
    } else if same(key, "trace_seconds") {
        match integer(key, value, u64::MAX) {
            Ok(n) => cfg.trace_seconds = n,
            Err(e) => return Err(e),
        }
    } else if same(key, "cmd_timeout_ms") {
        match non_negative(key, value, number) {
            Ok(n) => {
                if n.value.is_zero() {
                    cfg.cmd_timeout = None;
                } else {
                    match millis(key, n) {
                        Ok(d) => cfg.cmd_timeout = Some(d),
                        Err(e) => return Err(e),
                    }
                }
            },
            Err(e) => return Err(e),
        }
    } else if same(key, "shutdown_timeout_ms") {
        match non_negative(key, value, number) {
            Ok(n) => match millis(key, n) {
                Ok(d) => cfg.shutdown_timeout = d,
                Err(e) => return Err(e),
            },
            Err(e) => return Err(e),
        }
    } else {
        return Err(join("unknown key ", key));
    }
    Ok(())
}

/// One line of a configuration file.
#[derive(Debug, PartialEq, Eq)]
pub enum Line {
    /// Nothing but white space and a comment.
    Blank,
    /// No `=` in it.
    Malformed,
    Setting { key: String, value: String },
}

/// One line of a configuration file, as a mathematical value.
pub enum LineContent {
    Blank,
    Malformed,
    Setting { key: Seq<char>, value: Seq<char> },
}

impl View for Line {
    type V = LineContent;

    open spec fn view(&self) -> LineContent {
        match self {
            Line::Blank => LineContent::Blank,
            Line::Malformed => LineContent::Malformed,
            Line::Setting { key, value } => LineContent::Setting { key: key@, value: value@ },
        }
    }
}

/// What a line holds: a comment runs from the first `#` to the end, a setting is
/// split at the first `=`, and white space around its parts does not count.
pub open spec fn line_of(line: Seq<char>) -> LineContent {
    let body = trimmed(before(line, '#'));
    if body.len() == 0 {
        LineContent::Blank
    } else {
        match halves(body, '=') {
            None => LineContent::Malformed,
            Some((key, value)) => LineContent::Setting { key: trimmed(key), value: trimmed(value) },
        }
    }
}

/// Take one line apart.
pub fn parse_line(line: &str) -> (r: Line)
    ensures
        r@ == line_of(line@),
{
    let body: &str = trim(cut_at(line, '#'));
    if same(body, "") {
        proof {
            reveal_strlit("");
        }
        return Line::Blank;
    }
    proof {
        reveal_strlit("");
        if body@.len() == 0 {
            assert(body@ =~= ""@);
        }
    }
    match split_at_first(body, '=') {
        None => Line::Malformed,
        Some((key, value)) => Line::Setting {
            key: trim(key).to_owned(),
            value: trim(value).to_owned(),
        },
    }
}

/// The start of a message about line `n`, counted from 0.
pub open spec fn line_label(n: int) -> Seq<char> {
    "config line "@ + numeral((n + 1) as nat, 10) + ": "@
}

/// The configuration after the lines from `n` on, up to the first that is
/// refused, and the message about that one.
pub open spec fn file_of(
    c: Settings,
    lines: Seq<Seq<char>>,
    numbers: Seq<Option<Number>>,
    n: int,
) -> (Settings, Option<Seq<char>>)
    decreases lines.len() - n,
{
    if n >= lines.len() {
        (c, None)
    } else {
        match line_of(lines[n]) {
            LineContent::Blank => file_of(c, lines, numbers, n + 1),
            LineContent::Malformed => (c, Some(line_label(n) + "expected key = value"@)),
            LineContent::Setting { key, value } => match set_of(c, key, value, numbers[n]) {
                Ok(next) => file_of(next, lines, numbers, n + 1),
                Err(e) => (c, Some(line_label(n) + e)),
            },
        }
    }
}

fn label_line(n: usize, message: &str) -> (r: String)
    requires
        n < usize::MAX,
    ensures
        r@ == line_label(n as int) + message@,
{
    let number: String = decimal(n as u64 + 1);
    let front: String = describe("config line ", number.as_str(), ": ");
    join(front.as_str(), message)
}

/// Apply a configuration file. `numbers` holds, line by line, the reading of
/// the line's value.
pub fn apply_file(cfg: &mut Config, text: &str, numbers: &Vec<Option<Number>>) -> (r: Result<
    (),
    String,
>)
    requires
        numbers@.len() == lines_of(text@).len(),
    ensures
        final(cfg)@ == file_of(old(cfg)@, lines_of(text@), numbers@, 0).0,
        match r {
            Ok(_) => file_of(old(cfg)@, lines_of(text@), numbers@, 0).1 is None,
            Err(e) => file_of(old(cfg)@, lines_of(text@), numbers@, 0).1 == Some(e@),
        },
{
    let rows: Vec<String> = lines(text);
    let ghost all = lines_of(text@);
    let ghost outcome = file_of(cfg@, all, numbers@, 0);
    let mut n: usize = 0;
    while n < rows.len()
        invariant
            n <= rows@.len(),
            rows@.len() == all.len(),
            numbers@.len() == all.len(),
            forall|i: int| 0 <= i < rows@.len() ==> (#[trigger] rows@[i])@ == all[i],
            outcome == file_of(cfg@, all, numbers@, n as int),
            outcome == file_of(old(cfg)@, lines_of(text@), numbers@, 0),
        decreases rows@.len() - n,
    {
        match parse_line(rows[n].as_str()) {
            Line::Blank => {},
            Line::Malformed => {
                return Err(label_line(n, "expected key = value"));
            },
            Line::Setting { key, value } => {
                match set(cfg, key.as_str(), value.as_str(), &numbers[n]) {
                    Ok(_) => {},
                    Err(e) => {
                        return Err(label_line(n, e.as_str()));
                    },
                }
            },
        }
        n += 1;
    }
    Ok(())
}

/// What `--help` answers.
pub const USAGE: &'static str = "usage: motion-daemon [--config FILE] [--backend sim|ethercat] [--axes N] [--cycle-ms MS] [--ifname IF] [--trace-seconds S]\n                     [--cmd-timeout-ms MS] [--shutdown-timeout-ms MS]\nconfig file keys: backend, axes, cycle_ms, ifname, max_vel, acc, dec, stop_dec, sim_tau_ms,\n                  scale, ecat_dc, first_axis_subdevice, trace_seconds,\n                  cmd_timeout_ms (0 = dead-man off), shutdown_timeout_ms";

/// The characters of each text.
pub open spec fn texts(args: Seq<String>) -> Seq<Seq<char>> {
    args.map_values(|s: String| s@)
}

/// The first `--config` at or after `from`, the length if there is none.
pub open spec fn config_flag(args: Seq<Seq<char>>, from: int) -> int
    decreases args.len() - from,
{
    if from >= args.len() {
        args.len() as int
    } else if args[from] == "--config"@ {
        from
    } else {
        config_flag(args, from + 1)
    }
}

/// Where the path of the configuration file stands in the arguments.
pub open spec fn path_of(args: Seq<Seq<char>>) -> Result<Option<int>, Seq<char>> {
    let at = config_flag(args, 1);
    if at >= args.len() {
        Ok(None)
    } else if at + 1 < args.len() {
        Ok(Some(at + 1))
    } else {
        Err("--config needs a path"@)
    }
}

/// Where the path of the configuration file stands in the arguments, the
/// program's name being the first of them.
pub fn config_path(args: &Vec<String>) -> (r: Result<Option<usize>, String>)
    ensures
        match r {
            Ok(None) => path_of(texts(args@)) == Ok::<Option<int>, Seq<char>>(None),
            Ok(Some(at)) => {
                &&& path_of(texts(args@)) == Ok::<Option<int>, Seq<char>>(Some(at as int))
                &&& at < args@.len()
            },
            Err(e) => path_of(texts(args@)) == Err::<Option<int>, Seq<char>>(e@),
        },
{
    if args.len() <= 1 {
        return Ok(None);
    }
    let mut i: usize = 1;
    while i < args.len() && !same(args[i].as_str(), "--config")
        invariant
            1 <= i <= args@.len(),
            config_flag(texts(args@), 1) == config_flag(texts(args@), i as int),
        decreases args@.len() - i,
    {
        i += 1;
    }
    if i >= args.len() {
        Ok(None)
    } else if args.len() - i > 1 {
        Ok(Some(i + 1))
    } else {
        Err("--config needs a path".to_owned())
    }
}

/// The configuration key that a flag sets.
pub open spec fn flag_key_of(flag: Seq<char>) -> Option<Seq<char>> {
    if flag == "--backend"@ {
        Some("backend"@)
    } else if flag == "--axes"@ {
        Some("axes"@)
    } else if flag == "--cycle-ms"@ {
        Some("cycle_ms"@)
    } else if flag == "--ifname"@ {
        Some("ifname"@)
    } else if flag == "--trace-seconds"@ {
        Some("trace_seconds"@)
    } else if flag == "--cmd-timeout-ms"@ {
        Some("cmd_timeout_ms"@)
    } else if flag == "--shutdown-timeout-ms"@ {
        Some("shutdown_timeout_ms"@)
    } else {
        None
    }
}

fn flag_key(flag: &str) -> (r: Option<&'static str>)
    ensures
        match r {
            Some(key) => flag_key_of(flag@) == Some(key@),
            None => flag_key_of(flag@) is None,
        },
{
    if same(flag, "--backend") {
        Some("backend")
    } else if same(flag, "--axes") {
        Some("axes")
    } else if same(flag, "--cycle-ms") {
        Some("cycle_ms")
    } else if same(flag, "--ifname") {
        Some("ifname")
    } else if same(flag, "--trace-seconds") {
        Some("trace_seconds")
    } else if same(flag, "--cmd-timeout-ms") {
        Some("cmd_timeout_ms")
    } else if same(flag, "--shutdown-timeout-ms") {
        Some("shutdown_timeout_ms")
    } else {
        None
    }
}

/// The configuration after the flags from `n` on, or the message about the
/// first that is refused.
pub open spec fn flags_of(
    c: Settings,
    args: Seq<Seq<char>>,
    numbers: Seq<Option<Number>>,
    n: int,
) -> Result<Settings, Seq<char>>
    decreases args.len() - n,
{
    if n >= args.len() {
        Ok(c)
    } else if args[n] == "--config"@ {
        if n + 1 < args.len() {
            flags_of(c, args, numbers, n + 2)
        } else {
            Err("--config needs a value"@)
        }
    } else {
        match flag_key_of(args[n]) {
            Some(key) => if n + 1 < args.len() {
                match set_of(c, key, args[n + 1], numbers[n + 1]) {
                    Ok(next) => flags_of(next, args, numbers, n + 2),
                    Err(e) => Err(e),
                }
            } else {
                Err(args[n] + " needs a value"@)
            },
            None => if args[n] == "--help"@ || args[n] == "-h"@ {
                Err(USAGE@)
            } else {
                Err("unknown flag "@ + args[n] + "\n"@ + USAGE@)
            },
        }
    }
}

/// Apply the flags. `numbers` holds the reading of each argument.
fn apply_flags(cfg: &mut Config, args: &Vec<String>, numbers: &Vec<Option<Number>>) -> (r: Result<
    (),
    String,
>)
    requires
        numbers@.len() == args@.len(),
    ensures
        match r {
            Ok(_) => flags_of(old(cfg)@, texts(args@), numbers@, 1) == Ok::<Settings, Seq<char>>(
                final(cfg)@,
            ),
            Err(e) => flags_of(old(cfg)@, texts(args@), numbers@, 1) == Err::<Settings, Seq<char>>(
                e@,
            ),
        },
{
    let ghost words = texts(args@);
    let ghost outcome = flags_of(cfg@, words, numbers@, 1);
    let mut n: usize = 1;
    while n < args.len()
        invariant
            1 <= n,
            words == texts(args@),
            numbers@.len() == args@.len(),
            outcome == flags_of(cfg@, words, numbers@, n as int),
            outcome == flags_of(old(cfg)@, texts(args@), numbers@, 1),
        decreases args@.len() - n,
    {
        let count: usize = args.len();
        let flag: &str = args[n].as_str();
        assert(flag@ == words[n as int]);
        if same(flag, "--config") {
            if count - n <= 1 {
                return Err("--config needs a value".to_owned());
            }
        } else {
            match flag_key(flag) {
                Some(key) => {
                    if count - n <= 1 {
                        return Err(join(flag, " needs a value"));
                    }
                    assert(args@[n + 1]@ == words[n + 1]);
                    match set(cfg, key, args[n + 1].as_str(), &numbers[n + 1]) {
                        Ok(_) => {},
                        Err(e) => {
                            return Err(e);
                        },
                    }
                },
                None => {
                    if same(flag, "--help") || same(flag, "-h") {
                        return Err(USAGE.to_owned());
                    }
                    let front: String = describe("unknown flag ", flag, "\n");
                    return Err(join(front.as_str(), USAGE));
                },
            }
        }
        if count - n <= 2 {
            n = count;
        } else {
            n += 2;
        }
    }
    Ok(())
}

/// How the standard library prints a span of `secs` seconds and `nanos`
/// nanoseconds for debugging.
pub uninterp spec fn span_text(secs: u64, nanos: u32) -> Seq<char>;

/// `std::time::Duration`'s `Debug` text. The contract claims only that the text
/// depends on the span alone; which unit and how many digits it has is not
/// stated.
#[verifier::external_body]
fn show_span(secs: u64, nanos: u32) -> (r: String)
    requires
        nanos < 1_000_000_000,
    ensures
        r@ == span_text(secs, nanos),
{
    format!("{:?}", std::time::Duration::new(secs, nanos))
}

/// What is wrong with a configuration as a whole: served axes 1 to 4, a cycle
/// from 250 µs to 1 s (`shown` is its text), at most 600 s of trace.
pub open spec fn flaw_of(c: Settings, shown: Seq<char>) -> Option<Seq<char>> {
    if c.axes == 0 || c.axes > 4 {
        Some("axes must be 1..=4, got "@ + numeral(c.axes as nat, 10))
    } else if c.cycle.nanos < 250_000 || c.cycle.nanos > 1_000_000_000 {
        Some("cycle out of range: "@ + shown)
    } else if c.trace_seconds > 600 {
        Some("trace_seconds must be 0..=600, got "@ + numeral(c.trace_seconds as nat, 10))
    } else {
        None
    }
}

/// Check a configuration as a whole; `shown` is the text of its cycle.
pub fn validate(cfg: &Config, shown: &str) -> (r: Result<(), String>)
    ensures
        match r {
            Ok(_) => flaw_of(cfg@, shown@) is None,
            Err(e) => flaw_of(cfg@, shown@) == Some(e@),
        },
{
    if cfg.axes == 0 || cfg.axes > 4 {
        return Err(join("axes must be 1..=4, got ", decimal(cfg.axes as u64).as_str()));
    }
    if cfg.cycle.nanos < 250_000 || cfg.cycle.nanos > 1_000_000_000 {
        return Err(join("cycle out of range: ", shown));
    }
    if cfg.trace_seconds > 600 {
        return Err(
            join("trace_seconds must be 0..=600, got ", decimal(cfg.trace_seconds).as_str()),
        );
    }
    Ok(())
}

/// What came of reading the configuration file.
#[derive(Debug)]
pub enum FileRead {
    /// No file was named.
    NotNamed,
    /// It could not be read.
    Failed { reason: String },
    /// Its text, and the reading of each line's value.
    Text { text: String, numbers: Vec<Option<Number>> },
}

/// The file was read where one is named, with a reading for each line.
pub open spec fn file_fits(file: FileRead, args: Seq<Seq<char>>) -> bool {
    &&& path_of(args) matches Ok(Some(_)) ==> !(file is NotNamed)
    &&& file matches FileRead::Text { text, numbers } ==> sound_readings(
        numbers@,
        lines_of(text@).len(),
    )
}

/// The configuration that the file leaves to the flags, or why there is none.
pub open spec fn filed_of(args: Seq<Seq<char>>, file: FileRead) -> Result<Settings, Seq<char>> {
    match path_of(args) {
        Err(e) => Err(e),
        Ok(None) => Ok(default_settings()),
        Ok(Some(at)) => match file {
            FileRead::NotNamed => Ok(default_settings()),
            FileRead::Failed { reason } => Err("read config "@ + args[at] + ": "@ + reason@),
            FileRead::Text { text, numbers } => match file_of(
                default_settings(),
                lines_of(text@),
                numbers@,
                0,
            ) {
                (c, None) => Ok(c),
                (_, Some(e)) => Err(e),
            },
        },
    }
}

/// The configuration of a command line: defaults, then the file, then the
/// flags, checked as a whole at the end.
pub open spec fn parse_of(
    args: Seq<Seq<char>>,
    numbers: Seq<Option<Number>>,
    file: FileRead,
) -> Result<Settings, Seq<char>> {
    match filed_of(args, file) {
        Err(e) => Err(e),
        Ok(c) => match flags_of(c, args, numbers, 1) {
            Err(e) => Err(e),
            Ok(c) => match flaw_of(c, cycle_text(c)) {
                Some(e) => Err(e),
                None => Ok(c),
            },
        },
    }
}

/// The text of a configuration's cycle.
pub open spec fn cycle_text(c: Settings) -> Seq<char> {
    span_text((c.cycle.nanos / 1_000_000_000) as u64, (c.cycle.nanos % 1_000_000_000) as u32)
}

/// Setting a key keeps the cycle within the clock's range.
proof fn lemma_set_keeps_span(
    c: Settings,
    key: Seq<char>,
    value: Seq<char>,
    number: Option<Number>,
)
    requires
        c.cycle.nanos < SPAN_LIMIT,
        sound_reading(number),
    ensures
        set_of(c, key, value, number) matches Ok(next) ==> next.cycle.nanos < SPAN_LIMIT,
{
}

/// So does a file.
proof fn lemma_file_keeps_span(
    c: Settings,
    lines: Seq<Seq<char>>,
    numbers: Seq<Option<Number>>,
    n: int,
)
    requires
        c.cycle.nanos < SPAN_LIMIT,
        sound_readings(numbers, lines.len()),
        0 <= n,
    ensures
        file_of(c, lines, numbers, n).0.cycle.nanos < SPAN_LIMIT,
    decreases lines.len() - n,
{
    if n < lines.len() {
        match line_of(lines[n]) {
            LineContent::Blank => {
                lemma_file_keeps_span(c, lines, numbers, n + 1);
            },
            LineContent::Malformed => {},
            LineContent::Setting { key, value } => {
                lemma_set_keeps_span(c, key, value, numbers[n]);
                match set_of(c, key, value, numbers[n]) {
                    Ok(next) => {
                        lemma_file_keeps_span(next, lines, numbers, n + 1);
                    },
                    Err(_) => {},
                }
            },
        }
    }
}

/// So do the flags.
proof fn lemma_flags_keep_span(
    c: Settings,
    args: Seq<Seq<char>>,
    numbers: Seq<Option<Number>>,
    n: int,
)
    requires
        c.cycle.nanos < SPAN_LIMIT,
        sound_readings(numbers, args.len()),
        0 <= n,
    ensures
        flags_of(c, args, numbers, n) matches Ok(last) ==> last.cycle.nanos < SPAN_LIMIT,
    decreases args.len() - n,
{
    if n + 1 < args.len() {
        if args[n] == "--config"@ {
            lemma_flags_keep_span(c, args, numbers, n + 2);
        } else if let Some(key) = flag_key_of(args[n]) {
            lemma_set_keeps_span(c, key, args[n + 1], numbers[n + 1]);
            match set_of(c, key, args[n + 1], numbers[n + 1]) {
                Ok(next) => {
                    lemma_flags_keep_span(next, args, numbers, n + 2);
                },
                Err(_) => {},
            }
        }
    }
}

/// Configure from the command line, the program's name being its first word.
/// `numbers` holds the reading of each word; `file` what came of reading the
/// file that `config_path` names.
pub fn parse(args: &Vec<String>, numbers: &Vec<Option<Number>>, file: &FileRead) -> (r: Result<
    Config,
    String,
>)
    requires
        sound_readings(numbers@, args@.len()),
        file_fits(*file, texts(args@)),
    ensures
        match r {
            Ok(cfg) => parse_of(texts(args@), numbers@, *file) == Ok::<Settings, Seq<char>>(cfg@),
            Err(e) => parse_of(texts(args@), numbers@, *file) == Err::<Settings, Seq<char>>(e@),
        },
{
    let mut cfg: Config = Config::default();
    match config_path(args) {
        Err(e) => {
            return Err(e);
        },
        Ok(None) => {},
        Ok(Some(at)) => {
            match file {
                FileRead::NotNamed => {},
                FileRead::Failed { reason } => {
                    let front: String = describe("read config ", args[at].as_str(), ": ");
                    return Err(join(front.as_str(), reason.as_str()));
                },
                FileRead::Text { text, numbers: readings } => {
                    proof {
                        lemma_file_keeps_span(cfg@, lines_of(text@), readings@, 0);
                    }
                    match apply_file(&mut cfg, text.as_str(), readings) {
                        Ok(_) => {},
                        Err(e) => {
                            return Err(e);
                        },
                    }
                },
            }
        },
    }
    proof {
        lemma_flags_keep_span(cfg@, texts(args@), numbers@, 1);
    }
    match apply_flags(&mut cfg, args, numbers) {
        Ok(_) => {},
        Err(e) => {
            return Err(e);
        },
    }
    let shown: String = show_span(
        (cfg.cycle.nanos / 1_000_000_000) as u64,
        (cfg.cycle.nanos % 1_000_000_000) as u32,
    );
    match validate(&cfg, shown.as_str()) {
        Ok(_) => Ok(cfg),
        Err(e) => Err(e),
    }
}

/// The simulated bus of a configuration; `home_step` is the distance its homing
/// motion covers in one cycle.
pub fn sim_config(cfg: &Config, home_step: Scalar) -> (r: SimConfig)
    ensures
        r == (SimConfig {
            axes: cfg.axes,
            cycle: cfg.cycle,
            tau: cfg.sim_tau,
            home_step,
            ..default_sim()
        }),
{
    let mut sim: SimConfig = SimConfig::default();
    sim.axes = cfg.axes;
    sim.cycle = cfg.cycle;
    sim.tau = cfg.sim_tau;
    sim.home_step = home_step;
    sim
}

/// The EtherCAT bus of a configuration: consecutive drives from the first axis'
/// position on, all with the same scaling. It needs an interface.
pub fn ethercat_config(cfg: &Config) -> (r: Result<EcatConfig, String>)
    requires
        cfg.first_axis_subdevice + cfg.axes <= usize::MAX,
    ensures
        match r {
            Err(e) => {
                &&& cfg.ifname@.len() == 0
                &&& e@ == "the ethercat backend needs --ifname (or ifname= in the config)"@
            },
            Ok(bus) => {
                &&& cfg.ifname@.len() > 0
                &&& bus.ifname@ == cfg.ifname@
                &&& bus.cycle == cfg.cycle
                &&& bus.dc == cfg.ecat_dc
                &&& bus.configure_pdo && bus.map_digital_inputs
                &&& bus.axes@ == Seq::new(
                    cfg.axes as nat,
                    |i: int|
                        AxisMapping {
                            subdevice: (cfg.first_axis_subdevice + i) as usize,
                            scale: cfg.scale,
                        },
                )
            },
        },
{
    if same(cfg.ifname.as_str(), "") {
        proof {
            reveal_strlit("");
        }
        return Err("the ethercat backend needs --ifname (or ifname= in the config)".to_owned());
    }
    proof {
        reveal_strlit("");
        if cfg.ifname@.len() == 0 {
            assert(cfg.ifname@ =~= ""@);
        }
    }
    let mut bus: EcatConfig = EcatConfig::new(cfg.ifname.as_str().to_owned(), 0);
    bus.cycle = cfg.cycle;
    bus.dc = cfg.ecat_dc;
    let mut axes: Vec<AxisMapping> = Vec::new();
    while axes.len() < cfg.axes
        invariant
            cfg.first_axis_subdevice + cfg.axes <= usize::MAX,
            axes@.len() <= cfg.axes,
            forall|i: int|
                0 <= i < axes@.len() ==> #[trigger] axes@[i] == (AxisMapping {
                    subdevice: (cfg.first_axis_subdevice + i) as usize,
                    scale: cfg.scale,
                }),
        decreases cfg.axes - axes@.len(),
    {
        let i: usize = axes.len();
        axes.push(AxisMapping { subdevice: cfg.first_axis_subdevice + i, scale: cfg.scale });
    }
    bus.axes = axes;
    Ok(bus)
}

} // verus!
