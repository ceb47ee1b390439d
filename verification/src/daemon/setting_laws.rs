//! What each configuration key, flag and line does, told by the texts and the
//! numbers they stand for.
use vstd::prelude::*;

use crate::daemon::config::{
    cycle_text, default_settings, ethercat_config, file_of, flag_key_of, flags_of, flaw_of, line_of,
    parse_of, path_of, set_of, sim_config, Backend, Config, FileRead, LineContent, Number, Settings,
};
use crate::ethercat::config::EcatConfig;
use crate::motion::axis::AxisParams;
use crate::scalar::{lemma_magnitude_order, Scalar};
use crate::sim::SimConfig;
use crate::text::{
    before, first_of, halves, lemma_first_of, lines_of, numeral, trimmed, white, whole_number,
};
use crate::text_laws::lemma_trim_around;

verus! {

proof fn lemma_keys()
    ensures
        "backend"@.len() == 7 && "backend"@[0] == 'b',
        "axes"@.len() == 4,
        "cycle_ms"@.len() == 8 && "cycle_ms"@[0] == 'c',
        "ifname"@.len() == 6,
        "max_vel"@.len() == 7 && "max_vel"@[0] == 'm',
        "acc"@.len() == 3 && "acc"@[0] == 'a',
        "dec"@.len() == 3 && "dec"@[0] == 'd',
        "stop_dec"@.len() == 8 && "stop_dec"@[0] == 's',
        "sim_tau_ms"@.len() == 10,
        "scale"@.len() == 5,
        "ecat_dc"@.len() == 7 && "ecat_dc"@[0] == 'e',
        "first_axis_subdevice"@.len() == 20,
        "trace_seconds"@.len() == 13,
        "cmd_timeout_ms"@.len() == 14,
        "shutdown_timeout_ms"@.len() == 19,
        "sim"@.len() == 3,
        "ethercat"@.len() == 8,
        "true"@.len() == 4,
        "false"@.len() == 5,
        "1"@.len() == 1 && "1"@[0] == '1',
        "0"@.len() == 1 && "0"@[0] == '0',
{
    reveal_strlit("backend");
    reveal_strlit("axes");
    reveal_strlit("cycle_ms");
    reveal_strlit("ifname");
    reveal_strlit("max_vel");
    reveal_strlit("acc");
    reveal_strlit("dec");
    reveal_strlit("stop_dec");
    reveal_strlit("sim_tau_ms");
    reveal_strlit("scale");
    reveal_strlit("ecat_dc");
    reveal_strlit("first_axis_subdevice");
    reveal_strlit("trace_seconds");
    reveal_strlit("cmd_timeout_ms");
    reveal_strlit("shutdown_timeout_ms");
    reveal_strlit("sim");
    reveal_strlit("ethercat");
    reveal_strlit("true");
    reveal_strlit("false");
    reveal_strlit("1");
    reveal_strlit("0");
}

/// The text is a finite number.
pub open spec fn reads_finite(number: Option<Number>) -> bool {
    number matches Some(n) && n.value.finite()
}

/// The text is a finite number above zero.
pub open spec fn reads_positive(number: Option<Number>) -> bool {
    reads_finite(number) && number->0.value.value() > 0
}

/// The text is a finite number that is not below zero.
pub open spec fn reads_not_negative(number: Option<Number>) -> bool {
    reads_finite(number) && number->0.value.value() >= 0
}

/// The four limits take the number they are given, each its own, where it is
/// finite and above zero, and refuse any other.
pub proof fn limits_take_positive_numbers(c: Settings, value: Seq<char>, number: Option<Number>)
    ensures
        ({
            let good = reads_positive(number);
            let v = number->0.value;
            let max_vel = set_of(c, "max_vel"@, value, number);
            let acc = set_of(c, "acc"@, value, number);
            let dec = set_of(c, "dec"@, value, number);
            let stop_dec = set_of(c, "stop_dec"@, value, number);
            &&& !good ==> max_vel is Err && acc is Err && dec is Err && stop_dec is Err
            &&& good ==> max_vel == Ok::<Settings, Seq<char>>(
                Settings { params: AxisParams { max_vel: v, ..c.params }, ..c },
            )
            &&& good ==> acc == Ok::<Settings, Seq<char>>(
                Settings { params: AxisParams { acc: v, ..c.params }, ..c },
            )
            &&& good ==> dec == Ok::<Settings, Seq<char>>(
                Settings { params: AxisParams { dec: v, ..c.params }, ..c },
            )
            &&& good ==> stop_dec == Ok::<Settings, Seq<char>>(
                Settings { params: AxisParams { stop_dec: v, ..c.params }, ..c },
            )
        }),
{
    lemma_keys();
    lemma_magnitude_order(0, 0);
}

/// The times take the milliseconds they are given. A cycle has to be above zero;
/// the others may be zero, and a silence of zero means that none is watched for.
/// A number that no span of time can hold is refused.
pub proof fn times_take_milliseconds(c: Settings, value: Seq<char>, number: Option<Number>)
    ensures
        ({
            let millis = number->0.millis;
            let cycle = set_of(c, "cycle_ms"@, value, number);
            let silence = set_of(c, "cmd_timeout_ms"@, value, number);
            let stop = set_of(c, "shutdown_timeout_ms"@, value, number);
            let lag = set_of(c, "sim_tau_ms"@, value, number);
            let off = reads_finite(number) && number->0.value.value() == 0;
            &&& reads_positive(number) && millis is Some ==> cycle == Ok::<Settings, Seq<char>>(
                Settings { cycle: millis->0, ..c },
            )
            &&& !(reads_positive(number) && millis is Some) ==> cycle is Err
            &&& off ==> silence == Ok::<Settings, Seq<char>>(Settings { cmd_timeout: None, ..c })
            &&& reads_positive(number) && millis is Some ==> silence == Ok::<Settings, Seq<char>>(
                Settings { cmd_timeout: Some(millis->0), ..c },
            )
            &&& !off && !(reads_positive(number) && millis is Some) ==> silence is Err
            &&& reads_not_negative(number) && millis is Some ==> stop == Ok::<Settings, Seq<char>>(
                Settings { shutdown_timeout: millis->0, ..c },
            )
            &&& !(reads_not_negative(number) && millis is Some) ==> stop is Err
            &&& reads_not_negative(number) ==> lag == Ok::<Settings, Seq<char>>(
                Settings { sim_tau: number->0.thousandth, ..c },
            )
            &&& !reads_not_negative(number) ==> lag is Err
        }),
{
    lemma_keys();
    lemma_magnitude_order(0, 0);
    if number is Some {
        lemma_magnitude_order(number->0.value.unsigned_bits(), 0);
    }
}

/// Counts take whole numbers, each its own; the scaling any finite number but
/// zero.
pub proof fn counts_take_whole_numbers(c: Settings, value: Seq<char>, number: Option<Number>)
    ensures
        ({
            let index = whole_number(value, usize::MAX as nat);
            let seconds = whole_number(value, u64::MAX as nat);
            let axes = set_of(c, "axes"@, value, number);
            let first = set_of(c, "first_axis_subdevice"@, value, number);
            let trace = set_of(c, "trace_seconds"@, value, number);
            let scale = set_of(c, "scale"@, value, number);
            let scales = reads_finite(number) && number->0.value.value() != 0;
            &&& index is None ==> axes is Err && first is Err
            &&& index matches Some(n) ==> axes == Ok::<Settings, Seq<char>>(
                Settings { axes: n as usize, ..c },
            )
            &&& index matches Some(n) ==> first == Ok::<Settings, Seq<char>>(
                Settings { first_axis_subdevice: n as usize, ..c },
            )
            &&& seconds is None ==> trace is Err
            &&& seconds matches Some(n) ==> trace == Ok::<Settings, Seq<char>>(
                Settings { trace_seconds: n as u64, ..c },
            )
            &&& scales ==> scale == Ok::<Settings, Seq<char>>(
                Settings { scale: number->0.value, ..c },
            )
            &&& !scales ==> scale is Err
        }),
{
    lemma_keys();
    if number is Some {
        lemma_magnitude_order(number->0.value.unsigned_bits(), 0);
    }
}

/// The bus is one of two, the interface any text, and the clocks are on or off
/// by word or by digit.
pub proof fn choices_take_their_words(c: Settings, value: Seq<char>, number: Option<Number>)
    ensures
        ({
            let backend = set_of(c, "backend"@, value, number);
            let clocks = set_of(c, "ecat_dc"@, value, number);
            let on = value == "true"@ || value == "1"@;
            let off = value == "false"@ || value == "0"@;
            &&& value == "sim"@ ==> backend == Ok::<Settings, Seq<char>>(
                Settings { backend: Backend::Sim, ..c },
            )
            &&& value == "ethercat"@ ==> backend == Ok::<Settings, Seq<char>>(
                Settings { backend: Backend::Ethercat, ..c },
            )
            &&& value != "sim"@ && value != "ethercat"@ ==> backend is Err
            &&& set_of(c, "ifname"@, value, number) == Ok::<Settings, Seq<char>>(
                Settings { ifname: value, ..c },
            )
            &&& on ==> clocks == Ok::<Settings, Seq<char>>(Settings { ecat_dc: true, ..c })
            &&& off ==> clocks == Ok::<Settings, Seq<char>>(Settings { ecat_dc: false, ..c })
            &&& !on && !off ==> clocks is Err
        }),
{
    lemma_keys();
}

/// A key that is none of the settings is refused by name.
pub proof fn unknown_keys_are_refused(
    c: Settings,
    key: Seq<char>,
    value: Seq<char>,
    number: Option<Number>,
)
    requires
        key != "backend"@ && key != "axes"@ && key != "cycle_ms"@ && key != "ifname"@,
        key != "max_vel"@ && key != "acc"@ && key != "dec"@ && key != "stop_dec"@,
        key != "sim_tau_ms"@ && key != "scale"@ && key != "ecat_dc"@,
        key != "first_axis_subdevice"@ && key != "trace_seconds"@,
        key != "cmd_timeout_ms"@ && key != "shutdown_timeout_ms"@,
    ensures
        set_of(c, key, value, number) == Err::<Settings, Seq<char>>("unknown key "@ + key),
{
}

/// Each flag sets its key to the word behind it, and the flags behind that go
/// on; the word behind `--config` is passed over.
pub proof fn flags_set_their_keys(
    c: Settings,
    args: Seq<Seq<char>>,
    numbers: Seq<Option<Number>>,
    n: int,
    key: Seq<char>,
)
    requires
        0 <= n,
        n + 1 < args.len(),
        args[n] == "--backend"@ && key == "backend"@ || args[n] == "--axes"@ && key == "axes"@
            || args[n] == "--cycle-ms"@ && key == "cycle_ms"@ || args[n] == "--ifname"@ && key
            == "ifname"@ || args[n] == "--trace-seconds"@ && key == "trace_seconds"@ || args[n]
            == "--cmd-timeout-ms"@ && key == "cmd_timeout_ms"@ || args[n]
            == "--shutdown-timeout-ms"@ && key == "shutdown_timeout_ms"@,
    ensures
        flag_key_of(args[n]) == Some(key),
        set_of(c, key, args[n + 1], numbers[n + 1]) matches Ok(next) ==> flags_of(
            c,
            args,
            numbers,
            n,
        ) == flags_of(next, args, numbers, n + 2),
        set_of(c, key, args[n + 1], numbers[n + 1]) matches Err(e) ==> flags_of(
            c,
            args,
            numbers,
            n,
        ) == Err::<Settings, Seq<char>>(e),
{
    lemma_flags();
}

proof fn lemma_flags()
    ensures
        "--backend"@.len() == 9,
        "--axes"@.len() == 6 && "--axes"@[2] == 'a',
        "--cycle-ms"@.len() == 10,
        "--ifname"@.len() == 8 && "--ifname"@[2] == 'i',
        "--trace-seconds"@.len() == 15,
        "--cmd-timeout-ms"@.len() == 16,
        "--shutdown-timeout-ms"@.len() == 21,
        "--config"@.len() == 8 && "--config"@[2] == 'c',
        "--help"@.len() == 6 && "--help"@[2] == 'h',
        "-h"@.len() == 2,
{
    reveal_strlit("--backend");
    reveal_strlit("--axes");
    reveal_strlit("--cycle-ms");
    reveal_strlit("--ifname");
    reveal_strlit("--trace-seconds");
    reveal_strlit("--cmd-timeout-ms");
    reveal_strlit("--shutdown-timeout-ms");
    reveal_strlit("--config");
    reveal_strlit("--help");
    reveal_strlit("-h");
}

/// The path behind `--config` is passed over, a flag without a word behind it
/// and a word that is no flag are refused, and no flag changes nothing.
pub proof fn other_words_set_nothing(
    c: Settings,
    args: Seq<Seq<char>>,
    numbers: Seq<Option<Number>>,
    n: int,
)
    requires
        0 <= n,
    ensures
        n >= args.len() ==> flags_of(c, args, numbers, n) == Ok::<Settings, Seq<char>>(c),
        n + 1 < args.len() && args[n] == "--config"@ ==> flags_of(c, args, numbers, n) == flags_of(
            c,
            args,
            numbers,
            n + 2,
        ),
        n + 1 == args.len() ==> flags_of(c, args, numbers, n) is Err,
        n < args.len() && (args[n] == "--help"@ || args[n] == "-h"@) ==> flags_of(
            c,
            args,
            numbers,
            n,
        ) is Err,
{
    lemma_flags();
}

/// A configuration is sound as a whole when it serves 1 to 4 axes at a cycle of
/// 250 µs to 1 s and traces no more than 600 s, and only then.
pub proof fn sound_configurations_have_no_flaw(c: Settings, shown: Seq<char>)
    ensures
        flaw_of(c, shown) is None <==> 1 <= c.axes <= 4 && 250_000 <= c.cycle.nanos <= 1_000_000_000
            && c.trace_seconds <= 600,
{
}

/// The lines of a file are taken one after the other, each on top of those
/// before: blank ones change nothing, a refused one ends the file with what was
/// set so far.
pub proof fn lines_are_taken_in_order(
    c: Settings,
    lines: Seq<Seq<char>>,
    numbers: Seq<Option<Number>>,
    n: int,
)
    requires
        0 <= n < lines.len(),
    ensures
        match line_of(lines[n]) {
            LineContent::Blank => file_of(c, lines, numbers, n) == file_of(
                c,
                lines,
                numbers,
                n + 1,
            ),
            LineContent::Malformed => file_of(c, lines, numbers, n).0 == c && file_of(
                c,
                lines,
                numbers,
                n,
            ).1 is Some,
            LineContent::Setting { key, value } => match set_of(c, key, value, numbers[n]) {
                Ok(next) => file_of(c, lines, numbers, n) == file_of(next, lines, numbers, n + 1),
                Err(_) => file_of(c, lines, numbers, n).0 == c && file_of(
                    c,
                    lines,
                    numbers,
                    n,
                ).1 is Some,
            },
        },
        file_of(c, lines, numbers, lines.len() as int) == (c, None::<Seq<char>>),
{
}

/// All of it is white space.
pub open spec fn all_white(s: Seq<char>) -> bool {
    forall|i: int| 0 <= i < s.len() ==> white(#[trigger] s[i])
}

/// It begins and ends with something else than white space.
pub open spec fn solid(s: Seq<char>) -> bool {
    s.len() > 0 && !white(s[0]) && !white(s.last())
}

/// `c` stands nowhere in it.
pub open spec fn without(s: Seq<char>, c: char) -> bool {
    forall|i: int| 0 <= i < s.len() ==> #[trigger] s[i] != c
}

/// A line sets the key before its first `=` to the text behind it, whatever
/// white space stands around either. The text may hold more `=`, and may be
/// empty.
pub proof fn lines_set_a_key_to_a_value(
    a: Seq<char>,
    key: Seq<char>,
    b: Seq<char>,
    c: Seq<char>,
    value: Seq<char>,
    d: Seq<char>,
)
    requires
        all_white(a) && all_white(b) && all_white(c) && all_white(d),
        solid(key),
        without(key, '=') && without(key, '#'),
        value.len() == 0 || solid(value),
        without(value, '#'),
    ensures
        line_of(a + key + b + seq!['='] + c + value + d) == (LineContent::Setting { key, value }),
{
    let line = a + key + b + seq!['='] + c + value + d;
    lemma_first_of(line, '#', 0);
    assert forall|i: int| 0 <= i < line.len() implies line[i] != '#' by {
        let p = a.len() as int;
        let q = p + key.len();
        let r = q + b.len();
        let s = r + 1 + c.len();
        let t = s + value.len();
        if i < p {
            assert(white(a[i]));
        } else if i < q {
            assert(key[i - p] != '#');
        } else if i < r {
            assert(white(b[i - q]));
        } else if i > r && i < s {
            assert(white(c[i - r - 1]));
        } else if i >= s && i < t {
            assert(value[i - s] != '#');
        } else if i >= t {
            assert(white(d[i - t]));
        }
    }
    assert(first_of(line, '#', 0) == line.len());
    assert(before(line, '#') =~= line);
    let (core, tail) = if value.len() > 0 {
        (key + b + seq!['='] + c + value, d)
    } else {
        (key + b + seq!['='], c + d)
    };
    assert(line =~= a + core + tail);
    assert forall|i: int| 0 <= i < tail.len() implies white(#[trigger] tail[i]) by {
        if value.len() == 0 {
            if i < c.len() {
                assert(white(c[i]));
            } else {
                assert(white(d[i - c.len()]));
            }
        }
    }
    assert(core[0] == key[0]);
    assert(core.last() == if value.len() > 0 {
        value.last()
    } else {
        '='
    });
    lemma_trim_around(a, core, tail);
    assert(trimmed(line) == core);
    lemma_first_of(core, '=', 0);
    let at = (key.len() + b.len()) as int;
    assert(core[at] == '=');
    assert forall|i: int| 0 <= i < at implies core[i] != '=' by {
        if i < key.len() {
            assert(key[i] != '=');
        } else {
            assert(white(b[i - key.len()]));
        }
    }
    assert(first_of(core, '=', 0) == at);
    assert(core.take(at) =~= key + b);
    let rest = core.skip(at + 1);
    assert(rest =~= if value.len() > 0 {
        c + value
    } else {
        Seq::<char>::empty()
    });
    let none = Seq::<char>::empty();
    assert(key + b =~= none + key + b);
    lemma_trim_around(none, key, b);
    if value.len() > 0 {
        assert(c + value =~= c + value + none);
        lemma_trim_around(c, value, none);
    }
    assert(trimmed(key + b) == key);
    assert(trimmed(rest) =~= value);
    assert(halves(core, '=') == Some((core.take(at), rest)));
}

/// White space alone, with or without a comment behind it, is a blank line; a
/// line with text but no `=` is malformed.
pub proof fn blank_lines_are_blank(a: Seq<char>, word: Seq<char>, b: Seq<char>)
    requires
        all_white(a) && all_white(b),
        solid(word),
        without(word, '=') && without(word, '#'),
    ensures
        line_of(a) is Blank,
        line_of(a + word + b) is Malformed,
{
    lemma_no_mark(a, '#');
    assert(before(a, '#') =~= a);
    lemma_trim_all(a);
    let line = a + word + b;
    assert forall|i: int| 0 <= i < line.len() implies #[trigger] line[i] != '#' && line[i]
        != '=' by {
        if i < a.len() {
            assert(white(a[i]));
        } else if i < a.len() + word.len() {
            assert(word[i - a.len()] != '#' && word[i - a.len()] != '=');
        } else {
            assert(white(b[i - a.len() - word.len()]));
        }
    }
    lemma_first_of(line, '#', 0);
    assert(before(line, '#') =~= line);
    lemma_trim_around(a, word, b);
    lemma_first_of(word, '=', 0);
}

proof fn lemma_no_mark(s: Seq<char>, c: char)
    requires
        all_white(s),
        !white(c),
    ensures
        first_of(s, c, 0) == s.len(),
{
    lemma_first_of(s, c, 0);
    if first_of(s, c, 0) < s.len() {
        assert(white(s[first_of(s, c, 0)]));
    }
}

proof fn lemma_trim_all(s: Seq<char>)
    requires
        all_white(s),
    ensures
        trimmed(s).len() == 0,
    decreases s.len(),
{
    if s.len() > 0 {
        assert(white(s[0]));
        assert forall|i: int| 0 <= i < s.skip(1).len() implies white(#[trigger] s.skip(1)[i]) by {
            assert(white(s[i + 1]));
        }
        lemma_trim_all(s.skip(1));
    }
}

/// The simulated bus is configured as the settings say.
pub proof fn simulations_follow_the_settings(cfg: &Config, home_step: Scalar, r: SimConfig)
    requires
        call_ensures(sim_config, (cfg, home_step), r),
    ensures
        r.axes == cfg.axes,
        r.cycle == cfg.cycle,
        r.tau == cfg.sim_tau,
        r.home_step == home_step,
        r.enable_delay_cycles == 5,
        r.home_vel.bits == 0x4049_0000_0000_0000,
{
}

/// The EtherCAT bus is configured as the settings say, with one drive after the
/// other from the first axis' place on; without an interface there is none.
pub proof fn buses_follow_the_settings(cfg: &Config, r: Result<EcatConfig, String>, i: int)
    requires
        call_ensures(ethercat_config, (cfg,), r),
        cfg.first_axis_subdevice + cfg.axes <= usize::MAX,
        0 <= i < cfg.axes,
    ensures
        r is Err <==> cfg.ifname@.len() == 0,
        r matches Ok(bus) ==> {
            &&& bus.ifname@ == cfg.ifname@
            &&& bus.cycle == cfg.cycle
            &&& bus.dc == cfg.ecat_dc
            &&& bus.configure_pdo && bus.map_digital_inputs
            &&& bus.axes@.len() == cfg.axes
            &&& bus.axes@[i].subdevice == cfg.first_axis_subdevice + i
            &&& bus.axes@[i].scale == cfg.scale
        },
{
}

/// The configuration file is the one behind the first `--config` past the
/// program's name; without one there is no file, and one at the end is refused.
pub proof fn the_first_config_flag_names_the_file(args: Seq<Seq<char>>, at: int)
    requires
        1 <= at <= args.len(),
        forall|i: int| 1 <= i < at ==> #[trigger] args[i] != "--config"@,
        at < args.len() ==> args[at] == "--config"@,
    ensures
        at >= args.len() ==> path_of(args) == Ok::<Option<int>, Seq<char>>(None),
        at + 1 < args.len() ==> path_of(args) == Ok::<Option<int>, Seq<char>>(Some(at + 1)),
        at + 1 == args.len() ==> path_of(args) is Err,
{
    lemma_config_flag(args, 1, at);
}

proof fn lemma_config_flag(args: Seq<Seq<char>>, from: int, at: int)
    requires
        0 <= from <= at <= args.len(),
        forall|i: int| from <= i < at ==> #[trigger] args[i] != "--config"@,
        at < args.len() ==> args[at] == "--config"@,
    ensures
        crate::daemon::config::config_flag(args, from) == at,
    decreases at - from,
{
    if from < at {
        assert(args[from] != "--config"@);
        lemma_config_flag(args, from + 1, at);
    }
}

/// A command line is the defaults, then the file where one is named, then the
/// flags behind the program's name, and has to be sound in the end; what is
/// refused on the way is what is reported.
pub proof fn flags_come_after_the_file(
    args: Seq<Seq<char>>,
    numbers: Seq<Option<Number>>,
    file: FileRead,
)
    ensures
        ({
            let r = parse_of(args, numbers, file);
            let named = path_of(args) matches Ok(Some(_));
            let read = match file {
                FileRead::Text { text, numbers: readings } => file_of(
                    default_settings(),
                    lines_of(text@),
                    readings@,
                    0,
                ),
                _ => (default_settings(), None),
            };
            let base = if named {
                read.0
            } else {
                default_settings()
            };
            let flagged = flags_of(base, args, numbers, 1);
            let refused = path_of(args) is Err || named && (file is Failed || read.1 is Some);
            &&& refused ==> r is Err
            &&& named && read.1 is Some ==> r == Err::<Settings, Seq<char>>(read.1->0)
            &&& !refused && flagged is Err ==> r == flagged
            &&& !refused ==> (flagged matches Ok(c) ==> match flaw_of(c, cycle_text(c)) {
                Some(e) => r == Err::<Settings, Seq<char>>(e),
                None => r == Ok::<Settings, Seq<char>>(c),
            })
        }),
{
}

/// Without any setting there are four simulated axes at 2 ms, with usual limits,
/// a minute of trace, and one and two seconds of patience.
pub proof fn nothing_set_is_the_default(numbers: Seq<Option<Number>>, name: Seq<char>)
    ensures
        parse_of(seq![name], numbers, FileRead::NotNamed) matches Ok(c) && {
            &&& c.backend is Sim
            &&& c.axes == 4
            &&& c.cycle.nanos == 2_000_000
            &&& c.params.max_vel.bits == 0x408F_4000_0000_0000
            &&& c.params.acc.bits == 0x407F_4000_0000_0000
            &&& c.params.dec.bits == 0x407F_4000_0000_0000
            &&& c.params.stop_dec.bits == 0x409F_4000_0000_0000
            &&& c.sim_tau.bits == 0x3F9E_B851_EB85_1EB8
            &&& c.ifname.len() == 0
            &&& c.scale.bits == 0x40C3_8800_0000_0000
            &&& c.ecat_dc
            &&& c.first_axis_subdevice == 0
            &&& c.trace_seconds == 60
            &&& c.cmd_timeout matches Some(t) && t.nanos == 1_000_000_000
            &&& c.shutdown_timeout.nanos == 2_000_000_000
        },
{
    let args = seq![name];
    lemma_config_flag(args, 1, 1);
}

/// A refused number says which key, what is wrong with it, and what was given.
pub proof fn refused_numbers_say_why(
    c: Settings,
    key: Seq<char>,
    value: Seq<char>,
    number: Option<Number>,
)
    requires
        key == "max_vel"@ || key == "acc"@ || key == "dec"@ || key == "stop_dec"@ || key
            == "cycle_ms"@ || key == "sim_tau_ms"@ || key == "scale"@ || key == "cmd_timeout_ms"@
            || key == "shutdown_timeout_ms"@,
    ensures
        ({
            let r = set_of(c, key, value, number);
            let above = key == "max_vel"@ || key == "acc"@ || key == "dec"@ || key == "stop_dec"@
                || key == "cycle_ms"@;
            let v = number->0.value.value();
            &&& number is None ==> r == Err::<Settings, Seq<char>>(
                key + ": not a number: "@ + value,
            )
            &&& number is Some && !number->0.value.finite() ==> r == Err::<Settings, Seq<char>>(
                key + ": must be finite, got "@ + value,
            )
            &&& above && reads_finite(number) && v <= 0 ==> r == Err::<Settings, Seq<char>>(
                key + ": must be > 0, got "@ + value,
            )
            &&& !above && key != "scale"@ && reads_finite(number) && v < 0 ==> r == Err::<
                Settings,
                Seq<char>,
            >(key + ": must be >= 0, got "@ + value)
            &&& key == "scale"@ && reads_finite(number) && v == 0 ==> r == Err::<
                Settings,
                Seq<char>,
            >(key + ": must be non-zero"@)
        }),
{
    lemma_keys();
    lemma_magnitude_order(0, 0);
    if number is Some {
        lemma_magnitude_order(number->0.value.unsigned_bits(), 0);
    }
}

/// A refused line is told by its number, counted from one, and by what is wrong
/// with it.
pub proof fn refused_lines_say_where(
    c: Settings,
    lines: Seq<Seq<char>>,
    numbers: Seq<Option<Number>>,
    n: int,
)
    requires
        0 <= n < lines.len(),
    ensures
        ({
            let told = file_of(c, lines, numbers, n).1;
            let label = "config line "@ + numeral((n + 1) as nat, 10) + ": "@;
            &&& line_of(lines[n]) is Malformed ==> told == Some(label + "expected key = value"@)
            &&& line_of(lines[n]) matches LineContent::Setting { key, value } ==> (set_of(
                c,
                key,
                value,
                numbers[n],
            ) matches Err(e) ==> told == Some(label + e))
        }),
{
}

/// What is wrong with a configuration as a whole is told by the first thing that
/// is: its axes, its cycle, its trace.
pub proof fn flaws_are_told(c: Settings, shown: Seq<char>)
    ensures
        ({
            let served = 1 <= c.axes <= 4;
            let paced = 250_000 <= c.cycle.nanos <= 1_000_000_000;
            &&& !served ==> flaw_of(c, shown) == Some(
                "axes must be 1..=4, got "@ + numeral(c.axes as nat, 10),
            )
            &&& served && !paced ==> flaw_of(c, shown) == Some("cycle out of range: "@ + shown)
            &&& served && paced && c.trace_seconds > 600 ==> flaw_of(c, shown) == Some(
                "trace_seconds must be 0..=600, got "@ + numeral(c.trace_seconds as nat, 10),
            )
        }),
{
}

} // verus!
