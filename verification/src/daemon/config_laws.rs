//! What holds of every configuration that was accepted, and of settings given
//! one after the other.
use vstd::prelude::*;

use crate::daemon::config::{
    default_settings, file_fits, file_of, filed_of, finite_not_negative, flags_of, flag_key_of,
    line_label, line_of, parse_of, set_of, sound_reading, sound_readings, FileRead, LineContent,
    Number, Settings,
};
use crate::motion::axis::AxisParams;
use crate::scalar::{magnitude_increases, Scalar};
use crate::text::{before, first_of, lemma_first_of, lines_of};

verus! {

/// Finite and greater than zero.
pub open spec fn usable_limit(x: Scalar) -> bool {
    x.finite() && Scalar::zero_spec().lt(x)
}

/// Every ramp has a finite, positive limit, the scaling can be divided by, and
/// the lag of the simulated drives is finite and not negative.
pub open spec fn limits_usable(c: Settings) -> bool {
    &&& usable_limit(c.params.max_vel)
    &&& usable_limit(c.params.acc)
    &&& usable_limit(c.params.dec)
    &&& usable_limit(c.params.stop_dec)
    &&& c.scale.finite()
    &&& !c.scale.zero_valued()
    &&& finite_not_negative(c.sim_tau)
}

/// The default limits are usable.
pub proof fn default_limits_are_usable()
    ensures
        limits_usable(default_settings()),
{
    let p = default_settings().params;
    magnitude_increases(0, p.max_vel.unsigned_bits());
    magnitude_increases(0, p.acc.unsigned_bits());
    magnitude_increases(0, p.dec.unsigned_bits());
    magnitude_increases(0, p.stop_dec.unsigned_bits());
    magnitude_increases(0, default_settings().sim_tau.unsigned_bits());
}

/// No setting that is accepted leaves a limit unusable: an emergency stop always
/// has a ramp.
pub proof fn settings_keep_limits_usable(
    c: Settings,
    key: Seq<char>,
    value: Seq<char>,
    number: Option<Number>,
)
    requires
        limits_usable(c),
        sound_reading(number),
    ensures
        set_of(c, key, value, number) matches Ok(next) ==> limits_usable(next),
{
}

proof fn lemma_file_keeps_limits(
    c: Settings,
    lines: Seq<Seq<char>>,
    numbers: Seq<Option<Number>>,
    n: int,
)
    requires
        limits_usable(c),
        sound_readings(numbers, lines.len()),
        0 <= n,
    ensures
        limits_usable(file_of(c, lines, numbers, n).0),
    decreases lines.len() - n,
{
    if n < lines.len() {
        match line_of(lines[n]) {
            LineContent::Blank => {
                lemma_file_keeps_limits(c, lines, numbers, n + 1);
            },
            LineContent::Malformed => {},
            LineContent::Setting { key, value } => {
                settings_keep_limits_usable(c, key, value, numbers[n]);
                match set_of(c, key, value, numbers[n]) {
                    Ok(next) => {
                        lemma_file_keeps_limits(next, lines, numbers, n + 1);
                    },
                    Err(_) => {},
                }
            },
        }
    }
}

proof fn lemma_flags_keep_limits(
    c: Settings,
    args: Seq<Seq<char>>,
    numbers: Seq<Option<Number>>,
    n: int,
)
    requires
        limits_usable(c),
        sound_readings(numbers, args.len()),
        0 <= n,
    ensures
        flags_of(c, args, numbers, n) matches Ok(last) ==> limits_usable(last),
    decreases args.len() - n,
{
    if n + 1 < args.len() {
        if args[n] == "--config"@ {
            lemma_flags_keep_limits(c, args, numbers, n + 2);
        } else if let Some(key) = flag_key_of(args[n]) {
            settings_keep_limits_usable(c, key, args[n + 1], numbers[n + 1]);
            match set_of(c, key, args[n + 1], numbers[n + 1]) {
                Ok(next) => {
                    lemma_flags_keep_limits(next, args, numbers, n + 2);
                },
                Err(_) => {},
            }
        }
    }
}

/// Whatever the file and the flags say: an accepted configuration serves 1 to 4
/// axes at a cycle from 250 µs to 1 s, traces at most 600 s, and has usable
/// limits.
pub proof fn accepted_configurations_are_valid(
    args: Seq<Seq<char>>,
    numbers: Seq<Option<Number>>,
    file: FileRead,
)
    requires
        sound_readings(numbers, args.len()),
        file_fits(file, args),
    ensures
        parse_of(args, numbers, file) matches Ok(c) ==> {
            &&& 1 <= c.axes <= 4
            &&& 250_000 <= c.cycle.nanos <= 1_000_000_000
            &&& c.trace_seconds <= 600
            &&& limits_usable(c)
        },
{
    default_limits_are_usable();
    if let FileRead::Text { text, numbers: readings } = file {
        lemma_file_keeps_limits(default_settings(), lines_of(text@), readings@, 0);
    }
    if let Ok(c) = filed_of(args, file) {
        lemma_flags_keep_limits(c, args, numbers, 1);
    }
}

/// Of two accepted settings of one key, the later one counts: flags override
/// the file.
pub proof fn the_last_setting_counts(
    c: Settings,
    key: Seq<char>,
    first: Seq<char>,
    first_number: Option<Number>,
    last: Seq<char>,
    last_number: Option<Number>,
)
    requires
        set_of(c, key, first, first_number) is Ok,
    ensures
        set_of(set_of(c, key, first, first_number)->Ok_0, key, last, last_number) == set_of(
            c,
            key,
            last,
            last_number,
        ),
{
}

/// The place of a key among the settings, the number of settings if unknown.
spec fn slot(key: Seq<char>) -> int {
    if key == "backend"@ {
        0
    } else if key == "axes"@ {
        1
    } else if key == "cycle_ms"@ {
        2
    } else if key == "ifname"@ {
        3
    } else if key == "max_vel"@ {
        4
    } else if key == "acc"@ {
        5
    } else if key == "dec"@ {
        6
    } else if key == "stop_dec"@ {
        7
    } else if key == "sim_tau_ms"@ {
        8
    } else if key == "scale"@ {
        9
    } else if key == "ecat_dc"@ {
        10
    } else if key == "first_axis_subdevice"@ {
        11
    } else if key == "trace_seconds"@ {
        12
    } else if key == "cmd_timeout_ms"@ {
        13
    } else if key == "shutdown_timeout_ms"@ {
        14
    } else {
        15
    }
}

/// `c` with the setting in one place taken from `from`.
spec fn with_slot(c: Settings, from: Settings, place: int) -> Settings {
    Settings {
        backend: if place == 0 { from.backend } else { c.backend },
        axes: if place == 1 { from.axes } else { c.axes },
        cycle: if place == 2 { from.cycle } else { c.cycle },
        ifname: if place == 3 { from.ifname } else { c.ifname },
        params: AxisParams {
            max_vel: if place == 4 { from.params.max_vel } else { c.params.max_vel },
            acc: if place == 5 { from.params.acc } else { c.params.acc },
            dec: if place == 6 { from.params.dec } else { c.params.dec },
            stop_dec: if place == 7 { from.params.stop_dec } else { c.params.stop_dec },
        },
        sim_tau: if place == 8 { from.sim_tau } else { c.sim_tau },
        scale: if place == 9 { from.scale } else { c.scale },
        ecat_dc: if place == 10 { from.ecat_dc } else { c.ecat_dc },
        first_axis_subdevice: if place == 11 {
            from.first_axis_subdevice
        } else {
            c.first_axis_subdevice
        },
        trace_seconds: if place == 12 { from.trace_seconds } else { c.trace_seconds },
        cmd_timeout: if place == 13 { from.cmd_timeout } else { c.cmd_timeout },
        shutdown_timeout: if place == 14 { from.shutdown_timeout } else { c.shutdown_timeout },
    }
}

/// A setting replaces what stands in its own place, whatever the rest is.
proof fn lemma_settings_are_local(
    c: Settings,
    d: Settings,
    key: Seq<char>,
    value: Seq<char>,
    number: Option<Number>,
)
    requires
        set_of(c, key, value, number) is Ok,
    ensures
        slot(key) < 15,
        set_of(d, key, value, number) == Ok::<Settings, Seq<char>>(
            with_slot(d, set_of(c, key, value, number)->Ok_0, slot(key)),
        ),
{
}

/// Settings of different keys do not depend on their order.
pub proof fn settings_of_different_keys_commute(
    c: Settings,
    a: Seq<char>,
    a_value: Seq<char>,
    a_number: Option<Number>,
    b: Seq<char>,
    b_value: Seq<char>,
    b_number: Option<Number>,
)
    requires
        a != b,
        set_of(c, a, a_value, a_number) is Ok,
        set_of(c, b, b_value, b_number) is Ok,
    ensures
        set_of(set_of(c, a, a_value, a_number)->Ok_0, b, b_value, b_number) == set_of(
            set_of(c, b, b_value, b_number)->Ok_0,
            a,
            a_value,
            a_number,
        ),
{
    let x = set_of(c, a, a_value, a_number)->Ok_0;
    let y = set_of(c, b, b_value, b_number)->Ok_0;
    lemma_settings_are_local(c, c, a, a_value, a_number);
    lemma_settings_are_local(c, c, b, b_value, b_number);
    lemma_settings_are_local(c, x, b, b_value, b_number);
    lemma_settings_are_local(c, y, a, a_value, a_number);
    lemma_slots_commute(c, x, slot(a), y, slot(b));
}

proof fn lemma_slots_commute(c: Settings, x: Settings, i: int, y: Settings, j: int)
    requires
        i != j,
    ensures
        with_slot(with_slot(c, x, i), y, j) == with_slot(with_slot(c, y, j), x, i),
{
}

/// A refused file is refused with the number of a line in it.
pub proof fn refused_lines_are_numbered(
    c: Settings,
    lines: Seq<Seq<char>>,
    numbers: Seq<Option<Number>>,
    n: int,
) -> (line: int)
    requires
        0 <= n,
        file_of(c, lines, numbers, n).1 is Some,
    ensures
        n <= line < lines.len(),
        line_label(line).is_prefix_of(file_of(c, lines, numbers, n).1->0),
    decreases lines.len() - n,
{
    let message = file_of(c, lines, numbers, n).1->0;
    match line_of(lines[n]) {
        LineContent::Blank => refused_lines_are_numbered(c, lines, numbers, n + 1),
        LineContent::Malformed => {
            assert(line_label(n) =~= message.subrange(0, line_label(n).len() as int));
            n
        },
        LineContent::Setting { key, value } => match set_of(c, key, value, numbers[n]) {
            Ok(next) => refused_lines_are_numbered(next, lines, numbers, n + 1),
            Err(_) => {
                assert(line_label(n) =~= message.subrange(0, line_label(n).len() as int));
                n
            },
        },
    }
}

/// A comment at the end of a line changes nothing.
pub proof fn comments_do_not_count(line: Seq<char>, comment: Seq<char>)
    ensures
        line_of(line.push('#') + comment) == line_of(line),
{
    let long = line.push('#') + comment;
    lemma_first_of(line, '#', 0);
    lemma_first_of(long, '#', 0);
    let a = first_of(line, '#', 0);
    let b = first_of(long, '#', 0);
    assert(long[line.len() as int] == '#');
    assert(forall|i: int| 0 <= i < line.len() ==> long[i] == line[i]);
    if a < b {
        assert(long[a] == '#');
    } else if b < a {
        assert(line[b] == '#');
    }
    assert(before(long, '#') =~= before(line, '#'));
}

} // verus!
