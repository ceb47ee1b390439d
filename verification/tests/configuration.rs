//! Configuration from a file and from flags, and the texts around it.
use motion_daemon::daemon::config::{
    apply_file, config_path, ethercat_config, parse, parse_line, sim_config, validate,
    Backend, Config, FileRead, Line, Number, USAGE,
};
use motion_daemon::ethercat::config::{AxisMapping, EcatConfig};
use motion_daemon::fieldbus::{AxisId, BusState, FieldbusError};
use motion_daemon::scalar::Scalar;
use motion_daemon::text::{
    cut_at, decimal, hexadecimal, lines, parse_whole, same, split_at_first, trim,
};
use motion_daemon::time::Duration;

fn s(x: f64) -> Scalar {
    Scalar { bits: x.to_bits() }
}

fn f(x: Scalar) -> f64 {
    f64::from_bits(x.bits)
}

fn reading(text: &str) -> Option<Number> {
    let v: f64 = text.parse().ok()?;
    Some(Number {
        value: s(v),
        thousandth: s(v / 1000.0),
        millis: std::time::Duration::try_from_secs_f64(v / 1000.0)
            .ok()
            .map(|d| Duration { nanos: d.as_nanos() }),
        shown: format!("{v}"),
    })
}

fn argv(flags: &str) -> Vec<String> {
    std::iter::once("motion-daemon".to_string())
        .chain(flags.split_whitespace().map(String::from))
        .collect()
}

fn file(text: &str) -> FileRead {
    FileRead::Text { text: text.to_string(), numbers: line_readings(text) }
}

fn line_readings(text: &str) -> Vec<Option<Number>> {
    lines(text)
        .iter()
        .map(|line| match parse_line(line) {
            Line::Setting { value, .. } => reading(&value),
            _ => None,
        })
        .collect()
}

fn parsed(flags: &str) -> Result<Config, String> {
    let args = argv(flags);
    let numbers = args.iter().map(|a| reading(a)).collect();
    parse(&args, &numbers, &FileRead::NotNamed)
}

fn parsed_with(flags: &str, file: FileRead) -> Result<Config, String> {
    let args = argv(flags);
    let numbers = args.iter().map(|a| reading(a)).collect();
    parse(&args, &numbers, &file)
}

fn set_text(cfg: &mut Config, key: &str, value: &str) -> Result<(), String> {
    motion_daemon::daemon::config::set(cfg, key, value, &reading(value))
}

fn apply(cfg: &mut Config, text: &str) -> Result<(), String> {
    apply_file(cfg, text, &line_readings(text))
}

#[test]
fn defaults_and_overrides() {
    let cfg = parsed("").unwrap();
    assert_eq!(cfg.backend, Backend::Sim);
    assert_eq!(cfg.axes, 4);
    assert_eq!(cfg.cmd_timeout, Some(Duration::from_millis(1000)));
    assert_eq!(cfg.shutdown_timeout, Duration::from_millis(2000));

    let cfg = parsed("--backend sim --axes 2 --cycle-ms 5").unwrap();
    assert_eq!(cfg.axes, 2);
    assert_eq!(cfg.cycle, Duration::from_millis(5));
}

#[test]
fn default_values() {
    let cfg = Config::default();
    assert_eq!(cfg.cycle, Duration::from_millis(2));
    assert_eq!(f(cfg.sim_tau), 0.03);
    assert_eq!(cfg.ifname, "");
    assert_eq!(f(cfg.scale), 10_000.0);
    assert!(cfg.ecat_dc);
    assert_eq!(cfg.first_axis_subdevice, 0);
    assert_eq!(f(cfg.params.max_vel), 1000.0);
    assert_eq!(f(cfg.params.stop_dec), 2000.0);
}

#[test]
fn rejects_bad_input() {
    assert!(parsed("--backend plc").is_err());
    assert!(parsed("--axes 9").is_err());
    assert!(parsed("--frobnicate").is_err());
    assert!(parsed("--trace-seconds 601").is_err());
    assert!(parsed("--axes").is_err(), "flag without value");
}

/// The lag of the simulated drives is finite and not negative once accepted.
#[test]
fn the_lag_stays_usable() {
    let mut cfg = Config::default();
    for bad in ["-0.5", "nan", "inf", "-inf"] {
        assert!(set_text(&mut cfg, "sim_tau_ms", bad).is_err(), "sim_tau_ms = {bad}");
        assert_eq!(f(cfg.sim_tau), 0.03);
    }
    for (good, tau) in [("0", 0.0), ("40", 0.04), ("1e308", 1e305)] {
        assert!(set_text(&mut cfg, "sim_tau_ms", good).is_ok(), "sim_tau_ms = {good}");
        assert_eq!(f(cfg.sim_tau), tau);
    }
}

#[test]
fn rejects_non_finite_zero_and_fractional_counts() {
    for bad in ["nan", "-1", "0", "inf", "1e300", "abc"] {
        assert!(parsed(&format!("--cycle-ms {bad}")).is_err(), "cycle_ms {bad}");
    }
    for bad in ["2.7", "-1", "nan", "1e1"] {
        assert!(parsed(&format!("--axes {bad}")).is_err(), "axes {bad}");
    }
    for bad in ["1.5", "-3"] {
        assert!(parsed(&format!("--trace-seconds {bad}")).is_err(), "trace_seconds {bad}");
    }

    let mut cfg = Config::default();
    for key in ["max_vel", "acc", "dec", "stop_dec"] {
        for bad in ["0", "-5", "nan", "inf"] {
            assert!(set_text(&mut cfg, key, bad).is_err(), "{key} = {bad}");
        }
        assert!(set_text(&mut cfg, key, "100").is_ok());
    }
    for bad in ["0", "nan", "inf", "-inf"] {
        assert!(set_text(&mut cfg, "scale", bad).is_err(), "scale = {bad}");
    }
    assert!(set_text(&mut cfg, "scale", "-10000").is_ok(), "negative scale flips direction");
    assert!(set_text(&mut cfg, "first_axis_subdevice", "1.5").is_err());
    assert!(set_text(&mut cfg, "sim_tau_ms", "-1").is_err());
    assert!(set_text(&mut cfg, "sim_tau_ms", "0").is_ok());
    assert!(set_text(&mut cfg, "ecat_dc", "maybe").is_err());
    assert!(set_text(&mut cfg, "ecat_dc", "0").is_ok());
    assert!(!cfg.ecat_dc);

    // Bad file lines report their line number.
    let err = apply(&mut cfg, "axes = 2\nstop_dec = 0\n").unwrap_err();
    assert!(err.starts_with("config line 2:"), "{err}");
}

#[test]
fn trace_seconds_flag() {
    assert_eq!(parsed("").unwrap().trace_seconds, 60);
    assert_eq!(parsed("--trace-seconds 0").unwrap().trace_seconds, 0);
    assert_eq!(parsed("--trace-seconds 120").unwrap().trace_seconds, 120);
}

#[test]
fn timeout_flags() {
    let cfg = parsed("--cmd-timeout-ms 0").unwrap();
    assert_eq!(cfg.cmd_timeout, None, "0 disables the dead-man");
    let cfg = parsed("--cmd-timeout-ms 250 --shutdown-timeout-ms 500").unwrap();
    assert_eq!(cfg.cmd_timeout, Some(Duration::from_millis(250)));
    assert_eq!(cfg.shutdown_timeout, Duration::from_millis(500));
    assert!(parsed("--cmd-timeout-ms -1").is_err());
    assert!(parsed("--cmd-timeout-ms nan").is_err());
    assert!(parsed("--shutdown-timeout-ms inf").is_err());
    assert!(parsed("--shutdown-timeout-ms -0.5").is_err());
}

#[test]
fn config_file_then_cli_override() {
    let mut cfg = Config::default();
    apply(
        &mut cfg,
        "# comment\nbackend = sim\naxes = 3\nmax_vel = 250 # trailing\n\
         cmd_timeout_ms = 0\nshutdown_timeout_ms = 3000\n",
    )
    .unwrap();
    assert_eq!(cfg.axes, 3);
    assert_eq!(cfg.params.max_vel, s(250.0));
    assert_eq!(cfg.cmd_timeout, None);
    assert_eq!(cfg.shutdown_timeout, Duration::from_millis(3000));
}

#[test]
fn flags_override_the_file() {
    let text = "axes = 3\nifname = eth7\r\nsim_tau_ms = 40\n\n";
    let cfg = parsed_with("--config c.conf --axes 2", file(text)).unwrap();
    assert_eq!(cfg.axes, 2);
    assert_eq!(cfg.ifname, "eth7");
    assert_eq!(f(cfg.sim_tau), 0.04);
    // The order on the command line does not matter.
    let cfg = parsed_with("--axes 2 --config c.conf", file(text)).unwrap();
    assert_eq!(cfg.axes, 2);
    // Of two flags the last counts.
    assert_eq!(parsed("--axes 2 --axes 1").unwrap().axes, 1);
}

#[test]
fn every_refusal_has_its_message() {
    let message = |flags: &str| parsed(flags).unwrap_err();
    assert_eq!(message("--backend plc"), "backend must be sim|ethercat, got plc");
    assert_eq!(message("--axes x"), "axes: not an integer: x");
    assert_eq!(message("--axes 0"), "axes must be 1..=4, got 0");
    assert_eq!(message("--axes 9"), "axes must be 1..=4, got 9");
    assert_eq!(message("--cycle-ms x"), "cycle_ms: not a number: x");
    assert_eq!(message("--cycle-ms inf"), "cycle_ms: must be finite, got inf");
    assert_eq!(message("--cycle-ms -2"), "cycle_ms: must be > 0, got -2");
    assert_eq!(
        message("--cycle-ms 1e25"),
        "cycle_ms: out of range: 10000000000000000000000000"
    );
    assert_eq!(message("--cycle-ms 0.2"), "cycle out of range: 200µs");
    assert_eq!(message("--cycle-ms 1500"), "cycle out of range: 1.5s");
    assert_eq!(message("--cmd-timeout-ms -1"), "cmd_timeout_ms: must be >= 0, got -1");
    assert_eq!(message("--trace-seconds 601"), "trace_seconds must be 0..=600, got 601");
    assert_eq!(message("--axes"), "--axes needs a value");
    assert_eq!(message("--help"), USAGE);
    assert_eq!(message("-h"), USAGE);
    assert_eq!(message("--frobnicate"), format!("unknown flag --frobnicate\n{USAGE}"));
    assert_eq!(message("--config"), "--config needs a path");

    let failed = FileRead::Failed { reason: "gone".to_string() };
    assert_eq!(parsed_with("--config a/b", failed).unwrap_err(), "read config a/b: gone");
    assert_eq!(
        parsed_with("--config a --config", file("")).unwrap_err(),
        "--config needs a value"
    );
    assert_eq!(
        parsed_with("--config a", file("axes = 1\n\nnonsense\n")).unwrap_err(),
        "config line 3: expected key = value"
    );
    assert_eq!(
        parsed_with("--config a", file("axis = 1")).unwrap_err(),
        "config line 1: unknown key axis"
    );
    let mut cfg = Config::default();
    assert_eq!(set_text(&mut cfg, "scale", "-0").unwrap_err(), "scale: must be non-zero");
    assert_eq!(
        set_text(&mut cfg, "ecat_dc", "maybe").unwrap_err(),
        "ecat_dc: must be true|false, got maybe"
    );
}

#[test]
fn usage_names_flags_and_keys() {
    let rows: Vec<&str> = USAGE.split('\n').collect();
    assert_eq!(rows.len(), 5);
    assert!(rows[0].starts_with("usage: motion-daemon [--config FILE]"));
    assert_eq!(
        rows[1],
        "                     [--cmd-timeout-ms MS] [--shutdown-timeout-ms MS]"
    );
    assert!(rows[2].starts_with("config file keys: backend, axes"));
    assert!(rows[4].ends_with("cmd_timeout_ms (0 = dead-man off), shutdown_timeout_ms"));
}

#[test]
fn a_refused_line_keeps_the_lines_before_it() {
    let mut cfg = Config::default();
    assert!(apply(&mut cfg, "axes = 2\nacc = fast\naxes = 1\n").is_err());
    assert_eq!(cfg.axes, 2);
    assert_eq!(f(cfg.params.acc), 500.0);
}

#[test]
fn the_file_is_found_in_the_arguments() {
    assert_eq!(config_path(&argv("")), Ok(None));
    assert_eq!(config_path(&argv("--axes 2")), Ok(None));
    assert_eq!(config_path(&argv("--axes 2 --config f")), Ok(Some(4)));
    assert!(config_path(&argv("--axes 2 --config")).is_err());
    assert_eq!(config_path(&Vec::new()), Ok(None));
}

#[test]
fn whole_configurations_are_checked() {
    let mut cfg = Config::default();
    assert_eq!(validate(&cfg, "2ms"), Ok(()));
    cfg.cycle = Duration::from_micros(249);
    assert_eq!(validate(&cfg, "SHOWN"), Err("cycle out of range: SHOWN".to_string()));
    cfg.cycle = Duration::from_micros(250);
    assert_eq!(validate(&cfg, ""), Ok(()));
    cfg.cycle = Duration::from_secs(1);
    assert_eq!(validate(&cfg, ""), Ok(()));
    cfg.trace_seconds = 601;
    assert!(validate(&cfg, "").is_err());
}

#[test]
fn lines_are_taken_apart() {
    assert_eq!(parse_line("  # only a comment = here"), Line::Blank);
    assert_eq!(parse_line(" \t\r"), Line::Blank);
    assert_eq!(parse_line("no setting"), Line::Malformed);
    assert_eq!(
        parse_line(" key =  a = b  # c"),
        Line::Setting { key: "key".to_string(), value: "a = b".to_string() }
    );
    assert_eq!(
        parse_line("="),
        Line::Setting { key: String::new(), value: String::new() }
    );
}

#[test]
fn bus_configurations() {
    let mut cfg = Config::default();
    cfg.axes = 2;
    cfg.first_axis_subdevice = 1;
    cfg.scale = s(-20.0);
    cfg.cycle = Duration::from_millis(4);
    cfg.ecat_dc = false;
    assert_eq!(
        ethercat_config(&cfg).err(),
        Some("the ethercat backend needs --ifname (or ifname= in the config)".to_string())
    );
    cfg.ifname = "eth0".to_string();
    let bus = ethercat_config(&cfg).unwrap();
    assert_eq!(bus.ifname, "eth0");
    assert_eq!(bus.cycle, Duration::from_millis(4));
    assert!(!bus.dc && bus.configure_pdo && bus.map_digital_inputs);
    assert_eq!(
        bus.axes,
        vec![
            AxisMapping { subdevice: 1, scale: s(-20.0) },
            AxisMapping { subdevice: 2, scale: s(-20.0) }
        ]
    );

    let sim = sim_config(&cfg, s(0.2));
    assert_eq!(sim.axes, 2);
    assert_eq!(sim.cycle, Duration::from_millis(4));
    assert_eq!(f(sim.tau), 0.03);
    assert_eq!(f(sim.home_step), 0.2);
    assert_eq!(f(sim.home_vel), 50.0);

    let plain = EcatConfig::new("eth1".to_string(), 3);
    assert_eq!(plain.axes.len(), 3);
    assert_eq!(plain.axes[2], AxisMapping { subdevice: 2, scale: s(10_000.0) });
    assert_eq!(plain.cycle, Duration::from_millis(1));
}

#[test]
fn fieldbus_errors_as_messages() {
    assert_eq!(AxisId(12).to_text(), "axis12");
    assert_eq!(FieldbusError::Unsupported("x").to_text(), "unsupported: x");
    assert_eq!(
        FieldbusError::InvalidState(BusState::PreOp).to_text(),
        "invalid bus state: PreOp"
    );
    assert_eq!(FieldbusError::NoSuchAxis(AxisId(3)).to_text(), "no such axis: axis3");
    assert_eq!(FieldbusError::Exchange("lost").to_text(), "cyclic exchange failed: lost");
    assert_eq!(
        FieldbusError::Acyclic { code: 0x0602_0000 }.to_text(),
        "acyclic transfer failed, code 0x6020000"
    );
    assert_eq!(FieldbusError::Timeout.to_text(), "timeout");
    for state in [BusState::Init, BusState::PreOp, BusState::SafeOp, BusState::Op] {
        assert_eq!(state.name(), format!("{state:?}"));
    }
}

#[test]
fn texts() {
    assert!(same("héllo", "héllo"));
    assert!(!same("a", "ab"));
    assert_eq!(trim("\u{2003} a b\u{85}\n"), "a b");
    assert_eq!(trim("   "), "");
    assert_eq!(cut_at("a#b#c", '#'), "a");
    assert_eq!(cut_at("abc", '#'), "abc");
    assert_eq!(split_at_first("a=b=c", '='), Some(("a", "b=c")));
    assert_eq!(split_at_first("abc", '='), None);
    assert_eq!(lines("a\n\nb"), vec!["a", "", "b"]);
    assert_eq!(lines(""), vec![""]);
    assert_eq!(decimal(0), "0");
    assert_eq!(decimal(u64::MAX), "18446744073709551615");
    assert_eq!(hexadecimal(0xDEAD_BEEF), "0xdeadbeef");
    assert_eq!(parse_whole("+0042", 100), Some(42));
    assert_eq!(parse_whole("18446744073709551615", u64::MAX), Some(u64::MAX));
    assert_eq!(parse_whole("18446744073709551616", u64::MAX), None);
    assert_eq!(parse_whole("101", 100), None);
    assert_eq!(parse_whole("", 100), None);
    assert_eq!(parse_whole("+", 100), None);
    assert_eq!(parse_whole("-0", 100), None);
    assert_eq!(parse_whole("1_0", 100), None);
}

#[test]
fn white_space_is_unicode_white_space() {
    for u in 0..0x3100u32 {
        if let Some(c) = char::from_u32(u) {
            let text = format!("{c}x{c}");
            assert_eq!(trim(&text), text.trim(), "{u:x}");
        }
    }
}

#[test]
fn scalars_compare_like_numbers() {
    let values = [
        f64::NEG_INFINITY,
        -1e300,
        -1.0,
        -5e-324,
        -0.0,
        0.0,
        5e-324,
        2.2e-308,
        1e-6,
        1.0,
        25.0,
        1e300,
        f64::INFINITY,
        f64::NAN,
    ];
    for a in values {
        assert_eq!(s(a).is_nan(), a.is_nan());
        assert_eq!(s(a).is_finite(), a.is_finite());
        assert_eq!(s(a).is_zero(), a == 0.0);
        assert_eq!(s(a).abs().bits, a.abs().to_bits());
        assert_eq!(s(a).negate().bits, (-a).to_bits());
        for b in values {
            assert_eq!(s(a).is_less(s(b)), a < b, "{a} < {b}");
            assert_eq!(s(a).is_at_most(s(b)), a <= b, "{a} <= {b}");
            if a != 0.0 && b != 0.0 {
                let least = s(a).min(s(b));
                assert!(f(least) == a.min(b) || a.min(b).is_nan(), "min({a}, {b})");
            }
        }
    }
}
