//! Shared-memory segments: layout, seqlock, command latch and trace ring.
use motion_daemon::scalar::Scalar;
use motion_daemon::shm::channel::{CmdReader, DataPublisher};
use motion_daemon::shm::layout::{
    as_bytes, from_bytes, AxisCmd, AxisState, Header, PlcCommand, PlcData, PLC_COMMAND_MAGIC,
    PLC_COMMAND_VERSION, PLC_DATA_MAGIC, PLC_DATA_VERSION, SIZE_PLC_COMMAND, SIZE_PLC_DATA,
};
use motion_daemon::shm::mapping::{grown_size, Mapping};
use motion_daemon::shm::seqlock::{
    perform, publish, reset, snapshot, ReadAction, ReadError, ReadSession, WriteSession,
    SEQLOCK_MAX_RETRIES,
};
use motion_daemon::shm::trace::{
    capacity_for, is_power_of_two, lap_check, make_header, plan_window, sample_as_bytes,
    sample_from_bytes, segment_size, TraceAxisSample, TraceReadError, TraceReader, TraceRing,
    TraceSample, TraceWriter, PUSH_STORES, SIZE_TRACE_SAMPLE,
};

fn s(x: f64) -> Scalar {
    Scalar { bits: x.to_bits() }
}

fn data_mapping() -> Mapping {
    Mapping::in_memory(SIZE_PLC_DATA)
}

fn cmd_mapping() -> Mapping {
    Mapping::in_memory(SIZE_PLC_COMMAND)
}

/// Poke header fields straight into the segment.
fn seed_header(m: &mut Mapping, magic: u32, version: u16, seq: u32, cycle: u64) {
    m.set_word(0, magic as u64 | (version as u64) << 32);
    m.set_word(1, seq as u64);
    m.set_word(2, cycle);
}

fn seq_of(m: &Mapping) -> u32 {
    m.word(1) as u32
}

#[test]
fn snapshot_round_trip() {
    let mut m = data_mapping();
    seed_header(&mut m, PLC_DATA_MAGIC, PLC_DATA_VERSION, 2, 42);

    let mut dst = PlcData::default();
    snapshot(&m, &mut dst).expect("snapshot");
    assert_eq!(dst.header.cycle, 42);
    assert_eq!(dst.header.seq, 2);
}

#[test]
fn snapshot_rejects_magic() {
    let mut m = data_mapping();
    seed_header(&mut m, 0xBADBAD, PLC_DATA_VERSION, 2, 0);
    let mut dst = PlcData::default();
    assert_eq!(snapshot(&m, &mut dst), Err(ReadError::MagicMismatch));
}

#[test]
fn snapshot_rejects_version() {
    let mut m = data_mapping();
    seed_header(&mut m, PLC_DATA_MAGIC, PLC_DATA_VERSION + 99, 2, 0);
    let mut dst = PlcData::default();
    assert_eq!(snapshot(&m, &mut dst), Err(ReadError::VersionMismatch));
}

#[test]
fn snapshot_rejects_busy() {
    let mut m = data_mapping();
    // odd forever -> writer perpetually in progress
    seed_header(&mut m, PLC_DATA_MAGIC, PLC_DATA_VERSION, 1, 0);
    let mut dst = PlcData::default();
    assert_eq!(snapshot(&m, &mut dst), Err(ReadError::Busy));
}

fn command(cycle: u64) -> PlcCommand {
    let mut src = PlcCommand::default();
    src.header.magic = PLC_COMMAND_MAGIC;
    src.header.version = PLC_COMMAND_VERSION;
    src.header.cycle = cycle;
    src
}

#[test]
fn publish_round_trip_and_seq_ownership() {
    let mut m = cmd_mapping();

    let mut src = command(7);
    src.header.seq = 999; // garbage: the writer owns seq and must ignore this

    publish(&mut m, &src);

    let mut got = PlcCommand::default();
    snapshot(&m, &mut got).expect("seqlock never stabilised");
    assert_eq!(got.header.cycle, 7);
    assert_eq!(got.header.magic, PLC_COMMAND_MAGIC);
    assert_eq!(got.header.version, PLC_COMMAND_VERSION);
    // First write must land on the first even value, not anything
    // derived from src.header.seq (999).
    assert_eq!(got.header.seq, 2, "writer must ignore src seq");

    // Second write advances seq by exactly 2 and stays even.
    src.header.cycle = 8;
    publish(&mut m, &src);
    let mut got2 = PlcCommand::default();
    snapshot(&m, &mut got2).expect("seqlock never stabilised on 2nd write");
    assert_eq!(got2.header.seq, 4);
    assert_eq!(got2.header.cycle, 8);
}

#[test]
fn publishing_repairs_an_odd_seq() {
    let mut m = cmd_mapping();
    m.set_word(1, 9);
    publish(&mut m, &command(1));
    assert_eq!(seq_of(&m), 12);
    m.set_word(1, u32::MAX as u64);
    publish(&mut m, &command(2));
    assert_eq!(seq_of(&m), 2);
}

#[test]
fn reset_invalidates_and_keeps_seq_monotonic() {
    let mut m = cmd_mapping();
    let mut src = command(7);
    src.machine.axes[0].control_flags = 0x30; // stale jog word
    publish(&mut m, &src);
    let before = seq_of(&m);
    assert_eq!(before, 2);

    reset::<PlcCommand>(&mut m);
    let after = seq_of(&m);
    assert_eq!(after % 2, 0, "reset must end on an even seq");
    assert_ne!(after, before, "seq must move so a racing reader retries");

    let mut got = PlcCommand::default();
    assert_eq!(snapshot(&m, &mut got), Err(ReadError::MagicMismatch));
    assert_eq!(got.machine.axes[0].control_flags, 0, "payload zeroed");

    // A stale odd seq (writer died mid-write) is repaired too.
    m.set_word(1, 9);
    reset::<PlcCommand>(&mut m);
    let repaired = seq_of(&m);
    assert_eq!(repaired, 10);

    // Publishing afterwards continues from the reset seq.
    publish(&mut m, &src);
    snapshot(&m, &mut got).expect("valid after publish");
    assert_eq!(got.header.seq, 12);
    assert_eq!(got.header.cycle, 7);
}

#[test]
fn cmd_reader_latches_on_cycle_change() {
    let mut m = cmd_mapping();
    // Before any writer: poll errors (magic mismatch on zeroed segment),
    // latch stays at the all-clear default.
    let mut reader = CmdReader::new(Mapping::in_memory(SIZE_PLC_COMMAND));
    assert!(reader.poll().is_err());
    assert_eq!(reader.current().machine.axes[0].control_flags, 0);

    // Same segment, real flow: new cycle -> latched once.
    let mut src = command(1);
    src.machine.axes[0].control_flags = 0b1;
    src.machine.axes[0].jog_vel = s(12.5);
    publish(&mut m, &src);
    let mut reader = CmdReader::new(m);
    assert_eq!(reader.poll(), Ok(true), "first valid snapshot latches");
    assert_eq!(reader.current().machine.axes[0].control_flags, 0b1);
    assert_eq!(reader.current().machine.axes[0].jog_vel, s(12.5));
    // Unchanged cycle -> no new latch, previous stays in force.
    assert_eq!(reader.poll(), Ok(false));
    assert_eq!(reader.current().machine.axes[0].control_flags, 0b1);

    // A failed read keeps the command, a new cycle replaces it.
    reader.mapping_mut().set_word(1, 3);
    assert_eq!(reader.poll(), Err(ReadError::Busy));
    assert_eq!(reader.current().machine.axes[0].control_flags, 0b1);
    src.header.cycle = 2;
    src.machine.axes[0].control_flags = 0b10;
    publish(reader.mapping_mut(), &src);
    assert_eq!(reader.poll(), Ok(true));
    assert_eq!(reader.current().machine.axes[0].control_flags, 0b10);
}

#[test]
fn published_data_counts_its_cycles() {
    let mut p = DataPublisher::new(data_mapping());
    p.data.system.status_flags = 5;
    p.publish();
    p.publish();
    let mut got = PlcData::default();
    snapshot(&p.map, &mut got).unwrap();
    assert_eq!(got.header.cycle, 2);
    assert_eq!(got.header.magic, PLC_DATA_MAGIC);
    assert_eq!(got.header.version, PLC_DATA_VERSION);
    assert_eq!(got.system.status_flags, 5);
}

/// Let a writer take one step at each point of a read, from every starting
/// point: no read that is accepted mixes two images.
#[test]
fn interleaved_reads_are_never_torn() {
    let mut image = command(0);
    for lead in 0..70 {
        let mut m = cmd_mapping();
        for a in image.machine.axes.iter_mut() {
            a.control_flags = 0;
        }
        image.header.cycle = 0;
        publish(&mut m, &image);
        let mut next = 1u32;
        let mut writer: Option<WriteSession<PlcCommand>> = None;
        let mut step = |m: &mut Mapping| {
            if writer.is_none() {
                image.header.cycle = next as u64;
                for a in image.machine.axes.iter_mut() {
                    a.control_flags = next;
                }
                next += 1;
                writer = Some(WriteSession::publish(m.word(1) as u32, &image));
            }
            match writer.as_mut().unwrap().next() {
                Some(action) => perform(m, action),
                None => writer = None,
            }
        };
        for _ in 0..lead {
            step(&mut m);
        }
        let mut session = ReadSession::new(PlcCommand::default());
        let mut accepted = None;
        for turn in 0..200_000 {
            match session.due() {
                ReadAction::LoadSeq | ReadAction::ReloadSeq => {
                    let w = m.word(1);
                    session.supply(w);
                }
                ReadAction::LoadWord { index } => {
                    let w = m.word(index);
                    session.supply(w);
                }
                ReadAction::Finish { outcome } => {
                    accepted = Some(outcome);
                    break;
                }
            }
            // The writer runs at a changing pace and pauses now and again.
            if turn % (3 + lead) != 0 || turn % 900 > 700 {
                continue;
            }
            step(&mut m);
        }
        let outcome = accepted.expect("a read ends");
        if outcome.is_ok() {
            let got = session.value();
            for a in got.machine.axes.iter() {
                assert_eq!(a.control_flags as u64, got.header.cycle, "torn read");
            }
        } else {
            assert_eq!(outcome, Err(ReadError::Busy));
        }
    }
}

#[test]
fn a_reader_gives_up_on_a_busy_writer() {
    let mut m = data_mapping();
    seed_header(&mut m, PLC_DATA_MAGIC, PLC_DATA_VERSION, 7, 0);
    let mut session = ReadSession::new(PlcData::default());
    let mut loads = 0;
    loop {
        match session.due() {
            ReadAction::LoadSeq => {
                loads += 1;
                session.supply(m.word(1));
            }
            ReadAction::Finish { outcome } => {
                assert_eq!(outcome, Err(ReadError::Busy));
                break;
            }
            other => panic!("unexpected {other:?}"),
        }
    }
    assert_eq!(loads as u64, SEQLOCK_MAX_RETRIES as u64);
}

#[test]
fn segments_grow_but_never_shrink() {
    assert_eq!(grown_size(0, 248), Some(248));
    assert_eq!(grown_size(100, 248), Some(248));
    assert_eq!(grown_size(248, 248), None);
    assert_eq!(grown_size(4096, 248), None);
    assert_eq!(Mapping::in_memory(248).len(), 248);
    assert_eq!(Mapping::in_memory(241).len(), 248);
    assert!(Mapping::in_memory(0).is_empty());
}

#[test]
fn read_errors_as_messages() {
    assert_eq!(ReadError::Busy.to_text(), "seqlock: writer kept us spinning");
    assert_eq!(ReadError::MagicMismatch.to_text(), "magic mismatch: wrong segment or layout");
    assert_eq!(
        ReadError::VersionMismatch.to_text(),
        "version mismatch: rebuild peers with matching layout"
    );
    assert_eq!(TraceReadError::MagicMismatch.to_text(), "trace: magic mismatch");
    assert_eq!(TraceReadError::VersionMismatch.to_text(), "trace: version mismatch");
    assert_eq!(TraceReadError::Geometry.to_text(), "trace: header geometry invalid");
}

// Byte layout.

fn golden_data() -> PlcData {
    let mut d = PlcData::default();
    d.header = Header {
        magic: PLC_DATA_MAGIC,
        version: PLC_DATA_VERSION,
        flags: 0x5A5A,
        seq: 6,
        _pad: 0,
        cycle: 0x1122_3344_5566_7788,
    };
    d.system.temperature = s(36.75);
    d.system.status_flags = 0xC0FF_EE01;
    d.system.alarm_flags = 0x0BAD_F00D;
    for (i, ax) in d.machine.axes.iter_mut().enumerate() {
        let i = i as f64;
        *ax = AxisState {
            act_pos: s(1.5 + 100.0 * i),
            act_vel: s(-2.25 + 100.0 * i),
            set_pos: s(3.125 + 100.0 * i),
            set_vel: s(-4.0625 + 100.0 * i),
            step: 10 + i as i32,
            flags: 0x21 + i as u32,
            error_id: -(100 + i as i32),
            _pad: 0,
        };
    }
    d.machine.run_state = 0x00C0_FFEE;
    d.machine.alarms = 0x0FAC_E0FF;
    d.production.n_production_state = -7;
    d
}

fn golden_cmd() -> PlcCommand {
    let mut c = PlcCommand::default();
    c.header = Header {
        magic: PLC_COMMAND_MAGIC,
        version: PLC_COMMAND_VERSION,
        flags: 0xA5A5,
        seq: 8,
        _pad: 0,
        cycle: 0x8877_6655_4433_2211,
    };
    for (i, ax) in c.machine.axes.iter_mut().enumerate() {
        let i = i as f64;
        *ax = AxisCmd {
            control_flags: 0x41 + i as u32,
            _pad: 0,
            jog_vel: s(5.5 + 10.0 * i),
            move_abs_pos: s(-6.25 + 10.0 * i),
            move_abs_vel: s(7.75 + 10.0 * i),
        };
    }
    c.machine.control_flags = 5;
    c.production.n_production_state = 42;
    c
}

fn header_bytes(magic: u32, version: u16, flags: u16, seq: u32, cycle: u64) -> Vec<u8> {
    let mut b = Vec::new();
    b.extend_from_slice(&magic.to_le_bytes());
    b.extend_from_slice(&version.to_le_bytes());
    b.extend_from_slice(&flags.to_le_bytes());
    b.extend_from_slice(&seq.to_le_bytes());
    b.extend_from_slice(&0u32.to_le_bytes());
    b.extend_from_slice(&cycle.to_le_bytes());
    b
}

#[test]
fn plc_data_matches_go_bytes() {
    let mut bytes =
        header_bytes(PLC_DATA_MAGIC, PLC_DATA_VERSION, 0x5A5A, 6, 0x1122_3344_5566_7788);
    bytes.extend_from_slice(&36.75f64.to_le_bytes());
    bytes.extend_from_slice(&0xC0FF_EE01u32.to_le_bytes());
    bytes.extend_from_slice(&0x0BAD_F00Du32.to_le_bytes());
    for i in 0..4i32 {
        let f = i as f64;
        bytes.extend_from_slice(&(1.5 + 100.0 * f).to_le_bytes());
        bytes.extend_from_slice(&(-2.25 + 100.0 * f).to_le_bytes());
        bytes.extend_from_slice(&(3.125 + 100.0 * f).to_le_bytes());
        bytes.extend_from_slice(&(-4.0625 + 100.0 * f).to_le_bytes());
        bytes.extend_from_slice(&(10 + i).to_le_bytes());
        bytes.extend_from_slice(&(0x21 + i as u32).to_le_bytes());
        bytes.extend_from_slice(&(-(100 + i)).to_le_bytes());
        bytes.extend_from_slice(&0i32.to_le_bytes());
    }
    bytes.extend_from_slice(&0x00C0_FFEEu32.to_le_bytes());
    bytes.extend_from_slice(&0x0FAC_E0FFu32.to_le_bytes());
    bytes.extend_from_slice(&(-7i32).to_le_bytes());
    bytes.extend_from_slice(&0i32.to_le_bytes());
    assert_eq!(bytes.len(), SIZE_PLC_DATA);

    // decode: every field must equal the other side's struct
    let decoded: PlcData = from_bytes(&bytes);
    assert_eq!(decoded, golden_data());

    // encode: byte-identical round trip
    assert_eq!(as_bytes(&golden_data()), &bytes[..]);
}

#[test]
fn plc_command_matches_go_bytes() {
    let mut bytes =
        header_bytes(PLC_COMMAND_MAGIC, PLC_COMMAND_VERSION, 0xA5A5, 8, 0x8877_6655_4433_2211);
    for i in 0..4u32 {
        let f = i as f64;
        bytes.extend_from_slice(&(0x41 + i).to_le_bytes());
        bytes.extend_from_slice(&0u32.to_le_bytes());
        bytes.extend_from_slice(&(5.5 + 10.0 * f).to_le_bytes());
        bytes.extend_from_slice(&(-6.25 + 10.0 * f).to_le_bytes());
        bytes.extend_from_slice(&(7.75 + 10.0 * f).to_le_bytes());
    }
    bytes.extend_from_slice(&5u32.to_le_bytes());
    bytes.extend_from_slice(&0u32.to_le_bytes());
    bytes.extend_from_slice(&42i32.to_le_bytes());
    bytes.extend_from_slice(&0i32.to_le_bytes());
    assert_eq!(bytes.len(), SIZE_PLC_COMMAND);

    let decoded: PlcCommand = from_bytes(&bytes);
    assert_eq!(decoded, golden_cmd());

    assert_eq!(as_bytes(&golden_cmd()), &bytes[..]);
}

fn golden_trace_sample() -> TraceSample {
    let mut t = TraceSample {
        cycle: 0x1122_3344_5566_7788,
        t_mono_ns: 0x0102_0304_0506_0708,
        period_ns: 2_000_123,
        exchange_ns: 123_456,
        bus_state: 3,
        status_bits: 0b101,
        _pad: 0,
        run_state: 0x00C0_FFEE,
        axes: [TraceAxisSample::default(); 4],
    };
    for (i, ax) in t.axes.iter_mut().enumerate() {
        let f = i as f64;
        *ax = TraceAxisSample {
            act_pos: s(1.5 + 100.0 * f),
            act_vel: s(-2.25 + 100.0 * f),
            set_pos: s(3.125 + 100.0 * f),
            set_vel: s(-4.0625 + 100.0 * f),
            step: 10 + i as i32,
            flags: 0x21 + i as u32,
            error_id: -(100 + i as i32),
            fault_code: 0x8000 + i as u32,
            drive_status: i as u32 + 1,
            io_bits: 0x11 + i as u32,
        };
    }
    t
}

#[test]
fn trace_sample_matches_go_bytes() {
    let mut bytes = Vec::new();
    bytes.extend_from_slice(&0x1122_3344_5566_7788u64.to_le_bytes());
    bytes.extend_from_slice(&0x0102_0304_0506_0708u64.to_le_bytes());
    bytes.extend_from_slice(&2_000_123u32.to_le_bytes());
    bytes.extend_from_slice(&123_456u32.to_le_bytes());
    bytes.extend_from_slice(&[3, 0b101, 0, 0]);
    bytes.extend_from_slice(&0x00C0_FFEEu32.to_le_bytes());
    for i in 0..4u32 {
        let f = i as f64;
        bytes.extend_from_slice(&(1.5 + 100.0 * f).to_le_bytes());
        bytes.extend_from_slice(&(-2.25 + 100.0 * f).to_le_bytes());
        bytes.extend_from_slice(&(3.125 + 100.0 * f).to_le_bytes());
        bytes.extend_from_slice(&(-4.0625 + 100.0 * f).to_le_bytes());
        bytes.extend_from_slice(&(10 + i).to_le_bytes());
        bytes.extend_from_slice(&(0x21 + i).to_le_bytes());
        bytes.extend_from_slice(&(-(100 + i as i32)).to_le_bytes());
        bytes.extend_from_slice(&(0x8000 + i).to_le_bytes());
        bytes.extend_from_slice(&(i + 1).to_le_bytes());
        bytes.extend_from_slice(&(0x11 + i).to_le_bytes());
    }
    assert_eq!(bytes.len(), SIZE_TRACE_SAMPLE);

    let decoded = sample_from_bytes(&bytes);
    assert_eq!(decoded, golden_trace_sample());

    assert_eq!(sample_as_bytes(&golden_trace_sample()), &bytes[..]);
}

// Trace ring.

fn writer(cap: u32) -> TraceWriter {
    TraceWriter::new(Mapping::in_memory(segment_size(cap)), cap, 2_000_000, 1_000)
}

fn sample(i: u64) -> TraceSample {
    let mut t = TraceSample::default();
    t.cycle = i;
    t.t_mono_ns = i * 2_000_000;
    t.axes[0].act_pos = s(i as f64);
    t
}

fn reader_of(w: &TraceWriter) -> TraceReader<'_> {
    TraceReader::new(w.mapping()).expect("valid header")
}

#[test]
fn capacity_helper() {
    assert_eq!(capacity_for(60, 2_000_000), 32768); // 30k → 2^15
    assert_eq!(capacity_for(1, 1_000_000_000), 1);
    assert!(capacity_for(10, 250_000).is_power_of_two());
}

#[test]
fn powers_of_two() {
    assert!(is_power_of_two(1));
    assert!(is_power_of_two(0x8000_0000));
    assert!(!is_power_of_two(0));
    assert!(!is_power_of_two(12));
    assert_eq!(segment_size(8), 64 + 8 * 256);
}

#[test]
fn push_then_read_all() {
    let mut w = writer(8);
    for i in 0..5 {
        w.push(&sample(i));
    }
    let r = reader_of(&w);
    let mut out = Vec::new();
    let range = r.read_range(0, 100, &mut out);
    assert_eq!(range.first, 0);
    assert_eq!(range.next, 5);
    assert_eq!(range.dropped, 0);
    assert_eq!(out.len(), 5);
    assert_eq!(out[4], sample(4));
    assert_eq!(w.count(), 5);
}

#[test]
fn ring_overwrite_reports_dropped() {
    let mut w = writer(8);
    for i in 0..20 {
        w.push(&sample(i));
    }
    let r = reader_of(&w);
    let mut out = Vec::new();
    // Ask from 0: the last 8 live, minus the one the mid-push guard
    // conservatively discards (the reader cannot tell an idle writer
    // from one mid-push into the oldest slot).
    let range = r.read_range(0, 100, &mut out);
    assert_eq!(range.first, 13);
    assert_eq!(range.next, 20);
    assert_eq!(range.dropped, 13);
    assert_eq!(out.len(), 7);
    assert_eq!(out[0], sample(13));
    // Cursor continuation: nothing new.
    let range = r.read_range(range.next, 100, &mut out);
    assert_eq!(out.len(), 0);
    assert_eq!(range.next, 20);
    assert_eq!(range.dropped, 0);
}

#[test]
fn max_caps_batch() {
    let mut w = writer(16);
    for i in 0..10 {
        w.push(&sample(i));
    }
    let r = reader_of(&w);
    let mut out = Vec::new();
    let range = r.read_range(0, 4, &mut out);
    assert_eq!(out.len(), 4);
    assert_eq!(range.next, 4);
    let range = r.read_range(range.next, 4, &mut out);
    assert_eq!(out[0], sample(4));
    assert_eq!(range.next, 8);
}

#[test]
fn reader_rejects_bad_header() {
    let m = Mapping::in_memory(segment_size(8));
    match TraceReader::new(&m) {
        Err(e) => assert_eq!(e, TraceReadError::MagicMismatch),
        Ok(_) => panic!("zeroed segment must be rejected"),
    }
}

#[test]
fn reader_checks_version_and_geometry() {
    let w = writer(8);
    let h = make_header(8, 2_000_000, 1_000);
    let mut m = Mapping::in_memory(segment_size(8));
    for i in 0..8 {
        assert_eq!(w.mapping().word(i), h.word(i));
        m.set_word(i, h.word(i));
    }
    assert!(TraceReader::new(&m).is_ok());
    assert_eq!(TraceReader::new(&m).ok().unwrap().header(), h);

    let mut other = h;
    other.version = 2;
    m.set_word(0, other.word(0));
    assert_eq!(TraceReader::new(&m).err(), Some(TraceReadError::VersionMismatch));
    m.set_word(0, h.word(0));

    for (size, capacity) in [(128, 8), (256, 16), (256, 12), (256, 0)] {
        let mut other = h;
        other.sample_size = size;
        other.capacity = capacity;
        m.set_word(1, other.word(1));
        assert_eq!(TraceReader::new(&m).err(), Some(TraceReadError::Geometry));
    }
    let short = Mapping::in_memory(56);
    assert!(TraceReader::new(&short).is_err());
}

/// A writer that laps a reader between copy and check: what survives is whole.
#[test]
fn lapped_samples_are_discarded() {
    let mut w = writer(8);
    for i in 0..8 {
        w.push(&sample(i));
    }
    let window = plan_window(8, 8, 0, 100);
    assert_eq!((window.start, window.end), (0, 8));
    let mut copied: Vec<TraceSample> = (0..8).map(sample).collect();
    // Meanwhile three more were pushed: slots 0 to 2 are gone, slot 3 may be torn.
    let range = lap_check(window, 8, 11, 8, 0, &mut copied);
    assert_eq!(range.first, 4);
    assert_eq!(range.next, 8);
    assert_eq!(range.dropped, 4);
    assert_eq!(copied.len(), 4);
    assert_eq!(copied[0], sample(4));
}

/// A read of at most no samples skips none: they are all there for the next one.
#[test]
fn empty_reads_consume_nothing() {
    let mut w = writer(16);
    for _ in 0..10 {
        w.push(&TraceSample::default());
    }
    let r = reader_of(&w);
    let mut out = vec![sample(99)];
    let range = r.read_range(0, 0, &mut out);
    assert!(out.is_empty());
    assert_eq!(range.dropped, 0);
    assert_eq!(range.next, 0);
    let range = r.read_range(range.next, 100, &mut out);
    assert_eq!((range.first, range.next, range.dropped), (0, 10, 0));
    assert_eq!(out.len(), 10);
    // At and past the write index a read waits where it is.
    for max in [0, 100] {
        for since in [10, 25] {
            let range = r.read_range(since, max, &mut out);
            assert!(out.is_empty());
            assert_eq!((range.first, range.next, range.dropped), (10, since, 0));
        }
    }
    // What the ring has overwritten is dropped all the same.
    let mut w = writer(8);
    for i in 0..20 {
        w.push(&sample(i));
    }
    let r = reader_of(&w);
    let range = r.read_range(3, 0, &mut out);
    assert!(out.is_empty());
    assert_eq!((range.next, range.dropped), (12, 9));
    let range = r.read_range(range.next, 100, &mut out);
    // The slot of sample 12 may be under way already.
    assert_eq!((range.first, range.next, range.dropped), (13, 20, 1));
    assert_eq!(out[0], sample(13));
}

/// A writer that laps the whole window: nothing survives, and the next read
/// counts what lies between again.
#[test]
fn a_lapped_window_returns_nothing() {
    let window = plan_window(8, 8, 0, 4);
    assert_eq!((window.start, window.end), (0, 4));
    let mut copied: Vec<TraceSample> = (0..4).map(sample).collect();
    let range = lap_check(window, 8, 30, 8, 0, &mut copied);
    assert!(copied.is_empty());
    assert_eq!((range.first, range.next, range.dropped), (23, 4, 23));
    let window = plan_window(30, 8, range.next, 100);
    let mut copied: Vec<TraceSample> = (22..30).map(sample).collect();
    let range = lap_check(window, 30, 30, 8, range.next, &mut copied);
    assert_eq!((range.first, range.next, range.dropped), (23, 30, 19));
    assert_eq!(copied.len(), 7);
}

#[test]
fn a_push_commits_with_its_last_store() {
    let mut m = Mapping::in_memory(segment_size(4));
    let h = make_header(4, 1, 2);
    for i in 0..8 {
        m.set_word(i, h.word(i));
    }
    let ring = TraceRing { capacity: 4, count: 0 };
    for k in 0..PUSH_STORES {
        let mut out = Vec::new();
        let range = TraceReader::new(&m).ok().unwrap().read_range(0, 10, &mut out);
        assert_eq!(range.next, 0, "nothing to read before the last store");
        let (index, value) = ring.store(&sample(7), k);
        m.set_word(index, value);
    }
    let mut out = Vec::new();
    let range = TraceReader::new(&m).ok().unwrap().read_range(0, 10, &mut out);
    assert_eq!(range.next, 1);
    assert_eq!(out, vec![sample(7)]);
}
