//! Step numbers, command flags, pacing, signals and the trace record.
use motion_daemon::daemon::cmdflags::{axis_fresh, touch_bit, TOUCH_MASK_PRESENT};
use motion_daemon::daemon::pacing::{elapsed_u32, elapsed_u64, next_deadline, Pacer};
use motion_daemon::daemon::signals::{force_quit, running, ShutdownFlags};
use motion_daemon::motion::step::Step;
use motion_daemon::time::{Duration, Instant};

fn after(t: Instant, d: Duration) -> Instant {
    t.plus(d)
}

fn start() -> Instant {
    Instant { nanos: 5_000_000_000 }
}

#[test]
fn step_values_match_iec_enum() {
    assert_eq!(Step::Idle.as_i32(), 0);
    assert_eq!(Step::Enabling.as_i32(), 10);
    assert_eq!(Step::Ready.as_i32(), 20);
    assert_eq!(Step::NotReady.as_i32(), 25);
    assert_eq!(Step::JogPos.as_i32(), 30);
    assert_eq!(Step::JogNeg.as_i32(), 31);
    assert_eq!(Step::MoveAbs.as_i32(), 40);
    assert_eq!(Step::MoveRel.as_i32(), 50);
    assert_eq!(Step::MoveVel.as_i32(), 60);
    assert_eq!(Step::HomingWriteParam.as_i32(), 70);
    assert_eq!(Step::HomingExec.as_i32(), 71);
    assert_eq!(Step::SetPosition.as_i32(), 80);
    assert_eq!(Step::Stopping.as_i32(), 90);
    assert_eq!(Step::WaitStop.as_i32(), 91);
    assert_eq!(Step::TryReset.as_i32(), 95);
}

#[test]
fn motion_steps() {
    assert!(Step::JogNeg.is_motion());
    assert!(Step::MoveAbs.is_motion());
    assert!(!Step::Ready.is_motion());
    assert!(!Step::NotReady.is_motion());
}

#[test]
fn legacy_writer_touches_every_axis() {
    for axis in 0..4 {
        assert!(axis_fresh(true, 0, axis));
        assert!(!axis_fresh(false, 0, axis));
    }
}

#[test]
fn touch_mask_selects_axes() {
    let flags = TOUCH_MASK_PRESENT | touch_bit(1) | touch_bit(3);
    assert!(!axis_fresh(true, flags, 0));
    assert!(axis_fresh(true, flags, 1));
    assert!(!axis_fresh(true, flags, 2));
    assert!(axis_fresh(true, flags, 3));
    // Marker without any axis bit: a message that touched nothing
    // (e.g. machine-level only) is fresh for no axis.
    assert!(!axis_fresh(true, TOUCH_MASK_PRESENT, 0));
    // Not fresh at all beats any mask.
    assert!(!axis_fresh(false, flags, 1));
}

#[test]
fn pacing_on_time_and_small_lateness_keep_absolute_schedule() {
    let t0 = start();
    let cycle = Duration::from_millis(2);
    let p = next_deadline(t0, after(t0, Duration::from_micros(50)), cycle, None);
    assert!(!p.overrun);
    assert_eq!(p.next, after(t0, cycle));
    // Late by less than a cycle: absorbed, no resync.
    let p = next_deadline(t0, after(t0, Duration::from_micros(1900)), cycle, None);
    assert!(!p.overrun);
    assert_eq!(p.next, after(t0, cycle));
    // Exactly one cycle late is the boundary — not yet an overrun.
    let p = next_deadline(t0, after(t0, cycle), cycle, None);
    assert!(!p.overrun);
    assert_eq!(p.next, after(t0, cycle));
}

#[test]
fn pacing_overrun_resyncs_instead_of_bursting() {
    let t0 = start();
    let cycle = Duration::from_millis(2);
    let wake = after(t0, Duration::from_millis(7)); // 3.5 cycles late (stall)
    let p = next_deadline(t0, wake, cycle, None);
    assert!(p.overrun);
    assert_eq!(p.next, after(wake, cycle), "next deadline is a full cycle away");
    assert!(p.next.nanos > after(t0, cycle).nanos, "never schedules into the past");
}

#[test]
fn pacing_dc_wait_wins() {
    let t0 = start();
    let cycle = Duration::from_millis(2);
    let wake = after(t0, Duration::from_micros(30));
    let dc = Duration::from_micros(1970);
    let p = next_deadline(t0, wake, cycle, Some(dc));
    assert!(!p.overrun);
    assert_eq!(p.next, after(wake, dc));
    // Overrun with DC: still counted, still phase-locked to the bus.
    let late = after(t0, Duration::from_millis(9));
    let p = next_deadline(t0, late, cycle, Some(dc));
    assert!(p.overrun);
    assert_eq!(p.next, after(late, dc));
}

#[test]
fn overruns_are_counted_and_logged_once_a_second() {
    let cycle = Duration::from_millis(2);
    let t0 = start();
    let mut pacer = Pacer::new(t0, cycle);
    assert_eq!(pacer.next, after(t0, cycle));
    // First wake: no period yet, 5 ms late.
    let wake = after(t0, Duration::from_millis(7));
    assert_eq!(pacer.woke(wake), 0);
    let paced = pacer.pace(wake, cycle, None);
    assert!(paced.overrun);
    assert_eq!(paced.log, Some(Duration::from_millis(5)));
    assert_eq!(pacer.overruns, 1);
    // A second stall within the same second is counted, not logged.
    let wake = after(wake, Duration::from_millis(100));
    assert_eq!(pacer.woke(wake), 100_000_000);
    let paced = pacer.pace(wake, cycle, None);
    assert!(paced.overrun);
    assert_eq!(paced.log, None);
    assert_eq!(pacer.overruns, 2);
    // A second later it is logged again.
    let wake = after(wake, Duration::from_secs(1));
    pacer.woke(wake);
    let paced = pacer.pace(wake, cycle, None);
    assert_eq!(paced.log, Some(Duration::from_millis(998)));
    assert_eq!(pacer.overruns, 3);
}

#[test]
fn elapsed_times_wrap_to_their_width() {
    let a = Instant { nanos: 0 };
    let b = Instant { nanos: 0x1_0000_0005 };
    assert_eq!(elapsed_u32(a, b), 5);
    assert_eq!(elapsed_u64(a, b), 0x1_0000_0005);
    assert_eq!(elapsed_u32(b, a), 0);
}

#[test]
fn the_second_signal_forces_the_exit() {
    let mut flags = ShutdownFlags::new();
    assert!(running(&flags));
    assert!(!force_quit(&flags));
    flags.on_signal();
    assert!(!running(&flags));
    assert!(!force_quit(&flags));
    flags.on_signal();
    assert!(!running(&flags));
    assert!(force_quit(&flags));
    flags.on_signal();
    assert!(force_quit(&flags));
}
