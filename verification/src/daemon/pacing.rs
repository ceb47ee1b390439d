//! When the next cycle runs.
use vstd::prelude::*;

use crate::time::{Duration, Instant};

verus! {

/// Where the next deadline goes.
#[derive(Clone, Copy, Debug, PartialEq, Eq, Structural)]
pub struct Pacing {
    pub next: Instant,
    /// The wake came more than a full cycle after its deadline.
    pub overrun: bool,
}

/// The pacing that one wake asks for. On time, or late by no more than a cycle,
/// the absolute schedule is kept. Later than that, the schedule restarts from
/// the wake: missed cycles are dropped, never made up in a burst. A bus that
/// paces the cycle itself always has its way.
pub open spec fn pacing_of(
    deadline: Instant,
    wake: Instant,
    cycle: Duration,
    dc_wait: Option<Duration>,
) -> Pacing {
    let overrun = wake.nanos > deadline.nanos + cycle.nanos;
    Pacing {
        next: Instant {
            nanos: (match dc_wait {
                Some(w) => wake.nanos + w.nanos,
                None => if overrun {
                    wake.nanos + cycle.nanos
                } else {
                    deadline.nanos + cycle.nanos
                },
            }) as u128,
        },
        overrun,
    }
}

/// The times of this wake and its successor can be represented.
pub open spec fn times_fit(
    deadline: Instant,
    wake: Instant,
    cycle: Duration,
    dc_wait: Option<Duration>,
) -> bool {
    &&& deadline.nanos + cycle.nanos <= u128::MAX
    &&& match dc_wait {
        Some(w) => wake.nanos + w.nanos <= u128::MAX,
        None => wake.nanos + cycle.nanos <= u128::MAX,
    }
}

/// Decide the next deadline. `deadline` is what this wake was scheduled for,
/// `wake` the time taken right before the exchange, `dc_wait` the bus's own
/// pacing, measured from the exchange.
pub fn next_deadline(
    deadline: Instant,
    wake: Instant,
    cycle: Duration,
    dc_wait: Option<Duration>,
) -> (r: Pacing)
    requires
        times_fit(deadline, wake, cycle, dc_wait),
    ensures
        r == pacing_of(deadline, wake, cycle, dc_wait),
{
    let due = deadline.plus(cycle);
    let overrun = wake.nanos > due.nanos;
    let next = match dc_wait {
        Some(w) => wake.plus(w),
        None => {
            if overrun {
                wake.plus(cycle)
            } else {
                due
            }
        },
    };
    Pacing { next, overrun }
}

/// Without a pacing bus the next deadline is never more than a cycle after the
/// later of deadline and wake, and never in the past by a whole cycle; the
/// schedule drifts only by whole resynchronisations.
pub proof fn deadlines_do_not_burst(deadline: Instant, wake: Instant, cycle: Duration)
    requires
        times_fit(deadline, wake, cycle, None),
    ensures
        ({
            let p = pacing_of(deadline, wake, cycle, None);
            &&& p.next.nanos >= wake.nanos
            &&& p.overrun <==> p.next.nanos != deadline.nanos + cycle.nanos
            &&& p.overrun ==> p.next.nanos == wake.nanos + cycle.nanos
        }),
{
}

/// The cycle loop's clockwork.
pub struct Pacer {
    pub next: Instant,
    pub last_wake: Option<Instant>,
    pub overruns: u64,
    pub last_overrun_log: Option<Instant>,
}

/// One second, in nanoseconds.
pub const OVERRUN_LOG_NANOS: u128 = 1_000_000_000;

/// What one wake came to.
#[derive(Clone, Copy, Debug, PartialEq, Eq)]
pub struct Paced {
    pub overrun: bool,
    /// How late the wake was, where an overrun is to be logged.
    pub log: Option<Duration>,
}

/// The low 32 bits of a nanosecond count.
pub open spec fn nanos_u32(nanos: int) -> u32 {
    (nanos % 0x1_0000_0000) as u32
}

/// The low 64 bits of a nanosecond count.
pub open spec fn nanos_u64(nanos: int) -> u64 {
    (nanos % 0x1_0000_0000_0000_0000) as u64
}

/// The time from `earlier` to `later` as a trace sample holds it.
pub fn elapsed_u32(earlier: Instant, later: Instant) -> (r: u32)
    ensures
        r == nanos_u32(later.since(earlier) as int),
{
    (later.saturating_duration_since(earlier).nanos % 0x1_0000_0000) as u32
}

/// The time from `earlier` to `later` as a trace sample holds it.
pub fn elapsed_u64(earlier: Instant, later: Instant) -> (r: u64)
    ensures
        r == nanos_u64(later.since(earlier) as int),
{
    (later.saturating_duration_since(earlier).nanos % 0x1_0000_0000_0000_0000) as u64
}

impl Pacer {
    /// Start pacing at `now`.
    pub fn new(now: Instant, cycle: Duration) -> (r: Pacer)
        requires
            now.nanos + cycle.nanos <= u128::MAX,
        ensures
            r.next.nanos == now.nanos + cycle.nanos,
            r.last_wake is None,
            r.overruns == 0,
            r.last_overrun_log is None,
    {
        Pacer { next: now.plus(cycle), last_wake: None, overruns: 0, last_overrun_log: None }
    }

    /// The period since the last wake, zero for the first.
    pub fn woke(&mut self, wake: Instant) -> (r: u32)
        ensures
            r == (match old(self).last_wake {
                Some(w) => nanos_u32(wake.since(w) as int),
                None => 0,
            }),
            *final(self) == (Pacer { last_wake: Some(wake), ..*old(self) }),
    {
        let period: u32 = match self.last_wake {
            Some(w) => elapsed_u32(w, wake),
            None => 0,
        };
        self.last_wake = Some(wake);
        period
    }

    /// Schedule the next wake, count an overrun, and say whether to log it: no
    /// more than one per second.
    pub fn pace(&mut self, wake: Instant, cycle: Duration, dc_wait: Option<Duration>) -> (r: Paced)
        requires
            times_fit(old(self).next, wake, cycle, dc_wait),
            old(self).overruns < u64::MAX,
        ensures
            ({
                let p = pacing_of(old(self).next, wake, cycle, dc_wait);
                let due = p.overrun && (old(self).last_overrun_log matches Some(t) ==> wake.since(t)
                    >= OVERRUN_LOG_NANOS);
                &&& r.overrun == p.overrun
                &&& r.log == if due {
                    Some(Duration { nanos: wake.since(old(self).next) as u128 })
                } else {
                    None
                }
                &&& *final(self) == (Pacer {
                    next: p.next,
                    last_wake: old(self).last_wake,
                    overruns: (old(self).overruns + if p.overrun {
                        1int
                    } else {
                        0
                    }) as u64,
                    last_overrun_log: if due {
                        Some(wake)
                    } else {
                        old(self).last_overrun_log
                    },
                })
            }),
    {
        let deadline: Instant = self.next;
        let pacing = next_deadline(deadline, wake, cycle, dc_wait);
        self.next = pacing.next;
        if !pacing.overrun {
            return Paced { overrun: false, log: None };
        }
        self.overruns = self.overruns + 1;
        let due = match self.last_overrun_log {
            Some(t) => wake.saturating_duration_since(t).nanos >= OVERRUN_LOG_NANOS,
            None => true,
        };
        if due {
            self.last_overrun_log = Some(wake);
            Paced { overrun: true, log: Some(wake.saturating_duration_since(deadline)) }
        } else {
            Paced { overrun: true, log: None }
        }
    }
}

/// A wake is an overrun when it comes more than a whole cycle after its deadline,
/// whoever paces. A pacing bus sets the next deadline from the wake; else it is
/// one cycle on, from the deadline, or from the wake after an overrun.
pub proof fn wakes_set_the_next_deadline(
    deadline: Instant,
    wake: Instant,
    cycle: Duration,
    dc_wait: Option<Duration>,
)
    requires
        times_fit(deadline, wake, cycle, dc_wait),
    ensures
        ({
            let p = pacing_of(deadline, wake, cycle, dc_wait);
            let late = wake.nanos > deadline.nanos && wake.nanos - deadline.nanos > cycle.nanos;
            &&& p.overrun <==> late
            &&& dc_wait matches Some(w) ==> p.next.nanos == wake.nanos + w.nanos
            &&& dc_wait is None && late ==> p.next.nanos == wake.nanos + cycle.nanos
            &&& dc_wait is None && !late ==> p.next.nanos == deadline.nanos + cycle.nanos
        }),
{
}

/// The period of a wake is the time since the wake before, in its low 32 bits,
/// and zero for the first one; nothing else changes.
pub proof fn wakes_are_timed(pacer: &mut Pacer, wake: Instant, r: u32)
    requires
        call_ensures(Pacer::woke, (pacer, wake), r),
    ensures
        old(pacer).last_wake is None ==> r == 0,
        old(pacer).last_wake matches Some(w) ==> w.nanos <= wake.nanos && wake.nanos - w.nanos
            < 0x1_0000_0000 ==> r == wake.nanos - w.nanos,
        old(pacer).last_wake matches Some(w) ==> w.nanos > wake.nanos ==> r == 0,
        final(pacer).last_wake == Some(wake),
        final(pacer).next == old(pacer).next && final(pacer).overruns == old(pacer).overruns,
{
}

/// Pacing sets the next deadline and counts every overrun; it logs how late the
/// wake was for the first one, and again once a second has passed since the last
/// one logged.
pub proof fn overruns_are_counted_and_logged(
    pacer: &mut Pacer,
    wake: Instant,
    cycle: Duration,
    dc_wait: Option<Duration>,
    r: Paced,
)
    requires
        times_fit(old(pacer).next, wake, cycle, dc_wait),
        old(pacer).overruns < u64::MAX,
        call_ensures(Pacer::pace, (pacer, wake, cycle, dc_wait), r),
    ensures
        ({
            let deadline = old(pacer).next.nanos;
            let late = wake.nanos > deadline && wake.nanos - deadline > cycle.nanos;
            let last = old(pacer).last_overrun_log;
            let quiet = last matches Some(t) && !(wake.nanos >= t.nanos && wake.nanos - t.nanos
                >= 1_000_000_000);
            &&& r.overrun <==> late
            &&& final(pacer).overruns == old(pacer).overruns + if late {
                1int
            } else {
                0
            }
            &&& late && !quiet ==> r.log == Some(Duration { nanos: (wake.nanos - deadline) as u128 })
                && final(pacer).last_overrun_log == Some(wake)
            &&& !late || quiet ==> r.log is None && final(pacer).last_overrun_log == last
            &&& dc_wait matches Some(w) ==> final(pacer).next.nanos == wake.nanos + w.nanos
            &&& dc_wait is None && late ==> final(pacer).next.nanos == wake.nanos + cycle.nanos
            &&& dc_wait is None && !late ==> final(pacer).next.nanos == deadline + cycle.nanos
            &&& final(pacer).last_wake == old(pacer).last_wake
        }),
{
}

/// Times go into a sample by their low bits: those that fit are told in full.
pub proof fn short_times_are_told_in_full(
    earlier: Instant,
    later: Instant,
    short: u32,
    long: u64,
)
    requires
        earlier.nanos <= later.nanos,
        call_ensures(elapsed_u32, (earlier, later), short),
        call_ensures(elapsed_u64, (earlier, later), long),
    ensures
        later.nanos - earlier.nanos < 0x1_0000_0000 ==> short == later.nanos - earlier.nanos,
        later.nanos - earlier.nanos < 0x1_0000_0000_0000_0000 ==> long == later.nanos
            - earlier.nanos,
{
}

} // verus!
