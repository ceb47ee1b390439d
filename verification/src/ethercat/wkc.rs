//! Working-counter bookkeeping for the cyclic path.
//!
//! A device that stops processing the cyclic frame leaves every other sign of
//! operation in place; only the working counter drops. The value of the first
//! cycle in which every device is operational is the reference, and any later
//! difference, lower or higher, is a failure.
use vstd::prelude::*;

verus! {

/// Outcome of one working-counter comparison.
#[derive(Clone, Copy, Debug, PartialEq, Eq, Structural)]
pub struct WkcVerdict {
    /// The counter matched the reference, or there is none yet.
    pub ok: bool,
    /// `ok` changed since the previous cycle.
    pub edge: bool,
}

/// Compares each cycle's working counter with a learned reference.
#[derive(Clone, Copy, Debug, PartialEq, Eq)]
pub struct WkcMonitor {
    /// The reference, none until every device was operational.
    pub expected: Option<u16>,
    /// The previous cycle's verdict.
    pub was_ok: bool,
}

impl Default for WkcMonitor {
    fn default() -> (r: WkcMonitor)
        ensures
            r == fresh_monitor(),
    {
        WkcMonitor { expected: None, was_ok: true }
    }
}

/// Nothing learned, nothing failed.
pub open spec fn fresh_monitor() -> WkcMonitor {
    WkcMonitor { expected: None, was_ok: true }
}

/// The monitor after a cycle was offered as the reference.
pub open spec fn learned(m: WkcMonitor, all_op: bool, wkc: u16) -> WkcMonitor {
    if all_op && m.expected is None {
        WkcMonitor { expected: Some(wkc), ..m }
    } else {
        m
    }
}

/// The counter is acceptable.
pub open spec fn acceptable(m: WkcMonitor, wkc: u16) -> bool {
    m.expected matches Some(e) ==> e == wkc
}

impl WkcMonitor {
    /// Take `wkc` as the reference the first time every device is operational.
    pub fn learn(&mut self, all_op: bool, wkc: u16)
        ensures
            *final(self) == learned(*old(self), all_op, wkc),
    {
        if all_op && self.expected.is_none() {
            self.expected = Some(wkc);
        }
    }

    /// The learned reference.
    pub fn expected(&self) -> (r: Option<u16>)
        ensures
            r == self.expected,
    {
        self.expected
    }

    /// Compare one cycle's counter.
    pub fn check(&mut self, wkc: u16) -> (r: WkcVerdict)
        ensures
            r.ok == acceptable(*old(self), wkc),
            r.edge == (r.ok != old(self).was_ok),
            *final(self) == (WkcMonitor { was_ok: r.ok, ..*old(self) }),
    {
        let ok = match self.expected {
            Some(e) => e == wkc,
            None => true,
        };
        let edge = ok != self.was_ok;
        self.was_ok = ok;
        WkcVerdict { ok, edge }
    }
}

/// The reference is learned once: nothing offered later replaces it.
pub proof fn the_reference_is_kept(m: WkcMonitor, all_op: bool, wkc: u16)
    requires
        m.expected is Some,
    ensures
        learned(m, all_op, wkc) == m,
{
}

} // verus!
