//! CiA 402 drive power state machine: statusword decode and controlword
//! sequencing, with fault-reset edges.
use vstd::prelude::*;

use crate::fieldbus::DriveStatus;

verus! {

/// CiA 402 state.
#[derive(Clone, Copy, Debug, PartialEq, Eq, Structural)]
pub enum State {
    NotReadyToSwitchOn,
    SwitchOnDisabled,
    ReadyToSwitchOn,
    SwitchedOn,
    OperationEnabled,
    QuickStopActive,
    FaultReactionActive,
    Fault,
}

/// Statusword bit 3: fault.
pub const SW_FAULT_BIT: u16 = 0x0008;

pub const CW_DISABLE_VOLTAGE: u16 = 0x0000;

pub const CW_SHUTDOWN: u16 = 0x0006;

pub const CW_SWITCH_ON: u16 = 0x0007;

pub const CW_ENABLE_OPERATION: u16 = 0x000F;

/// A fault is reset by the rising edge of bit 7.
pub const CW_FAULT_RESET: u16 = 0x0080;

/// The statusword shows `state` in the canonical mask table.
pub open spec fn shows(sw: u16, state: State) -> bool {
    match state {
        State::OperationEnabled => sw & 0x6F == 0x27,
        State::SwitchedOn => sw & 0x6F == 0x23,
        State::ReadyToSwitchOn => sw & 0x6F == 0x21,
        State::QuickStopActive => sw & 0x6F == 0x07,
        State::SwitchOnDisabled => sw & 0x4F == 0x40,
        State::FaultReactionActive => sw & 0x4F == 0x0F,
        State::Fault => sw & 0x4F == 0x08,
        State::NotReadyToSwitchOn => {
            let wide = sw & 0x6F;
            let narrow = sw & 0x4F;
            wide != 0x27 && wide != 0x23 && wide != 0x21 && wide != 0x07 && narrow != 0x40
                && narrow != 0x0F && narrow != 0x08
        },
    }
}

/// The state that a statusword shows.
pub open spec fn state_of(sw: u16) -> State {
    if sw & 0x6F == 0x27 {
        State::OperationEnabled
    } else if sw & 0x6F == 0x23 {
        State::SwitchedOn
    } else if sw & 0x6F == 0x21 {
        State::ReadyToSwitchOn
    } else if sw & 0x6F == 0x07 {
        State::QuickStopActive
    } else if sw & 0x4F == 0x40 {
        State::SwitchOnDisabled
    } else if sw & 0x4F == 0x0F {
        State::FaultReactionActive
    } else if sw & 0x4F == 0x08 {
        State::Fault
    } else {
        State::NotReadyToSwitchOn
    }
}

/// A statusword shows one state of the table and no other: the order in which
/// the rows are tried does not matter.
pub proof fn statuswords_show_one_state(sw: u16, state: State)
    ensures
        shows(sw, state) <==> state == state_of(sw),
{
    lemma_rows_exclude_each_other(sw);
}

proof fn lemma_rows_exclude_each_other(sw: u16)
    by (bit_vector)
    ensures
        sw & 0x6F == 0x27 ==> sw & 0x4F != 0x40 && sw & 0x4F != 0x0F && sw & 0x4F != 0x08,
        sw & 0x6F == 0x23 ==> sw & 0x4F != 0x40 && sw & 0x4F != 0x0F && sw & 0x4F != 0x08,
        sw & 0x6F == 0x21 ==> sw & 0x4F != 0x40 && sw & 0x4F != 0x0F && sw & 0x4F != 0x08,
        sw & 0x6F == 0x07 ==> sw & 0x4F != 0x40 && sw & 0x4F != 0x0F && sw & 0x4F != 0x08,
{
}

/// Decode the state that a statusword shows.
pub fn decode_statusword(sw: u16) -> (r: State)
    ensures
        r == state_of(sw),
        shows(sw, r),
{
    proof {
        statuswords_show_one_state(sw, state_of(sw));
    }
    if sw & 0x6F == 0x27 {
        State::OperationEnabled
    } else if sw & 0x6F == 0x23 {
        State::SwitchedOn
    } else if sw & 0x6F == 0x21 {
        State::ReadyToSwitchOn
    } else if sw & 0x6F == 0x07 {
        State::QuickStopActive
    } else if sw & 0x4F == 0x40 {
        State::SwitchOnDisabled
    } else if sw & 0x4F == 0x0F {
        State::FaultReactionActive
    } else if sw & 0x4F == 0x08 {
        State::Fault
    } else {
        State::NotReadyToSwitchOn
    }
}

/// Per-axis sequencer: statusword and demand in, controlword out.
#[derive(Clone, Copy, Debug, PartialEq, Eq, Structural)]
pub struct Cia402 {
    /// The edge of the held reset request has been emitted.
    pub reset_fired: bool,
}

impl Default for Cia402 {
    fn default() -> (r: Cia402)
        ensures
            !r.reset_fired,
    {
        Cia402 { reset_fired: false }
    }
}

/// A reset edge is due: the drive is in fault, and the held request has had none.
pub open spec fn edge_due(fired: bool, fault_reset: bool, sw: u16) -> bool {
    state_of(sw) is Fault && fault_reset && !fired
}

/// The controlword that requests the next transition toward the demand.
pub open spec fn controlword_of(fired: bool, enable: bool, fault_reset: bool, sw: u16) -> u16 {
    match state_of(sw) {
        State::Fault => if edge_due(fired, fault_reset, sw) {
            CW_FAULT_RESET
        } else {
            CW_DISABLE_VOLTAGE
        },
        State::FaultReactionActive => CW_DISABLE_VOLTAGE,
        State::NotReadyToSwitchOn | State::SwitchOnDisabled => CW_SHUTDOWN,
        State::ReadyToSwitchOn => if enable {
            CW_SWITCH_ON
        } else {
            CW_SHUTDOWN
        },
        State::SwitchedOn | State::OperationEnabled | State::QuickStopActive => if enable {
            CW_ENABLE_OPERATION
        } else {
            CW_SHUTDOWN
        },
    }
}

/// The latch after a cycle: set by the edge, cleared when the request drops.
pub open spec fn fired_after(fired: bool, fault_reset: bool, sw: u16) -> bool {
    fault_reset && (fired || state_of(sw) is Fault)
}

/// The drive status that a statusword stands for.
pub open spec fn drive_status_of(enable_requested: bool, sw: u16) -> DriveStatus {
    match state_of(sw) {
        State::OperationEnabled => DriveStatus::Enabled,
        State::QuickStopActive => DriveStatus::QuickStop,
        State::Fault | State::FaultReactionActive => DriveStatus::Fault,
        _ => if enable_requested {
            DriveStatus::Enabling
        } else {
            DriveStatus::Disabled
        },
    }
}

impl Cia402 {
    /// One cycle: statusword in, controlword out.
    pub fn controlword(&mut self, enable: bool, fault_reset: bool, sw: u16) -> (r: u16)
        ensures
            r == controlword_of(old(self).reset_fired, enable, fault_reset, sw),
            final(self).reset_fired == fired_after(old(self).reset_fired, fault_reset, sw),
    {
        let state = decode_statusword(sw);
        if !fault_reset {
            self.reset_fired = false;
        }
        match state {
            State::Fault => {
                if fault_reset && !self.reset_fired {
                    self.reset_fired = true;
                    return CW_FAULT_RESET;
                }
                CW_DISABLE_VOLTAGE
            },
            // Let the drive finish its fault reaction untouched.
            State::FaultReactionActive => CW_DISABLE_VOLTAGE,
            State::NotReadyToSwitchOn | State::SwitchOnDisabled => CW_SHUTDOWN,
            State::ReadyToSwitchOn => {
                if enable {
                    CW_SWITCH_ON
                } else {
                    CW_SHUTDOWN
                }
            },
            State::SwitchedOn | State::OperationEnabled | State::QuickStopActive => {
                if enable {
                    CW_ENABLE_OPERATION
                } else {
                    CW_SHUTDOWN
                }
            },
        }
    }

    /// The drive status that a statusword stands for.
    pub fn drive_status(enable_requested: bool, sw: u16) -> (r: DriveStatus)
        ensures
            r == drive_status_of(enable_requested, sw),
    {
        match decode_statusword(sw) {
            State::OperationEnabled => DriveStatus::Enabled,
            State::QuickStopActive => DriveStatus::QuickStop,
            State::Fault | State::FaultReactionActive => DriveStatus::Fault,
            State::NotReadyToSwitchOn
            | State::SwitchOnDisabled
            | State::ReadyToSwitchOn
            | State::SwitchedOn => {
                if enable_requested {
                    DriveStatus::Enabling
                } else {
                    DriveStatus::Disabled
                }
            },
        }
    }
}

/// The latch after a run of cycles with the reset request held.
pub open spec fn fired_after_all(fired: bool, sws: Seq<u16>) -> bool
    decreases sws.len(),
{
    if sws.len() == 0 {
        fired
    } else {
        fired_after(fired_after_all(fired, sws.drop_last()), true, sws.last())
    }
}

/// A held reset request raises bit 7 at most once: after the edge, no later
/// cycle of the same request raises it again, whatever the drive shows.
pub proof fn one_edge_per_held_request(fired: bool, enable: bool, sw: u16, later: Seq<u16>, next: u16)
    requires
        controlword_of(fired, enable, true, sw) == CW_FAULT_RESET,
    ensures
        controlword_of(
            fired_after_all(fired_after(fired, true, sw), later),
            enable,
            true,
            next,
        ) != CW_FAULT_RESET,
{
    lemma_stays_fired(later);
}

proof fn lemma_stays_fired(later: Seq<u16>)
    ensures
        fired_after_all(true, later),
    decreases later.len(),
{
    if later.len() > 0 {
        lemma_stays_fired(later.drop_last());
    }
}

/// Releasing the request re-arms it: the next request resets a fault again.
pub proof fn release_rearms(fired: bool, enable: bool, released_sw: u16, sw: u16)
    requires
        state_of(sw) is Fault,
    ensures
        controlword_of(fired_after(fired, false, released_sw), enable, true, sw) == CW_FAULT_RESET,
{
}

/// Operation is requested only of an enabled axis, and an axis that is not
/// enabled is always taken toward rest.
pub proof fn disabled_axes_are_never_powered(fired: bool, fault_reset: bool, sw: u16)
    ensures
        controlword_of(fired, false, fault_reset, sw) != CW_ENABLE_OPERATION,
        controlword_of(fired, false, fault_reset, sw) != CW_SWITCH_ON,
        state_of(sw) is OperationEnabled ==> controlword_of(fired, false, fault_reset, sw)
            == CW_SHUTDOWN,
{
}

} // verus!
