//! `MachineCmd.control_flags` bits (operator to daemon).
use vstd::prelude::*;

verus! {

pub const RESET: u32 = 0x01;

pub const EMS: u32 = 0x02;

pub const SYSTEM_RUN: u32 = 0x04;

} // verus!
