//! `AxisCmd.control_flags` bits (operator to daemon).
use vstd::prelude::*;

verus! {

pub const ENABLE: u32 = 0x01;

pub const HOME: u32 = 0x02;

pub const RESET: u32 = 0x04;

pub const STOP: u32 = 0x08;

pub const JOG_POS: u32 = 0x10;

pub const JOG_NEG: u32 = 0x20;

pub const MOVE_ABS: u32 = 0x40;

} // verus!
