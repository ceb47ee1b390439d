//! `AxisState.flags` bits (daemon to operator).
use vstd::prelude::*;

verus! {

pub const ENABLED: u32 = 0x01;

pub const BUSY: u32 = 0x02;

pub const ERROR: u32 = 0x04;

pub const STANDSTILL: u32 = 0x08;

pub const POS_LIMIT: u32 = 0x10;

pub const NEG_LIMIT: u32 = 0x20;

} // verus!
