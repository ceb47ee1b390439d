//! Object dictionary entries that start-up writes.
use vstd::prelude::*;

verus! {

pub const SM2_PDO_ASSIGN: u16 = 0x1C12;

pub const SM3_PDO_ASSIGN: u16 = 0x1C13;

pub const RX_PDO_MAP: u16 = 0x1600;

pub const TX_PDO_MAP: u16 = 0x1A00;

pub const MODES_OF_OPERATION: u16 = 0x6060;

pub const MODES_OF_OPERATION_DISPLAY: u16 = 0x6061;

pub const ERROR_CODE: u16 = 0x603F;

/// Cyclic synchronous position mode.
pub const MODE_CSP: u8 = 8;

} // verus!
