//! Axis error identifiers, as the operator panel knows them.
use vstd::prelude::*;

verus! {

pub const NONE: i32 = 0;

/// The drive reported an error or dropped out of operation.
pub const DRIVER_ERROR: i32 = 100;

pub const HOMING_WRITE_PARAM_FAIL: i32 = 201;

pub const HOMING_EXEC_FAIL: i32 = 202;

pub const MOVE_ABS_FAIL: i32 = 301;

pub const MOVE_REL_FAIL: i32 = 302;

pub const MOVE_VEL_FAIL: i32 = 303;

pub const SET_POSITION_FAIL: i32 = 401;

pub const POSITIVE_LIMIT_TRIP: i32 = 501;

pub const NEGATIVE_LIMIT_TRIP: i32 = 502;

} // verus!
