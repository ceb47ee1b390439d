//! Bits that the daemon and the operator bridge share beyond the axis and
//! machine words: the per-axis touch mask of a command, and the system status
//! and alarm bits.
use vstd::prelude::*;

verus! {

/// The writer filled the touch mask. A message without it touches every axis.
pub const TOUCH_MASK_PRESENT: u16 = 0x8000;

/// `status_flags`: the bus is in operation.
pub const STATUS_BUS_OP: u32 = 0x1;

/// `alarm_flags`: the last cyclic exchange failed.
pub const ALARM_BUS_FAULT: u32 = 0x1;

/// `alarm_flags`: a jog word is held but no command arrived in time.
pub const ALARM_CMD_TIMEOUT: u32 = 0x2;

/// The touch-mask bit of an axis.
pub open spec fn touch_bit_of(axis: usize) -> u16 {
    1u16 << axis
}

/// The touch-mask bit of an axis.
pub fn touch_bit(axis: usize) -> (r: u16)
    requires
        axis < 16,
    ensures
        r == touch_bit_of(axis),
{
    1u16 << axis
}

/// The message touched this axis: it says so, or it has no mask.
pub open spec fn touches(header_flags: u16, axis: usize) -> bool {
    header_flags & TOUCH_MASK_PRESENT == 0 || header_flags & touch_bit_of(axis) != 0
}

/// Whether a message is a new request for an axis: it is new, and it touched
/// the axis.
pub fn axis_fresh(fresh: bool, header_flags: u16, axis: usize) -> (r: bool)
    requires
        axis < 16,
    ensures
        r == (fresh && touches(header_flags, axis)),
{
    fresh && (header_flags & TOUCH_MASK_PRESENT == 0 || header_flags & touch_bit(axis) != 0)
}

/// The touch bits of the axes are those of the mask: bit `axis`, distinct from
/// one another and from the marker.
pub proof fn touch_bits_are_distinct(a: usize, b: usize)
    requires
        a < 4,
        b < 4,
    ensures
        touch_bit_of(0) == 1,
        touch_bit_of(1) == 2,
        touch_bit_of(2) == 4,
        touch_bit_of(3) == 8,
        a != b ==> touch_bit_of(a) & touch_bit_of(b) == 0,
        touch_bit_of(a) & TOUCH_MASK_PRESENT == 0,
        touch_bit_of(a) & touch_bit_of(a) != 0,
{
    assert(1u16 << 0usize == 1 && 1u16 << 1usize == 2 && 1u16 << 2usize == 4 && 1u16 << 3usize == 8)
        by (bit_vector);
    assert(1u16 & 2u16 == 0 && 1u16 & 4u16 == 0 && 1u16 & 8u16 == 0 && 2u16 & 1u16 == 0 && 2u16
        & 4u16 == 0 && 2u16 & 8u16 == 0 && 4u16 & 1u16 == 0 && 4u16 & 2u16 == 0 && 4u16 & 8u16 == 0
        && 8u16 & 1u16 == 0 && 8u16 & 2u16 == 0 && 8u16 & 4u16 == 0 && 1u16 & 0x8000u16 == 0 && 2u16
        & 0x8000u16 == 0 && 4u16 & 0x8000u16 == 0 && 8u16 & 0x8000u16 == 0 && 1u16 & 1u16 == 1
        && 2u16 & 2u16 == 2 && 4u16 & 4u16 == 4 && 8u16 & 8u16 == 8) by (bit_vector);
}

} // verus!
