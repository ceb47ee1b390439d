//! Velocity ramps and trapezoidal moves: which of the computed numbers a step
//! takes. The sums, products and roots of binary64 numbers are handed in.
use vstd::prelude::*;

use crate::motion::axis::Advance;
use crate::scalar::{lemma_magnitude_order, Scalar};

verus! {

/// A ramp's next velocity: the target where it is within reach, else one full
/// step toward it.
pub open spec fn ramped(target: Scalar, difference: Scalar, limit: Scalar, stepped: Scalar) -> Scalar {
    if difference.magnitude_of().le(limit) {
        target
    } else {
        stepped
    }
}

/// One step of a velocity ramp. `difference` is how far the velocity is from
/// `target`, `limit` how far one step goes, `stepped` the velocity after one
/// full step toward the target.
pub fn ramp_vel(target: Scalar, difference: Scalar, limit: Scalar, stepped: Scalar) -> (r: Scalar)
    ensures
        r == ramped(target, difference, limit, stepped),
{
    if difference.abs().is_at_most(limit) {
        target
    } else {
        stepped
    }
}

/// One ramp step from the velocity `vel` down to rest, going at most `limit`:
/// the numbers handed to it are the velocity's distance from zero and, rounded
/// to nearest, the velocity brought `limit` closer to zero. It comes to rest exactly once the
/// speed is within `limit`. Before that the direction is kept, the speed never
/// grows, and it is what `limit` leaves of it, up to that rounding.
pub proof fn ramps_to_rest_land_exactly(
    vel: Scalar,
    difference: Scalar,
    limit: Scalar,
    stepped: Scalar,
)
    requires
        vel.finite(),
        difference.finite(),
        difference.value() == -vel.value(),
        !limit.nan(),
        0 <= limit.value(),
        vel.value() > limit.value() ==> stepped.nearest_to(vel.value() - limit.value()),
        vel.value() < -limit.value() ==> stepped.nearest_to(vel.value() + limit.value()),
    ensures
        ({
            let r = ramped(Scalar::zero_spec(), difference, limit, stepped);
            let v = vel.value();
            let l = limit.value();
            &&& -l <= v <= l ==> r == Scalar::zero_spec()
            &&& v > l ==> 0 < r.value() <= v && r.nearest_to(v - l)
            &&& v < -l ==> v <= r.value() < 0 && r.nearest_to(v + l)
        }),
{
    let size = difference.magnitude_of();
    lemma_magnitude_order(difference.unsigned_bits(), 0);
    assert(size.unsigned_bits() == difference.unsigned_bits());
    assert(size.value() == if vel.value() < 0 {
        -vel.value()
    } else {
        vel.value()
    });
    let unit = Scalar { bits: 1 };
    let minus_unit = Scalar { bits: 0x8000_0000_0000_0001 };
    assert(unit.finite() && unit.value() == 1);
    assert(minus_unit.finite() && minus_unit.value() == -1);
}

/// A move heads up toward a target that is not below.
pub fn heads_up(distance: Scalar) -> (r: bool)
    ensures
        r == Scalar::zero_spec().le(distance),
{
    Scalar::zero().is_at_most(distance)
}

/// A move speeds up with `acc` and slows down with `dec`. Turning around is
/// slowing down first.
pub open spec fn move_rate_of(gain: Scalar, along: Scalar, acc: Scalar, dec: Scalar) -> Scalar {
    if Scalar::zero_spec().lt(gain) && Scalar::zero_spec().le(along) {
        acc
    } else {
        dec
    }
}

/// The rate of a trapezoidal step: `gain` is what the velocity lacks along the
/// heading, `along` the velocity along the heading.
pub fn move_rate(gain: Scalar, along: Scalar, acc: Scalar, dec: Scalar) -> (r: Scalar)
    ensures
        r == move_rate_of(gain, along, acc, dec),
{
    if Scalar::zero().is_less(gain) && Scalar::zero().is_at_most(along) {
        acc
    } else {
        dec
    }
}

/// A trapezoidal step from `distance` before the target at velocity `vel`, to
/// `moved_pos` at `moved_vel`. `ahead` is what is then left along the heading,
/// `reach` how far the step went.
#[derive(Clone, Copy, Debug, PartialEq, Eq, Structural)]
pub struct MoveStep {
    pub target: Scalar,
    pub distance: Scalar,
    pub vel: Scalar,
    pub moved_pos: Scalar,
    pub moved_vel: Scalar,
    pub ahead: Scalar,
    pub reach: Scalar,
}

/// The move is over: it stood at the target, passes it, or is within one step.
pub open spec fn lands(m: MoveStep) -> bool {
    ||| m.distance.zero_valued() && m.vel.zero_valued()
    ||| m.ahead.le(Scalar::zero_spec())
    ||| m.distance.magnitude_of().le(m.reach)
}

/// The outcome of a trapezoidal step.
pub open spec fn trapezoid_of(m: MoveStep) -> Advance {
    if lands(m) {
        Advance { pos: m.target, vel: Scalar::zero_spec(), done: true }
    } else {
        Advance { pos: m.moved_pos, vel: m.moved_vel, done: false }
    }
}

/// One step of a trapezoidal move. A move that lands, lands exactly: on the
/// target, at rest.
pub fn trapezoid_tick(m: &MoveStep) -> (r: Advance)
    ensures
        r == trapezoid_of(*m),
{
    let landed = (m.distance.is_zero() && m.vel.is_zero()) || m.ahead.is_at_most(Scalar::zero())
        || m.distance.abs().is_at_most(m.reach);
    if landed {
        Advance { pos: m.target, vel: Scalar::zero(), done: true }
    } else {
        Advance { pos: m.moved_pos, vel: m.moved_vel, done: false }
    }
}

/// A step that is reported as the last one ends on the target and at rest, and
/// a step that is not ends short of the target, more than its own reach away
/// from where it began.
pub proof fn moves_land_exactly(m: MoveStep)
    requires
        !m.ahead.nan(),
        !m.distance.nan(),
        !m.reach.nan(),
    ensures
        trapezoid_of(m).done ==> trapezoid_of(m).pos == m.target && trapezoid_of(m).vel
            == Scalar::zero_spec(),
        !trapezoid_of(m).done ==> Scalar::zero_spec().lt(m.ahead) && m.reach.lt(
            m.distance.magnitude_of(),
        ),
{
}

/// A velocity ramp lands on its target once that is within one step, and takes
/// the full step before.
pub proof fn ramps_land_within_one_step(
    target: Scalar,
    difference: Scalar,
    limit: Scalar,
    stepped: Scalar,
)
    requires
        !difference.nan(),
        !limit.nan(),
    ensures
        -limit.value() <= difference.value() <= limit.value() ==> ramped(
            target,
            difference,
            limit,
            stepped,
        ) == target,
        difference.value() > limit.value() || difference.value() < -limit.value() ==> ramped(
            target,
            difference,
            limit,
            stepped,
        ) == stepped,
{
    lemma_magnitude_order(difference.unsigned_bits(), 0);
    assert(difference.magnitude_of().unsigned_bits() == difference.unsigned_bits());
}

/// A move gains speed with `acc` only while it heads for its target and lacks
/// speed; it loses speed, and turns around, with `dec`.
pub proof fn moves_speed_up_with_acc_and_brake_with_dec(
    gain: Scalar,
    along: Scalar,
    acc: Scalar,
    dec: Scalar,
)
    requires
        !gain.nan(),
        !along.nan(),
    ensures
        gain.value() > 0 && along.value() >= 0 ==> move_rate_of(gain, along, acc, dec) == acc,
        gain.value() <= 0 || along.value() < 0 ==> move_rate_of(gain, along, acc, dec) == dec,
{
    lemma_magnitude_order(gain.unsigned_bits(), 0);
}

/// A move is over exactly when it stood at its target, its step passes the
/// target, or the target is within the step; until then it goes where the step
/// brings it.
pub proof fn moves_end_at_their_target(m: MoveStep)
    requires
        !m.ahead.nan(),
        !m.distance.nan(),
        !m.reach.nan(),
        !m.vel.nan(),
    ensures
        ({
            let r = trapezoid_of(m);
            let away = if m.distance.value() < 0 {
                -m.distance.value()
            } else {
                m.distance.value()
            };
            let over = m.distance.value() == 0 && m.vel.value() == 0 || m.ahead.value() <= 0 || away
                <= m.reach.value();
            &&& r.done <==> over
            &&& over ==> r.pos == m.target && r.vel.bits == 0
            &&& !over ==> r.pos == m.moved_pos && r.vel == m.moved_vel
        }),
{
    lemma_magnitude_order(m.distance.unsigned_bits(), m.vel.unsigned_bits());
    lemma_magnitude_order(m.distance.unsigned_bits(), 0);
    assert(m.distance.magnitude_of().unsigned_bits() == m.distance.unsigned_bits());
}

/// A move heads up exactly where its target is not below.
pub proof fn moves_head_for_their_target(distance: Scalar, r: bool)
    requires
        call_ensures(heads_up, (distance,), r),
        !distance.nan(),
    ensures
        r <==> distance.value() >= 0,
{
    lemma_magnitude_order(0, 0);
}

} // verus!
