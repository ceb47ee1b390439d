//! Binary64 numbers carried as their bit patterns.
//!
//! Positions, velocities and limits travel through the control logic as
//! 64-bit IEEE-754 patterns. Everything the logic decides about them
//! (sign, order, zero, finiteness) is a statement about integers: a finite
//! pattern denotes a whole multiple of the smallest subnormal, 2^-1074.
use vstd::arithmetic::power2::{lemma2_to64, lemma_pow2_strictly_increases, lemma_pow2_unfold, pow2};
use vstd::prelude::*;

verus! {

/// 2^52: the weight of the lowest exponent bit.
pub const EXPONENT_UNIT: u64 = 0x10_0000_0000_0000;

/// 2^63: the sign bit.
pub const SIGN_UNIT: u64 = 0x8000_0000_0000_0000;

/// The pattern of positive infinity.
pub const INFINITY_BITS: u64 = 0x7FF0_0000_0000_0000;

/// A binary64 number, held as its bit pattern.
#[derive(Clone, Copy, Debug, PartialEq, Eq, Structural)]
pub struct Scalar {
    pub bits: u64,
}

/// Magnitude of a sign-less pattern, in units of 2^-1074. Patterns are ordered
/// exponent first, fraction second, so infinity sits above every finite value.
pub open spec fn magnitude(pattern: int) -> int {
    let exponent = pattern / 0x10_0000_0000_0000;
    let fraction = pattern % 0x10_0000_0000_0000;
    if exponent == 0 {
        fraction
    } else {
        (0x10_0000_0000_0000 + fraction) * pow2((exponent - 1) as nat)
    }
}

/// A larger sign-less pattern has a larger magnitude.
pub proof fn magnitude_increases(a: int, b: int)
    requires
        0 <= a < b,
    ensures
        0 <= magnitude(a) < magnitude(b),
{
    let unit: int = 0x10_0000_0000_0000;
    let ea = a / unit;
    let eb = b / unit;
    let fa = a % unit;
    let fb = b % unit;
    lemma2_to64();
    if eb > 0 {
        let pb = pow2((eb - 1) as nat) as int;
        vstd::arithmetic::power2::lemma_pow2_pos((eb - 1) as nat);
        assert((unit + fb) * pb >= unit * pb) by (nonlinear_arith)
            requires
                fb >= 0,
                pb > 0,
        ;
        assert(unit * pb >= unit) by (nonlinear_arith)
            requires
                unit > 0,
                pb >= 1,
        ;
        if ea > 0 {
            let pa = pow2((ea - 1) as nat) as int;
            vstd::arithmetic::power2::lemma_pow2_pos((ea - 1) as nat);
            if ea == eb {
                assert((unit + fa) * pa < (unit + fb) * pa) by (nonlinear_arith)
                    requires
                        fa < fb,
                        pa > 0,
                ;
            } else {
                lemma_pow2_unfold(ea as nat);
                assert(pow2(ea as nat) == 2 * pa);
                if ea < eb - 1 {
                    lemma_pow2_strictly_increases(ea as nat, (eb - 1) as nat);
                }
                assert(2 * pa <= pb);
                assert((unit + fa) * pa < unit * pb) by (nonlinear_arith)
                    requires
                        0 <= fa < unit,
                        pa > 0,
                        2 * pa <= pb,
                ;
            }
            assert((unit + fa) * pa >= 0) by (nonlinear_arith)
                requires
                    fa >= 0,
                    unit > 0,
                    pa > 0,
            ;
        }
    }
}

/// How far two integers are apart.
pub open spec fn distance(a: int, b: int) -> int {
    if a <= b {
        b - a
    } else {
        a - b
    }
}

impl Scalar {
    /// The pattern without its sign.
    pub open spec fn unsigned_bits(self) -> int {
        (self.bits % 0x8000_0000_0000_0000) as int
    }

    /// The sign bit is set.
    pub open spec fn negative(self) -> bool {
        self.bits >= 0x8000_0000_0000_0000
    }

    /// Not a number: all exponent bits set and a fraction beside them.
    pub open spec fn nan(self) -> bool {
        self.unsigned_bits() > 0x7FF0_0000_0000_0000
    }

    /// Neither infinite nor a NaN.
    pub open spec fn finite(self) -> bool {
        self.unsigned_bits() < 0x7FF0_0000_0000_0000
    }

    /// The number denoted, in units of 2^-1074. Infinities get a value beyond
    /// every finite one; a NaN's value means nothing.
    pub open spec fn value(self) -> int {
        if self.negative() {
            -magnitude(self.unsigned_bits())
        } else {
            magnitude(self.unsigned_bits())
        }
    }

    /// `self < other` as binary64 compares: false as soon as one is a NaN.
    pub open spec fn lt(self, other: Scalar) -> bool {
        !self.nan() && !other.nan() && self.value() < other.value()
    }

    /// `self <= other` as binary64 compares: false as soon as one is a NaN.
    pub open spec fn le(self, other: Scalar) -> bool {
        !self.nan() && !other.nan() && self.value() <= other.value()
    }

    /// Positive zero.
    pub open spec fn zero_spec() -> Scalar {
        Scalar { bits: 0 }
    }

    /// Equal to zero, of either sign.
    pub open spec fn zero_valued(self) -> bool {
        self.unsigned_bits() == 0
    }

    /// The absolute value.
    pub open spec fn magnitude_of(self) -> Scalar {
        Scalar { bits: self.unsigned_bits() as u64 }
    }

    /// The same magnitude under the other sign.
    pub open spec fn negated(self) -> Scalar {
        Scalar {
            bits: (if self.negative() {
                self.bits - 0x8000_0000_0000_0000
            } else {
                self.bits + 0x8000_0000_0000_0000
            }) as u64,
        }
    }

    /// No finite number is nearer to `exact`, counted in units of 2^-1074: what
    /// rounding to nearest makes of it.
    pub open spec fn nearest_to(self, exact: int) -> bool {
        &&& self.finite()
        &&& forall|other: Scalar|
            other.finite() ==> distance(self.value(), exact) <= distance(
                #[trigger] other.value(),
                exact,
            )
    }

    /// The smaller of the two; a NaN yields to the other operand.
    pub open spec fn lesser(self, other: Scalar) -> Scalar {
        if other.nan() || self.le(other) {
            self
        } else {
            other
        }
    }

    pub fn zero() -> (r: Scalar)
        ensures
            r == Scalar::zero_spec(),
            r.value() == 0,
    {
        Scalar { bits: 0 }
    }

    pub fn is_nan(self) -> (r: bool)
        ensures
            r == self.nan(),
    {
        self.bits % SIGN_UNIT > INFINITY_BITS
    }

    pub fn is_finite(self) -> (r: bool)
        ensures
            r == self.finite(),
    {
        self.bits % SIGN_UNIT < INFINITY_BITS
    }

    /// Equal to zero, of either sign.
    pub fn is_zero(self) -> (r: bool)
        ensures
            r == self.zero_valued(),
            r == (!self.nan() && self.value() == 0),
    {
        proof {
            if self.unsigned_bits() > 0 {
                magnitude_increases(0, self.unsigned_bits());
            }
        }
        self.bits % SIGN_UNIT == 0
    }

    /// `self < other`.
    pub fn is_less(self, other: Scalar) -> (r: bool)
        ensures
            r == self.lt(other),
    {
        let a: u64 = self.bits % SIGN_UNIT;
        let b: u64 = other.bits % SIGN_UNIT;
        proof {
            lemma_magnitude_order(a as int, b as int);
            lemma_magnitude_order(b as int, a as int);
        }
        if a > INFINITY_BITS || b > INFINITY_BITS {
            false
        } else if self.bits >= SIGN_UNIT {
            if other.bits >= SIGN_UNIT {
                b < a
            } else {
                a != 0 || b != 0
            }
        } else {
            if other.bits >= SIGN_UNIT {
                false
            } else {
                a < b
            }
        }
    }

    /// `self <= other`.
    pub fn is_at_most(self, other: Scalar) -> (r: bool)
        ensures
            r == self.le(other),
    {
        if self.is_nan() || other.is_nan() {
            false
        } else {
            !other.is_less(self)
        }
    }

    /// The absolute value.
    pub fn abs(self) -> (r: Scalar)
        ensures
            r == self.magnitude_of(),
            r.nan() == self.nan(),
            r.value() == if self.value() < 0 { -self.value() } else { self.value() },
    {
        let r = Scalar { bits: self.bits % SIGN_UNIT };
        proof {
            lemma_magnitude_order(0, r.bits as int);
        }
        r
    }

    /// The same magnitude under the other sign.
    pub fn negate(self) -> (r: Scalar)
        ensures
            r == self.negated(),
            r.nan() == self.nan(),
            r.value() == -self.value(),
    {
        if self.bits >= SIGN_UNIT {
            Scalar { bits: self.bits - SIGN_UNIT }
        } else {
            Scalar { bits: self.bits + SIGN_UNIT }
        }
    }

    /// The smaller of the two; a NaN yields to the other operand.
    pub fn min(self, other: Scalar) -> (r: Scalar)
        ensures
            r == self.lesser(other),
            !self.nan() && !other.nan() ==> r.value() <= self.value() && r.value() <= other.value(),
    {
        if other.is_nan() || self.is_at_most(other) {
            self
        } else {
            other
        }
    }
}

impl Default for Scalar {
    fn default() -> (r: Scalar)
        ensures
            r == Scalar::zero_spec(),
    {
        Scalar { bits: 0 }
    }
}

/// Sign-less patterns and their magnitudes are ordered alike, from zero up.
pub proof fn lemma_magnitude_order(a: int, b: int)
    requires
        0 <= a,
        0 <= b,
    ensures
        magnitude(0) == 0,
        magnitude(a) >= 0,
        magnitude(b) >= 0,
        a < b <==> magnitude(a) < magnitude(b),
        a == 0 <==> magnitude(a) == 0,
        b == 0 <==> magnitude(b) == 0,
{
    if a > 0 {
        magnitude_increases(0, a);
    }
    if b > 0 {
        magnitude_increases(0, b);
    }
    if a < b {
        magnitude_increases(a, b);
    } else if b < a {
        magnitude_increases(b, a);
    }
}

/// Changing the sign changes the value's sign and nothing else.
pub proof fn lemma_negation(x: Scalar)
    ensures
        x.negated().nan() == x.nan(),
        x.negated().value() == -x.value(),
        x.nan() || x.zero_valued() == (x.value() == 0),
{
    lemma_magnitude_order(x.unsigned_bits(), 0);
}

/// Patterns without a sign count up with the numbers they stand for, those with
/// one count down, zero is zero under either sign, and a NaN compares with
/// nothing.
pub proof fn patterns_are_ordered_like_numbers(a: Scalar, b: Scalar)
    ensures
        ({
            let top: u64 = 0x7FF0_0000_0000_0000;
            let sign: u64 = 0x8000_0000_0000_0000;
            let up = a.bits <= top && b.bits <= top;
            let down = sign <= a.bits <= sign + top && sign <= b.bits <= sign + top;
            let across = sign <= a.bits <= sign + top && b.bits <= top;
            let back = a.bits <= top && sign <= b.bits <= sign + top;
            &&& up ==> (a.lt(b) <==> a.bits < b.bits)
            &&& down ==> (a.lt(b) <==> a.bits > b.bits)
            &&& across ==> (a.lt(b) <==> a.bits != sign || b.bits != 0)
            &&& back ==> !a.lt(b)
            &&& !up && !down && !across && !back ==> !a.lt(b) && !a.le(b)
            &&& up || down || across || back ==> (a.le(b) <==> !b.lt(a))
            &&& a.nan() <==> top < a.bits < sign || a.bits > sign + top
            &&& a.finite() <==> a.bits < top || sign <= a.bits < sign + top
            &&& a.zero_valued() <==> a.bits == 0 || a.bits == sign
        }),
{
    lemma_magnitude_order(a.unsigned_bits(), b.unsigned_bits());
    lemma_magnitude_order(b.unsigned_bits(), a.unsigned_bits());
}

/// The magnitude drops the sign bit, negation turns it over, and the lesser of
/// two numbers is one of them and above neither; a NaN yields.
pub proof fn signs_and_minima(a: Scalar, b: Scalar)
    ensures
        ({
            let sign: u64 = 0x8000_0000_0000_0000;
            &&& a.bits < sign ==> a.magnitude_of() == a && a.negated().bits == a.bits + sign
            &&& a.bits >= sign ==> a.magnitude_of().bits == a.bits - sign && a.negated().bits
                == a.bits - sign
            &&& b.nan() ==> a.lesser(b) == a
            &&& a.nan() && !b.nan() ==> a.lesser(b) == b
            &&& !a.nan() && !b.nan() ==> (a.lesser(b) == a || a.lesser(b) == b) && a.lesser(b).le(a)
                && a.lesser(b).le(b)
        }),
{
}

} // verus!
