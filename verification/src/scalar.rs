//! IEEE-754 binary32 data as bit patterns, and the order of their values.

use vstd::arithmetic::mul::{lemma_mul_inequality, lemma_mul_strict_inequality};
use vstd::arithmetic::power2::{lemma_pow2_pos, lemma_pow2_strictly_increases, lemma_pow2_unfold, pow2};
use vstd::prelude::*;

verus! {

/// The sign bit of a binary32 datum.
pub const SIGN_MASK: u32 = 0x8000_0000;

/// The magnitude of an infinity. Every larger magnitude is a NaN.
pub const INFINITY_BITS: u32 = 0x7f80_0000;

/// Bit pattern of the number one.
pub const ONE_BITS: u32 = 0x3f80_0000;

/// Bit pattern of the number minus one.
pub const MINUS_ONE_BITS: u32 = 0xbf80_0000;

/// A binary32 datum, held as its bit pattern.
///
/// `==` compares bit patterns: it tells the two zeros apart and finds a NaN
/// equal to itself. The order of values is given by [`Scalar::below`].
#[derive(Clone, Copy, Debug, PartialEq, Eq, Structural)]
pub struct Scalar {
    pub bits: u32,
}

impl Scalar {
    /// The sign bit is set.
    pub open spec fn negative(self) -> bool {
        self.bits >= SIGN_MASK
    }

    /// The bit pattern without its sign bit.
    pub open spec fn magnitude(self) -> int {
        if self.bits >= SIGN_MASK {
            self.bits - SIGN_MASK
        } else {
            self.bits as int
        }
    }

    /// The datum is a NaN.
    pub open spec fn nan(self) -> bool {
        self.magnitude() > INFINITY_BITS
    }

    /// The datum is a number, neither an infinity nor a NaN.
    pub open spec fn finite(self) -> bool {
        self.magnitude() < INFINITY_BITS
    }

    /// An integer that orders the data that are not NaN as their values are
    /// ordered: the magnitude with the sign applied. Both zeros have key 0.
    pub open spec fn key(self) -> int {
        if self.negative() {
            -self.magnitude()
        } else {
            self.magnitude()
        }
    }

    /// The value of `self` is less than the value of `other`. False when
    /// either is a NaN.
    pub open spec fn below(self, other: Scalar) -> bool {
        !self.nan() && !other.nan() && self.key() < other.key()
    }

    /// The smaller of two values, a NaN giving way to the other operand.
    /// Of two equal values it is `self`.
    pub open spec fn lesser(self, other: Scalar) -> Scalar {
        if self.nan() {
            other
        } else if other.below(self) {
            other
        } else {
            self
        }
    }

    /// The larger of two values, a NaN giving way to the other operand.
    /// Of two equal values it is `self`.
    pub open spec fn greater(self, other: Scalar) -> Scalar {
        if self.nan() {
            other
        } else if self.below(other) {
            other
        } else {
            self
        }
    }

    /// The datum with its sign bit cleared.
    pub open spec fn absolute(self) -> Scalar {
        Scalar { bits: self.magnitude() as u32 }
    }

    /// The datum with its sign bit flipped.
    pub open spec fn negated(self) -> Scalar {
        Scalar {
            bits: if self.bits >= SIGN_MASK {
                (self.bits - SIGN_MASK) as u32
            } else {
                (self.bits + SIGN_MASK) as u32
            },
        }
    }

    /// Positive zero.
    pub open spec fn zero() -> Scalar {
        Scalar { bits: 0 }
    }

    /// Positive infinity.
    pub open spec fn infinity() -> Scalar {
        Scalar { bits: INFINITY_BITS }
    }

    pub fn from_bits(bits: u32) -> (s: Scalar)
        ensures
            s.bits == bits,
    {
        Scalar { bits }
    }

    pub fn to_bits(&self) -> (bits: u32)
        ensures
            bits == self.bits,
    {
        self.bits
    }

    fn magnitude_bits(&self) -> (m: u32)
        ensures
            m == self.magnitude(),
    {
        if self.bits >= SIGN_MASK {
            self.bits - SIGN_MASK
        } else {
            self.bits
        }
    }

    fn order_key(&self) -> (k: i64)
        ensures
            k == self.key(),
    {
        let m: u32 = self.magnitude_bits();
        if self.bits >= SIGN_MASK {
            0 - (m as i64)
        } else {
            m as i64
        }
    }

    pub fn is_nan(&self) -> (r: bool)
        ensures
            r == self.nan(),
    {
        self.magnitude_bits() > INFINITY_BITS
    }

    /// `self < other` on the values.
    pub fn lt(&self, other: &Scalar) -> (r: bool)
        ensures
            r == self.below(*other),
    {
        !self.is_nan() && !other.is_nan() && self.order_key() < other.order_key()
    }

    /// `self > other` on the values.
    pub fn gt(&self, other: &Scalar) -> (r: bool)
        ensures
            r == other.below(*self),
    {
        other.lt(self)
    }

    /// The smaller value; a NaN operand is ignored.
    pub fn min(self, other: Scalar) -> (r: Scalar)
        ensures
            r == self.lesser(other),
    {
        if self.is_nan() {
            other
        } else if other.lt(&self) {
            other
        } else {
            self
        }
    }

    /// The larger value; a NaN operand is ignored.
    pub fn max(self, other: Scalar) -> (r: Scalar)
        ensures
            r == self.greater(other),
    {
        if self.is_nan() {
            other
        } else if self.lt(&other) {
            other
        } else {
            self
        }
    }

    /// The value with the opposite sign.
    pub fn neg(self) -> (r: Scalar)
        ensures
            r == self.negated(),
    {
        if self.bits >= SIGN_MASK {
            Scalar { bits: self.bits - SIGN_MASK }
        } else {
            Scalar { bits: self.bits + SIGN_MASK }
        }
    }

    /// The absolute value.
    pub fn abs(self) -> (r: Scalar)
        ensures
            r == self.absolute(),
    {
        Scalar { bits: self.magnitude_bits() }
    }
}

/// The infinities bound every number: none is below minus infinity or above
/// plus infinity, and every finite number lies strictly between the two.
pub proof fn lemma_infinities_bound_numbers(s: Scalar)
    ensures
        !s.below(Scalar { bits: 0xff80_0000 }),
        !Scalar::infinity().below(s),
        s.finite() ==> (Scalar { bits: 0xff80_0000 }).below(s) && s.below(Scalar::infinity()),
{
}

/// On the data that are not NaN, `below` is a strict order in which any two
/// data of different keys are comparable.
pub proof fn lemma_below_is_strict_order(a: Scalar, b: Scalar, c: Scalar)
    ensures
        !a.below(a),
        a.below(b) ==> !b.below(a),
        a.below(b) && b.below(c) ==> a.below(c),
        !a.nan() && !b.nan() ==> a.below(b) || b.below(a) || a.key() == b.key(),
{
}

/// The number that a magnitude below that of infinity stands for, multiplied
/// by 2^149: an integer. The low 23 bits are the fraction, the bits above them
/// the exponent; a zero exponent marks a subnormal number.
pub open spec fn scaled_magnitude(magnitude: int) -> int {
    let exponent = magnitude / 0x80_0000;
    let fraction = magnitude % 0x80_0000;
    if exponent == 0 {
        fraction
    } else {
        (0x80_0000 + fraction) * pow2((exponent - 1) as nat)
    }
}

impl Scalar {
    /// The value of a finite datum, multiplied by 2^149.
    pub open spec fn scaled_value(self) -> int {
        if self.negative() {
            -scaled_magnitude(self.magnitude())
        } else {
            scaled_magnitude(self.magnitude())
        }
    }
}

/// A larger magnitude stands for a larger number.
pub proof fn lemma_scaled_magnitude_increases(x: int, y: int)
    requires
        0 <= x < y < INFINITY_BITS,
    ensures
        0 <= scaled_magnitude(x) < scaled_magnitude(y),
{
    let ex = x / 0x80_0000;
    let fx = x % 0x80_0000;
    let ey = y / 0x80_0000;
    let fy = y % 0x80_0000;
    let px = pow2((ex - 1) as nat) as int;
    let py = pow2((ey - 1) as nat) as int;
    lemma_pow2_pos((ex - 1) as nat);
    lemma_pow2_pos((ey - 1) as nat);
    assert(0 <= scaled_magnitude(x)) by {
        if ex != 0 {
            lemma_mul_inequality(0, 0x80_0000 + fx, px);
        }
    }
    if ex == ey {
        if ex != 0 {
            lemma_mul_strict_inequality(0x80_0000 + fx, 0x80_0000 + fy, px);
        }
    } else {
        // The exponent of `y` is the larger one: `y` is at least 2^23 * 2^(ey - 1).
        lemma_mul_inequality(0x80_0000, 0x80_0000 + fy, py);
        assert(0x80_0000 * py >= 0x80_0000) by {
            lemma_mul_inequality(1, py, 0x80_0000);
        }
        if ex != 0 {
            // `x` is below 2^24 * 2^(ex - 1) = 2^23 * 2^ex.
            lemma_mul_strict_inequality(0x80_0000 + fx, 0x100_0000, px);
            lemma_pow2_unfold(ex as nat);
            assert(0x100_0000 * px == 0x80_0000 * pow2(ex as nat)) by (nonlinear_arith)
                requires
                    pow2(ex as nat) == 2 * px,
            ;
            if ex < ey - 1 {
                lemma_pow2_strictly_increases(ex as nat, (ey - 1) as nat);
            }
            lemma_mul_inequality(pow2(ex as nat) as int, py, 0x80_0000);
        }
    }
}

/// The order of the keys of two finite data is the order of their values, and
/// two finite data have one key exactly when they have one value.
pub proof fn lemma_key_orders_values(a: Scalar, b: Scalar)
    requires
        a.finite(),
        b.finite(),
    ensures
        a.key() < b.key() <==> a.scaled_value() < b.scaled_value(),
        a.key() == b.key() <==> a.scaled_value() == b.scaled_value(),
{
    let x = a.magnitude();
    let y = b.magnitude();
    assert(scaled_magnitude(0) == 0);
    if x < y {
        lemma_scaled_magnitude_increases(x, y);
    }
    if y < x {
        lemma_scaled_magnitude_increases(y, x);
    }
    if 0 < x {
        lemma_scaled_magnitude_increases(0, x);
    }
    if 0 < y {
        lemma_scaled_magnitude_increases(0, y);
    }
}

} // verus!
