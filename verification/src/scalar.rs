//! Single-precision values held as bit patterns.
//!
//! A [`Scalar`] stands for one IEEE-754 binary32 value. The library never does
//! arithmetic on such a value: it compares, selects and stores. All of that is
//! decided by the bit pattern alone, through [`Scalar::rank`], which maps every
//! value that is not a NaN to an integer so that the numeric order of the values
//! is the order of the integers.

use vstd::prelude::*;

verus! {

/// Bit of the sign in a binary32 pattern.
pub const SIGN_BIT: u32 = 0x8000_0000;

/// Pattern of positive infinity; every larger magnitude is a NaN.
pub const INFINITY_BITS: u32 = 0x7f80_0000;

/// Pattern of the value one.
pub const ONE_BITS: u32 = 0x3f80_0000;

/// Pattern of the largest value below one.
pub const BELOW_ONE_BITS: u32 = 0x3f7f_ffff;

/// An IEEE-754 binary32 value, held as its bit pattern.
#[derive(Clone, Copy, Debug, PartialEq, Eq, Structural)]
pub struct Scalar {
    pub bits: u32,
}

impl Scalar {
    /// The pattern without its sign bit.
    pub open spec fn magnitude(self) -> int {
        if self.bits >= SIGN_BIT {
            self.bits - SIGN_BIT
        } else {
            self.bits as int
        }
    }

    /// Whether the sign bit is set.
    pub open spec fn is_negative(self) -> bool {
        self.bits >= SIGN_BIT
    }

    /// Whether the pattern is a NaN.
    pub open spec fn is_nan(self) -> bool {
        self.magnitude() > INFINITY_BITS
    }

    /// Position of the value on the number line: for two values that are not
    /// NaN, the one with the larger rank is the larger number, and equal ranks
    /// mean equal numbers (both zeros have rank 0).
    pub open spec fn rank(self) -> int {
        if self.is_negative() {
            -self.magnitude()
        } else {
            self.magnitude()
        }
    }

    /// `self >= other` as IEEE-754 defines it: false when either is a NaN.
    pub open spec fn spec_at_least(self, other: Scalar) -> bool {
        !self.is_nan() && !other.is_nan() && self.rank() >= other.rank()
    }

    /// `self < other` as IEEE-754 defines it: false when either is a NaN.
    pub open spec fn spec_below(self, other: Scalar) -> bool {
        !self.is_nan() && !other.is_nan() && self.rank() < other.rank()
    }

    /// The larger of two values; a NaN loses against anything else, and `self`
    /// is kept when the two are equal numbers.
    pub open spec fn spec_max(self, other: Scalar) -> Scalar {
        if other.is_nan() {
            self
        } else if self.is_nan() {
            other
        } else if self.rank() >= other.rank() {
            self
        } else {
            other
        }
    }

    /// Whether the value lies in the closed unit interval.
    pub open spec fn is_unit(self) -> bool {
        !self.is_nan() && 0 <= self.rank() <= ONE_BITS
    }

    pub fn from_bits(bits: u32) -> (s: Scalar)
        ensures
            s.bits == bits,
    {
        Scalar { bits }
    }

    pub fn to_bits(self) -> (bits: u32)
        ensures
            bits == self.bits,
    {
        self.bits
    }

    /// Positive zero.
    pub fn zero() -> (s: Scalar)
        ensures
            s.bits == 0,
            s.rank() == 0,
            !s.is_nan(),
    {
        Scalar { bits: 0 }
    }

    /// The value one.
    pub fn one() -> (s: Scalar)
        ensures
            s.bits == ONE_BITS,
            s.rank() == ONE_BITS,
            !s.is_nan(),
    {
        Scalar { bits: ONE_BITS }
    }

    fn magnitude_bits(self) -> (m: u32)
        ensures
            m == self.magnitude(),
    {
        if self.bits >= SIGN_BIT {
            self.bits - SIGN_BIT
        } else {
            self.bits
        }
    }

    #[verifier::when_used_as_spec(is_nan)]
    pub fn is_nan_value(self) -> (r: bool)
        ensures
            r == self.is_nan(),
    {
        self.magnitude_bits() > INFINITY_BITS
    }

    /// Executable form of [`Scalar::rank`].
    pub fn rank_value(self) -> (r: i64)
        ensures
            r == self.rank(),
    {
        let m: i64 = self.magnitude_bits() as i64;
        if self.bits >= SIGN_BIT {
            -m
        } else {
            m
        }
    }

    #[verifier::when_used_as_spec(spec_at_least)]
    pub fn at_least(self, other: Scalar) -> (r: bool)
        ensures
            r == self.spec_at_least(other),
    {
        !self.is_nan_value() && !other.is_nan_value() && self.rank_value() >= other.rank_value()
    }

    #[verifier::when_used_as_spec(spec_below)]
    pub fn below(self, other: Scalar) -> (r: bool)
        ensures
            r == self.spec_below(other),
    {
        !self.is_nan_value() && !other.is_nan_value() && self.rank_value() < other.rank_value()
    }

    #[verifier::when_used_as_spec(is_unit)]
    pub fn is_unit_value(self) -> (r: bool)
        ensures
            r == self.is_unit(),
    {
        !self.is_nan_value() && self.bits <= ONE_BITS || self.bits == SIGN_BIT
    }

    #[verifier::when_used_as_spec(spec_max)]
    pub fn max(self, other: Scalar) -> (r: Scalar)
        ensures
            r == self.spec_max(other),
    {
        if other.is_nan_value() {
            self
        } else if self.is_nan_value() {
            other
        } else if self.rank_value() >= other.rank_value() {
            self
        } else {
            other
        }
    }
}

/// The maximum is one of its arguments; it is a NaN only when both are; and
/// when neither is, it is at least as large as each.
pub proof fn lemma_max_bounds(a: Scalar, b: Scalar)
    ensures
        a.spec_max(b) == a || a.spec_max(b) == b,
        a.spec_max(b).is_nan() <==> a.is_nan() && b.is_nan(),
        !a.is_nan() ==> a.spec_max(b).spec_at_least(a),
        !b.is_nan() ==> a.spec_max(b).spec_at_least(b),
        !a.is_nan() && !b.is_nan() ==> a.spec_max(b).rank() == if a.rank() >= b.rank() {
            a.rank()
        } else {
            b.rank()
        },
{
}

} // verus!
