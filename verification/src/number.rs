//! Run-time numbers as IEEE 754 binary64 bit patterns, with the comparisons
//! that the interpreter decides itself.

use vstd::prelude::*;

verus! {

/// Bit pattern of the sign bit alone (the number `-0.0`).
pub const SIGN_BIT: u64 = 0x8000_0000_0000_0000;

/// Bit pattern of positive infinity; a larger magnitude is a NaN.
pub const INFINITY_BITS: u64 = 0x7FF0_0000_0000_0000;

/// Bit pattern of `1.0`.
pub const ONE_BITS: u64 = 0x3FF0_0000_0000_0000;

/// Bit pattern of `0.0`.
pub const ZERO_BITS: u64 = 0;

/// A binary64 number, identified by its 64 bits.
///
/// The derived `==` compares bit patterns; numeric comparison, under which
/// `0.0` equals `-0.0` and a NaN equals nothing, is [`Number::equal_to`].
#[derive(Clone, Copy, Debug, PartialEq, Eq, Structural)]
pub struct Number {
    pub bits: u64,
}

impl Number {
    /// The bits without the sign bit.
    pub open spec fn magnitude(self) -> u64 {
        if self.bits >= SIGN_BIT {
            (self.bits - SIGN_BIT) as u64
        } else {
            self.bits
        }
    }

    /// Whether the sign bit is set.
    pub open spec fn sign(self) -> bool {
        self.bits >= SIGN_BIT
    }

    /// Whether the number is a NaN: all exponent bits set and a nonzero fraction.
    pub open spec fn nan(self) -> bool {
        self.magnitude() > INFINITY_BITS
    }

    /// Whether the number is `0.0` or `-0.0`.
    pub open spec fn zero(self) -> bool {
        self.magnitude() == 0
    }

    /// Position of a number that is no NaN on the number line: binary64 is a
    /// sign-magnitude format, so magnitudes order the positive numbers and
    /// order the negative numbers in reverse; both zeros map to 0.
    pub open spec fn ordinal(self) -> int {
        if self.sign() {
            -(self.magnitude() as int)
        } else {
            self.magnitude() as int
        }
    }

    /// `self < other` as IEEE 754 defines it: false if either is a NaN.
    pub open spec fn lt(self, other: Number) -> bool {
        !self.nan() && !other.nan() && self.ordinal() < other.ordinal()
    }

    /// `self <= other` as IEEE 754 defines it: false if either is a NaN.
    pub open spec fn le(self, other: Number) -> bool {
        !self.nan() && !other.nan() && self.ordinal() <= other.ordinal()
    }

    /// `self == other` as IEEE 754 defines it: false if either is a NaN.
    pub open spec fn eq(self, other: Number) -> bool {
        !self.nan() && !other.nan() && self.ordinal() == other.ordinal()
    }

    /// The number that stands for a truth value: `1.0` for true, `0.0` for false.
    pub open spec fn truth_of(b: bool) -> Number {
        Number { bits: if b { ONE_BITS } else { ZERO_BITS } }
    }

    /// The number with the given bit pattern.
    pub fn from_bits(bits: u64) -> (r: Number)
        ensures
            r.bits == bits,
    {
        Number { bits }
    }

    /// The bit pattern of the number.
    pub fn to_bits(self) -> (r: u64)
        ensures
            r == self.bits,
    {
        self.bits
    }

    /// The number `0.0`.
    pub fn new_zero() -> (r: Number)
        ensures
            r.bits == ZERO_BITS,
            r.zero(),
    {
        Number { bits: ZERO_BITS }
    }

    /// The number `1.0`.
    pub fn new_one() -> (r: Number)
        ensures
            r.bits == ONE_BITS,
    {
        Number { bits: ONE_BITS }
    }

    /// `1.0` for true, `0.0` for false.
    pub fn truth(b: bool) -> (r: Number)
        ensures
            r == Number::truth_of(b),
    {
        if b {
            Number { bits: ONE_BITS }
        } else {
            Number { bits: ZERO_BITS }
        }
    }

    fn magnitude_bits(self) -> (r: u64)
        ensures
            r == self.magnitude(),
    {
        if self.bits >= SIGN_BIT {
            self.bits - SIGN_BIT
        } else {
            self.bits
        }
    }

    /// Whether the number is a NaN.
    pub fn is_nan(self) -> (r: bool)
        ensures
            r == self.nan(),
    {
        self.magnitude_bits() > INFINITY_BITS
    }

    /// Whether the number is `0.0` or `-0.0`.
    pub fn is_zero(self) -> (r: bool)
        ensures
            r == self.zero(),
    {
        self.magnitude_bits() == 0
    }

    /// `self < other`.
    pub fn less_than(self, other: Number) -> (r: bool)
        ensures
            r == self.lt(other),
    {
        if self.is_nan() || other.is_nan() {
            false
        } else {
            let a: u64 = self.magnitude_bits();
            let b: u64 = other.magnitude_bits();
            if self.bits >= SIGN_BIT {
                if other.bits >= SIGN_BIT {
                    a > b
                } else {
                    a != 0 || b != 0
                }
            } else {
                if other.bits >= SIGN_BIT {
                    false
                } else {
                    a < b
                }
            }
        }
    }

    /// `self == other` as numbers.
    pub fn equal_to(self, other: Number) -> (r: bool)
        ensures
            r == self.eq(other),
    {
        if self.is_nan() || other.is_nan() {
            false
        } else {
            let a: u64 = self.magnitude_bits();
            let b: u64 = other.magnitude_bits();
            if (self.bits >= SIGN_BIT) == (other.bits >= SIGN_BIT) {
                a == b
            } else {
                a == 0 && b == 0
            }
        }
    }

    /// `self <= other`.
    pub fn less_or_equal(self, other: Number) -> (r: bool)
        ensures
            r == self.le(other),
    {
        self.less_than(other) || self.equal_to(other)
    }

    /// `self > other`.
    pub fn greater_than(self, other: Number) -> (r: bool)
        ensures
            r == other.lt(self),
    {
        other.less_than(self)
    }

    /// `self >= other`.
    pub fn greater_or_equal(self, other: Number) -> (r: bool)
        ensures
            r == other.le(self),
    {
        other.less_or_equal(self)
    }

    /// `self != other` as numbers: true if either is a NaN.
    pub fn not_equal_to(self, other: Number) -> (r: bool)
        ensures
            r == !self.eq(other),
    {
        !self.equal_to(other)
    }

    /// `self < 0.0`.
    pub fn is_negative(self) -> (r: bool)
        ensures
            r == self.lt(Number { bits: ZERO_BITS }),
    {
        self.less_than(Number { bits: ZERO_BITS })
    }

    /// `self > 0.0`.
    pub fn is_positive(self) -> (r: bool)
        ensures
            r == (Number { bits: ZERO_BITS }).lt(self),
    {
        Number { bits: ZERO_BITS }.less_than(self)
    }
}

/// Of two numbers that are no NaN exactly one of less, equal and greater
/// holds; of two numbers of which one is a NaN none holds.
pub proof fn lemma_comparisons_exclude(a: Number, b: Number)
    ensures
        !a.nan() && !b.nan() ==> (a.lt(b) && !a.eq(b) && !b.lt(a)) || (!a.lt(b) && a.eq(b) && !b.lt(
            a,
        )) || (!a.lt(b) && !a.eq(b) && b.lt(a)),
        a.nan() || b.nan() ==> !a.lt(b) && !a.eq(b) && !b.lt(a) && !a.le(b) && !b.le(a),
        a.le(b) <==> a.lt(b) || a.eq(b),
{
}

/// Less is transitive, and the two zeros are equal.
pub proof fn lemma_order(a: Number, b: Number, c: Number)
    ensures
        a.lt(b) && b.lt(c) ==> a.lt(c),
        a.le(b) && b.le(c) ==> a.le(c),
        a.zero() && b.zero() ==> a.eq(b),
        a.zero() <==> a.eq(Number { bits: ZERO_BITS }),
{
}

} // verus!
