//! Binary floating-point numbers, held by their bit patterns.
//!
//! A [`Float64`] is the IEEE 754 bit pattern of a 64-bit floating-point number. For two patterns
//! that are no NaN, the order of the numbers is the order of the patterns, mirrored for negative
//! ones. A number is a whole count of the smallest positive one, its [`Float64::ticks`]; arithmetic
//! computes the exact result and then picks the nearest pattern, of two equally near ones the even
//! one, which is what [`is_nearest`] says.
use crate::decimal::{self, Decimal};
use vstd::prelude::*;

verus! {

/// The lowest bit pattern with the sign bit.
pub const SIGN_BIT: u64 = 0x8000_0000_0000_0000;

/// The bit pattern of positive infinity; patterns above it, but for the sign, are no numbers.
pub const INFINITY_BITS: u64 = 0x7ff0_0000_0000_0000;

/// The pattern that stands for no number.
pub const NOT_A_NUMBER_BITS: u64 = 0x7ff8_0000_0000_0000;

/// How many patterns share one exponent.
pub const BINADE: u64 = 0x0010_0000_0000_0000;

/// The bit pattern of a 64-bit floating-point number.
#[derive(Clone, Copy, Debug, PartialEq, Eq, Structural)]
pub struct Float64 {
    pub bits: u64,
}

impl Float64 {
    /// The bit pattern without its sign bit.
    pub open spec fn unsigned_bits(self) -> int {
        if self.bits >= SIGN_BIT {
            self.bits - SIGN_BIT
        } else {
            self.bits as int
        }
    }

    /// Whether the pattern stands for a number, infinities included.
    pub open spec fn is_number(self) -> bool {
        self.unsigned_bits() <= INFINITY_BITS
    }

    /// The place of a number in the order of all of them. Both zeros have the same place.
    pub open spec fn place(self) -> int {
        if self.bits >= SIGN_BIT {
            -self.unsigned_bits()
        } else {
            self.unsigned_bits()
        }
    }

    /// Whether this is a number less than `other`.
    pub open spec fn lt(self, other: Float64) -> bool {
        self.is_number() && other.is_number() && self.place() < other.place()
    }

    /// Whether this is a number less than or equal to `other`.
    pub open spec fn le(self, other: Float64) -> bool {
        self.is_number() && other.is_number() && self.place() <= other.place()
    }

    /// The number as a multiple of the smallest positive one. Infinity counts as the number that
    /// would follow the largest finite one.
    pub open spec fn ticks(self) -> int {
        if self.bits >= SIGN_BIT {
            -pattern_ticks(self.unsigned_bits())
        } else {
            pattern_ticks(self.unsigned_bits())
        }
    }

    /// Whether the pattern stands for a number other than the infinities.
    pub open spec fn is_finite(self) -> bool {
        self.unsigned_bits() < INFINITY_BITS
    }

    /// Whether the pattern has the sign bit.
    pub open spec fn is_negative(self) -> bool {
        self.bits >= SIGN_BIT
    }

    /// The same pattern with the other sign.
    pub open spec fn opposite(self) -> Float64 {
        if self.is_negative() {
            Float64 { bits: (self.bits - SIGN_BIT) as u64 }
        } else {
            Float64 { bits: (self.bits + SIGN_BIT) as u64 }
        }
    }

    pub(crate) fn number(self) -> (is_number: bool)
        ensures
            is_number == self.is_number(),
    {
        if self.bits >= SIGN_BIT {
            self.bits - SIGN_BIT <= INFINITY_BITS
        } else {
            self.bits <= INFINITY_BITS
        }
    }

    fn rank(self) -> (rank: i128)
        ensures
            rank == self.place(),
    {
        if self.bits >= SIGN_BIT {
            -((self.bits - SIGN_BIT) as i128)
        } else {
            self.bits as i128
        }
    }

    /// Whether this is a number less than `other`.
    pub fn less(self, other: Float64) -> (holds: bool)
        ensures
            holds == self.lt(other),
    {
        self.number() && other.number() && self.rank() < other.rank()
    }

    /// Whether this is a number at least as large as `other`.
    pub fn at_least(self, other: Float64) -> (holds: bool)
        ensures
            holds == other.le(self),
    {
        self.number() && other.number() && other.rank() <= self.rank()
    }

    pub(crate) fn finite(self) -> (is_finite: bool)
        ensures
            is_finite == self.is_finite(),
    {
        if self.bits >= SIGN_BIT {
            self.bits - SIGN_BIT < INFINITY_BITS
        } else {
            self.bits < INFINITY_BITS
        }
    }

    /// The same pattern with the other sign.
    pub(crate) fn negated(self) -> (r: Float64)
        ensures
            r == self.opposite(),
    {
        if self.bits >= SIGN_BIT {
            Float64 { bits: self.bits - SIGN_BIT }
        } else {
            Float64 { bits: self.bits + SIGN_BIT }
        }
    }

    /// The size of a finite number as a multiple of a power of two.
    pub(crate) fn parts(self) -> (parts: (u64, u32))
        requires
            self.is_finite(),
        ensures
            pattern_ticks(self.unsigned_bits()) == parts.0 * two_to(parts.1 as nat),
            parts.0 < 2 * BINADE,
            parts.0 >= BINADE || parts.1 == 0,
            parts.1 <= 2045,
    {
        let pattern: u64 = if self.bits >= SIGN_BIT {
            self.bits - SIGN_BIT
        } else {
            self.bits
        };
        if pattern < BINADE {
            assert(two_to(0) == 1);
            (pattern, 0)
        } else {
            (BINADE + pattern % BINADE, (pattern / BINADE - 1) as u32)
        }
    }
}

/// Two to the given power.
pub open spec fn two_to(n: nat) -> int
    decreases n,
{
    if n == 0 {
        1
    } else {
        2 * two_to((n - 1) as nat)
    }
}

/// How many ticks the number one is.
pub open spec fn one_ticks() -> int {
    two_to(1074)
}

/// What an unsigned pattern stands for, as a multiple of the smallest positive number.
pub open spec fn pattern_ticks(pattern: int) -> int {
    if pattern < BINADE {
        pattern
    } else {
        (BINADE + pattern % BINADE as int) * two_to((pattern / BINADE as int - 1) as nat)
    }
}

/// How far a number is from `num / den` ticks, times `den`.
pub open spec fn gap(num: int, den: int, x: Float64) -> int {
    let off = x.ticks() * den - num;
    if off < 0 {
        -off
    } else {
        off
    }
}

/// Whether `r` is the number nearest to `num / den` ticks, with an even pattern where another
/// number is just as near.
#[verifier::opaque]
pub open spec fn is_nearest(num: int, den: int, r: Float64) -> bool {
    &&& r.is_number()
    &&& forall|x: Float64| #[trigger] x.is_number() ==> gap(num, den, r) <= gap(num, den, x)
    &&& forall|x: Float64| #[trigger]
        x.is_number() && gap(num, den, x) == gap(num, den, r) && x.ticks() != r.ticks()
            ==> r.bits % 2 == 0
}

/// The value of the number nearest to `num / den` ticks, in ticks.
pub open spec fn rounded_ticks(num: int, den: int) -> int {
    (choose|r: Float64| is_nearest(num, den, r)).ticks()
}

/// The value of a decimal number as a floating-point number, in ticks.
pub open spec fn decimal_ticks(number: Decimal) -> int {
    rounded_ticks(number.units() * one_ticks(), decimal::one_units())
}

/// That `r` is the sum of two numbers. A sum of zero is negative only where both numbers are. A sum
/// with an infinity is that infinity, but for the sum of two opposite ones, which is no number.
pub open spec fn is_sum(a: Float64, b: Float64, r: Float64) -> bool {
    if a.is_finite() && b.is_finite() {
        let exact = a.ticks() + b.ticks();
        &&& is_nearest(exact, 1, r)
        &&& r.is_negative() == (exact < 0 || (exact == 0 && a.is_negative() && b.is_negative()))
    } else if !a.is_number() || !b.is_number() || (!a.is_finite() && b == a.opposite()) {
        !r.is_number()
    } else if a.is_finite() {
        r == b
    } else {
        r == a
    }
}

/// That `r` is the difference of two numbers.
pub open spec fn is_difference(a: Float64, b: Float64, r: Float64) -> bool {
    is_sum(a, b.opposite(), r)
}

/// The infinity with the given sign.
pub open spec fn infinity(negative: bool) -> Float64 {
    if negative {
        Float64 { bits: (SIGN_BIT + INFINITY_BITS) as u64 }
    } else {
        Float64 { bits: INFINITY_BITS }
    }
}

/// That `r` is the product of two numbers, negative where one of the signs is. Infinity times zero is no number; any other product
/// with an infinity is an infinity, with the sign that the two signs give.
pub open spec fn is_product(a: Float64, b: Float64, r: Float64) -> bool {
    if a.is_finite() && b.is_finite() {
        &&& is_nearest(a.ticks() * b.ticks(), one_ticks(), r)
        &&& r.is_negative() == (a.is_negative() != b.is_negative())
    } else if !a.is_number() || !b.is_number() || a.unsigned_bits() == 0 || b.unsigned_bits() == 0 {
        !r.is_number()
    } else {
        r == infinity(a.is_negative() != b.is_negative())
    }
}

/// That `r` is the quotient of two numbers, negative where one of the signs is. Zero over zero and infinity over infinity are no
/// numbers, and a number over zero is an infinity.
pub open spec fn is_quotient(a: Float64, b: Float64, r: Float64) -> bool {
    if a.is_finite() && b.is_finite() && b.unsigned_bits() != 0 {
        &&& is_nearest(
            if b.is_negative() {
                -a.ticks()
            } else {
                a.ticks()
            } * one_ticks(),
            pattern_ticks(b.unsigned_bits()),
            r,
        )
        &&& r.is_negative() == (a.is_negative() != b.is_negative())
    } else if !a.is_number() || !b.is_number() || (a.unsigned_bits() == 0 && b.unsigned_bits() == 0)
        || (!a.is_finite() && !b.is_finite()) {
        !r.is_number()
    } else if !b.is_finite() {
        r.unsigned_bits() == 0 && r.is_negative() == (a.is_negative() != b.is_negative())
    } else {
        r == infinity(a.is_negative() != b.is_negative())
    }
}

/// The whole number nearest to `ticks`, away from zero at a midpoint.
pub open spec fn nearest_whole(ticks: int) -> int {
    if ticks < 0 {
        -((-2 * ticks + one_ticks()) / (2 * one_ticks()))
    } else {
        (2 * ticks + one_ticks()) / (2 * one_ticks())
    }
}

/// That `r` is the whole number nearest to `x`, away from zero at a midpoint. What is not finite
/// stays as it is.
pub open spec fn is_whole(x: Float64, r: Float64) -> bool {
    if x.is_finite() {
        &&& r.is_number()
        &&& r.ticks() == nearest_whole(x.ticks()) * one_ticks()
        &&& r.is_negative() == x.is_negative()
    } else {
        r == x
    }
}

} // verus!
