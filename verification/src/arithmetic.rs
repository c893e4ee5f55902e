//! The arithmetic of floating-point numbers, each result the nearest number to the exact one.
use crate::decimal::{self, Decimal};
use crate::float::{self, Float64, BINADE, INFINITY_BITS, NOT_A_NUMBER_BITS, SIGN_BIT};
use crate::rounding;
use vstd::prelude::*;

verus! {

/// Ten to the power `n`.
fn power_of_ten(n: u32) -> (power: u128)
    requires
        n <= decimal::MAX_SCALE,
    ensures
        power == decimal::pow10(n as nat),
        0 < power <= 10_000_000_000_000_000_000_000_000_000,
    decreases n,
{
    proof {
        decimal::lemma_step(28 - n);
        reveal_with_fuel(decimal::pow10, 29);
        assert(decimal::pow10(28) == 10_000_000_000_000_000_000_000_000_000);
    }
    if n == 0 {
        1
    } else {
        10 * power_of_ten(n - 1)
    }
}

impl Float64 {
    /// The number nearest to a decimal number.
    pub fn of_decimal(number: Decimal) -> (r: Float64)
        ensures
            float::is_nearest(number.units() * float::one_ticks(), decimal::one_units(), r),
            r.is_finite(),
            r.ticks() == float::decimal_ticks(number),
            r.is_negative() == (number.m() < 0),
    {
        let mantissa = number.mantissa();
        let scale: u32 = number.scale();
        let size: u128 = if mantissa < 0 {
            (-mantissa) as u128
        } else {
            mantissa as u128
        };
        let place = power_of_ten(scale);
        let unsigned = rounding::round_fraction(size / place, size % place, place, 1074);
        let ghost num = size * float::one_ticks();
        proof {
            vstd::arithmetic::div_mod::lemma_fundamental_div_mod(size as int, place as int);
            let q = (size / place) as int;
            assert(q * place == place * q) by (nonlinear_arith);
        }
        let r = rounding::signed(mantissa < 0, unsigned, Ghost(num), Ghost(place as int));
        proof {
            let step = decimal::step_units(number.s());
            decimal::lemma_step(number.s());
            let exact = mantissa * float::one_ticks();
            let one = float::one_ticks();
            assert(exact == (if mantissa < 0 { -num } else { num })) by (nonlinear_arith)
                requires
                    exact == mantissa * one,
                    num == size * one,
                    size == (if mantissa < 0 { -mantissa } else { mantissa as int }),
            ;
            rounding::lemma_scaled(exact, place as int, step, r);
            lemma_pow10_adds(scale as nat, (28 - scale) as nat);
            decimal::lemma_pow10(28);
            assert(exact * step == (mantissa * step) * one) by (nonlinear_arith)
                requires
                    exact == mantissa * one,
            ;
            rounding::nearest_is_rounded(number.units() * one, decimal::one_units(), r);
            decimal::lemma_units_bound(number);
            lemma_decimal_is_finite(number.units(), r);
        }
        r
    }
}

/// A decimal number is far below the largest finite floating-point number.
proof fn lemma_decimal_is_finite(units: int, r: Float64)
    requires
        decimal::magnitude(units) <= decimal::MANTISSA_LIMIT * decimal::one_units(),
        float::is_nearest(units * float::one_ticks(), decimal::one_units(), r),
    ensures
        r.is_finite(),
{
    let one = float::one_ticks();
    let unit = decimal::one_units();
    let limit = decimal::MANTISSA_LIMIT as int;
    decimal::lemma_pow10(28);
    rounding::lemma_two_to_positive(1074);
    rounding::lemma_pattern_of(BINADE as int, 1118);
    let bound = Float64 { bits: (1119 * BINADE) as u64 };
    let below = Float64 { bits: (SIGN_BIT + 1119 * BINADE) as u64 };
    rounding::lemma_two_to_values();
    rounding::lemma_two_to_adds(44, 1074);
    assert(limit == BINADE * 0x1000_0000_0000);
    assert(BINADE * float::two_to(1118) == limit * one) by (nonlinear_arith)
        requires
            float::two_to(1118) == 0x1000_0000_0000 * one,
            limit == BINADE * 0x1000_0000_0000,
    ;
    assert(bound.ticks() == limit * one);
    assert(below.ticks() == -(limit * one));
    assert(units * one <= (limit * one) * unit && units * one >= (-(limit * one)) * unit)
        by (nonlinear_arith)
        requires
            -(limit * unit) <= units <= limit * unit,
            one > 0,
    ;
    rounding::nearest_is_monotone(units * one, unit, r, bound);
    rounding::nearest_is_monotone(units * one, unit, r, below);
    rounding::order_is_of_values(r, bound);
    rounding::order_is_of_values(below, r);
}

proof fn lemma_pow10_adds(a: nat, b: nat)
    ensures
        decimal::pow10(a + b) == decimal::pow10(a) * decimal::pow10(b),
    decreases b,
{
    if b == 0 {
        assert(decimal::pow10(a) * 1 == decimal::pow10(a));
    } else {
        let c = (b - 1) as nat;
        lemma_pow10_adds(a, c);
        assert((a + b - 1) as nat == a + c);
        let x = decimal::pow10(a);
        let y = decimal::pow10(c);
        assert(10 * (x * y) == x * (10 * y)) by (nonlinear_arith);
    }
}

/// The sum of two finite numbers, each by its sign, its size and its exponent.
fn add_parts(
    a: Float64,
    b: Float64,
    a_parts: (u64, u32),
    b_parts: (u64, u32),
) -> (r: Float64)
    requires
        a.is_finite(),
        b.is_finite(),
        float::pattern_ticks(a.unsigned_bits()) == a_parts.0 * float::two_to(a_parts.1 as nat),
        float::pattern_ticks(b.unsigned_bits()) == b_parts.0 * float::two_to(b_parts.1 as nat),
        a_parts.0 < 2 * BINADE,
        b_parts.0 < 2 * BINADE,
        a_parts.0 >= BINADE || a_parts.1 == 0,
        b_parts.1 <= a_parts.1 <= 2045,
    ensures
        float::is_sum(a, b, r),
{
    let a_negative = a.bits >= SIGN_BIT;
    let b_negative = b.bits >= SIGN_BIT;
    let apart: u32 = a_parts.1 - b_parts.1;
    let ghost x = a_parts.0 as int;
    let ghost y = b_parts.0 as int;
    let ghost low_step = float::two_to(b_parts.1 as nat);
    let ghost ratio = float::two_to(apart as nat);
    proof {
        rounding::lemma_two_to_adds(apart as nat, b_parts.1 as nat);
        rounding::lemma_two_to_positive(apart as nat);
        assert(x * (ratio * low_step) == (x * ratio) * low_step) by (nonlinear_arith);
    }
    if apart <= 64 {
        let power = rounding::power_of_two(apart);
        proof {
            rounding::lemma_two_to_values();
            rounding::lemma_two_to_grows(apart as nat, 64);
            assert(0 <= x * ratio <= 2 * BINADE * 0x1_0000_0000_0000_0000) by (nonlinear_arith)
                requires
                    0 <= x <= 2 * BINADE,
                    0 <= ratio <= 0x1_0000_0000_0000_0000,
            ;
        }
        let large: i128 = ((a_parts.0 as u128) * power) as i128;
        let small: i128 = b_parts.0 as i128;
        let left: i128 = if a_negative {
            -large
        } else {
            large
        };
        let right: i128 = if b_negative {
            -small
        } else {
            small
        };
        let total: i128 = left + right;
        let negative = total < 0 || (total == 0 && a_negative && b_negative);
        let size: u128 = if total < 0 {
            (-total) as u128
        } else {
            total as u128
        };
        let unsigned = rounding::round_fraction(size, 0, 1, b_parts.1);
        let ghost num = size * low_step;
        proof {
            assert(size * 1 + 0 == size);
        }
        let r = rounding::signed(negative, unsigned, Ghost(num), Ghost(1));
        proof {
            let exact = a.ticks() + b.ticks();
            assert(exact == total * low_step) by (nonlinear_arith)
                requires
                    exact == a.ticks() + b.ticks(),
                    a.ticks() == (if a_negative { -(large * low_step) } else { large * low_step }),
                    b.ticks() == (if b_negative { -(small * low_step) } else { small * low_step }),
                    left == (if a_negative { -large } else { large as int }),
                    right == (if b_negative { -small } else { small as int }),
                    total == left + right,
            ;
            assert(total * low_step == (if negative { -num } else { num })) by (nonlinear_arith)
                requires
                    num == size * low_step,
                    negative ==> size == -total,
                    !negative ==> size == total,
            ;
            rounding::lemma_two_to_positive(b_parts.1 as nat);
            assert((total < 0 <==> exact < 0) && (total == 0 <==> exact == 0)) by (nonlinear_arith)
                requires
                    exact == total * low_step,
                    low_step > 0,
            ;
        }
        r
    } else if b_parts.0 == 0 {
        proof {
            assert(0 * low_step == 0);
            rounding::lemma_exact(a);
            rounding::lemma_two_to_positive(a_parts.1 as nat);
            let high_step = float::two_to(a_parts.1 as nat);
            assert(x * high_step > 0) by (nonlinear_arith)
                requires
                    x > 0,
                    high_step > 0,
            ;
        }
        a
    } else {
        let ghost d = float::two_to((apart - 3) as nat);
        let ghost top_step = float::two_to((a_parts.1 - 3) as nat);
        proof {
            reveal_with_fuel(float::two_to, 4);
            assert(float::two_to(3) == 8);
            rounding::lemma_two_to_adds(3, (apart - 3) as nat);
            rounding::lemma_two_to_adds((apart - 3) as nat, b_parts.1 as nat);
            assert(((apart - 3) as nat + b_parts.1 as nat) as nat == (a_parts.1 - 3) as nat);
            rounding::lemma_two_to_adds(2, 52);
            rounding::lemma_two_to_values();
            rounding::lemma_two_to_grows(54, (apart - 3) as nat);
            assert(2 * y < d);
            assert(ratio == 8 * d);
            assert(top_step == d * low_step);
        }
        let wide: u128 = 8 * (a_parts.0 as u128);
        let ghost n = if a_negative == b_negative {
            8 * x * d + y
        } else {
            8 * x * d - y
        };
        proof {
            assert((8 * x + 1) * d == 8 * x * d + d && (8 * x - 1) * d == 8 * x * d - d)
                by (nonlinear_arith);
        }
        let unsigned = if a_negative == b_negative {
            rounding::round_steps(wide, false, true, a_parts.1 - 3, Ghost(n), Ghost(d), Ghost(64))
        } else {
            rounding::round_steps(wide - 1, true, true, a_parts.1 - 3, Ghost(n), Ghost(d), Ghost(64))
        };
        let ghost size = if a_negative == b_negative {
            x * ratio * low_step + y * low_step
        } else {
            x * ratio * low_step - y * low_step
        };
        proof {
            assert(n * top_step == size * d) by (nonlinear_arith)
                requires
                    top_step == d * low_step,
                    ratio == 8 * d,
                    a_negative == b_negative ==> n == 8 * x * d + y && size == x * ratio * low_step + y
                        * low_step,
                    a_negative != b_negative ==> n == 8 * x * d - y && size == x * ratio * low_step - y
                        * low_step,
            ;
            assert(1 * d == d);
            rounding::lemma_scaled(size, 1, d, unsigned);
            rounding::lemma_two_to_positive((a_parts.1 - 3) as nat);
            assert(8 * x * d >= d) by (nonlinear_arith)
                requires
                    x >= 1,
                    d > 0,
            ;
            assert(size > 0) by (nonlinear_arith)
                requires
                    n * top_step == size * d,
                    n > 0,
                    top_step > 0,
                    d > 0,
            ;
        }
        rounding::signed(a_negative, unsigned, Ghost(size), Ghost(1))
    }
}

impl Float64 {
    /// The sum of two numbers.
    pub fn plus(self, other: Float64) -> (r: Float64)
        ensures
            float::is_sum(self, other, r),
            self.is_finite() && other.is_finite() ==> r.is_number() && r.ticks() == float::rounded_ticks(
                self.ticks() + other.ticks(),
                1,
            ),
    {
        if self.finite() && other.finite() {
            let left = self.parts();
            let right = other.parts();
            let r = if right.1 <= left.1 {
                add_parts(self, other, left, right)
            } else {
                add_parts(other, self, right, left)
            };
            proof {
                rounding::nearest_is_rounded(self.ticks() + other.ticks(), 1, r);
            }
            r
        } else if !self.number() || !other.number() || (!self.finite() && other.bits
            == self.negated().bits) {
            Float64 { bits: NOT_A_NUMBER_BITS }
        } else if self.finite() {
            other
        } else {
            self
        }
    }

    /// The difference of two numbers.
    pub fn minus(self, other: Float64) -> (r: Float64)
        ensures
            float::is_difference(self, other, r),
            self.is_finite() && other.is_finite() ==> r.is_number() && r.ticks() == float::rounded_ticks(
                self.ticks() - other.ticks(),
                1,
            ),
    {
        self.plus(other.negated())
    }
}

impl Float64 {
    fn infinite(negative: bool) -> (r: Float64)
        ensures
            r == float::infinity(negative),
    {
        if negative {
            Float64 { bits: SIGN_BIT + INFINITY_BITS }
        } else {
            Float64 { bits: INFINITY_BITS }
        }
    }

    /// Whether this is one of the two zeros.
    fn zero(self) -> (is_zero: bool)
        ensures
            is_zero == (self.unsigned_bits() == 0),
    {
        self.bits == 0 || self.bits == SIGN_BIT
    }

    /// The product of two numbers.
    pub fn times(self, other: Float64) -> (r: Float64)
        ensures
            float::is_product(self, other, r),
            self.is_finite() && other.is_finite() ==> r.is_number() && r.ticks() == float::rounded_ticks(
                self.ticks() * other.ticks(),
                float::one_ticks(),
            ),
    {
        let negative = (self.bits >= SIGN_BIT) != (other.bits >= SIGN_BIT);
        if !self.finite() || !other.finite() {
            if !self.number() || !other.number() || self.zero() || other.zero() {
                return Float64 { bits: NOT_A_NUMBER_BITS };
            }
            return Self::infinite(negative);
        }
        let left = self.parts();
        let right = other.parts();
        let ghost x = left.0 as int;
        let ghost y = right.0 as int;
        proof {
            assert(0 <= x * y <= 4 * BINADE * BINADE) by (nonlinear_arith)
                requires
                    0 <= x <= 2 * BINADE,
                    0 <= y <= 2 * BINADE,
            ;
        }
        let size: u128 = (left.0 as u128) * (right.0 as u128);
        let up: u32 = left.1 + right.1;
        let ghost num = size * float::two_to(up as nat);
        let unsigned = if up >= 1074 {
            let r = rounding::round_fraction(size, 0, 1, up - 1074);
            proof {
                let over = float::two_to((up - 1074) as nat);
                let one = float::one_ticks();
                assert(size * 1 + 0 == size);
                rounding::lemma_two_to_adds((up - 1074) as nat, 1074);
                rounding::lemma_two_to_positive(1074);
                rounding::lemma_scaled(size * over, 1, one, r);
                assert(size * (over * one) == (size * over) * one) by (nonlinear_arith);
                assert(1 * one == one);
            }
            r
        } else {
            let r = rounding::round_down_shifted(size, 1074 - up);
            proof {
                let scale = float::two_to(up as nat);
                rounding::lemma_two_to_adds((1074 - up) as nat, up as nat);
                rounding::lemma_two_to_positive(up as nat);
                rounding::lemma_scaled(size as int, float::two_to((1074 - up) as nat), scale, r);
            }
            r
        };
        let r = rounding::signed(negative, unsigned, Ghost(num), Ghost(float::one_ticks()));
        proof {
            let e = float::two_to(left.1 as nat);
            let f = float::two_to(right.1 as nat);
            let a = self.ticks();
            let b = other.ticks();
            rounding::lemma_two_to_adds(left.1 as nat, right.1 as nat);
            assert(a * b == (if negative { -num } else { num })) by (nonlinear_arith)
                requires
                    num == (x * y) * (e * f),
                    a == x * e || a == -(x * e),
                    b == y * f || b == -(y * f),
                    !negative ==> (a == x * e && b == y * f) || (a == -(x * e) && b == -(y * f)),
                    negative ==> (a == x * e && b == -(y * f)) || (a == -(x * e) && b == y * f),
            ;
            rounding::lemma_two_to_positive(1074);
            rounding::nearest_is_rounded(a * b, float::one_ticks(), r);
        }
        r
    }
}

impl Float64 {
    /// The quotient of two numbers.
    pub fn over(self, other: Float64) -> (r: Float64)
        ensures
            float::is_quotient(self, other, r),
            self.is_finite() && other.is_finite() && other.ticks() > 0 ==> r.is_number() && r.ticks()
                == float::rounded_ticks(self.ticks() * float::one_ticks(), other.ticks()),
    {
        let negative = (self.bits >= SIGN_BIT) != (other.bits >= SIGN_BIT);
        if !self.number() || !other.number() || (self.zero() && other.zero()) || (!self.finite()
            && !other.finite()) {
            return Float64 { bits: NOT_A_NUMBER_BITS };
        }
        if !other.finite() {
            return Float64 { bits: if negative { SIGN_BIT } else { 0 } };
        }
        if !self.finite() || other.zero() {
            return Self::infinite(negative);
        }
        let left = self.parts();
        let right = other.parts();
        let ghost x = left.0 as int;
        let ghost y = right.0 as int;
        let ghost e = float::two_to(left.1 as nat);
        let ghost f = float::two_to(right.1 as nat);
        let ghost one = float::one_ticks();
        proof {
            rounding::lemma_patterns_grow(0, other.unsigned_bits());
            rounding::lemma_two_to_positive(right.1 as nat);
            assert(y != 0) by {
                assert(0 * f == 0);
            }
        }
        let size: u64 = left.0;
        let divisor: u64 = right.0;
        let ghost num = size * float::two_to((left.1 + 1074) as nat);
        let ghost den = divisor * f;
        let unsigned = if left.1 + 1074 >= right.1 {
            let up: u32 = left.1 + 1074 - right.1;
            let r = rounding::round_fraction(
                (size / divisor) as u128,
                (size % divisor) as u128,
                divisor as u128,
                up,
            );
            proof {
                vstd::arithmetic::div_mod::lemma_fundamental_div_mod(x, y);
                let q = (size / divisor) as int;
                assert(q * y == y * q) by (nonlinear_arith);
                let over = float::two_to(up as nat);
                rounding::lemma_two_to_adds(up as nat, right.1 as nat);
                rounding::lemma_scaled(x * over, y, f, r);
                assert(x * (over * f) == (x * over) * f) by (nonlinear_arith);
            }
            r
        } else {
            let down: u32 = right.1 - left.1 - 1074;
            let r = rounding::round_over_shifted(size, divisor, down);
            proof {
                let scale = float::two_to((left.1 + 1074) as nat);
                let under = float::two_to(down as nat);
                rounding::lemma_two_to_adds(down as nat, (left.1 + 1074) as nat);
                rounding::lemma_two_to_positive((left.1 + 1074) as nat);
                rounding::lemma_scaled(x, y * under, scale, r);
                assert(y * (under * scale) == (y * under) * scale) by (nonlinear_arith);
            }
            r
        };
        let r = rounding::signed(negative, unsigned, Ghost(num), Ghost(den));
        proof {
            rounding::lemma_two_to_adds(left.1 as nat, 1074);
            let a = if other.is_negative() {
                -self.ticks()
            } else {
                self.ticks()
            };
            assert(a * one == (if negative { -num } else { num })) by (nonlinear_arith)
                requires
                    num == x * (e * one),
                    a == (if negative { -(x * e) } else { x * e }),
            ;
            assert(den > 0) by (nonlinear_arith)
                requires
                    den == y * f,
                    y > 0,
                    f > 0,
            ;
            rounding::nearest_is_rounded(a * one, den, r);
        }
        r
    }
}

impl Float64 {
    /// The nearest whole number, away from zero at a midpoint.
    pub fn rounded(self) -> (r: Float64)
        ensures
            float::is_whole(self, r),
    {
        if !self.finite() {
            return self;
        }
        let parts = self.parts();
        let ghost x = parts.0 as int;
        let ghost e = float::two_to(parts.1 as nat);
        let ghost one = float::one_ticks();
        let ghost size = float::pattern_ticks(self.unsigned_bits());
        proof {
            rounding::lemma_two_to_positive(1074);
        }
        if parts.1 >= 1074 {
            proof {
                let over = float::two_to((parts.1 - 1074) as nat);
                let whole = x * over;
                rounding::lemma_two_to_adds((parts.1 - 1074) as nat, 1074);
                rounding::lemma_two_to_positive((parts.1 - 1074) as nat);
                assert(x * (over * one) == whole * one) by (nonlinear_arith)
                    requires
                        whole == x * over,
                ;
                assert(2 * size + one == whole * (2 * one) + one) by (nonlinear_arith)
                    requires
                        size == whole * one,
                ;
                vstd::arithmetic::div_mod::lemma_fundamental_div_mod_converse(
                    2 * size + one,
                    2 * one,
                    whole,
                    one,
                );
                assert(whole >= 0) by (nonlinear_arith)
                    requires
                        whole == x * over,
                        x >= 0,
                        over >= 0,
                ;
                assert((-whole) * one == -(whole * one)) by (nonlinear_arith);
            }
            return self;
        }
        let down: u32 = 1074 - parts.1;
        let ghost under = float::two_to(down as nat);
        proof {
            rounding::lemma_two_to_adds(parts.1 as nat, down as nat);
            rounding::lemma_two_to_positive(parts.1 as nat);
            rounding::lemma_two_to_positive(down as nat);
            assert(one == e * under);
        }
        let whole: u64 = if down <= 60 {
            let place = rounding::power_of_two(down);
            let q: u128 = (parts.0 as u128) / place;
            let rest: u128 = (parts.0 as u128) % place;
            proof {
                rounding::lemma_two_to_grows(1, down as nat);
                reveal_with_fuel(float::two_to, 2);
                assert(place >= 2);
                vstd::arithmetic::div_mod::lemma_fundamental_div_mod(x, under);
                assert(2 * q <= parts.0) by (nonlinear_arith)
                    requires
                        parts.0 == under * q + rest,
                        rest >= 0,
                        under >= 2,
                        q >= 0,
                ;
                assert(under * q == q * under) by (nonlinear_arith);
            }
            if 2 * rest >= place {
                (q + 1) as u64
            } else {
                q as u64
            }
        } else {
            proof {
                rounding::lemma_two_to_grows(60, down as nat);
                reveal_with_fuel(float::two_to, 9);
                rounding::lemma_two_to_values();
                rounding::lemma_two_to_adds(52, 8);
            }
            0
        };
        let ghost w = whole as int;
        proof {
            // The whole number is within half of the exact one, and above it at a midpoint.
            assert(w * under - x <= x + under - w * under && 2 * (w * under) <= 2 * x + under
                && 2 * x + under < 2 * (w * under) + 2 * under) by {
                if down <= 60 {
                    let q = x / under;
                    assert((q + 1) * under == q * under + under) by (nonlinear_arith);
                } else {
                    assert(0 * under == 0);
                }
            }
            let rest = 2 * x + under - 2 * (w * under);
            assert(2 * size + one == w * (2 * one) + rest * e && 0 <= rest * e < 2 * one)
                by (nonlinear_arith)
                requires
                    size == x * e,
                    one == e * under,
                    rest == 2 * x + under - 2 * (w * under),
                    0 <= rest < 2 * under,
                    e > 0,
            ;
            vstd::arithmetic::div_mod::lemma_fundamental_div_mod_converse(
                2 * size + one,
                2 * one,
                w,
                rest * e,
            );
        }
        let unsigned = rounding::round_fraction(whole as u128, 0, 1, 1074);
        proof {
            assert(whole * 1 + 0 == whole);
            let exact = rounding::lemma_representable(w, 1074);
            rounding::lemma_hits(exact, unsigned);
            assert((-w) * one == -(w * one)) by (nonlinear_arith);
        }
        let r = rounding::signed(self.bits >= SIGN_BIT, unsigned, Ghost(w * one), Ghost(1));
        proof {
            assert(r.unsigned_bits() == unsigned.unsigned_bits());
            assert(size == 0 ==> w == 0) by (nonlinear_arith)
                requires
                    size == x * e,
                    e > 0,
                    under > 0,
                    0 <= 2 * (w * under) <= 2 * x + under,
                    w >= 0,
            ;
            assert(size >= 0) by (nonlinear_arith)
                requires
                    size == x * e,
                    e > 0,
                    x >= 0,
            ;
            assert(0 * one == 0);
        }
        r
    }
}

/// The patterns of one and of one half stand for them.
pub proof fn one_and_half()
    ensures
        (Float64 { bits: 0x3ff0_0000_0000_0000 }).ticks() == float::one_ticks(),
        2 * (Float64 { bits: 0x3fe0_0000_0000_0000 }).ticks() == float::one_ticks(),
        float::one_ticks() > 0,
{
    rounding::lemma_two_to_values();
    rounding::lemma_two_to_adds(52, 1022);
    rounding::lemma_two_to_adds(52, 1021);
    rounding::lemma_two_to_positive(1074);
    rounding::lemma_pattern_of(BINADE as int, 1022);
    rounding::lemma_pattern_of(BINADE as int, 1021);
    assert(float::two_to(1074) == 2 * float::two_to(1073));
}

/// A number times one is that number.
pub proof fn times_one(x: Float64, r: Float64)
    requires
        x.is_finite(),
        float::is_product(x, Float64 { bits: 0x3ff0_0000_0000_0000 }, r),
    ensures
        r.is_finite(),
        r.ticks() == x.ticks(),
{
    one_and_half();
    let one = float::one_ticks();
    assert(1 * one == one);
    rounding::lemma_scaled(x.ticks(), 1, one, r);
    rounding::lemma_hits(x, r);
    rounding::lemma_same_value(x, r);
}

/// Half of a number that is not negative is not negative and no more than the number.
pub proof fn half_is_less(x: Float64, r: Float64)
    requires
        x.is_finite(),
        x.ticks() >= 0,
        float::is_product(x, Float64 { bits: 0x3fe0_0000_0000_0000 }, r),
    ensures
        r.is_finite(),
        0 <= r.ticks() <= x.ticks(),
{
    one_and_half();
    let half = (Float64 { bits: 0x3fe0_0000_0000_0000 }).ticks();
    let one = float::one_ticks();
    let a = x.ticks();
    assert(0 <= a * half <= a * one) by (nonlinear_arith)
        requires
            a >= 0,
            0 <= half <= one,
    ;
    let zero = Float64 { bits: 0 };
    assert(zero.ticks() == 0);
    assert(0 * one == 0);
    rounding::nearest_is_monotone(a * half, one, r, x);
    rounding::nearest_is_monotone(a * half, one, r, zero);
    rounding::lemma_below_finite(r, x);
}

/// Half of a number with an even count of ticks is exact, and so is what the half leaves of it.
pub proof fn half_is_exact(x: Float64, r: Float64, rest: Float64)
    requires
        x.is_finite(),
        x.ticks() >= 0,
        x.ticks() % 2 == 0,
        float::is_product(x, Float64 { bits: 0x3fe0_0000_0000_0000 }, r),
        float::is_difference(x, r, rest),
    ensures
        r.is_finite(),
        rest.is_finite(),
        2 * r.ticks() == x.ticks(),
        rest.ticks() == r.ticks(),
{
    one_and_half();
    half_is_less(x, r);
    let h = rounding::lemma_half_of(x);
    let one = float::one_ticks();
    let half = (Float64 { bits: 0x3fe0_0000_0000_0000 }).ticks();
    let a = x.ticks();
    let b = h.ticks();
    assert(a * half == b * one) by (nonlinear_arith)
        requires
            a == 2 * b,
            one == 2 * half,
    ;
    assert(1 * one == one);
    rounding::lemma_scaled(b, 1, one, r);
    rounding::lemma_hits(h, r);
    rounding::lemma_hits(h, rest);
    rounding::lemma_same_value(r, rest);
}

/// A number less itself is nothing.
pub proof fn less_itself(a: Float64, b: Float64, r: Float64)
    requires
        a.is_finite(),
        b.is_finite(),
        a.ticks() == b.ticks(),
        float::is_difference(a, b, r),
    ensures
        r.is_finite(),
        r.ticks() == 0,
{
    let zero = Float64 { bits: 0 };
    assert(zero.ticks() == 0);
    rounding::lemma_hits(zero, r);
    rounding::lemma_same_value(zero, r);
}

/// A decimal number that is not above another is not above it as a floating-point number either.
pub proof fn decimals_keep_order(a: Decimal, b: Decimal)
    requires
        a.units() <= b.units(),
    ensures
        float::decimal_ticks(a) <= float::decimal_ticks(b),
{
    let x = a.units();
    let y = b.units();
    let one = float::one_ticks();
    decimal::lemma_pow10(28);
    rounding::lemma_two_to_positive(1074);
    assert(x * one <= y * one) by (nonlinear_arith)
        requires
            x <= y,
            one > 0,
    ;
    rounding::rounding_keeps_order(x * one, y * one, decimal::one_units());
}

/// A decimal number keeps its sign as a floating-point number.
pub proof fn decimal_of_sign(a: Decimal)
    ensures
        a.units() <= 0 ==> float::decimal_ticks(a) <= 0,
        a.units() >= 0 ==> float::decimal_ticks(a) >= 0,
{
    let x = a.units();
    let one = float::one_ticks();
    let unit = decimal::one_units();
    decimal::lemma_pow10(28);
    rounding::lemma_two_to_positive(1074);
    assert((x <= 0 ==> x * one <= 0) && (x >= 0 ==> x * one >= 0)) by (nonlinear_arith)
        requires
            one > 0,
    ;
    let r = rounding::nearest_exists(x * one, unit);
    rounding::nearest_is_rounded(x * one, unit, r);
    let zero = Float64 { bits: 0 };
    assert(zero.ticks() == 0);
    assert(0 * unit == 0);
    rounding::nearest_is_monotone(x * one, unit, r, zero);
}

} // verus!
