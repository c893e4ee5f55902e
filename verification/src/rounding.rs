//! Rounding exact results to the nearest floating-point number.
//!
//! The numbers of one exponent lie a fixed number of ticks apart, and the next pattern is always the
//! next number. So a result that lies between two neighbouring patterns is nearest to one of them.
use crate::float::{self, Float64, BINADE, INFINITY_BITS, SIGN_BIT};
use vstd::prelude::*;

verus! {

pub(crate) proof fn lemma_two_to_positive(n: nat)
    ensures
        float::two_to(n) > 0,
    decreases n,
{
    if n > 0 {
        lemma_two_to_positive((n - 1) as nat);
    }
}

pub(crate) proof fn lemma_two_to_adds(a: nat, b: nat)
    ensures
        float::two_to(a + b) == float::two_to(a) * float::two_to(b),
    decreases b,
{
    if b == 0 {
        assert(float::two_to(a) * 1 == float::two_to(a));
    } else {
        let c = (b - 1) as nat;
        lemma_two_to_adds(a, c);
        assert((a + b - 1) as nat == a + c);
        let x = float::two_to(a);
        let y = float::two_to(c);
        assert(2 * (x * y) == x * (2 * y)) by (nonlinear_arith);
    }
}

pub(crate) proof fn lemma_two_to_grows(a: nat, b: nat)
    requires
        a <= b,
    ensures
        float::two_to(a) <= float::two_to(b),
    decreases b,
{
    if a < b {
        lemma_two_to_grows(a, (b - 1) as nat);
        lemma_two_to_positive((b - 1) as nat);
    }
}

pub(crate) proof fn lemma_two_to_values()
    ensures
        float::two_to(44) == 0x1000_0000_0000,
        float::two_to(52) == BINADE,
        float::two_to(64) == 0x1_0000_0000_0000_0000,
        float::two_to(128) == 0x1_0000_0000_0000_0000_0000_0000_0000_0000,
{
    reveal_with_fuel(float::two_to, 17);
    assert(float::two_to(16) == 0x1_0000);
    lemma_two_to_adds(16, 16);
    lemma_two_to_adds(32, 32);
    lemma_two_to_adds(64, 64);
    assert(float::two_to(4) == 16);
    lemma_two_to_adds(32, 16);
    lemma_two_to_adds(48, 4);
    assert(float::two_to(12) == 0x1000);
    lemma_two_to_adds(32, 12);
}

/// The binary exponent of a pattern: how many ticks lie between it and the next, as a power.
pub open spec fn exponent(pattern: int) -> nat {
    if pattern < BINADE {
        0
    } else {
        (pattern / BINADE as int - 1) as nat
    }
}

/// The next pattern stands for a number that is one step of this exponent larger.
proof fn lemma_next_pattern(pattern: int)
    requires
        pattern >= 0,
    ensures
        float::pattern_ticks(pattern + 1) == float::pattern_ticks(pattern) + float::two_to(exponent(pattern)),
{
    let b = BINADE as int;
    assert(float::two_to(0) == 1);
    if pattern + 1 < b {
    } else if pattern + 1 == b {
        assert((pattern + 1) % b == 0 && (pattern + 1) / b == 1);
    } else {
        let e = exponent(pattern);
        let step = float::two_to(e);
        if pattern % b == b - 1 {
            assert((pattern + 1) / b == pattern / b + 1 && (pattern + 1) % b == 0);
            assert(float::two_to((e + 1) as nat) == 2 * step);
            assert(b * (2 * step) == (b + (b - 1)) * step + step) by (nonlinear_arith);
        } else {
            assert((pattern + 1) / b == pattern / b && (pattern + 1) % b == pattern % b + 1);
            let low = b + pattern % b;
            assert((low + 1) * step == low * step + step) by (nonlinear_arith);
        }
    }
}

/// Larger patterns stand for larger numbers.
pub(crate) proof fn lemma_patterns_grow(low: int, high: int)
    requires
        0 <= low <= high,
    ensures
        float::pattern_ticks(low) <= float::pattern_ticks(high),
        low < high ==> float::pattern_ticks(low) < float::pattern_ticks(high),
        float::pattern_ticks(low) >= 0,
    decreases high - low, high,
{
    if low < high {
        lemma_patterns_grow(low, high - 1);
        lemma_next_pattern(high - 1);
        lemma_two_to_positive(exponent(high - 1));
    } else if low > 0 {
        lemma_patterns_grow(low - 1, low - 1);
        lemma_next_pattern(low - 1);
        lemma_two_to_positive(exponent(low - 1));
    }
}

/// The pattern of `q` steps of the exponent `t`.
pub(crate) proof fn lemma_pattern_of(q: int, t: nat)
    requires
        0 <= q < 2 * BINADE,
        q >= BINADE || t == 0,
    ensures
        float::pattern_ticks(t * BINADE + q) == q * float::two_to(t),
        exponent(t * BINADE + q) == t,
{
    let b = BINADE as int;
    let p = t * b + q;
    if q >= b {
        assert(p == (t + 1) * b + (q - b)) by (nonlinear_arith)
            requires
                p == t * b + q,
        ;
        vstd::arithmetic::div_mod::lemma_fundamental_div_mod_converse(p, b, t as int + 1, q - b);
        assert(p >= b) by (nonlinear_arith)
            requires
                p == (t + 1) * b + (q - b),
                t >= 0,
                q >= b,
                b >= 0,
        ;
    } else {
        assert(float::two_to(0) == 1);
        assert(q * 1 == q);
    }
}

/// The half of a number with an even count of ticks is a number.
pub(crate) proof fn lemma_half_of(x: Float64) -> (h: Float64)
    requires
        x.is_finite(),
        x.ticks() >= 0,
        x.ticks() % 2 == 0,
    ensures
        h.is_number(),
        2 * h.ticks() == x.ticks(),
{
    let pattern = x.unsigned_bits();
    let b = BINADE as int;
    lemma_patterns_grow(0, pattern);
    if pattern >= 2 * b {
        let h = Float64 { bits: (pattern - b) as u64 };
        let lower = pattern - b;
        assert(lower / b == pattern / b - 1 && lower % b == pattern % b);
        let e = (pattern / b - 2) as nat;
        let step = float::two_to(e);
        let m = b + pattern % b;
        assert(float::two_to(e + 1) == 2 * step);
        assert(m * (2 * step) == 2 * (m * step)) by (nonlinear_arith);
        assert((pattern / b - 1) as nat == e + 1);
        assert(float::pattern_ticks(pattern) == m * float::two_to(e + 1));
        assert(float::pattern_ticks(lower) == m * step);
        if x.is_negative() {
            lemma_patterns_grow(1, pattern);
        }
        h
    } else {
        assert(float::two_to(0) == 1);
        assert(float::pattern_ticks(pattern) == pattern) by {
            if pattern >= b {
                assert(pattern / b == 1 && pattern % b == pattern - b);
            }
        }
        Float64 { bits: (pattern / 2) as u64 }
    }
}

/// A number of steps that is small enough is a number.
pub(crate) proof fn lemma_representable(q: int, t: nat) -> (r: Float64)
    requires
        0 <= q <= 2 * BINADE,
        t <= 1074,
    ensures
        r.is_number(),
        r.bits < SIGN_BIT,
        r.ticks() == q * float::two_to(t),
    decreases t,
{
    if q == 2 * BINADE {
        lemma_pattern_of(BINADE as int, t + 1);
        let r = Float64 { bits: ((t + 1) * BINADE + BINADE) as u64 };
        assert(float::two_to(t + 1) == 2 * float::two_to(t));
        let step = float::two_to(t);
        assert(BINADE * (2 * step) == (2 * BINADE) * step) by (nonlinear_arith);
        r
    } else if q >= BINADE || t == 0 {
        lemma_pattern_of(q, t);
        Float64 { bits: (t * BINADE + q) as u64 }
    } else {
        let step = float::two_to((t - 1) as nat);
        assert(q * (2 * step) == (2 * q) * step) by (nonlinear_arith);
        lemma_representable(2 * q, (t - 1) as nat)
    }
}

/// Scaling the exact result and its denominator alike changes nothing.
pub(crate) proof fn lemma_scaled(num: int, den: int, k: int, r: Float64)
    requires
        k > 0,
    ensures
        float::is_nearest(num * k, den * k, r) <==> float::is_nearest(num, den, r),
{
    reveal(float::is_nearest);
    assert forall|x: Float64| #[trigger] float::gap(num * k, den * k, x) == float::gap(num, den, x) * k by {
        let off = x.ticks() * den - num;
        let t = x.ticks();
        assert(t * (den * k) - num * k == off * k && (off < 0 <==> off * k < 0)) by (nonlinear_arith)
            requires
                off == t * den - num,
                k > 0,
        ;
        assert((-off) * k == -(off * k)) by (nonlinear_arith);
    }
    assert forall|x: Float64|
        (float::gap(num * k, den * k, r) <= #[trigger] float::gap(num * k, den * k, x)) == (float::gap(num, den, r)
            <= float::gap(num, den, x)) && (float::gap(num * k, den * k, r) == float::gap(num * k, den * k, x)) == (float::gap(
            num,
            den,
            r,
        ) == float::gap(num, den, x)) by {
        let a = float::gap(num, den, r);
        let b = float::gap(num, den, x);
        assert(float::gap(num * k, den * k, r) == a * k);
        assert((a <= b <==> a * k <= b * k) && (a == b <==> a * k == b * k)) by (nonlinear_arith)
            requires
                k > 0,
        ;
    }
    if float::is_nearest(num * k, den * k, r) {
        assert forall|x: Float64| #[trigger] x.is_number() implies float::gap(num, den, r) <= float::gap(
            num,
            den,
            x,
        ) && (float::gap(num, den, x) == float::gap(num, den, r) && x.ticks() != r.ticks() ==> r.bits % 2 == 0) by {
            assert(float::gap(num * k, den * k, r) <= float::gap(num * k, den * k, x));
        }
    }
    if float::is_nearest(num, den, r) {
        assert forall|x: Float64| #[trigger] x.is_number() implies float::gap(num * k, den * k, r) <= float::gap(
            num * k,
            den * k,
            x,
        ) && (float::gap(num * k, den * k, x) == float::gap(num * k, den * k, r) && x.ticks() != r.ticks()
            ==> r.bits % 2 == 0) by {
            assert(float::gap(num, den, r) <= float::gap(num, den, x));
        }
    }
}

/// The negative of a number is nearest to the negative of what the number is nearest to.
proof fn lemma_mirrored(num: int, den: int, r: Float64, mirrored: Float64)
    requires
        float::is_nearest(num, den, r),
        r.bits < SIGN_BIT,
        mirrored.bits == r.bits + SIGN_BIT,
    ensures
        float::is_nearest(-num, den, mirrored),
{
    reveal(float::is_nearest);
    assert forall|x: Float64, y: Float64|
        y.ticks() == -x.ticks() implies #[trigger] float::gap(-num, den, x) == #[trigger] float::gap(num, den, y) by {
        let a = x.ticks();
        assert((-a) * den == -(a * den)) by (nonlinear_arith);
    }
    assert forall|x: Float64| #[trigger] x.is_number() implies float::gap(-num, den, mirrored) <= float::gap(
        -num,
        den,
        x,
    ) && (float::gap(-num, den, x) == float::gap(-num, den, mirrored) && x.ticks() != mirrored.ticks()
        ==> mirrored.bits % 2 == 0) by {
        let y = Float64 {
            bits: if x.bits >= SIGN_BIT {
                (x.bits - SIGN_BIT) as u64
            } else {
                (x.bits + SIGN_BIT) as u64
            },
        };
        assert(y.is_number() && y.ticks() == -x.ticks());
        assert(r.ticks() == -mirrored.ticks());
        assert(float::gap(-num, den, x) == float::gap(num, den, y));
        assert(float::gap(-num, den, mirrored) == float::gap(num, den, r));
        assert(r.bits % 2 == mirrored.bits % 2);
    }
}

/// A number that is hit exactly is nearest.
pub(crate) proof fn lemma_exact(r: Float64)
    requires
        r.is_number(),
    ensures
        float::is_nearest(r.ticks(), 1, r),
{
    reveal(float::is_nearest);
    assert(float::gap(r.ticks(), 1, r) == 0);
}

/// What is nearest to a number that there is, is that number.
pub(crate) proof fn lemma_hits(x: Float64, r: Float64)
    requires
        x.is_number(),
        float::is_nearest(x.ticks(), 1, r),
    ensures
        r.is_number(),
        r.ticks() == x.ticks(),
{
    reveal(float::is_nearest);
    assert(float::gap(x.ticks(), 1, x) == 0);
    assert(float::gap(x.ticks(), 1, r) <= float::gap(x.ticks(), 1, x));
}

/// What is nearest to `n * float::two_to(t) / d` ticks lies at one of the ends of the step around it.
#[verifier::spinoff_prover]
#[verifier::rlimit(40)]
proof fn lemma_nearest_end(n: int, d: int, q: int, t: nat, up: bool, r: Float64)
    requires
        d > 0,
        0 <= q < 2 * BINADE,
        q >= BINADE || t == 0,
        q * d <= n < (q + 1) * d,
        up == (2 * (n - q * d) > d || (2 * (n - q * d) == d && q % 2 == 1)),
        r.bits == (if t * BINADE + q + (if up { 1int } else { 0 }) < INFINITY_BITS {
            t * BINADE + q + (if up { 1int } else { 0 })
        } else {
            INFINITY_BITS as int
        }),
    ensures
        float::is_nearest(n * float::two_to(t), d, r),
{
    reveal(float::is_nearest);
    let low = t * BINADE + q;
    let step = float::two_to(t);
    let f = n - q * d;
    let num = n * step;
    let lo = q * step;
    assert(low >= 0) by (nonlinear_arith)
        requires
            low == t * BINADE + q,
            t >= 0,
            q >= 0,
    ;
    lemma_pattern_of(q, t);
    lemma_next_pattern(low);
    lemma_two_to_positive(t);
    assert(num - lo * d == f * step && (lo + step) * d - num == (d - f) * step) by (nonlinear_arith)
        requires
            num == n * step,
            lo == q * step,
            f == n - q * d,
    ;
    assert((q + 1) * d == q * d + d) by (nonlinear_arith);
    assert(0 <= f < d);
    assert(low % 2 == q % 2);
    assert forall|x: Float64| #[trigger] x.is_number() implies x.ticks() <= lo || x.ticks() >= lo
        + step by {
        let pattern = x.unsigned_bits();
        lemma_patterns_grow(pattern, pattern);
        lemma_patterns_grow(0, low);
        if pattern <= low {
            lemma_patterns_grow(pattern, low);
        } else {
            lemma_patterns_grow(low + 1, pattern);
        }
    }
    if low >= INFINITY_BITS {
        lemma_patterns_grow(INFINITY_BITS as int, low);
        assert forall|x: Float64| #[trigger] x.is_number() implies float::gap(num, d, r) <= float::gap(num, d, x) && (
        float::gap(num, d, x) == float::gap(num, d, r) ==> x.ticks() == r.ticks()) by {
            lemma_patterns_grow(x.unsigned_bits(), INFINITY_BITS as int);
            lemma_patterns_grow(0, INFINITY_BITS as int);
            let a = x.ticks();
            let b = r.ticks();
            assert(a * d <= b * d <= lo * d && (a * d == b * d ==> a == b)) by (nonlinear_arith)
                requires
                    a <= b <= lo,
                    d > 0,
            ;
            assert(f * step >= 0) by (nonlinear_arith)
                requires
                    f >= 0,
                    step > 0,
            ;
        }
    } else {
        assert(r.ticks() == (if up { lo + step } else { lo }));
        let half = 2 * f - d;
        assert(half * step == 2 * (f * step) - d * step && (d - f) * step == d * step - f * step) by (
        nonlinear_arith)
            requires
                half == 2 * f - d,
        ;
        assert((half < 0 <==> half * step < 0) && (half > 0 <==> half * step > 0)) by (nonlinear_arith)
            requires
                step > 0,
        ;
        assert(0 <= f * step < d * step) by (nonlinear_arith)
            requires
                0 <= f < d,
                step > 0,
        ;
        assert forall|x: Float64| #[trigger] x.is_number() implies float::gap(num, d, r) <= float::gap(num, d, x) && (
        float::gap(num, d, x) == float::gap(num, d, r) && x.ticks() != r.ticks() ==> r.bits % 2 == 0) by {
            let a = x.ticks();
            if a <= lo {
                assert(a * d <= lo * d && (a * d == lo * d ==> a == lo)) by (nonlinear_arith)
                    requires
                        a <= lo,
                        d > 0,
                ;
            } else {
                let hi = lo + step;
                assert(a * d >= hi * d && (a * d == hi * d ==> a == hi)) by (nonlinear_arith)
                    requires
                        a >= hi,
                        d > 0,
                ;
            }
        }
    }
}

/// The number nearest to `q` steps of `float::two_to(t)` ticks and a part of a step. Of that part `half`
/// says whether it is at least one half, and `rest` whether it is neither nothing nor one half.
pub(crate) fn round_steps(
    q: u128,
    half: bool,
    rest: bool,
    t: u32,
    Ghost(n): Ghost<int>,
    Ghost(d): Ghost<int>,
    Ghost(width): Ghost<nat>,
) -> (r: Float64)
    requires
        d > 0,
        q * d <= n < (q + 1) * d,
        half == (2 * (n - q * d) >= d),
        rest == (n != q * d && 2 * (n - q * d) != d),
        q >= BINADE || t == 0,
        q < float::two_to(width),
        t + width <= 10_000,
    ensures
        r.bits < SIGN_BIT,
        float::is_nearest(n * float::two_to(t as nat), d, r),
    decreases q,
{
    if q < 2 * BINADE as u128 {
        let up = half && (rest || q % 2 == 1);
        let low: u128 = (t as u128) * (BINADE as u128) + q;
        let pattern: u128 = if up {
            low + 1
        } else {
            low
        };
        let r = if pattern < INFINITY_BITS as u128 {
            Float64 { bits: pattern as u64 }
        } else {
            Float64 { bits: INFINITY_BITS }
        };
        proof {
            lemma_nearest_end(n, d, q as int, t as nat, up, r);
        }
        r
    } else {
        let ghost even = (q / 2) as int;
        let ghost odd = (q % 2) as int;
        proof {
            assert(q == 2 * even + odd);
            assert(q * d == even * (2 * d) + odd * d && (q + 1) * d == q * d + d && (even + 1) * (2
                * d) == even * (2 * d) + 2 * d) by (nonlinear_arith)
                requires
                    q == 2 * even + odd,
            ;
            assert(odd * d == (if odd == 1 { d } else { 0 })) by (nonlinear_arith)
                requires
                    odd == 0 || odd == 1,
            ;
            assert(float::two_to(0) == 1);
            assert(float::two_to(width) == 2 * float::two_to((width - 1) as nat));
            assert(float::two_to((t + 1) as nat) == 2 * float::two_to(t as nat));
        }
        let r = round_steps(
            q / 2,
            q % 2 == 1,
            half || rest,
            t + 1,
            Ghost(n),
            Ghost(2 * d),
            Ghost((width - 1) as nat),
        );
        proof {
            let step = float::two_to(t as nat);
            assert(n * (2 * step) == (n * step) * 2) by (nonlinear_arith);
            lemma_scaled(n * step, d, 2, r);
        }
        r
    }
}

/// The number nearest to `q` and `r` over `p` steps of `float::two_to(t)` ticks.
pub(crate) fn round_fraction(q: u128, r: u128, p: u128, t: u32) -> (nearest: Float64)
    requires
        r < p <= 0x4000_0000_0000_0000_0000_0000_0000_0000,
        t <= 9_000,
    ensures
        nearest.bits < SIGN_BIT,
        float::is_nearest((q * p + r) * float::two_to(t as nat), p as int, nearest),
    decreases t,
{
    let ghost n = q * p + r;
    if q < BINADE as u128 && t > 0 {
        let carry: u128 = if 2 * r >= p {
            1
        } else {
            0
        };
        let left: u128 = if 2 * r >= p {
            2 * r - p
        } else {
            2 * r
        };
        let nearest = round_fraction(2 * q + carry, left, p, t - 1);
        proof {
            let step = float::two_to((t - 1) as nat);
            assert((2 * q + carry) * p + left == 2 * n) by (nonlinear_arith)
                requires
                    n == q * p + r,
                    left == 2 * r - carry * p,
            ;
            assert((2 * n) * step == n * (2 * step)) by (nonlinear_arith);
        }
        nearest
    } else {
        proof {
            lemma_two_to_values();
            assert((q + 1) * p == q * p + p) by (nonlinear_arith);
        }
        round_steps(
            q,
            2 * r >= p,
            r != 0 && 2 * r != p,
            t,
            Ghost(n),
            Ghost(p as int),
            Ghost(128),
        )
    }
}

/// Two to the power `n`.
pub(crate) fn power_of_two(n: u32) -> (power: u128)
    requires
        n <= 126,
    ensures
        power == float::two_to(n as nat),
        0 < power <= 0x4000_0000_0000_0000_0000_0000_0000_0000,
    decreases n,
{
    proof {
        lemma_two_to_grows(n as nat, 126);
        lemma_two_to_values();
        assert(float::two_to(128) == 2 * float::two_to(127) && float::two_to(127) == 2 * float::two_to(126));
        lemma_two_to_positive(n as nat);
    }
    if n == 0 {
        1
    } else {
        2 * power_of_two(n - 1)
    }
}

/// The number nearest to `size` times a negative power of two, in ticks.
pub(crate) fn round_down_shifted(size: u128, shift: u32) -> (r: Float64)
    requires
        size < 0x1000_0000_0000_0000_0000_0000_0000,
        shift <= 9_000,
    ensures
        r.bits < SIGN_BIT,
        float::is_nearest(size as int, float::two_to(shift as nat), r),
{
    proof {
        assert(float::two_to(0) == 1);
        lemma_two_to_positive(shift as nat);
    }
    if shift <= 120 {
        let place = power_of_two(shift);
        proof {
            vstd::arithmetic::div_mod::lemma_fundamental_div_mod(size as int, place as int);
            let q = (size / place) as int;
            assert(q * place == place * q) by (nonlinear_arith);
            assert(size * 1 == size);
        }
        round_fraction(size / place, size % place, place, 0)
    } else {
        proof {
            lemma_two_to_grows(120, shift as nat);
            reveal_with_fuel(float::two_to, 5);
            lemma_two_to_values();
            lemma_two_to_adds(64, 52);
            lemma_two_to_adds(116, 4);
            assert(float::two_to(4) == 16);
            assert(2 * size < float::two_to(shift as nat));
            assert(0 * float::two_to(shift as nat) == 0);
            assert(1 * float::two_to(shift as nat) == float::two_to(shift as nat));
            assert(size * 1 == size);
        }
        round_steps(
            0,
            false,
            size != 0,
            0,
            Ghost(size as int),
            Ghost(float::two_to(shift as nat)),
            Ghost(0),
        )
    }
}

/// The number nearest to `size` over `divisor` and a power of two, in ticks.
pub(crate) fn round_over_shifted(size: u64, divisor: u64, shift: u32) -> (r: Float64)
    requires
        size < 2 * BINADE,
        0 < divisor < 2 * BINADE,
        shift <= 9_000,
    ensures
        r.bits < SIGN_BIT,
        float::is_nearest(size as int, divisor * float::two_to(shift as nat), r),
{
    let ghost power = float::two_to(shift as nat);
    let ghost den = divisor * power;
    proof {
        assert(float::two_to(0) == 1);
        lemma_two_to_positive(shift as nat);
    }
    if shift <= 60 {
        let place = power_of_two(shift);
        proof {
            lemma_two_to_grows(shift as nat, 64);
            lemma_two_to_values();
            assert(0 < den <= 2 * BINADE * 0x1_0000_0000_0000_0000) by (nonlinear_arith)
                requires
                    den == divisor * power,
                    0 < divisor <= 2 * BINADE,
                    0 < power <= 0x1_0000_0000_0000_0000,
            ;
        }
        let whole: u128 = (divisor as u128) * place;
        proof {
            vstd::arithmetic::div_mod::lemma_fundamental_div_mod(size as int, whole as int);
            let q = (size as u128 / whole) as int;
            assert(q * whole == whole * q) by (nonlinear_arith);
            assert(size * 1 == size);
        }
        round_fraction(size as u128 / whole, size as u128 % whole, whole, 0)
    } else {
        proof {
            lemma_two_to_grows(60, shift as nat);
            reveal_with_fuel(float::two_to, 9);
            lemma_two_to_values();
            lemma_two_to_adds(52, 8);
            assert(float::two_to(8) == 256);
            assert(den >= power) by (nonlinear_arith)
                requires
                    den == divisor * power,
                    divisor >= 1,
                    power >= 0,
            ;
            assert(0 * den == 0);
            assert(1 * den == den);
            assert(size * 1 == size);
        }
        round_steps(0, false, size != 0, 0, Ghost(size as int), Ghost(den), Ghost(0))
    }
}

/// A number with a sign put on it.
pub(crate) fn signed(negative: bool, r: Float64, Ghost(num): Ghost<int>, Ghost(den): Ghost<int>) -> (result:
    Float64)
    requires
        r.bits < SIGN_BIT,
        float::is_nearest(num, den, r),
    ensures
        float::is_nearest(if negative { -num } else { num }, den, result),
        result.bits == r.bits + (if negative { SIGN_BIT } else { 0 }),
{
    if negative {
        let result = Float64 { bits: r.bits + SIGN_BIT };
        proof {
            lemma_mirrored(num, den, r, result);
        }
        result
    } else {
        r
    }
}

/// The order of the patterns is the order of the numbers that they stand for.
pub proof fn order_is_of_values(a: Float64, b: Float64)
    requires
        a.is_number(),
        b.is_number(),
    ensures
        a.lt(b) <==> a.ticks() < b.ticks(),
        a.le(b) <==> a.ticks() <= b.ticks(),
{
    let x = a.unsigned_bits();
    let y = b.unsigned_bits();
    lemma_patterns_grow(0, x);
    lemma_patterns_grow(0, y);
    if x <= y {
        lemma_patterns_grow(x, y);
    }
    if y <= x {
        lemma_patterns_grow(y, x);
    }
}

/// A number is its value and its sign: two patterns that agree in both are the same.
pub proof fn value_and_sign(a: Float64, b: Float64)
    requires
        a.is_number(),
        b.is_number(),
        a.ticks() == b.ticks(),
        a.is_negative() == b.is_negative(),
    ensures
        a == b,
{
    order_is_of_values(a, b);
    order_is_of_values(b, a);
}

/// Numbers of the same value are finite alike.
pub(crate) proof fn lemma_same_value(a: Float64, b: Float64)
    requires
        a.is_finite(),
        b.is_number(),
        a.ticks() == b.ticks(),
    ensures
        b.is_finite(),
{
    order_is_of_values(a, b);
    order_is_of_values(b, a);
}

/// A number between zero and a finite one is finite.
pub(crate) proof fn lemma_below_finite(r: Float64, x: Float64)
    requires
        r.is_number(),
        x.is_finite(),
        0 <= r.ticks() <= x.ticks(),
    ensures
        r.is_finite(),
{
    order_is_of_values(r, x);
    let zero = Float64 { bits: 0 };
    assert(zero.ticks() == 0);
    order_is_of_values(zero, r);
}

/// Rounding has one outcome: two numbers that are nearest to the same exact result are the same
/// number.
pub proof fn nearest_is_unique(num: int, den: int, r: Float64, s: Float64)
    requires
        den > 0,
        float::is_nearest(num, den, r),
        float::is_nearest(num, den, s),
    ensures
        r.ticks() == s.ticks(),
{
    lemma_not_below(num, den, r, s);
    lemma_not_below(num, den, s, r);
}

proof fn lemma_not_below(num: int, den: int, low: Float64, high: Float64)
    requires
        den > 0,
        float::is_nearest(num, den, low),
        float::is_nearest(num, den, high),
    ensures
        low.ticks() >= high.ticks(),
{
    reveal(float::is_nearest);
    if low.ticks() < high.ticks() {
        assert(float::gap(num, den, low) <= float::gap(num, den, high));
        assert(float::gap(num, den, high) <= float::gap(num, den, low));
        assert(low.bits % 2 == 0 && high.bits % 2 == 0);
        order_is_of_values(low, high);
        let place = low.place() + 1;
        let x = Float64 {
            bits: if place < 0 {
                (SIGN_BIT - place) as u64
            } else {
                place as u64
            },
        };
        assert(x.is_number() && x.place() == place);
        order_is_of_values(low, x);
        order_is_of_values(x, high);
        let a = low.ticks();
        let b = x.ticks();
        let c = high.ticks();
        assert(a * den < b * den < c * den) by (nonlinear_arith)
            requires
                a < b < c,
                den > 0,
        ;
        assert(float::gap(num, den, low) <= float::gap(num, den, x));
    }
}

/// Rounding keeps the order with every number: what is not above it is not rounded to above it.
pub proof fn nearest_is_monotone(num: int, den: int, r: Float64, x: Float64)
    requires
        den > 0,
        float::is_nearest(num, den, r),
        x.is_number(),
    ensures
        r.is_number(),
        num <= x.ticks() * den ==> r.ticks() <= x.ticks(),
        num >= x.ticks() * den ==> r.ticks() >= x.ticks(),
{
    reveal(float::is_nearest);
    let a = r.ticks();
    let b = x.ticks();
    assert(float::gap(num, den, r) <= float::gap(num, den, x));
    if a > b {
        assert(a * den > b * den) by (nonlinear_arith)
            requires
                a > b,
                den > 0,
        ;
    } else if a < b {
        assert(a * den < b * den) by (nonlinear_arith)
            requires
                a < b,
                den > 0,
        ;
    }
}

/// The number nearest to an exact result has the value that [`rounded_ticks`] names.
pub proof fn nearest_is_rounded(num: int, den: int, r: Float64)
    requires
        den > 0,
        float::is_nearest(num, den, r),
    ensures
        r.is_number(),
        r.ticks() == float::rounded_ticks(num, den),
{
    reveal(float::is_nearest);
    nearest_is_unique(num, den, r, choose|s: Float64| float::is_nearest(num, den, s));
}

/// Every exact result has a number that is nearest to it.
pub proof fn nearest_exists(num: int, den: int) -> (r: Float64)
    requires
        den > 0,
    ensures
        float::is_nearest(num, den, r),
{
    if num < 0 {
        let size = lemma_nearest_of_size(-num, den, 0);
        let r = Float64 { bits: (size.bits + SIGN_BIT) as u64 };
        lemma_mirrored(-num, den, size, r);
        r
    } else {
        lemma_nearest_of_size(num, den, 0)
    }
}

proof fn lemma_nearest_of_size(n: int, d: int, t: nat) -> (r: Float64)
    requires
        n >= 0,
        d > 0,
        n >= BINADE * d || t == 0,
    ensures
        r.bits < SIGN_BIT,
        float::is_nearest(n * float::two_to(t), d, r),
    decreases n / d,
{
    let q = n / d;
    vstd::arithmetic::div_mod::lemma_fundamental_div_mod(n, d);
    vstd::arithmetic::div_mod::lemma_mod_bound(n, d);
    assert(q * d == d * q && (q + 1) * d == q * d + d) by (nonlinear_arith);
    if q < 2 * BINADE {
        assert(q >= 0 && (n >= BINADE * d ==> q >= BINADE)) by (nonlinear_arith)
            requires
                n < q * d + d,
                n >= 0,
                d > 0,
        ;
        let up = 2 * (n - q * d) > d || (2 * (n - q * d) == d && q % 2 == 1);
        let pattern = t * BINADE + q + (if up {
            1int
        } else {
            0
        });
        assert(pattern >= 0) by (nonlinear_arith)
            requires
                pattern >= t * BINADE + q,
                t >= 0,
                q >= 0,
        ;
        let r = Float64 {
            bits: if pattern < INFINITY_BITS {
                pattern as u64
            } else {
                INFINITY_BITS
            },
        };
        lemma_nearest_end(n, d, q, t, up, r);
        r
    } else {
        let half = n / (2 * d);
        vstd::arithmetic::div_mod::lemma_fundamental_div_mod(n, 2 * d);
        vstd::arithmetic::div_mod::lemma_mod_bound(n, 2 * d);
        assert(half < q) by (nonlinear_arith)
            requires
                n >= 2 * d * half,
                n < q * d + d,
                q >= 2,
                d > 0,
        ;
        assert(half >= 0) by (nonlinear_arith)
            requires
                n < 2 * d * half + 2 * d,
                n >= 0,
                d > 0,
        ;
        assert(n >= BINADE * (2 * d)) by (nonlinear_arith)
            requires
                n >= q * d,
                q >= 2 * BINADE,
                d > 0,
        ;
        let r = lemma_nearest_of_size(n, 2 * d, t + 1);
        let step = float::two_to(t);
        assert(float::two_to(t + 1) == 2 * step);
        assert(n * (2 * step) == (n * step) * 2) by (nonlinear_arith);
        lemma_scaled(n * step, d, 2, r);
        r
    }
}

/// Rounding keeps the order of exact results.
pub proof fn rounding_keeps_order(a: int, b: int, den: int)
    requires
        den > 0,
        a <= b,
    ensures
        float::rounded_ticks(a, den) <= float::rounded_ticks(b, den),
{
    let r = nearest_exists(a, den);
    let s = nearest_exists(b, den);
    nearest_is_rounded(a, den, r);
    nearest_is_rounded(b, den, s);
    nearest_is_monotone(a, den, r, s);
    nearest_is_monotone(b, den, s, r);
    reveal(float::is_nearest);
    assert(float::gap(a, den, r) <= float::gap(a, den, s));
    assert(float::gap(b, den, s) <= float::gap(b, den, r));
    if a == b {
        nearest_is_unique(a, den, r, s);
    }
}

proof fn lemma_two_to_larger_values()
    ensures
        float::two_to(53) == 0x20000000000000,
        float::two_to(54) == 0x40000000000000,
        float::two_to(55) == 0x80000000000000,
        float::two_to(56) == 0x100000000000000,
        float::two_to(57) == 0x200000000000000,
        float::two_to(58) == 0x400000000000000,
        float::two_to(59) == 0x800000000000000,
        float::two_to(60) == 0x1000000000000000,
        float::two_to(61) == 0x2000000000000000,
        float::two_to(62) == 0x4000000000000000,
{
    lemma_two_to_values();
    assert(float::two_to(53) == 2 * float::two_to(52));
    assert(float::two_to(54) == 2 * float::two_to(53));
    assert(float::two_to(55) == 2 * float::two_to(54));
    assert(float::two_to(56) == 2 * float::two_to(55));
    assert(float::two_to(57) == 2 * float::two_to(56));
    assert(float::two_to(58) == 2 * float::two_to(57));
    assert(float::two_to(59) == 2 * float::two_to(58));
    assert(float::two_to(60) == 2 * float::two_to(59));
    assert(float::two_to(61) == 2 * float::two_to(60));
    assert(float::two_to(62) == 2 * float::two_to(61));
}

/// A pattern stands for the number nearest to a fraction below two, where it holds the leading digits
/// of the fraction: those of `num * 2^k / den`.
pub(crate) proof fn lemma_fraction(num: int, den: int, k: nat, power: int, r: Float64)
    requires
        num > 0,
        den > 0,
        53 <= k <= 62,
        power == (if k <= 57 {
            if k == 53 {
                0x20_0000_0000_0000int
            } else if k == 54 {
                0x40_0000_0000_0000
            } else if k == 55 {
                0x80_0000_0000_0000
            } else if k == 56 {
                0x100_0000_0000_0000
            } else {
                0x200_0000_0000_0000
            }
        } else if k == 58 {
            0x400_0000_0000_0000
        } else if k == 59 {
            0x800_0000_0000_0000
        } else if k == 60 {
            0x1000_0000_0000_0000
        } else if k == 61 {
            0x2000_0000_0000_0000
        } else {
            0x4000_0000_0000_0000
        }),
        BINADE <= num * power / den < 2 * BINADE - 1,
        r.bits == (1074 - k) * BINADE + num * power / den + (if 2 * (num * power % den) > den {
            1int
        } else {
            0
        }),
        2 * (num * power % den) != den,
    ensures
        r.is_finite(),
        !r.is_negative(),
        float::is_nearest(num * float::one_ticks(), den, r),
{
    lemma_two_to_larger_values();
    let t = (1074 - k) as nat;
    let n = num * power;
    let q = n / den;
    vstd::arithmetic::div_mod::lemma_fundamental_div_mod(n, den);
    vstd::arithmetic::div_mod::lemma_mod_bound(n, den);
    assert(q * den == den * q && (q + 1) * den == q * den + den) by (nonlinear_arith);
    lemma_nearest_end(n, den, q, t, 2 * (n % den) > den, r);
    lemma_two_to_adds(k, t);
    let step = float::two_to(t);
    assert(num * (power * step) == (num * power) * step) by (nonlinear_arith);
}

/// Numbers that are nearest to the same exact value lie alike in the order of all numbers.
pub proof fn same_value_same_order(num: int, den: int, r: Float64, s: Float64, x: Float64)
    requires
        den > 0,
        float::is_nearest(num, den, r),
        float::is_nearest(num, den, s),
        x.is_number(),
    ensures
        r.lt(x) == s.lt(x),
        x.lt(r) == x.lt(s),
        r.le(x) == s.le(x),
        x.le(r) == x.le(s),
{
    nearest_is_unique(num, den, r, s);
    nearest_is_monotone(num, den, r, x);
    nearest_is_monotone(num, den, s, x);
    order_is_of_values(r, x);
    order_is_of_values(s, x);
    order_is_of_values(x, r);
    order_is_of_values(x, s);
}

} // verus!
