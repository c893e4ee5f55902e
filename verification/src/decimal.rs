//! Exact decimal numbers of at most 28 fractional digits and a 96-bit mantissa.
//!
//! The arithmetic itself is `rust_decimal`'s. Contracts speak of a number by its `units`, the
//! number of 10^-28 it consists of: every decimal is a whole number of them, so that sums and
//! comparisons are those of integers.
use vstd::prelude::*;

verus! {

/// The largest number of fractional digits.
pub const MAX_SCALE: u32 = 28;

/// 2^96, which every mantissa stays below in magnitude.
pub const MANTISSA_LIMIT: i128 = 79_228_162_514_264_337_593_543_950_336;

/// Ten to the power `n`.
pub open spec fn pow10(n: nat) -> int
    decreases n,
{
    if n == 0 {
        1
    } else {
        10 * pow10((n - 1) as nat)
    }
}

pub open spec fn magnitude(x: int) -> int {
    if x < 0 {
        -x
    } else {
        x
    }
}

/// How many units the number one is.
pub open spec fn one_units() -> int {
    pow10(28)
}

/// The size in units of one step in the last place of a number with the given scale.
pub open spec fn step_units(scale: int) -> int {
    pow10((28 - scale) as nat)
}

/// Whether an exact result, in units, can be rounded to a decimal number at all: to an integer
/// that a mantissa holds, if need be.
pub open spec fn result_fits(exact: int) -> bool {
    2 * magnitude(exact) < (2 * MANTISSA_LIMIT - 1) * one_units()
}

/// The multiple of `step` that is nearest to `exact`, the even one of two.
pub open spec fn nearest_even(exact: int, step: int) -> int {
    let below = exact / step;
    let rest = exact % step;
    if 2 * rest < step || (2 * rest == step && below % 2 == 0) {
        below * step
    } else {
        (below + 1) * step
    }
}

/// The scale that an exact result, in units, is kept with: the largest one up to `scale` that a
/// mantissa leaves room for.
pub open spec fn kept_scale(exact: int, scale: int) -> int
    decreases scale,
{
    if scale <= 0 || magnitude(nearest_even(exact, step_units(scale))) < MANTISSA_LIMIT
        * step_units(scale) {
        scale
    } else {
        kept_scale(exact, scale - 1)
    }
}

/// What an exact result, in units, becomes with at most `scale` fractional digits: the nearest
/// number, the even one of two, with as many of them as a mantissa leaves room for.
pub open spec fn rounded_units(exact: int, scale: int) -> int {
    nearest_even(exact, step_units(kept_scale(exact, scale)))
}

/// The scale of a sum or a difference with the given operands, each by its units and its scale,
/// whose exact value is `exact`: that of the other operand where one is zero, and otherwise the one
/// that the result is kept with.
pub open spec fn result_scale(
    left_units: int,
    left_scale: int,
    right_units: int,
    right_scale: int,
    exact: int,
) -> int {
    if left_units == 0 {
        right_scale
    } else if right_units == 0 {
        left_scale
    } else {
        kept_scale(exact, vstd::math::max(left_scale, right_scale))
    }
}

/// That `r` is the decimal sum of two numbers.
pub open spec fn is_sum(a: Decimal, b: Decimal, r: Decimal) -> bool {
    let exact = a.units() + b.units();
    &&& r.units() == rounded_units(exact, vstd::math::max(a.s(), b.s()))
    &&& r.s() == result_scale(a.units(), a.s(), b.units(), b.s(), exact)
}

/// That `r` is the decimal difference of two numbers.
pub open spec fn is_difference(a: Decimal, b: Decimal, r: Decimal) -> bool {
    let exact = a.units() - b.units();
    &&& r.units() == rounded_units(exact, vstd::math::max(a.s(), b.s()))
    &&& r.s() == result_scale(a.units(), a.s(), b.units(), b.s(), exact)
}

/// The value of half a decimal number, in units: exact where one more fractional digit can be had
/// or is not needed, and otherwise the even one of the two neighbours with the same scale.
pub open spec fn half_units(a: Decimal) -> int {
    if a.m() % 2 == 0 || (a.s() < 28 && 5 * magnitude(a.m()) < MANTISSA_LIMIT) {
        a.units() / 2
    } else {
        nearest_even(a.m(), 2) / 2 * step_units(a.s())
    }
}

/// The mantissa `m` without its last digits, `place` being ten to the power of their number,
/// rounded to the nearest and away from zero at a midpoint.
pub open spec fn rounded_away(m: int, place: int) -> int {
    if m < 0 {
        -((-m + place / 2) / place)
    } else {
        (m + place / 2) / place
    }
}

/// How many fractional digits `rust_decimal` gives to the quotient of a number, by its mantissa and
/// its scale, and a whole divisor.
pub uninterp spec fn quotient_scale(m: int, s: int, divisor: int) -> int;

/// The mantissa and the scale that `rust_decimal` reads from a text, if it reads one.
pub uninterp spec fn decimal_of_text(text: Seq<char>) -> Option<(int, int)>;

/// A decimal number: `mantissa` divided by ten to the power `scale`.
#[derive(Clone, Copy, Debug)]
pub struct Decimal {
    mantissa: i128,
    scale: u32,
}

impl Decimal {
    #[verifier::type_invariant]
    spec fn well_formed(self) -> bool {
        &&& -MANTISSA_LIMIT < self.mantissa < MANTISSA_LIMIT
        &&& self.scale <= MAX_SCALE
    }

    /// The digits of the number, without its decimal point.
    pub closed spec fn m(self) -> int {
        self.mantissa as int
    }

    /// How many of the digits are fractional.
    pub closed spec fn s(self) -> int {
        self.scale as int
    }

    /// The value, counted in units of 10^-28.
    pub open spec fn units(self) -> int {
        self.m() * step_units(self.s())
    }

    /// That the mantissa and the scale are within their limits, as they are for every number that
    /// a program holds.
    pub open spec fn valid(self) -> bool {
        &&& -MANTISSA_LIMIT < self.m() < MANTISSA_LIMIT
        &&& 0 <= self.s() <= MAX_SCALE
    }

    /// The number with the given mantissa and scale, if there is one.
    pub fn new(mantissa: i128, scale: u32) -> (number: Option<Decimal>)
        ensures
            number is Some <==> -MANTISSA_LIMIT < mantissa < MANTISSA_LIMIT && scale <= MAX_SCALE,
            number matches Some(d) ==> d.m() == mantissa && d.s() == scale,
    {
        if -MANTISSA_LIMIT < mantissa && mantissa < MANTISSA_LIMIT && scale <= MAX_SCALE {
            Some(Decimal { mantissa, scale })
        } else {
            None
        }
    }

    /// The number with the given mantissa and scale.
    pub fn of(mantissa: i128, scale: u32) -> (number: Decimal)
        requires
            -MANTISSA_LIMIT < mantissa < MANTISSA_LIMIT,
            scale <= MAX_SCALE,
        ensures
            number.m() == mantissa,
            number.s() == scale,
    {
        Decimal { mantissa, scale }
    }

    /// The digits of the number, without its decimal point.
    pub fn mantissa(&self) -> (mantissa: i128)
        ensures
            mantissa == self.m(),
            -MANTISSA_LIMIT < mantissa < MANTISSA_LIMIT,
    {
        proof {
            use_type_invariant(*self);
        }
        self.mantissa
    }

    /// How many of the digits are fractional.
    pub fn scale(&self) -> (scale: u32)
        ensures
            scale == self.s(),
            scale <= MAX_SCALE,
    {
        proof {
            use_type_invariant(*self);
        }
        self.scale
    }
}

/// Powers of ten are positive and grow.
pub proof fn lemma_pow10(n: nat)
    ensures
        pow10(n) >= 1,
        n > 0 ==> pow10(n) == 10 * pow10((n - 1) as nat),
    decreases n,
{
    if n > 0 {
        lemma_pow10((n - 1) as nat);
    }
}

/// A step in a fractional place is at most a tenth of one, and ten of them make a step in the place
/// before.
pub proof fn lemma_step(scale: int)
    requires
        0 <= scale <= 28,
    ensures
        1 <= step_units(scale) <= one_units(),
        scale >= 1 ==> 10 * step_units(scale) == step_units(scale - 1),
        scale >= 1 ==> 10 * step_units(scale) <= one_units(),
        scale == 0 ==> step_units(scale) == one_units(),
    decreases scale,
{
    lemma_pow10((28 - scale) as nat);
    if scale >= 1 {
        lemma_step(scale - 1);
        lemma_pow10((28 - (scale - 1)) as nat);
    }
}

/// The nearest multiple of a step is at most half a step away.
pub proof fn lemma_nearest_even(exact: int, step: int)
    requires
        step >= 1,
    ensures
        2 * magnitude(nearest_even(exact, step) - exact) <= step,
        nearest_even(exact, step) % step == 0,
        exact % step == 0 ==> nearest_even(exact, step) == exact,
{
    let below = exact / step;
    let rest = exact % step;
    vstd::arithmetic::div_mod::lemma_fundamental_div_mod(exact, step);
    vstd::arithmetic::div_mod::lemma_mod_bound(exact, step);
    assert(below * step == step * below) by (nonlinear_arith);
    assert((below + 1) * step == below * step + step) by (nonlinear_arith);
    vstd::arithmetic::div_mod::lemma_mod_multiples_basic(below, step);
    vstd::arithmetic::div_mod::lemma_mod_multiples_basic(below + 1, step);
}

/// The scale that a result is kept with is within bounds.
pub proof fn lemma_kept_scale(exact: int, scale: int)
    requires
        0 <= scale,
    ensures
        0 <= kept_scale(exact, scale) <= scale,
    decreases scale,
{
    if scale > 0 {
        lemma_kept_scale(exact, scale - 1);
    }
}

/// The value of a number is bounded by that of the largest mantissa.
pub proof fn lemma_units_bound(d: Decimal)
    requires
        d.valid(),
    ensures
        magnitude(d.units()) <= (MANTISSA_LIMIT - 1) * one_units(),
{
    lemma_step(d.s());
    let step = step_units(d.s());
    let m = d.m();
    assert(magnitude(m * step) <= (MANTISSA_LIMIT - 1) * one_units()) by (nonlinear_arith)
        requires
            magnitude(m) <= MANTISSA_LIMIT - 1,
            1 <= step <= one_units(),
    ;
}

/// What is left of one can be computed, for a result less than one whose exact value is above the
/// least number by at least 0.65.
pub proof fn lemma_rest_of_one_fits(exact: int, scale: int)
    requires
        0 <= scale <= 28,
        20 * exact >= -(20 * MANTISSA_LIMIT - 33) * one_units(),
        rounded_units(exact, scale) < one_units(),
    ensures
        result_fits(one_units() - rounded_units(exact, scale)),
{
    let kept = kept_scale(exact, scale);
    let step = step_units(kept);
    let r = rounded_units(exact, scale);
    let one = one_units();
    lemma_kept_scale(exact, scale);
    lemma_step(kept);
    lemma_nearest_even(exact, step);
    let limit = MANTISSA_LIMIT as int;
    let all = limit * one;
    assert(-(20 * limit - 33) * one == -20 * all + 33 * one) by (nonlinear_arith)
        requires
            all == limit * one,
    ;
    assert((2 * limit - 1) * one == 2 * all - one) by (nonlinear_arith)
        requires
            all == limit * one,
    ;
    if kept == 0 {
        let q = r / one;
        vstd::arithmetic::div_mod::lemma_fundamental_div_mod(r, one);
        assert(r == q * one) by (nonlinear_arith)
            requires
                r == one * q + r % one,
                r % one == 0,
        ;
        // r lies above -(limit - 1) ones, so that as a multiple of one it is at least one more.
        assert(q > -(limit - 1)) by (nonlinear_arith)
            requires
                r == q * one,
                all == limit * one,
                r > -all + one,
                one >= 1,
        ;
        assert(r >= -all + 2 * one) by (nonlinear_arith)
            requires
                r == q * one,
                all == limit * one,
                q >= -(limit - 2),
                one >= 1,
        ;
    }
}

/// Ten steps in the first fractional place make one.
proof fn lemma_units_of_tenths()
    ensures
        10 * step_units(1) == one_units(),
{
    assert(pow10(28) == 10 * pow10(27));
}

/// `rust_decimal`'s `<` on two numbers: it compares their values, whatever their scales.
#[verifier::external_body]
fn outside_less(a: Decimal, b: Decimal) -> (less: bool)
    ensures
        less == (a.units() < b.units()),
{
    rust_decimal::Decimal::from_i128_with_scale(a.mantissa, a.scale)
        < rust_decimal::Decimal::from_i128_with_scale(b.mantissa, b.scale)
}

/// `rust_decimal`'s `+`: the exact sum where the larger of the two scales holds it, and otherwise
/// the nearest number with fewer fractional digits. It panics where not even an integer holds it.
#[verifier::external_body]
fn outside_sum(a: Decimal, b: Decimal) -> (sum: Decimal)
    requires
        result_fits(a.units() + b.units()),
    ensures
        is_sum(a, b, sum),
{
    let sum = rust_decimal::Decimal::from_i128_with_scale(a.mantissa, a.scale)
        + rust_decimal::Decimal::from_i128_with_scale(b.mantissa, b.scale);
    Decimal { mantissa: sum.mantissa(), scale: sum.scale() }
}

/// `rust_decimal`'s `-`: the exact difference where the larger of the two scales holds it, and
/// otherwise the nearest number with fewer fractional digits. It panics where not even an integer
/// holds it.
#[verifier::external_body]
fn outside_difference(a: Decimal, b: Decimal) -> (difference: Decimal)
    requires
        result_fits(a.units() - b.units()),
    ensures
        is_difference(a, b, difference),
{
    let difference = rust_decimal::Decimal::from_i128_with_scale(a.mantissa, a.scale)
        - rust_decimal::Decimal::from_i128_with_scale(b.mantissa, b.scale);
    Decimal { mantissa: difference.mantissa(), scale: difference.scale() }
}

/// `rust_decimal`'s `/`, here for a divisor of two only: the exact half where there is one, and
/// otherwise the even neighbour. How many fractional digits it is written with is a function of the
/// operands alone, here called [`quotient_scale`].
#[verifier::external_body]
fn outside_quotient(a: Decimal, b: Decimal) -> (quotient: Decimal)
    requires
        b.m() == 2,
        b.s() == 0,
    ensures
        quotient.units() == half_units(a),
        quotient.s() == quotient_scale(a.m(), a.s(), b.m()),
{
    let quotient = rust_decimal::Decimal::from_i128_with_scale(a.mantissa, a.scale)
        / rust_decimal::Decimal::from_i128_with_scale(b.mantissa, b.scale);
    Decimal { mantissa: quotient.mantissa(), scale: quotient.scale() }
}

/// `rust_decimal::Decimal::round_dp_with_strategy` with midpoints rounded away from zero: a number
/// with at most `places` fractional digits is left as it is, another gets exactly that many.
#[verifier::external_body]
fn outside_round(a: Decimal, places: u32) -> (rounded: Decimal)
    ensures
        a.s() <= places ==> rounded == a,
        a.s() > places ==> rounded.s() == places && rounded.m() == rounded_away(
            a.m(),
            pow10((a.s() - places) as nat),
        ),
{
    let rounded = rust_decimal::Decimal::from_i128_with_scale(a.mantissa, a.scale)
        .round_dp_with_strategy(places, rust_decimal::RoundingStrategy::MidpointAwayFromZero);
    Decimal { mantissa: rounded.mantissa(), scale: rounded.scale() }
}

/// `rust_decimal::Decimal::from_str`. What it reads is a function of the text alone, here called
/// [`decimal_of_text`]; nothing more is said of it.
#[verifier::external_body]
fn outside_parse(text: &str) -> (number: Option<Decimal>)
    ensures
        match number {
            Some(d) => decimal_of_text(text@) == Some((d.m(), d.s())),
            None => decimal_of_text(text@) is None,
        },
{
    let number = <rust_decimal::Decimal as std::str::FromStr>::from_str(text).ok()?;
    Some(Decimal { mantissa: number.mantissa(), scale: number.scale() })
}

impl Decimal {
    /// Whether this number is less than `other`.
    pub fn less(self, other: Decimal) -> (less: bool)
        ensures
            less == (self.units() < other.units()),
            self.valid(),
            other.valid(),
    {
        proof {
            use_type_invariant(self);
            use_type_invariant(other);
        }
        outside_less(self, other)
    }

    /// Whether this number is at least `other`.
    pub fn at_least(self, other: Decimal) -> (holds: bool)
        ensures
            holds == (self.units() >= other.units()),
            self.valid(),
            other.valid(),
    {
        proof {
            use_type_invariant(self);
            use_type_invariant(other);
        }
        !outside_less(self, other)
    }

    /// The larger of two numbers, this one where they are equal.
    pub fn max(self, other: Decimal) -> (larger: Decimal)
        ensures
            larger == if self.units() < other.units() { other } else { self },
            self.valid(),
            other.valid(),
    {
        proof {
            use_type_invariant(self);
            use_type_invariant(other);
        }
        if outside_less(self, other) {
            other
        } else {
            self
        }
    }

    /// The sum of two numbers.
    pub fn plus(self, other: Decimal) -> (sum: Decimal)
        requires
            result_fits(self.units() + other.units()),
        ensures
            is_sum(self, other, sum),
            sum.valid(),
    {
        let sum = outside_sum(self, other);
        proof {
            use_type_invariant(sum);
        }
        sum
    }

    /// The difference of two numbers.
    pub fn minus(self, other: Decimal) -> (difference: Decimal)
        requires
            result_fits(self.units() - other.units()),
        ensures
            is_difference(self, other, difference),
            difference.valid(),
    {
        let difference = outside_difference(self, other);
        proof {
            use_type_invariant(difference);
        }
        difference
    }

    /// Half of this number.
    pub fn half(self) -> (half: Decimal)
        ensures
            half.units() == half_units(self),
            half.s() == quotient_scale(self.m(), self.s(), 2),
    {
        outside_quotient(self, Decimal { mantissa: 2, scale: 0 })
    }

    /// This number with at most `places` fractional digits, midpoints rounded away from zero.
    pub fn rounded(self, places: u32) -> (rounded: Decimal)
        ensures
            self.s() <= places ==> rounded == self,
            self.s() > places ==> rounded.s() == places && rounded.m() == rounded_away(
                self.m(),
                pow10((self.s() - places) as nat),
            ),
    {
        outside_round(self, places)
    }

    /// The number that a text denotes, if it denotes one.
    pub fn parse(text: &str) -> (number: Option<Decimal>)
        ensures
            match number {
                Some(d) => decimal_of_text(text@) == Some((d.m(), d.s())),
                None => decimal_of_text(text@) is None,
            },
    {
        outside_parse(text)
    }

    /// The number 1.0.
    pub fn one() -> (number: Decimal)
        ensures
            number.m() == 10,
            number.s() == 1,
            number.units() == one_units(),
    {
        proof {
            lemma_units_of_tenths();
        }
        Decimal { mantissa: 10, scale: 1 }
    }

    /// The number 0.
    pub fn zero() -> (number: Decimal)
        ensures
            number.m() == 0,
            number.s() == 0,
            number.units() == 0,
    {
        Decimal { mantissa: 0, scale: 0 }
    }
}

proof fn lemma_one_value()
    ensures
        one_units() == 10_000_000_000_000_000_000_000_000_000,
{
    reveal_with_fuel(pow10, 29);
}

/// A result of up to seven that needs no more fractional digits than its operands is exact.
pub proof fn small_results_are_exact(exact: int, scale: int)
    requires
        0 <= scale <= 28,
        magnitude(exact) <= 7 * one_units(),
        exact % step_units(scale) == 0,
    ensures
        kept_scale(exact, scale) == scale,
        rounded_units(exact, scale) == exact,
{
    let step = step_units(scale);
    let one = one_units();
    let limit = MANTISSA_LIMIT as int;
    lemma_step(scale);
    lemma_nearest_even(exact, step);
    lemma_one_value();
    assert(limit * step >= limit) by (nonlinear_arith)
        requires
            step >= 1,
            limit >= 0,
    ;
}

/// A decimal number is a whole number of steps of its own scale and of every larger one.
pub proof fn numbers_are_whole_steps(d: Decimal, scale: int)
    requires
        d.valid(),
        d.s() <= scale <= 28,
    ensures
        d.units() % step_units(scale) == 0,
    decreases scale - d.s(),
{
    lemma_step(scale);
    if scale == d.s() {
        vstd::arithmetic::div_mod::lemma_mod_multiples_basic(d.m(), step_units(scale));
    } else {
        numbers_are_whole_steps(d, scale - 1);
        let step = step_units(scale);
        let wide = step_units(scale - 1);
        let units = d.units();
        let n = units / wide;
        vstd::arithmetic::div_mod::lemma_fundamental_div_mod(units, wide);
        assert(units == (10 * n) * step) by (nonlinear_arith)
            requires
                units == wide * n,
                wide == 10 * step,
        ;
        vstd::arithmetic::div_mod::lemma_mod_multiples_basic(10 * n, step);
    }
}

/// What is rounded to less than one was less than two to begin with.
proof fn lemma_was_small(exact: int, scale: int)
    requires
        0 <= scale <= 28,
        exact >= 0,
        rounded_units(exact, scale) < one_units(),
    ensures
        exact < 2 * one_units(),
{
    lemma_kept_scale(exact, scale);
    let kept = kept_scale(exact, scale);
    lemma_step(kept);
    lemma_nearest_even(exact, step_units(kept));
}

/// The sum of two numbers that are not negative is exact where it comes out below one.
pub proof fn sums_below_one_are_exact(a: Decimal, b: Decimal)
    requires
        a.valid(),
        b.valid(),
        a.units() >= 0,
        b.units() >= 0,
        rounded_units(a.units() + b.units(), vstd::math::max(a.s(), b.s())) < one_units(),
    ensures
        rounded_units(a.units() + b.units(), vstd::math::max(a.s(), b.s())) == a.units() + b.units(),
        kept_scale(a.units() + b.units(), vstd::math::max(a.s(), b.s())) == vstd::math::max(
            a.s(),
            b.s(),
        ),
{
    let scale = vstd::math::max(a.s(), b.s());
    let step = step_units(scale);
    lemma_step(scale);
    lemma_was_small(a.units() + b.units(), scale);
    numbers_are_whole_steps(a, scale);
    numbers_are_whole_steps(b, scale);
    lemma_whole_steps_add(a.units(), b.units(), step);
    small_results_are_exact(a.units() + b.units(), scale);
}

proof fn lemma_whole_steps_add(x: int, y: int, step: int)
    requires
        step >= 1,
        x % step == 0,
        y % step == 0,
    ensures
        (x + y) % step == 0,
        (x - y) % step == 0,
{
    let a = x / step;
    let b = y / step;
    vstd::arithmetic::div_mod::lemma_fundamental_div_mod(x, step);
    vstd::arithmetic::div_mod::lemma_fundamental_div_mod(y, step);
    assert(x + y == (a + b) * step && x - y == (a - b) * step) by (nonlinear_arith)
        requires
            x == step * a,
            y == step * b,
    ;
    vstd::arithmetic::div_mod::lemma_mod_multiples_basic(a + b, step);
    vstd::arithmetic::div_mod::lemma_mod_multiples_basic(a - b, step);
}

/// What is left of one is exact for a number that is between zero and one, however many fractional
/// digits it has.
pub proof fn rest_of_one_is_exact(units: int, scale: int)
    requires
        0 <= scale <= 28,
        0 <= units <= one_units(),
        units % step_units(scale) == 0,
    ensures
        rounded_units(one_units() - units, vstd::math::max(1, scale)) == one_units() - units,
{
    let wide = vstd::math::max(1, scale);
    let step = step_units(wide);
    let one = one_units();
    lemma_step(wide);
    lemma_one_is_whole(wide);
    if scale == 0 {
        lemma_step(1);
        let n = units / one;
        vstd::arithmetic::div_mod::lemma_fundamental_div_mod(units, one);
        assert(units == (10 * n) * step) by (nonlinear_arith)
            requires
                units == one * n,
                one == 10 * step,
        ;
        vstd::arithmetic::div_mod::lemma_mod_multiples_basic(10 * n, step);
    }
    lemma_whole_steps_add(one, units, step);
    small_results_are_exact(one - units, wide);
}

proof fn lemma_one_is_whole(scale: int)
    requires
        0 <= scale <= 28,
    ensures
        one_units() % step_units(scale) == 0,
    decreases scale,
{
    lemma_step(scale);
    let one = one_units();
    let step = step_units(scale);
    if scale == 0 {
        vstd::arithmetic::div_mod::lemma_mod_self_0(one);
    } else {
        lemma_one_is_whole(scale - 1);
        let wide = step_units(scale - 1);
        let n = one / wide;
        vstd::arithmetic::div_mod::lemma_fundamental_div_mod(one, wide);
        assert(one == (10 * n) * step) by (nonlinear_arith)
            requires
                one == wide * n,
                wide == 10 * step,
        ;
        vstd::arithmetic::div_mod::lemma_mod_multiples_basic(10 * n, step);
    }
}

/// A number that comes out below one is kept as it is.
pub proof fn exact_as_it_is(d: Decimal)
    requires
        d.valid(),
    ensures
        d.units() % step_units(d.s()) == 0,
        0 <= d.units() && rounded_units(d.units(), d.s()) < one_units() ==> rounded_units(
            d.units(),
            d.s(),
        ) == d.units(),
{
    numbers_are_whole_steps(d, d.s());
    if 0 <= d.units() && rounded_units(d.units(), d.s()) < one_units() {
        lemma_was_small(d.units(), d.s());
        small_results_are_exact(d.units(), d.s());
    }
}

/// The sum of two numbers is a whole number of steps of the larger of their scales.
pub proof fn whole_steps_of_sum(a: Decimal, b: Decimal)
    requires
        a.valid(),
        b.valid(),
    ensures
        (a.units() + b.units()) % step_units(vstd::math::max(a.s(), b.s())) == 0,
{
    let scale = vstd::math::max(a.s(), b.s());
    lemma_step(scale);
    numbers_are_whole_steps(a, scale);
    numbers_are_whole_steps(b, scale);
    lemma_whole_steps_add(a.units(), b.units(), step_units(scale));
}

/// Half of a number between zero and two is exact, where the number does not have all of the
/// fractional digits that there can be.
proof fn lemma_half_is_exact(d: Decimal)
    requires
        0 <= d.s() < 28,
        0 <= d.units() <= 2 * one_units(),
    ensures
        2 * half_units(d) == d.units(),
{
    let step = step_units(d.s());
    let m = d.m();
    let units = d.units();
    lemma_one_value();
    lemma_pow10((28 - d.s()) as nat);
    lemma_pow10((27 - d.s()) as nat);
    let half = 5 * pow10((27 - d.s()) as nat);
    assert(step == 2 * half);
    assert(0 <= m && 10 * m <= 20_000_000_000_000_000_000_000_000_000) by (nonlinear_arith)
        requires
            m * step == units,
            0 <= units <= 20_000_000_000_000_000_000_000_000_000,
            step >= 10,
    ;
    assert(m * step == 2 * (m * half)) by (nonlinear_arith)
        requires
            step == 2 * half,
    ;
}

/// Half of the sum of two numbers between zero and one is exact, where neither has all of the
/// fractional digits that there can be.
pub proof fn small_sums_halve(a: Decimal, b: Decimal, sum: Decimal)
    requires
        a.valid(),
        b.valid(),
        a.s() < MAX_SCALE,
        b.s() < MAX_SCALE,
        0 <= a.units() <= one_units(),
        0 <= b.units() <= one_units(),
        is_sum(a, b, sum),
    ensures
        2 * half_units(sum) == a.units() + b.units(),
{
    whole_steps_of_sum(a, b);
    small_results_are_exact(a.units() + b.units(), vstd::math::max(a.s(), b.s()));
    lemma_half_is_exact(sum);
}

} // verus!
