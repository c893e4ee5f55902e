use updown_bot::decimal::{Decimal, MANTISSA_LIMIT};

fn of(text: &str) -> Decimal {
    Decimal::parse(text).unwrap()
}

fn parts(d: Decimal) -> (i128, u32) {
    (d.mantissa(), d.scale())
}

fn equal(a: Decimal, b: Decimal) -> bool {
    a.at_least(b) && b.at_least(a)
}

#[test]
fn limits_of_a_decimal() {
    assert_eq!(parts(Decimal::new(MANTISSA_LIMIT - 1, 28).unwrap()), (MANTISSA_LIMIT - 1, 28));
    assert_eq!(parts(Decimal::new(1 - MANTISSA_LIMIT, 0).unwrap()), (1 - MANTISSA_LIMIT, 0));
    assert!(Decimal::new(MANTISSA_LIMIT, 0).is_none());
    assert!(Decimal::new(-MANTISSA_LIMIT, 0).is_none());
    assert!(Decimal::new(1, 29).is_none());
    assert_eq!(parts(Decimal::of(45, 2)), (45, 2));
}

#[test]
fn order_of_decimals() {
    assert!(of("0.5").less(of("0.51")));
    assert!(!of("0.50").less(of("0.5")));
    assert!(of("0.50").at_least(of("0.5")));
    assert!(of("-1").less(Decimal::zero()));
    assert_eq!(parts(of("0.3").max(of("0.25"))), (3, 1));
    assert_eq!(parts(of("0.30").max(of("0.3"))), (30, 2));
}

#[test]
fn sums_keep_the_larger_scale() {
    assert_eq!(parts(of("0.65").plus(of("0.3"))), (95, 2));
    assert_eq!(parts(of("0.65").plus(Decimal::zero())), (65, 2));
    assert_eq!(parts(Decimal::zero().plus(of("0.650"))), (650, 3));
    assert_eq!(parts(of("1.0").minus(of("0.95"))), (5, 2));
    assert_eq!(parts(Decimal::one().minus(of("0.7"))), (3, 1));
}

#[test]
fn sums_that_need_more_room_lose_digits() {
    let wide = Decimal::new(MANTISSA_LIMIT - 1, 28).unwrap();
    let sum = wide.plus(Decimal::new(1, 28).unwrap());
    assert_eq!(parts(sum), (7922816251426433759354395034, 27));
}

#[test]
fn halves() {
    assert!(equal(of("0.99").half(), of("0.495")));
    assert!(equal(of("1.2").half(), of("0.6")));
    assert!(equal(Decimal::of(3, 28).half(), Decimal::of(2, 28)));
    assert!(equal(Decimal::of(1, 28).half(), Decimal::zero()));
}

#[test]
fn rounding_away_from_zero() {
    assert_eq!(parts(of("1.005").rounded(2)), (101, 2));
    assert_eq!(parts(of("-1.005").rounded(2)), (-101, 2));
    assert_eq!(parts(of("1.00499").rounded(2)), (100, 2));
    assert_eq!(parts(of("1.5").rounded(2)), (15, 1));
    assert_eq!(parts(of("0.000").rounded(2)), (0, 2));
}

#[test]
fn texts_of_decimals() {
    assert_eq!(parts(of("0.99")), (99, 2));
    assert_eq!(parts(of("1.0")), (10, 1));
    assert_eq!(parts(of("-12")), (-12, 0));
    assert!(Decimal::parse("price").is_none());
    assert!(Decimal::parse("").is_none());
}

#[test]
fn what_is_left_of_one_is_exact() {
    let price = of("0.3333333333333333333333333333");
    let rest = Decimal::one().minus(price);
    assert_eq!(parts(rest), (6666666666666666666666666667, 28));
    assert_eq!(parts(rest.plus(price)), (10000000000000000000000000000, 28));
}

/// The multiple of `step` nearest to `exact`, the even one of two, divided by `step`.
fn nearest_even(exact: i128, step: i128) -> i128 {
    let below = exact.div_euclid(step);
    let rest = exact.rem_euclid(step);
    if 2 * rest < step || (2 * rest == step && below % 2 == 0) {
        below
    } else {
        below + 1
    }
}

/// An exact result with as many of its fractional digits as there is room for.
fn kept(exact: i128, scale: u32) -> (i128, u32) {
    let mut step: i128 = 1;
    for kept in (0..=scale).rev() {
        let m = nearest_even(exact, step);
        if m.abs() < MANTISSA_LIMIT {
            return (m, kept);
        }
        step *= 10;
    }
    panic!("no room for {exact}");
}

/// Pairs of numbers whose sums can be checked with integers.
fn samples() -> Vec<(Decimal, Decimal)> {
    let mut state: u64 = 0x853c_49e6_748f_ea9b;
    let mut next = || {
        state = state.wrapping_mul(6364136223846793005).wrapping_add(1442695040888963407);
        state >> 11
    };
    let mut list = vec![
        (of("0.5"), of("0.50")),
        (of("0.5"), of("-0.50")),
        (Decimal::zero(), of("0.5")),
        (of("0.5"), of("0.000")),
        (of("0.00"), of("0.000")),
    ];
    for _ in 0..20_000 {
        let scale = (next() % 29) as u32;
        let less = (next() % 5) as u32;
        let wide = |a: u64, b: u64, bits: u64| {
            let m = (((a as i128) << 53) | b as i128) & ((1i128 << bits) - 1);
            if a % 3 == 0 { -m } else { m }
        };
        let bits = 96 - next() % 20;
        let a = wide(next(), next(), bits);
        let bits = 96 - next() % 60;
        let b = wide(next(), next(), bits);
        if less <= scale && scale > 1 && a.abs() < MANTISSA_LIMIT / 100_000 {
            list.push((Decimal::of(a, scale - less), Decimal::of(b, scale)));
        }
        if scale > 1 {
            list.push((Decimal::of(a, scale), Decimal::of(b, scale)));
        }
    }
    list
}

#[test]
fn sums_agree_with_integers() {
    for (a, b) in samples() {
        let scale = a.scale().max(b.scale());
        let x = a.mantissa() * 10i128.pow(scale - a.scale());
        let y = b.mantissa() * 10i128.pow(scale - b.scale());
        let sum = parts(a.plus(b));
        let difference = parts(a.minus(b));
        if a.mantissa() == 0 {
            assert_eq!(sum, parts(b));
            assert_eq!(difference, (-b.mantissa(), b.scale()));
        } else if b.mantissa() == 0 {
            assert_eq!(sum, parts(a));
            assert_eq!(difference, parts(a));
        } else {
            assert_eq!(sum, kept(x + y, scale), "{a:?} + {b:?}");
            assert_eq!(difference, kept(x - y, scale), "{a:?} - {b:?}");
        }
        assert_eq!(a.less(b), x < y);
    }
}

#[test]
fn halves_agree_with_integers() {
    for (a, _) in samples() {
        let m = a.mantissa();
        let half = a.half();
        if m % 2 == 0 || (a.scale() < 28 && 5 * m.abs() < MANTISSA_LIMIT) {
            assert!(equal(half.plus(half), a), "{a:?}");
        } else {
            assert!(equal(half, Decimal::of(nearest_even(m, 2), a.scale())), "{a:?}");
        }
    }
}

#[test]
fn rounding_agrees_with_integers() {
    for (a, _) in samples() {
        for places in [0, 2, 5] {
            let rounded = parts(a.rounded(places));
            if a.scale() <= places {
                assert_eq!(rounded, parts(a));
            } else {
                let place = 10i128.pow(a.scale() - places);
                let size = (a.mantissa().abs() + place / 2) / place;
                assert_eq!(rounded, (if a.mantissa() < 0 { -size } else { size }, places), "{a:?}");
            }
        }
    }
}
