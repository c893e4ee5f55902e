use updown_bot::decimal::Decimal;
use updown_bot::float::Float64;

fn of(x: f64) -> Float64 {
    Float64 { bits: x.to_bits() }
}

fn same(ours: Float64, hardware: f64) -> bool {
    if hardware.is_nan() {
        f64::from_bits(ours.bits).is_nan()
    } else {
        ours.bits == hardware.to_bits()
    }
}

/// Patterns of all kinds: plain numbers, tiny and huge ones, zeros, infinities and no numbers.
fn patterns() -> Vec<f64> {
    let mut list = vec![
        0.0, -0.0, 1.0, -1.0, 0.5, 0.1, 0.2, 0.3, 1.0 / 3.0, 0.99, 0.01, 0.06, 3.5, 2.5, -2.5, 1e16, 4503599627370496.0,
        9007199254740993.0, 1e300, -1e300, 1e-300, 5e-324, -5e-324, 2.2250738585072014e-308,
        2.225073858507201e-308, f64::MAX, f64::MIN, f64::INFINITY, f64::NEG_INFINITY, f64::NAN,
    ];
    let mut state: u64 = 0x9e37_79b9_7f4a_7c15;
    for _ in 0..120 {
        state = state.wrapping_mul(6364136223846793005).wrapping_add(1442695040888963407);
        list.push(f64::from_bits(state));
        // Numbers close to one, whose exponents are near each other.
        list.push(f64::from_bits((state >> 14) | 0x3fc0_0000_0000_0000));
        list.push(-f64::from_bits((state >> 14) | 0x3ff0_0000_0000_0000));
    }
    list
}

#[test]
fn sums_are_those_of_the_processor() {
    for &a in &patterns() {
        for &b in &patterns() {
            assert!(same(of(a).plus(of(b)), a + b), "{a:e} + {b:e}");
        }
    }
}

#[test]
fn differences_are_those_of_the_processor() {
    for &a in &patterns() {
        for &b in &patterns() {
            assert!(same(of(a).minus(of(b)), a - b), "{a:e} - {b:e}");
        }
    }
}

#[test]
fn products_are_those_of_the_processor() {
    for &a in &patterns() {
        for &b in &patterns() {
            assert!(same(of(a).times(of(b)), a * b), "{a:e} * {b:e}");
        }
    }
}

#[test]
fn quotients_are_those_of_the_processor() {
    for &a in &patterns() {
        for &b in &patterns() {
            assert!(same(of(a).over(of(b)), a / b), "{a:e} / {b:e}");
        }
    }
}

#[test]
fn whole_numbers_are_those_of_the_processor() {
    for &a in &patterns() {
        assert!(same(of(a).rounded(), a.round()), "{a:e}");
        let scaled = a * 1024.0;
        assert!(same(of(scaled).rounded(), scaled.round()), "{scaled:e}");
    }
    assert_eq!(of(2.5).rounded(), of(3.0));
    assert_eq!(of(-2.5).rounded(), of(-3.0));
    assert_eq!(of(0.49999999999999994).rounded(), of(0.0));
}

#[test]
fn comparisons_are_those_of_the_processor() {
    for &a in &patterns() {
        for &b in &patterns() {
            assert_eq!(of(a).less(of(b)), a < b, "{a:e} < {b:e}");
            assert_eq!(of(a).at_least(of(b)), a >= b, "{a:e} >= {b:e}");
        }
    }
}

#[test]
fn decimals_become_the_nearest_numbers() {
    let texts = [
        "0", "1", "0.1", "0.99", "0.01", "0.015", "-0.7", "123456789.123456789", "0.0000000000000000000000000001",
        "79228162514264337593543950335", "7.9228162514264337593543950335", "0.3333333333333333333333333333",
        "9007199254740993", "1.00000000000000011102230246251565",
    ];
    for text in texts {
        let decimal = Decimal::parse(text).unwrap();
        let expected: f64 = text.parse().unwrap();
        assert_eq!(Float64::of_decimal(decimal), of(expected), "{text}");
    }
}

#[test]
fn smaller_decimals_do_not_become_larger_numbers() {
    let a = Decimal::parse("0.9899999999999999999999999999").unwrap();
    let b = Decimal::parse("0.99").unwrap();
    assert!(a.less(b));
    assert!(Float64::of_decimal(b).at_least(Float64::of_decimal(a)));
}

#[test]
fn one_leaves_a_number_as_it_is() {
    let x = of(33.333333333333336);
    assert_eq!(x.times(of(1.0)), x);
    assert_eq!(x.minus(x.times(of(1.0))), of(0.0));
    assert!(x.at_least(x.times(of(0.5))));
}
