use zeta_executor::num::double::{value_or_zero, Double};

fn bits(x: f64) -> Double {
    Double::from_bits(x.to_bits())
}

fn next(state: &mut u64) -> u64 {
    *state ^= *state << 13;
    *state ^= *state >> 7;
    *state ^= *state << 17;
    *state
}

/// Patterns at the edges, small decimals, whole numbers and arbitrary patterns.
fn samples() -> Vec<f64> {
    let mut out = vec![
        0.0,
        -0.0,
        1.0,
        -1.0,
        0.1,
        0.2,
        0.3,
        0.05,
        0.25,
        0.16,
        0.5,
        1.5,
        2.5,
        0.125,
        0.375,
        100.0,
        1000.0,
        1e9,
        1e15,
        1e16,
        1e22,
        1e23,
        1e300,
        -1e300,
        f64::MAX,
        f64::MIN,
        f64::MIN_POSITIVE,
        5e-324,
        -5e-324,
        1e-310,
        2.2250738585072011e-308,
        f64::INFINITY,
        f64::NEG_INFINITY,
        f64::NAN,
        f64::EPSILON,
        1.0 + f64::EPSILON,
        4503599627370496.5,
        9007199254740993.0,
        123456.789,
        0.005,
        0.015,
        0.045,
        1.005,
        2.675,
    ];
    let mut state = 0x9e37_79b9_7f4a_7c15u64;
    for _ in 0..150 {
        out.push(f64::from_bits(next(&mut state)));
        let small = (next(&mut state) % 200_000) as f64 / 100.0;
        out.push(small);
        out.push(-small / 7.0);
        out.push((next(&mut state) % 1000) as f64);
    }
    out
}

fn agree(what: &str, x: f64, y: f64, got: Double, want: f64) {
    let got = f64::from_bits(got.bits);
    if want.is_nan() {
        assert!(got.is_nan(), "{what} of {x:e} and {y:e}");
    } else {
        assert_eq!(got.to_bits(), want.to_bits(), "{what} of {x:e} and {y:e}");
    }
}

#[test]
fn sums_agree_with_the_hardware() {
    let all = samples();
    for &x in &all {
        for &y in &all {
            agree("sum", x, y, bits(x).plus(bits(y)), x + y);
        }
    }
}

#[test]
fn differences_agree_with_the_hardware() {
    let all = samples();
    for &x in &all {
        for &y in &all {
            agree("difference", x, y, bits(x).minus(bits(y)), x - y);
        }
    }
}

#[test]
fn products_agree_with_the_hardware() {
    let all = samples();
    for &x in &all {
        for &y in &all {
            agree("product", x, y, bits(x).times(bits(y)), x * y);
        }
    }
}

#[test]
fn quotients_agree_with_the_hardware() {
    let all = samples();
    for &x in &all {
        for &y in &all {
            agree("quotient", x, y, bits(x).over(bits(y)), x / y);
        }
    }
}

#[test]
fn comparisons_agree_with_the_hardware() {
    let all = samples();
    for &x in &all {
        for &y in &all {
            assert_eq!(bits(x).le(bits(y)), x <= y, "{x:e} <= {y:e}");
            assert_eq!(bits(x).lt(bits(y)), x < y, "{x:e} < {y:e}");
        }
    }
}

#[test]
fn texts_agree_with_the_formatter() {
    for x in samples() {
        for places in 0..=4u32 {
            let want = format!("{:.*}", places as usize, x);
            assert_eq!(bits(x).fixed_text(places), want, "{x:e} with {places}");
        }
    }
}

#[test]
fn ties_in_texts_go_to_even() {
    assert_eq!(bits(0.5).fixed_text(0), "0");
    assert_eq!(bits(1.5).fixed_text(0), "2");
    assert_eq!(bits(2.5).fixed_text(0), "2");
    assert_eq!(bits(0.125).fixed_text(2), "0.12");
    assert_eq!(bits(0.375).fixed_text(2), "0.38");
}

#[test]
fn texts_of_the_unusual() {
    assert_eq!(bits(f64::NAN).fixed_text(2), "NaN");
    assert_eq!(bits(f64::INFINITY).fixed_text(2), "inf");
    assert_eq!(bits(f64::NEG_INFINITY).fixed_text(2), "-inf");
    assert_eq!(bits(-0.0).fixed_text(2), "-0.00");
    assert_eq!(bits(1e22).fixed_text(1), "10000000000000000000000.0");
}

#[test]
fn whole_numbers_agree_with_casts() {
    for x in samples() {
        assert_eq!(bits(x).round_u64(), x.round() as u64, "{x:e}");
        assert_eq!(bits(x).trunc_u32(), x as u32, "{x:e}");
    }
    assert_eq!(bits(2.5).round_u64(), 3);
    assert_eq!(bits(450_000.4).round_u64(), 450_000);
    assert_eq!(bits(1e30).round_u64(), u64::MAX);
    assert_eq!(bits(-3.0).round_u64(), 0);
    assert_eq!(bits(3.99).trunc_u32(), 3);
}

#[test]
fn whole_numbers_convert_like_casts() {
    let mut state = 7u64;
    for _ in 0..2000 {
        let n = next(&mut state);
        assert_eq!(Double::from_u64(n).bits, (n as f64).to_bits());
        assert_eq!(Double::from_i64(n as i64).bits, (n as i64 as f64).to_bits());
        let small = n >> (n % 64);
        assert_eq!(Double::from_u64(small).bits, (small as f64).to_bits());
    }
    assert_eq!(Double::from_i64(i64::MIN).bits, (i64::MIN as f64).to_bits());
    assert_eq!(Double::from_u64(u64::MAX).bits, (u64::MAX as f64).to_bits());
}

#[test]
fn hundredths_are_decimal_literals() {
    assert_eq!(Double::hundredths(5).bits, 0.05f64.to_bits());
    assert_eq!(Double::hundredths(16).bits, 0.16f64.to_bits());
    assert_eq!(Double::hundredths(-16).bits, (-0.16f64).to_bits());
    assert_eq!(Double::hundredths(25).bits, 0.25f64.to_bits());
    assert_eq!(Double::hundredths(85).bits, 0.85f64.to_bits());
    for n in -300..300i64 {
        let literal: f64 = format!("{n}e-2").parse().unwrap();
        if n != 0 {
            assert_eq!(Double::hundredths(n).bits, literal.to_bits());
        }
    }
}

#[test]
fn signs() {
    assert_eq!(bits(1.5).negated().bits, (-1.5f64).to_bits());
    assert_eq!(bits(0.0).negated().bits, (-0.0f64).to_bits());
    assert_eq!(bits(-2.0).abs().bits, 2.0f64.to_bits());
    assert!(bits(-0.0).is_negative());
    assert!(bits(f64::NAN).is_nan());
    assert!(!bits(f64::INFINITY).is_nan());
    assert_eq!(Double::zero().bits, 0);
}

#[test]
fn missing_numbers_are_zero() {
    assert_eq!(value_or_zero(None), Double::zero());
    assert_eq!(value_or_zero(Some(bits(3.0))), bits(3.0));
}
