use tikr_strategy::Decimal;

fn dec(text: &str) -> Decimal {
    let parsed = rust_decimal::Decimal::from_str_exact(text).unwrap();
    Decimal::from_i128_with_scale(parsed.mantissa(), parsed.scale())
}

#[test]
fn sum_is_exact_and_keeps_the_larger_scale() {
    let sum = dec("1.5").checked_add(dec("2.25")).unwrap();
    assert_eq!((sum.mantissa(), sum.scale()), (375, 2));
    assert_eq!(dec("0").checked_add(dec("2.50")).unwrap().scale(), 2);
    let kept = dec("2.50").checked_add(dec("0.000")).unwrap();
    assert_eq!((kept.mantissa(), kept.scale()), (250, 2));
}

#[test]
fn sum_past_the_largest_decimal_is_none() {
    let largest = dec("79228162514264337593543950335");
    assert!(largest.checked_add(Decimal::one()).is_none());
    assert!(largest.negate().checked_sub(Decimal::one()).is_none());
    assert!(largest.checked_mul(Decimal::from(2)).is_none());
    assert!(largest.checked_add(Decimal::zero()).is_some());
}

#[test]
fn rounded_sum_is_not_below_either_operand() {
    let large = dec("7922816251426433759354395033.4");
    let small = dec("0.01");
    let sum = large.checked_add(small).unwrap();
    assert!(sum >= large);
    assert!(sum >= small);
    let left = large.checked_sub(small).unwrap();
    assert!(left <= large);
    assert!(left >= Decimal::zero());
    assert!(large.checked_sub(small.negate()).unwrap() >= large);
}

#[test]
fn difference_may_be_negative() {
    let left = dec("1.5").checked_sub(dec("2.25")).unwrap();
    assert_eq!((left.mantissa(), left.scale()), (-75, 2));
    let turned = dec("0").checked_sub(dec("2.50")).unwrap();
    assert_eq!((turned.mantissa(), turned.scale()), (-250, 2));
}

#[test]
fn product_adds_the_scales() {
    let product = dec("1.5").checked_mul(dec("-2.25")).unwrap();
    assert_eq!((product.mantissa(), product.scale()), (-3375, 3));
    let nothing = dec("0.00").checked_mul(dec("2.25")).unwrap();
    assert_eq!((nothing.mantissa(), nothing.scale()), (0, 0));
}

#[test]
fn rounded_product_keeps_its_bounds() {
    let a = dec("0.0000000000000000000000000007");
    assert!(a.checked_mul(dec("1.1")).unwrap() >= a);
    assert!(a.checked_mul(dec("0.9")).unwrap() <= a);
    assert!(a.checked_mul(dec("-0.9")).unwrap() <= Decimal::zero());
}

#[test]
fn quotient_of_exact_and_inexact_operands() {
    assert_eq!(dec("6").checked_div(dec("4")), Some(dec("1.5")));
    let third = Decimal::one().checked_div(Decimal::from(3)).unwrap();
    assert_eq!(third, dec("0.3333333333333333333333333333"));
    assert!(Decimal::one().checked_div(Decimal::zero()).is_none());
    let nothing = dec("0.00").checked_div(dec("2.25")).unwrap();
    assert_eq!((nothing.mantissa(), nothing.scale()), (0, 0));
}

#[test]
fn comparisons_ignore_the_scale() {
    assert_eq!(dec("2.50"), dec("2.5"));
    assert!(dec("2.5").equals(dec("2.50")));
    assert!(!dec("2.5").same_digits(dec("2.50")));
    assert!(dec("-1.01") < dec("-1.001"));
    assert!(dec("1.01").is_more(dec("1.001")));
    assert!(dec("1.0").is_at_most(dec("1.00")));
    assert!(dec("1.0").is_at_least(dec("1.00")));
    assert!(dec("0.1").is_positive() && dec("-0.1").is_negative() && dec("0.0").is_zero());
}

#[test]
fn floor_and_ceil_of_either_sign() {
    assert_eq!(dec("2.75").floor(), Decimal::from(2));
    assert_eq!(dec("2.75").ceil(), Decimal::from(3));
    assert_eq!(dec("-2.75").floor(), Decimal::from(-3));
    assert_eq!(dec("-2.75").ceil(), Decimal::from(-2));
    assert_eq!(dec("-0.5").floor(), Decimal::from(-1));
    assert_eq!(dec("3.00").floor().scale(), 0);
    assert_eq!(dec("3.00").ceil().scale(), 0);
    assert_eq!(dec("0.00").floor().scale(), 0);
}

#[test]
fn rounding_takes_half_to_even() {
    assert_eq!(dec("2.5").round(), Decimal::from(2));
    assert_eq!(dec("3.5").round(), Decimal::from(4));
    assert_eq!(dec("-2.5").round(), Decimal::from(-2));
    assert_eq!(dec("2.51").round(), Decimal::from(3));
    assert_eq!(dec("1.2345").round_dp(2), dec("1.23"));
    assert_eq!(dec("1.235").round_dp(2), dec("1.24"));
    let short = dec("1.2").round_dp(3);
    assert_eq!((short.mantissa(), short.scale()), (12, 1));
}

#[test]
fn whole_parts_are_cut_toward_zero() {
    assert_eq!(dec("2.9").to_i64(), Some(2));
    assert_eq!(dec("-2.9").to_i64(), Some(-2));
    assert_eq!(dec("9223372036854775807.5").to_i64(), Some(i64::MAX));
    assert_eq!(dec("9223372036854775808").to_i64(), None);
    assert_eq!(dec("-9223372036854775808").to_i64(), Some(i64::MIN));
    assert_eq!(dec("2.9").to_u32(), Some(2));
    assert_eq!(dec("4294967295.9").to_u32(), Some(u32::MAX));
    assert_eq!(dec("4294967296").to_u32(), None);
    assert_eq!(dec("-1").to_u32(), None);
}

#[test]
fn normalizing_strips_trailing_zeros() {
    let plain = dec("2.500").normalize();
    assert_eq!((plain.mantissa(), plain.scale()), (25, 1));
    let whole = dec("100").normalize();
    assert_eq!((whole.mantissa(), whole.scale()), (100, 0));
    let hundred = dec("100.00").normalize();
    assert_eq!((hundred.mantissa(), hundred.scale()), (100, 0));
    assert_eq!(dec("0.000").normalize().scale(), 0);
    assert_eq!(dec("-2.500").normalize().mantissa(), -25);
}

#[test]
fn text_has_every_digit_of_the_scale() {
    assert_eq!(dec("2.50").to_text(), "2.50");
    assert_eq!(dec("-0.05").to_text(), "-0.05");
    assert_eq!(dec("120").to_text(), "120");
    assert_eq!(dec("0").to_text(), "0");
}

#[test]
fn smaller_and_larger_of_two() {
    assert_eq!(dec("1.5").min(dec("2")), dec("1.5"));
    assert_eq!(dec("1.5").max(dec("2")), dec("2"));
    assert_eq!(dec("2.0").max(dec("2")).scale(), 1);
    assert_eq!(dec("-2.5").abs(), dec("2.5"));
    assert_eq!(dec("2.5").negate(), dec("-2.5"));
}

#[test]
fn conversions_from_integers() {
    assert_eq!(Decimal::from(-7i32), dec("-7"));
    assert_eq!(Decimal::from(7u32), dec("7"));
    assert_eq!(Decimal::from(u64::MAX), dec("18446744073709551615"));
    assert_eq!(Decimal::from(7usize), Decimal::whole(7));
    assert_eq!(Decimal::new(-15, 1), dec("-1.5"));
}

#[test]
fn quotient_is_rounded_to_the_nearest_at_the_most_places() {
    let over = |a: &str, b: &str| dec(a).checked_div(dec(b));
    // At the 28th place, down, up and half to even.
    assert_eq!(over("2", "3"), Some(dec("0.6666666666666666666666666667")));
    assert_eq!(over("-2", "3"), Some(dec("-0.6666666666666666666666666667")));
    assert_eq!(over("2", "-3"), Some(dec("-0.6666666666666666666666666667")));
    assert_eq!(over("-2", "-3"), Some(dec("0.6666666666666666666666666667")));
    assert_eq!(
        over("0.0000000000000000000000000001", "2"),
        Some(Decimal::zero())
    );
    assert_eq!(
        over("0.0000000000000000000000000003", "2"),
        Some(dec("0.0000000000000000000000000002"))
    );
    // At the 28th or 29th digit, where that comes first.
    assert_eq!(
        over("10000000000000000000000000000", "3"),
        Some(dec("3333333333333333333333333333.3"))
    );
    assert_eq!(
        over("79228162514264337593543950335", "2"),
        Some(dec("39614081257132168796771975168"))
    );
    assert_eq!(
        over("200000000000000000000", "0.3"),
        Some(dec("666666666666666666666.66666667"))
    );
    // Exact where a decimal is the quotient, however the operands are written.
    assert_eq!(over("1.0000000000", "0.0000000008"), Some(dec("1250000000")));
    assert_eq!(over("0.3", "0.0000000000000000000000000003"), Some(dec("1000000000000000000000000000")));
    assert_eq!(over("39614081257132168796771975168", "0.5"), None);
}

#[test]
fn quotient_is_none_past_the_largest_decimal() {
    let largest = dec("79228162514264337593543950335");
    assert_eq!(largest.checked_div(Decimal::one()), Some(largest));
    assert_eq!(largest.checked_div(dec("0.9999999999999999999999999999")), None);
    assert_eq!(largest.checked_div(dec("0.1")), None);
    assert_eq!(Decimal::one().checked_div(dec("0.0000000000000000000000000001")), Some(dec("10000000000000000000000000000")));
    assert_eq!(dec("8").checked_div(dec("0.0000000000000000000000000001")), None);
    assert_eq!(dec("-8").checked_div(dec("0.0000000000000000000000000001")), None);
}

/// How far a quotient times the divisor is from the dividend.
fn off_by(a: Decimal, b: Decimal, quotient: Decimal) -> Decimal {
    quotient.checked_mul(b).unwrap().checked_sub(a).unwrap().abs()
}

#[test]
fn quotient_times_the_divisor_is_the_dividend_again() {
    let mut seed: u64 = 7;
    let mut next = || {
        seed = seed.wrapping_mul(6364136223846793005).wrapping_add(1442695040888963407);
        (seed >> 40) as i64 + 1
    };
    for _ in 0..2_000 {
        let a = Decimal::new(next(), (next() % 9) as u32);
        let b = Decimal::new(next(), (next() % 9) as u32);
        let quotient = a.checked_div(b).unwrap();
        assert!(off_by(a, b, quotient) <= Decimal::new(1, 18));
        // A multiple divided is exact.
        let multiple = a.checked_mul(b).unwrap();
        assert_eq!(multiple.checked_div(b), Some(a));
        assert_eq!(multiple.checked_div(a), Some(b));
    }
}

#[test]
fn rounding_stays_within_half_a_unit() {
    for n in -2_000i64..2_000 {
        let a = Decimal::new(n, 3);
        let off = a.round_dp(1).checked_sub(a).unwrap().abs();
        assert!(off <= dec("0.05"));
        let off = a.round().checked_sub(a).unwrap().abs();
        assert!(off <= dec("0.5"));
        assert_eq!(a.round_dp(1).round_dp(1), a.round_dp(1));
    }
}
