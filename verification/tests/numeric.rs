use executor::numeric::{div_trunc, isqrt_u128, parse_decimal_micro, parse_u64_dec, u64_to_dec};

#[test]
fn decimal_rendering_and_parsing_round_trip() {
    for n in [0u64, 1, 9, 10, 120, 999_999, 1_500_000, u64::MAX] {
        let text = u64_to_dec(n);
        assert_eq!(parse_u64_dec(&text), Some(n));
    }
    assert_eq!(u64_to_dec(1_500_000), b"1500000".to_vec());
}

#[test]
fn numeral_parsing_rejects_junk_and_overflow() {
    assert_eq!(parse_u64_dec(b""), None);
    assert_eq!(parse_u64_dec(b"12a"), None);
    assert_eq!(parse_u64_dec(b"-1"), None);
    assert_eq!(parse_u64_dec(b"18446744073709551615"), Some(u64::MAX));
    assert_eq!(parse_u64_dec(b"18446744073709551616"), None);
}

#[test]
fn decimal_micro_parsing() {
    assert_eq!(parse_decimal_micro(b"0.5"), Some(500_000));
    assert_eq!(parse_decimal_micro(b"2"), Some(2_000_000));
    assert_eq!(parse_decimal_micro(b"2.0"), Some(2_000_000));
    assert_eq!(parse_decimal_micro(b"1.5"), Some(1_500_000));
    assert_eq!(parse_decimal_micro(b"99.0"), Some(99_000_000));
    assert_eq!(parse_decimal_micro(b"0.000001"), Some(1));
    assert_eq!(parse_decimal_micro(b"10000"), Some(10_000_000_000));
    // More than six fractional places, or junk, is refused.
    assert_eq!(parse_decimal_micro(b"0.0000001"), None);
    assert_eq!(parse_decimal_micro(b"1."), None);
    assert_eq!(parse_decimal_micro(b".5"), None);
    assert_eq!(parse_decimal_micro(b"abc"), None);
}

#[test]
fn integer_square_root_brackets() {
    assert_eq!(isqrt_u128(0), 0);
    assert_eq!(isqrt_u128(1), 1);
    assert_eq!(isqrt_u128(3), 1);
    assert_eq!(isqrt_u128(4), 2);
    assert_eq!(isqrt_u128(1_000_000_000_000), 1_000_000);
    assert_eq!(isqrt_u128(999_999_999_999), 999_999);
}

#[test]
fn truncating_division_rounds_toward_zero() {
    assert_eq!(div_trunc(20, 21), 0);
    assert_eq!(div_trunc(-20, 21), 0);
    assert_eq!(div_trunc(-981_000, 21), -46_714);
    assert_eq!(div_trunc(42, 21), 2);
}
