use days::text::{decimal, magnitude, signed_decimal};

#[test]
fn decimal_writes_digits_without_leading_zeros() {
    assert_eq!(decimal(0), "0");
    assert_eq!(decimal(7), "7");
    assert_eq!(decimal(10), "10");
    assert_eq!(decimal(120), "120");
    assert_eq!(decimal(12419), "12419");
    assert_eq!(decimal(u64::MAX), "18446744073709551615");
}

#[test]
fn magnitude_drops_the_sign() {
    assert_eq!(magnitude(0), 0);
    assert_eq!(magnitude(5), 5);
    assert_eq!(magnitude(-5), 5);
    assert_eq!(magnitude(i64::MAX), 9_223_372_036_854_775_807);
    assert_eq!(magnitude(i64::MIN), 9_223_372_036_854_775_808);
}

#[test]
fn signed_decimal_puts_a_minus_before_negative_numbers() {
    assert_eq!(signed_decimal(0), "0");
    assert_eq!(signed_decimal(42), "42");
    assert_eq!(signed_decimal(-42), "-42");
    assert_eq!(signed_decimal(i64::MAX), "9223372036854775807");
    assert_eq!(signed_decimal(i64::MIN), "-9223372036854775808");
}
