use drpc::text::{i128_to_text, u128_to_text, u32_to_text};

#[test]
fn numbers_are_written_in_decimal_digits() {
    assert_eq!(u32_to_text(0), "0");
    assert_eq!(u32_to_text(9), "9");
    assert_eq!(u32_to_text(10), "10");
    assert_eq!(u32_to_text(1203405), "1203405");
    assert_eq!(u32_to_text(u32::MAX), "4294967295");
    assert_eq!(u128_to_text(u128::MAX), u128::MAX.to_string());
}

#[test]
fn negative_numbers_get_a_minus_sign() {
    assert_eq!(i128_to_text(0), "0");
    assert_eq!(i128_to_text(-1), "-1");
    assert_eq!(i128_to_text(-9876543210), "-9876543210");
    assert_eq!(i128_to_text(i128::MAX), i128::MAX.to_string());
    assert_eq!(i128_to_text(i128::MIN), i128::MIN.to_string());
}
