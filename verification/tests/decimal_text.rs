use condor::decimal::{i32_to_decimal, u16_to_decimal};

#[test]
fn decimal_of_small_numbers() {
    assert_eq!(i32_to_decimal(0), "0");
    assert_eq!(i32_to_decimal(1), "1");
    assert_eq!(i32_to_decimal(9), "9");
    assert_eq!(i32_to_decimal(10), "10");
    assert_eq!(i32_to_decimal(1234), "1234");
}

#[test]
fn decimal_of_negative_numbers() {
    assert_eq!(i32_to_decimal(-1), "-1");
    assert_eq!(i32_to_decimal(-907), "-907");
}

#[test]
fn decimal_of_extremes_matches_to_string() {
    assert_eq!(i32_to_decimal(i32::MAX), i32::MAX.to_string());
    assert_eq!(i32_to_decimal(i32::MIN), i32::MIN.to_string());
    assert_eq!(u16_to_decimal(u16::MAX), "65535");
    assert_eq!(u16_to_decimal(8080), "8080");
}

#[test]
fn decimal_is_one_to_one_on_a_range() {
    let mut seen = std::collections::HashSet::new();
    for n in -1000..1000 {
        assert!(seen.insert(i32_to_decimal(n)));
    }
}
