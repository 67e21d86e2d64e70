use ralph::fmt::exit_code_to_string;
use ralph::fmt::i32_to_string;
use ralph::fmt::u32_to_string;
use ralph::fmt::u64_to_string;

#[test]
fn unsigned_decimal_rendering() {
    assert_eq!(u64_to_string(0), "0");
    assert_eq!(u64_to_string(7), "7");
    assert_eq!(u64_to_string(10), "10");
    assert_eq!(u64_to_string(1700000000), "1700000000");
    assert_eq!(u64_to_string(u64::MAX), "18446744073709551615");
    assert_eq!(u32_to_string(24), "24");
}

#[test]
fn signed_decimal_rendering() {
    assert_eq!(i32_to_string(0), "0");
    assert_eq!(i32_to_string(2), "2");
    assert_eq!(i32_to_string(-45), "-45");
    assert_eq!(i32_to_string(i32::MIN), "-2147483648");
}

#[test]
fn exit_code_rendering_matches_the_log_format() {
    assert_eq!(exit_code_to_string(&Some(0)), "Some(0)");
    assert_eq!(exit_code_to_string(&Some(2)), "Some(2)");
    assert_eq!(exit_code_to_string(&Some(-9)), "Some(-9)");
    assert_eq!(exit_code_to_string(&None), "None");
}
