use lenso_runtime::text::{parse_u64, print_u128};

#[test]
fn printed_numbers_read_back() {
    assert_eq!(print_u128(0), "0");
    assert_eq!(print_u128(1_234_567), "1234567");
    assert_eq!(parse_u64("+18446744073709551615"), Some(u64::MAX));
    assert_eq!(parse_u64("18446744073709551616"), None);
    assert_eq!(parse_u64(""), None);
    assert_eq!(parse_u64("+"), None);
    assert_eq!(parse_u64("-1"), None);
}
