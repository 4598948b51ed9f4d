use gettype::text::{decimal_string, lower_eq, str_eq, trim_str, zero_padded_string};

#[test]
fn trim_matches_std() {
    for s in ["  a b  ", "\t\n x\u{a0}", "", "   ", "\u{3000}ahoj\u{2029}", "no-space"] {
        assert_eq!(trim_str(s), s.trim());
    }
}

#[test]
fn decimal_rendering() {
    assert_eq!(decimal_string(0), "0");
    assert_eq!(decimal_string(7), "7");
    assert_eq!(decimal_string(1_700_000_000_123), "1700000000123");
    assert_eq!(decimal_string(u128::MAX), u128::MAX.to_string());
    assert_eq!(zero_padded_string(5, 3), "005");
    assert_eq!(zero_padded_string(1234, 2), "1234");
}

#[test]
fn comparisons() {
    assert!(lower_eq("SpAcE", "space"));
    assert!(!lower_eq("spaces", "space"));
    assert!(str_eq("toggle", "toggle"));
    assert!(!str_eq("Toggle", "toggle"));
}
