use stui::text::{
    decimal_string, join_items, nibble_to_hex, parse_unsigned_u128, push_decimal, push_hex_byte,
    split_lines, str_eq_ignore_ascii_case, str_equal, str_strip_prefix, trim,
};

#[test]
fn decimal_rendering() {
    assert_eq!(decimal_string(0), "0");
    assert_eq!(decimal_string(4242), "4242");
    assert_eq!(decimal_string(u128::MAX), u128::MAX.to_string());
    let mut s = "n=".to_string();
    push_decimal(&mut s, 907);
    assert_eq!(s, "n=907");
}

#[test]
fn unsigned_parsing_follows_str_parse() {
    assert_eq!(parse_unsigned_u128("42", 100), Some(42));
    assert_eq!(parse_unsigned_u128("+42", 100), Some(42));
    assert_eq!(parse_unsigned_u128("100", 100), Some(100));
    assert_eq!(parse_unsigned_u128("101", 100), None);
    assert_eq!(parse_unsigned_u128("", 100), None);
    assert_eq!(parse_unsigned_u128("+", 100), None);
    assert_eq!(parse_unsigned_u128("4a", 100), None);
    assert_eq!(parse_unsigned_u128("-1", 100), None);
    assert_eq!(parse_unsigned_u128(" 1", 100), None);
    assert_eq!(parse_unsigned_u128("007", 100), Some(7));
    let max = u128::MAX.to_string();
    assert_eq!(parse_unsigned_u128(&max, u128::MAX), Some(u128::MAX));
    assert_eq!(parse_unsigned_u128("4294967295", u32::MAX as u128), Some(u32::MAX as u128));
    assert_eq!(parse_unsigned_u128("4294967296", u32::MAX as u128), None);
    for s in ["0", "+9", "123456789", "x", "1 2"] {
        assert_eq!(parse_unsigned_u128(s, u32::MAX as u128), s.parse::<u32>().ok().map(|v| v as u128));
    }
}

#[test]
fn hex_digits() {
    assert_eq!(nibble_to_hex(0), '0');
    assert_eq!(nibble_to_hex(9), '9');
    assert_eq!(nibble_to_hex(10), 'a');
    assert_eq!(nibble_to_hex(15), 'f');
    let mut s = String::new();
    push_hex_byte(&mut s, 0x0a);
    push_hex_byte(&mut s, 0xf5);
    assert_eq!(s, "0af5");
}

#[test]
fn trimming_matches_str_trim() {
    for s in [" \t x \n", "x", "", "   ", "\u{3000}a b\u{a0}", "\r\nline\r\n"] {
        assert_eq!(trim(s), s.trim());
    }
}

#[test]
fn comparisons_and_prefixes() {
    assert!(str_eq_ignore_ascii_case("InSpEcT", "inspect"));
    assert!(!str_eq_ignore_ascii_case("inspect ", "inspect"));
    assert!(!str_eq_ignore_ascii_case("É", "é"));
    assert!(str_equal("abc", "abc"));
    assert!(!str_equal("abc", "abd"));
    assert_eq!(str_strip_prefix("set-behavior idle", "set-behavior "), Some("idle"));
    assert_eq!(str_strip_prefix("set-behavior", "set-behavior "), None);
    assert_eq!(str_strip_prefix("abc", ""), Some("abc"));
}

#[test]
fn lines_match_str_lines() {
    for s in ["a\r\nb\n\nc", "a\n", "", "\n", "x\r", "one\ntwo\r\n"] {
        let ours = split_lines(s);
        let std_lines: Vec<String> = s.lines().map(|l| l.to_string()).collect();
        assert_eq!(ours, std_lines);
    }
}

#[test]
fn joining() {
    let items = vec!["a".to_string(), "b".to_string(), "c".to_string()];
    assert_eq!(join_items(&items, ","), "a,b,c");
    assert_eq!(join_items(&vec![], ","), "");
    assert_eq!(join_items(&vec!["x".to_string()], "\n"), "x");
}
