use canvas_mirror::text::{expected_size, parse_u64, render_decimal};

#[test]
fn renders_decimal_numerals() {
    assert_eq!(render_decimal(0), "0");
    assert_eq!(render_decimal(7), "7");
    assert_eq!(render_decimal(10), "10");
    assert_eq!(render_decimal(307), "307");
    assert_eq!(render_decimal(4294967295), "4294967295");
    assert_eq!(render_decimal(u64::MAX), "18446744073709551615");
}

#[test]
fn parses_plain_numbers() {
    assert_eq!(parse_u64("0"), Some(0));
    assert_eq!(parse_u64("100"), Some(100));
    assert_eq!(parse_u64("007"), Some(7));
    assert_eq!(parse_u64("+42"), Some(42));
    assert_eq!(parse_u64("18446744073709551615"), Some(u64::MAX));
}

#[test]
fn rejects_what_is_no_number() {
    assert_eq!(parse_u64(""), None);
    assert_eq!(parse_u64("+"), None);
    assert_eq!(parse_u64("-1"), None);
    assert_eq!(parse_u64("++1"), None);
    assert_eq!(parse_u64("1 "), None);
    assert_eq!(parse_u64(" 1"), None);
    assert_eq!(parse_u64("1_000"), None);
    assert_eq!(parse_u64("12a"), None);
    assert_eq!(parse_u64("1.5"), None);
    assert_eq!(parse_u64("\u{0661}"), None);
}

#[test]
fn rejects_numbers_that_do_not_fit() {
    assert_eq!(parse_u64("18446744073709551616"), None);
    assert_eq!(parse_u64("99999999999999999999"), None);
    assert_eq!(parse_u64("184467440737095516150"), None);
}

#[test]
fn parsing_agrees_with_the_standard_library() {
    let texts = [
        "0", "1", "+1", "-0", "00", "", "+", "9223372036854775808", "18446744073709551615",
        "18446744073709551616", "abc", "12 ", "0x10", "+-1", "1e3",
    ];
    for text in texts {
        assert_eq!(parse_u64(text), text.parse::<u64>().ok());
    }
}

#[test]
fn rendering_and_parsing_round_trip() {
    for n in [0u64, 1, 9, 10, 99, 100, 12345, u64::MAX - 1, u64::MAX] {
        assert_eq!(parse_u64(&render_decimal(n)), Some(n));
        assert_eq!(render_decimal(n), n.to_string());
    }
}

#[test]
fn expected_size_defaults_to_zero() {
    assert_eq!(expected_size(Some("100")), 100);
    assert_eq!(expected_size(None), 0);
    assert_eq!(expected_size(Some("")), 0);
    assert_eq!(expected_size(Some("many")), 0);
    assert_eq!(expected_size(Some("18446744073709551616")), 0);
}
