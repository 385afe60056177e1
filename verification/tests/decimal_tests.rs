use presence::decimal::{format_decimal, parse_decimal};

#[test]
fn parses_plain_digits() {
    assert_eq!(parse_decimal("0"), Some(0));
    assert_eq!(parse_decimal("7"), Some(7));
    assert_eq!(parse_decimal("42"), Some(42));
    assert_eq!(parse_decimal("1700000000"), Some(1_700_000_000));
}

#[test]
fn parses_signs() {
    assert_eq!(parse_decimal("-17"), Some(-17));
    assert_eq!(parse_decimal("+5"), Some(5));
    assert_eq!(parse_decimal("-0"), Some(0));
    assert_eq!(parse_decimal("+0"), Some(0));
}

#[test]
fn parses_leading_zeros() {
    assert_eq!(parse_decimal("007"), Some(7));
    assert_eq!(parse_decimal("-007"), Some(-7));
    assert_eq!(parse_decimal("0000000000000000000000000000000000012"), Some(12));
}

#[test]
fn rejects_texts_without_digits() {
    assert_eq!(parse_decimal(""), None);
    assert_eq!(parse_decimal("-"), None);
    assert_eq!(parse_decimal("+"), None);
    assert_eq!(parse_decimal("present"), None);
}

#[test]
fn rejects_stray_characters() {
    assert_eq!(parse_decimal("12a"), None);
    assert_eq!(parse_decimal("a12"), None);
    assert_eq!(parse_decimal(" 12"), None);
    assert_eq!(parse_decimal("12 "), None);
    assert_eq!(parse_decimal("1 2"), None);
    assert_eq!(parse_decimal("--1"), None);
    assert_eq!(parse_decimal("+-1"), None);
    assert_eq!(parse_decimal("1-"), None);
    assert_eq!(parse_decimal("1.5"), None);
    assert_eq!(parse_decimal("0x10"), None);
}

#[test]
fn rejects_characters_outside_ascii() {
    assert_eq!(parse_decimal("\u{ff11}\u{ff12}"), None);
    assert_eq!(parse_decimal("12\u{e9}"), None);
    assert_eq!(parse_decimal("\u{2212}5"), None);
}

#[test]
fn parses_the_ends_of_the_range() {
    assert_eq!(parse_decimal("9223372036854775807"), Some(i64::MAX));
    assert_eq!(parse_decimal("+9223372036854775807"), Some(i64::MAX));
    assert_eq!(parse_decimal("-9223372036854775808"), Some(i64::MIN));
    assert_eq!(parse_decimal("-9223372036854775807"), Some(i64::MIN + 1));
}

#[test]
fn rejects_numbers_beyond_the_range() {
    assert_eq!(parse_decimal("9223372036854775808"), None);
    assert_eq!(parse_decimal("-9223372036854775809"), None);
    assert_eq!(parse_decimal("18446744073709551616"), None);
    assert_eq!(parse_decimal("99999999999999999999999999999999999999999999"), None);
    assert_eq!(parse_decimal("-99999999999999999999999999999999999999999999"), None);
    assert_eq!(parse_decimal("340282366920938463463374607431768211456"), None);
}

#[test]
fn rejects_a_letter_after_an_overflow() {
    assert_eq!(parse_decimal("99999999999999999999x"), None);
}

#[test]
fn formats_small_numbers() {
    assert_eq!(format_decimal(0), "0");
    assert_eq!(format_decimal(5), "5");
    assert_eq!(format_decimal(10), "10");
    assert_eq!(format_decimal(80), "80");
    assert_eq!(format_decimal(1_700_000_000), "1700000000");
}

#[test]
fn formats_negative_numbers() {
    assert_eq!(format_decimal(-1), "-1");
    assert_eq!(format_decimal(-17), "-17");
    assert_eq!(format_decimal(-100), "-100");
}

#[test]
fn formats_the_ends_of_the_range() {
    assert_eq!(format_decimal(i64::MAX), "9223372036854775807");
    assert_eq!(format_decimal(i64::MIN), "-9223372036854775808");
}

#[test]
fn formatting_agrees_with_the_standard_library() {
    let samples: [i64; 9] = [0, 9, 10, 99, 100, 101, -9, -10, 123_456_789_012];
    for v in samples {
        assert_eq!(format_decimal(v), format!("{}", v));
    }
}

#[test]
fn reading_a_written_number_gives_it_back() {
    for v in -1200i64..1200 {
        assert_eq!(parse_decimal(&format_decimal(v)), Some(v));
    }
    for v in [i64::MIN, i64::MIN + 1, -1, 0, 1, i64::MAX - 1, i64::MAX] {
        assert_eq!(parse_decimal(&format_decimal(v)), Some(v));
    }
}

#[test]
fn distinct_numbers_are_written_differently() {
    let mut seen: Vec<String> = Vec::new();
    for v in -50i64..50 {
        let text = format_decimal(v);
        assert!(!seen.contains(&text));
        seen.push(text);
    }
}
