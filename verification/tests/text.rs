use thermite::text::{parse_decimal, same_text};

#[test]
fn decimal_numbers_are_read() {
    assert_eq!(parse_decimal("0"), Some(0));
    assert_eq!(parse_decimal("7"), Some(7));
    assert_eq!(parse_decimal("512"), Some(512));
    assert_eq!(parse_decimal("007"), Some(7));
    assert_eq!(parse_decimal("16384"), Some(16384));
}

#[test]
fn a_leading_plus_sign_is_accepted() {
    assert_eq!(parse_decimal("+7"), Some(7));
    assert_eq!(parse_decimal("+0"), Some(0));
    assert_eq!(parse_decimal("++7"), None);
    assert_eq!(parse_decimal("7+"), None);
}

#[test]
fn text_that_is_no_number_is_refused() {
    assert_eq!(parse_decimal(""), None);
    assert_eq!(parse_decimal("+"), None);
    assert_eq!(parse_decimal("-"), None);
    assert_eq!(parse_decimal("-1"), None);
    assert_eq!(parse_decimal("12a"), None);
    assert_eq!(parse_decimal("a12"), None);
    assert_eq!(parse_decimal(" 1"), None);
    assert_eq!(parse_decimal("1 "), None);
    assert_eq!(parse_decimal("1_000"), None);
    assert_eq!(parse_decimal("0x10"), None);
    assert_eq!(parse_decimal("١٢"), None);
}

#[test]
fn the_largest_number_is_read_and_the_next_is_refused() {
    assert_eq!(parse_decimal("18446744073709551615"), Some(u64::MAX));
    assert_eq!(parse_decimal("18446744073709551616"), None);
    assert_eq!(parse_decimal("18446744073709551620"), None);
    assert_eq!(parse_decimal("99999999999999999999"), None);
    assert_eq!(parse_decimal("000000000000000000000000018446744073709551615"), Some(u64::MAX));
    assert_eq!(parse_decimal("184467440737095516150"), None);
    assert_eq!(parse_decimal("18446744073709551616x"), None);
}

#[test]
fn reading_agrees_with_the_standard_parser() {
    let samples = [
        "", "+", "-", "0", "1", "+1", "-1", "10", "0010", "4096", " 4096", "4096 ", "4 096",
        "18446744073709551615", "18446744073709551616", "+18446744073709551615", "1e3", "१", "٣",
        "12345678901234567890", "99999999999999999999999", "+-1", "--1", "1.0",
    ];
    for s in samples {
        assert_eq!(parse_decimal(s), s.parse::<u64>().ok(), "text = {:?}", s);
    }
    for n in 0u64..2000 {
        let s = format!("{}", n * 7919);
        assert_eq!(parse_decimal(&s), Some(n * 7919));
    }
}

#[test]
fn texts_are_compared_by_their_characters() {
    assert!(same_text("", ""));
    assert!(same_text("random", "random"));
    assert!(!same_text("random", "random100"));
    assert!(!same_text("random100", "random"));
    assert!(!same_text("randon", "random"));
    assert!(!same_text("", "x"));
    assert!(same_text("zéro", "zéro"));
    assert!(!same_text("zéro", "zero"));
}
