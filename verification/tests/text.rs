use bookfetch::text::{decimal_string, parse_u16, parse_usize, stem_of, text_contains};

#[test]
fn parse_u16_reads_plain_digits() {
    assert_eq!(parse_u16("0"), Some(0));
    assert_eq!(parse_u16("007"), Some(7));
    assert_eq!(parse_u16("65535"), Some(65535));
}

#[test]
fn parse_u16_refuses_what_does_not_fit() {
    assert_eq!(parse_u16("65536"), None);
    assert_eq!(parse_u16("99999999999999999999999"), None);
}

#[test]
fn parse_u16_refuses_what_is_no_numeral() {
    assert_eq!(parse_u16(""), None);
    assert_eq!(parse_u16("+"), None);
    assert_eq!(parse_u16("-1"), None);
    assert_eq!(parse_u16("1a"), None);
    assert_eq!(parse_u16(" 1"), None);
    assert_eq!(parse_u16("\u{0661}"), None);
}

#[test]
fn parse_accepts_one_leading_plus() {
    assert_eq!(parse_u16("+12"), Some(12));
    assert_eq!(parse_u16("++12"), None);
    assert_eq!(parse_usize("+7"), Some(7));
}

#[test]
fn parse_agrees_with_std() {
    for s in ["0", "1", "+1", "-0", "010", "65535", "65536", "", "+", "1 ", "१"] {
        assert_eq!(parse_u16(s), s.parse::<u16>().ok());
        assert_eq!(parse_usize(s), s.parse::<usize>().ok());
    }
    let max = usize::MAX.to_string();
    assert_eq!(parse_usize(&max), Some(usize::MAX));
    let over = format!("{}0", max);
    assert_eq!(parse_usize(&over), None);
}

#[test]
fn decimal_string_writes_shortest_numeral() {
    assert_eq!(decimal_string(0), "0");
    assert_eq!(decimal_string(7), "7");
    assert_eq!(decimal_string(10), "10");
    assert_eq!(decimal_string(1234567890), "1234567890");
    assert_eq!(decimal_string(usize::MAX), usize::MAX.to_string());
}

#[test]
fn decimal_string_reads_back() {
    for n in [0usize, 1, 9, 10, 99, 100, 65535, 65536, 4000000000] {
        assert_eq!(parse_usize(&decimal_string(n)), Some(n));
    }
}

#[test]
fn text_contains_finds_marker() {
    assert!(text_contains("<svg xmlns='x'>", "svg"));
    assert!(text_contains("svg", "svg"));
    assert!(text_contains("ssvg", "svg"));
    assert!(text_contains("svsvg", "svg"));
    assert!(!text_contains("sv g", "svg"));
    assert!(!text_contains("sv", "svg"));
    assert!(!text_contains("", "svg"));
    assert!(text_contains("", ""));
    assert!(text_contains("abc", ""));
}

#[test]
fn stem_of_takes_last_segment_before_first_dot() {
    assert_eq!(stem_of("img/7.png"), "7");
    assert_eq!(stem_of("shade/2.png"), "2");
    assert_eq!(stem_of("img/sub/12.tar.gz"), "12");
    assert_eq!(stem_of("img/"), "");
    assert_eq!(stem_of("img/.png"), "");
    assert_eq!(stem_of("7"), "7");
    assert_eq!(stem_of("a.b/7"), "7");
    assert_eq!(stem_of(""), "");
}
