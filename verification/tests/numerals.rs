use ucelofka::numeral::{parse_number, print_number};

#[test]
fn numerals_are_read() {
    assert_eq!(parse_number("0"), Some(0));
    assert_eq!(parse_number("7"), Some(7));
    assert_eq!(parse_number("2020001"), Some(2020001));
    assert_eq!(parse_number("007"), Some(7));
    assert_eq!(parse_number("18446744073709551615"), Some(u64::MAX));
}

#[test]
fn what_is_no_numeral_is_refused() {
    assert_eq!(parse_number(""), None);
    assert_eq!(parse_number("-1"), None);
    assert_eq!(parse_number("+1"), None);
    assert_eq!(parse_number("1.0"), None);
    assert_eq!(parse_number("12a"), None);
    assert_eq!(parse_number(" 1"), None);
    assert_eq!(parse_number("\u{661}"), None);
}

#[test]
fn numerals_too_large_are_refused() {
    assert_eq!(parse_number("18446744073709551616"), None);
    assert_eq!(parse_number("99999999999999999999"), None);
    assert_eq!(parse_number("184467440737095516150"), None);
}

#[test]
fn numbers_are_written_without_leading_zeros() {
    assert_eq!(print_number(0), "0");
    assert_eq!(print_number(9), "9");
    assert_eq!(print_number(10), "10");
    assert_eq!(print_number(2020001), "2020001");
    assert_eq!(print_number(u64::MAX), "18446744073709551615");
}

#[test]
fn written_numbers_are_read_back() {
    for n in [0u64, 1, 9, 10, 99, 100, 12345, u64::MAX - 1, u64::MAX] {
        assert_eq!(parse_number(&print_number(n)), Some(n));
    }
}
