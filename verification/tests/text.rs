use arino::text::{decimal, is_blank, plain, read_decimal};

#[test]
fn decimal_writes_single_digits() {
    assert_eq!(decimal(0), "0");
    assert_eq!(decimal(7), "7");
    assert_eq!(decimal(9), "9");
}

#[test]
fn decimal_writes_without_leading_zeros() {
    assert_eq!(decimal(10), "10");
    assert_eq!(decimal(200), "200");
    assert_eq!(decimal(1234567890), "1234567890");
    assert_eq!(decimal(u32::MAX), "4294967295");
}

#[test]
fn decimal_agrees_with_the_standard_library() {
    for n in [1u32, 11, 99, 100, 101, 65535, 65536, 999999999, 1000000000] {
        assert_eq!(decimal(n), n.to_string());
    }
}

#[test]
fn blank_is_nothing_but_white_space() {
    assert!(is_blank(""));
    assert!(is_blank(" "));
    assert!(is_blank(" \t\r\n"));
    assert!(is_blank("\u{a0}\u{2003}\u{3000}"));
    assert!(!is_blank("a"));
    assert!(!is_blank("  a  "));
    assert!(!is_blank("\u{200b}"));
}

#[test]
fn blank_agrees_with_trim() {
    for c in 0u32..0x3100 {
        if let Some(c) = char::from_u32(c) {
            let text = c.to_string();
            assert_eq!(is_blank(&text), text.trim().is_empty());
        }
    }
}

#[test]
fn plain_keeps_a_text_without_escapes() {
    assert_eq!(plain(""), "");
    assert_eq!(plain("flour"), "flour");
    assert_eq!(plain("cr\u{e8}me br\u{fb}l\u{e9}e \u{1F36E}"), "cr\u{e8}me br\u{fb}l\u{e9}e \u{1F36E}");
    assert_eq!(plain("a\nb\tc"), "a\nb\tc");
}

#[test]
fn plain_replaces_each_escape() {
    assert_eq!(plain("\u{1b}"), "\u{fffd}");
    assert_eq!(plain("\u{1b}\u{1b}"), "\u{fffd}\u{fffd}");
    assert_eq!(plain("a\u{1b}[1mb\u{1b}"), "a\u{fffd}[1mb\u{fffd}");
    assert_eq!(plain("\u{e9}\u{1b}\u{e9}"), "\u{e9}\u{fffd}\u{e9}");
}

#[test]
fn numerals_are_read() {
    assert_eq!(read_decimal("0"), Some(0));
    assert_eq!(read_decimal("7"), Some(7));
    assert_eq!(read_decimal("200"), Some(200));
    assert_eq!(read_decimal("007"), Some(7));
    assert_eq!(read_decimal("+15"), Some(15));
    assert_eq!(read_decimal("4294967295"), Some(u32::MAX));
    assert_eq!(read_decimal("0000000004294967295"), Some(u32::MAX));
}

#[test]
fn what_is_no_numeral_is_not_read() {
    for text in ["", "+", "-", "-1", "++1", "1+", " 1", "1 ", "1.5", "1e3", "abc", "12a", "\u{661}", "0x10"] {
        assert_eq!(read_decimal(text), None);
    }
}

#[test]
fn numbers_that_do_not_fit_are_not_read() {
    assert_eq!(read_decimal("4294967296"), None);
    assert_eq!(read_decimal("4294967300"), None);
    assert_eq!(read_decimal("99999999999999999999999999"), None);
    assert_eq!(read_decimal("+42949672950"), None);
}

#[test]
fn reading_agrees_with_the_standard_library() {
    for text in ["0", "1", "+1", "-0", "+0", "00", "123456", "4294967295", "4294967296", "", "+", "12 ", "1_000"] {
        assert_eq!(read_decimal(text), text.parse::<u32>().ok());
    }
}

#[test]
fn written_number_is_read_back() {
    for n in [0u32, 1, 9, 10, 99, 100, 12345, 4294967294, u32::MAX] {
        assert_eq!(read_decimal(&decimal(n)), Some(n));
    }
}
