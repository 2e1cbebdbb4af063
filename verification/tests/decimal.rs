use cert_machine::decimal::{chars_of, decimal_string, parse_u32, parse_u32_in, push_decimal};

#[test]
fn writes_numbers_without_leading_zeros() {
    assert_eq!(decimal_string(0), "0");
    assert_eq!(decimal_string(7), "7");
    assert_eq!(decimal_string(10), "10");
    assert_eq!(decimal_string(109), "109");
    assert_eq!(decimal_string(4294967295), "4294967295");
}

#[test]
fn push_decimal_appends() {
    let mut text = String::from("admin-");
    push_decimal(&mut text, 42);
    assert_eq!(text, "admin-42");
    push_decimal(&mut text, 0);
    assert_eq!(text, "admin-420");
}

#[test]
fn reads_numerals() {
    assert_eq!(parse_u32("0"), Some(0));
    assert_eq!(parse_u32("7"), Some(7));
    assert_eq!(parse_u32("007"), Some(7));
    assert_eq!(parse_u32("+5"), Some(5));
    assert_eq!(parse_u32("4294967295"), Some(4294967295));
    assert_eq!(parse_u32("+0004294967295"), Some(4294967295));
}

#[test]
fn refuses_what_is_no_numeral() {
    assert_eq!(parse_u32(""), None);
    assert_eq!(parse_u32("+"), None);
    assert_eq!(parse_u32("-1"), None);
    assert_eq!(parse_u32("1 "), None);
    assert_eq!(parse_u32(" 1"), None);
    assert_eq!(parse_u32("1+"), None);
    assert_eq!(parse_u32("12a"), None);
    assert_eq!(parse_u32("0x10"), None);
    assert_eq!(parse_u32("\u{662}"), None);
}

#[test]
fn refuses_numbers_above_u32() {
    assert_eq!(parse_u32("4294967296"), None);
    assert_eq!(parse_u32("99999999999"), None);
    assert_eq!(parse_u32("184467440737095516160"), None);
}

#[test]
fn what_is_written_reads_back() {
    for n in [0u32, 1, 9, 10, 99, 100, 65535, 4294967294, 4294967295] {
        assert_eq!(parse_u32(&decimal_string(n)), Some(n));
    }
}

#[test]
fn agrees_with_std_on_samples() {
    let samples = ["", "+", "0", "+0", "00", "12", "+12", "-12", "4294967295", "4294967296", "1_0", "1e3"];
    for s in samples.iter() {
        assert_eq!(parse_u32(s), s.parse::<u32>().ok(), "{:?}", s);
    }
}

#[test]
fn reads_a_part_of_a_text() {
    let chars = chars_of("ab123cd");
    assert_eq!(chars.len(), 7);
    assert_eq!(parse_u32_in(&chars, 2, 5), Some(123));
    assert_eq!(parse_u32_in(&chars, 2, 6), None);
    assert_eq!(parse_u32_in(&chars, 3, 3), None);
    assert_eq!(parse_u32_in(&chars, 4, 5), Some(3));
}

#[test]
fn no_numeral_outside_the_text() {
    let chars = chars_of("123");
    assert_eq!(parse_u32_in(&chars, 0, 3), Some(123));
    assert_eq!(parse_u32_in(&chars, 0, 4), None);
    assert_eq!(parse_u32_in(&chars, 2, 1), None);
    assert_eq!(parse_u32_in(&chars, 4, 4), None);
    assert_eq!(parse_u32_in(&Vec::new(), 0, 0), None);
}

#[test]
fn chars_of_keeps_every_character() {
    assert_eq!(chars_of("a\u{e9}\u{4e2d}"), vec!['a', '\u{e9}', '\u{4e2d}']);
    assert_eq!(chars_of(""), Vec::<char>::new());
}
