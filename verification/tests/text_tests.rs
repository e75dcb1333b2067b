use bday_bot::text::{
    append_decimal, chars_of, find_text, i32_text, parse_u32, rest_after, same_text,
};

#[test]
fn chars_of_keeps_every_character() {
    assert_eq!(chars_of("a!b"), vec!['a', '!', 'b']);
    assert_eq!(chars_of(""), Vec::<char>::new());
    assert_eq!(chars_of("n\u{e9}"), vec!['n', '\u{e9}']);
}

#[test]
fn find_text_gives_the_leftmost_place() {
    assert_eq!(find_text("say !bday and !bday", "!bday"), Some(4));
    assert_eq!(find_text("!bday", "!bday"), Some(0));
    assert_eq!(find_text("xx!bday", "!bday"), Some(2));
}

#[test]
fn find_text_counts_characters_not_bytes() {
    assert_eq!(find_text("\u{e9}\u{e9}!bday", "!bday"), Some(2));
}

#[test]
fn find_text_of_what_is_not_there() {
    assert_eq!(find_text("hello", "!bday"), None);
    assert_eq!(find_text("!bda", "!bday"), None);
    assert_eq!(find_text("", "!bday"), None);
    assert_eq!(find_text("!bdaX!bda", "!bday"), None);
}

#[test]
fn find_text_of_the_empty_text() {
    assert_eq!(find_text("abc", ""), Some(0));
    assert_eq!(find_text("", ""), Some(0));
}

#[test]
fn rest_after_gives_what_follows_the_first() {
    assert_eq!(rest_after("!bday pog", "!bday"), Some(" pog"));
    assert_eq!(rest_after("a !bday b !bday c", "!bday"), Some(" b !bday c"));
    assert_eq!(rest_after("!bday", "!bday"), Some(""));
    assert_eq!(rest_after("\u{e9}!bday \u{e9}", "!bday"), Some(" \u{e9}"));
    assert_eq!(rest_after("pog", "!bday"), None);
}

#[test]
fn same_text_compares_all_characters() {
    assert!(same_text("u1", "u1"));
    assert!(same_text("", ""));
    assert!(!same_text("u1", "u2"));
    assert!(!same_text("u1", "u10"));
    assert!(!same_text("u10", "u1"));
}

#[test]
fn parse_u32_reads_digits() {
    assert_eq!(parse_u32("0"), Some(0));
    assert_eq!(parse_u32("04"), Some(4));
    assert_eq!(parse_u32("1990"), Some(1990));
    assert_eq!(parse_u32("0000000000000000000015"), Some(15));
}

#[test]
fn parse_u32_at_the_limit() {
    assert_eq!(parse_u32("4294967295"), Some(4294967295));
    assert_eq!(parse_u32("4294967296"), None);
    assert_eq!(parse_u32("99999999999999999999999999"), None);
}

#[test]
fn parse_u32_with_a_sign() {
    assert_eq!(parse_u32("+5"), Some(5));
    assert_eq!(parse_u32("+"), None);
    assert_eq!(parse_u32("-5"), None);
    assert_eq!(parse_u32("++5"), None);
}

#[test]
fn parse_u32_of_what_is_no_number() {
    assert_eq!(parse_u32(""), None);
    assert_eq!(parse_u32("12a"), None);
    assert_eq!(parse_u32("a12"), None);
    assert_eq!(parse_u32(" 12"), None);
    assert_eq!(parse_u32("\u{661}\u{662}"), None);
}

#[test]
fn parse_u32_agrees_with_the_standard_reading() {
    let samples = [
        "", "+", "-", "0", "+0", "-0", "7", "+7", "007", "12x", "4294967295", "4294967296",
        "42949672950", "+4294967295", "1 2", "\u{663}",
    ];
    for s in samples {
        assert_eq!(parse_u32(s), s.parse::<u32>().ok(), "{:?}", s);
    }
}

#[test]
fn i32_text_writes_base_ten() {
    assert_eq!(i32_text(0), "0");
    assert_eq!(i32_text(7), "7");
    assert_eq!(i32_text(125), "125");
    assert_eq!(i32_text(-5), "-5");
    assert_eq!(i32_text(100), "100");
}

#[test]
fn i32_text_at_the_limits() {
    assert_eq!(i32_text(i32::MAX), "2147483647");
    assert_eq!(i32_text(i32::MIN), "-2147483648");
}

#[test]
fn append_decimal_writes_at_the_end() {
    let mut out = String::from("n=");
    append_decimal(&mut out, 1990);
    assert_eq!(out, "n=1990");
    append_decimal(&mut out, 0);
    assert_eq!(out, "n=19900");
    append_decimal(&mut out, u32::MAX);
    assert_eq!(out, "n=199004294967295");
}
