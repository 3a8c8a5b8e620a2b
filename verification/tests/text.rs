use clipforge::text::{
    decimal_string, parse_i64, push_string, push_text, same_text, seconds_string, starts_with,
    text_chars,
};

fn chars(text: &str) -> Vec<char> {
    text.chars().collect()
}

#[test]
fn decimal_writes_numbers_without_leading_zeros() {
    assert_eq!(decimal_string(0), "0");
    assert_eq!(decimal_string(7), "7");
    assert_eq!(decimal_string(10), "10");
    assert_eq!(decimal_string(1080), "1080");
    assert_eq!(decimal_string(1234567890), "1234567890");
    assert_eq!(decimal_string(u64::MAX), "18446744073709551615");
}

#[test]
fn whole_seconds_have_no_point() {
    assert_eq!(seconds_string(0), "0");
    assert_eq!(seconds_string(2_000_000), "2");
    assert_eq!(seconds_string(7_000_000), "7");
    assert_eq!(seconds_string(3_600_000_000), "3600");
}

#[test]
fn fractions_drop_their_last_zeros() {
    assert_eq!(seconds_string(2_500_000), "2.5");
    assert_eq!(seconds_string(250_000), "0.25");
    assert_eq!(seconds_string(1), "0.000001");
    assert_eq!(seconds_string(10), "0.00001");
    assert_eq!(seconds_string(1_000_001), "1.000001");
    assert_eq!(seconds_string(12_345_678), "12.345678");
    assert_eq!(seconds_string(100_100), "0.1001");
    assert_eq!(seconds_string(999_999), "0.999999");
    assert_eq!(seconds_string(u64::MAX), "18446744073709.551615");
}

#[test]
fn same_text_compares_whole_strings() {
    assert!(same_text("", ""));
    assert!(same_text("720p", "720p"));
    assert!(!same_text("720p", "720"));
    assert!(!same_text("720", "720p"));
    assert!(!same_text("720p", "720P"));
    assert!(same_text("é√", "é√"));
    assert!(!same_text("é", "e"));
}

#[test]
fn text_chars_gives_every_character() {
    assert_eq!(text_chars(""), Vec::<char>::new());
    assert_eq!(text_chars("a=1"), vec!['a', '=', '1']);
    assert_eq!(text_chars("é√x"), vec!['é', '√', 'x']);
}

#[test]
fn starts_with_compares_the_beginning() {
    assert!(starts_with(&chars("out_time_ms=5"), &chars("out_time_ms=")));
    assert!(starts_with(&chars("abc"), &chars("")));
    assert!(starts_with(&chars("abc"), &chars("abc")));
    assert!(!starts_with(&chars("ab"), &chars("abc")));
    assert!(!starts_with(&chars("xbc"), &chars("abc")));
    assert!(!starts_with(&chars("abx"), &chars("abc")));
}

#[test]
fn parse_reads_signed_numerals() {
    assert_eq!(parse_i64(&chars("0"), 0), Some(0));
    assert_eq!(parse_i64(&chars("2500000"), 0), Some(2_500_000));
    assert_eq!(parse_i64(&chars("-17"), 0), Some(-17));
    assert_eq!(parse_i64(&chars("+17"), 0), Some(17));
    assert_eq!(parse_i64(&chars("007"), 0), Some(7));
    assert_eq!(parse_i64(&chars("-0"), 0), Some(0));
    assert_eq!(parse_i64(&chars("x=42"), 2), Some(42));
}

#[test]
fn parse_refuses_what_is_no_numeral() {
    assert_eq!(parse_i64(&chars(""), 0), None);
    assert_eq!(parse_i64(&chars("-"), 0), None);
    assert_eq!(parse_i64(&chars("+"), 0), None);
    assert_eq!(parse_i64(&chars("--1"), 0), None);
    assert_eq!(parse_i64(&chars("+-1"), 0), None);
    assert_eq!(parse_i64(&chars("1-"), 0), None);
    assert_eq!(parse_i64(&chars(" 1"), 0), None);
    assert_eq!(parse_i64(&chars("1 "), 0), None);
    assert_eq!(parse_i64(&chars("1.5"), 0), None);
    assert_eq!(parse_i64(&chars("N/A"), 0), None);
    assert_eq!(parse_i64(&chars("١٢"), 0), None);
    assert_eq!(parse_i64(&chars("abc"), 3), None);
}

#[test]
fn parse_knows_the_ends_of_64_bits() {
    assert_eq!(parse_i64(&chars("9223372036854775807"), 0), Some(i64::MAX));
    assert_eq!(parse_i64(&chars("+9223372036854775807"), 0), Some(i64::MAX));
    assert_eq!(parse_i64(&chars("9223372036854775808"), 0), None);
    assert_eq!(parse_i64(&chars("-9223372036854775808"), 0), Some(i64::MIN));
    assert_eq!(parse_i64(&chars("-9223372036854775809"), 0), None);
    assert_eq!(parse_i64(&chars("99999999999999999999999999999999999999999999"), 0), None);
    assert_eq!(parse_i64(&chars("-99999999999999999999999999999999999999999999"), 0), None);
    assert_eq!(parse_i64(&chars("0000000000000000000000000000000000000000000012"), 0), Some(12));
    assert_eq!(parse_i64(&chars("92233720368547758070x"), 0), None);
}

#[test]
fn push_appends_at_the_end() {
    let mut list = vec![String::from("a")];
    push_text(&mut list, "b");
    push_string(&mut list, String::from("c"));
    assert_eq!(list, ["a", "b", "c"]);
}

#[test]
fn what_decimal_writes_reads_back() {
    for n in [0u64, 1, 9, 10, 99, 100, 1_000_000, 9_223_372_036_854_775_807] {
        let text = decimal_string(n);
        assert_eq!(parse_i64(&chars(&text), 0), Some(n as i64));
    }
}
