use rust_clock::decimal::{decimal_chars, pad2_chars, parse_i32, parse_u8};
use rust_clock::text::{chars_equal_str, chars_of, split_chars, string_of};

fn cs(s: &str) -> Vec<char> {
    s.chars().collect()
}

fn pieces(s: &str, sep: char) -> Vec<String> {
    split_chars(&cs(s), sep).iter().map(|p| p.iter().collect()).collect()
}

#[test]
fn split_matches_str_split() {
    for (s, sep) in [("", ','), (",", ','), (":30:", ':'), ("a|b||c", '|'), ("abc", '*'), ("x*y*", '*')] {
        let expected: Vec<String> = s.split(sep).map(|p| p.to_string()).collect();
        assert_eq!(pieces(s, sep), expected);
    }
}

#[test]
fn chars_round_trip() {
    assert_eq!(chars_of("時刻 ok"), cs("時刻 ok"));
    assert_eq!(string_of(&cs("時刻 ok")), "時刻 ok");
    assert!(chars_equal_str(&cs("right"), "right"));
    assert!(!chars_equal_str(&cs("righ"), "right"));
}

#[test]
fn parse_u8_as_std_does() {
    for s in ["", "+", "-", "0", "7", "+7", "-7", "255", "256", "007", "1a", " 1", "99999999999"] {
        assert_eq!(parse_u8(&cs(s)), s.parse::<u8>().ok(), "{:?}", s);
    }
}

#[test]
fn parse_i32_as_std_does() {
    for s in [
        "", "+", "-", "0", "-0", "+12", "-12", "2147483647", "2147483648", "-2147483648",
        "-2147483649", "00020", "--1", "+-1", "3x", "99999999999999",
    ] {
        assert_eq!(parse_i32(&cs(s)), s.parse::<i32>().ok(), "{:?}", s);
    }
}

#[test]
fn decimal_and_padding_as_format_does() {
    for n in [0u64, 5, 9, 10, 59, 100, 61, 123456] {
        assert_eq!(string_of(&decimal_chars(n)), n.to_string());
        assert_eq!(string_of(&pad2_chars(n)), format!("{:02}", n));
    }
}
