use oomd_core::number::{parse_i32, parse_i32_or_zero, parse_u64, parse_u64_or_zero, write_i32, write_u64};
use oomd_core::text::{
    chars_of, has_prefix, has_substring, join_with_spaces, split_at_char, split_lines, split_words,
    string_of, trimmed,
};

fn chars(s: &str) -> Vec<char> {
    s.chars().collect()
}

fn strings(v: Vec<Vec<char>>) -> Vec<String> {
    v.iter().map(|w| w.iter().collect()).collect()
}

#[test]
fn chars_and_strings_convert_both_ways() {
    assert_eq!(chars_of("a b"), vec!['a', ' ', 'b']);
    assert_eq!(string_of(&chars("mem.stat")), "mem.stat");
    assert_eq!(string_of(&Vec::new()), "");
}

#[test]
fn words_are_split_at_any_white_space() {
    assert_eq!(strings(split_words(&chars("  a\tbc \n d\r"))), vec!["a", "bc", "d"]);
    assert!(split_words(&chars(" \t ")).is_empty());
    assert!(split_words(&chars("")).is_empty());
}

#[test]
fn lines_end_at_line_feeds() {
    assert_eq!(strings(split_lines(&chars("a\n\nb"))), vec!["a", "", "b"]);
    assert_eq!(strings(split_lines(&chars("a\n"))), vec!["a"]);
    assert!(split_lines(&chars("")).is_empty());
    assert_eq!(strings(split_lines(&chars("\n"))), vec![""]);
}

#[test]
fn split_keeps_empty_pieces() {
    assert_eq!(strings(split_at_char(&chars("a,,b,"), ',')), vec!["a", "", "b", ""]);
    assert_eq!(strings(split_at_char(&chars(""), ',')), vec![""]);
    assert_eq!(strings(split_at_char(&chars("k=v"), '=')), vec!["k", "v"]);
}

#[test]
fn trim_strips_both_ends() {
    assert_eq!(string_of(&trimmed(&chars(" \t12 3\n"))), "12 3");
    assert_eq!(string_of(&trimmed(&chars("   "))), "");
}

#[test]
fn prefix_and_substring_search() {
    assert!(has_prefix(&chars("full avg10"), &chars("full")));
    assert!(!has_prefix(&chars("ful"), &chars("full")));
    assert!(has_substring(&chars("svc/a"), &chars("c/a")));
    assert!(has_substring(&chars("svc/a"), &chars("")));
    assert!(!has_substring(&chars("svc/a"), &chars("svc/b")));
    assert!(!has_substring(&chars(""), &chars("x")));
}

#[test]
fn words_are_joined_with_single_spaces() {
    let ws = vec![chars("a"), chars("bc"), chars("d")];
    assert_eq!(string_of(&join_with_spaces(&ws)), "a bc d");
    assert_eq!(string_of(&join_with_spaces(&vec![chars("x")])), "x");
    assert_eq!(string_of(&join_with_spaces(&Vec::new())), "");
}

#[test]
fn unsigned_numbers_are_read() {
    assert_eq!(parse_u64(&chars("0")), Some(0));
    assert_eq!(parse_u64(&chars("+17")), Some(17));
    assert_eq!(parse_u64(&chars("0000000000000000000000042")), Some(42));
    assert_eq!(parse_u64(&chars("18446744073709551615")), Some(u64::MAX));
    assert_eq!(parse_u64(&chars("18446744073709551616")), None);
    assert_eq!(parse_u64(&chars("")), None);
    assert_eq!(parse_u64(&chars("+")), None);
    assert_eq!(parse_u64(&chars("-1")), None);
    assert_eq!(parse_u64(&chars("1 ")), None);
    assert_eq!(parse_u64(&chars("12a")), None);
    assert_eq!(parse_u64_or_zero(&chars("12a")), 0);
    assert_eq!(parse_u64_or_zero(&chars("12")), 12);
}

#[test]
fn signed_numbers_are_read() {
    assert_eq!(parse_i32(&chars("-2147483648")), Some(i32::MIN));
    assert_eq!(parse_i32(&chars("2147483647")), Some(i32::MAX));
    assert_eq!(parse_i32(&chars("2147483648")), None);
    assert_eq!(parse_i32(&chars("-2147483649")), None);
    assert_eq!(parse_i32(&chars("-0")), Some(0));
    assert_eq!(parse_i32(&chars("+5")), Some(5));
    assert_eq!(parse_i32(&chars("-")), None);
    assert_eq!(parse_i32(&chars("--1")), None);
    assert_eq!(parse_i32_or_zero(&chars("x")), 0);
    assert_eq!(parse_i32_or_zero(&chars("-7")), -7);
}

#[test]
fn numbers_are_written_in_decimal() {
    let mut out = Vec::new();
    write_u64(&mut out, 0);
    out.push(' ');
    write_u64(&mut out, u64::MAX);
    out.push(' ');
    write_i32(&mut out, i32::MIN);
    out.push(' ');
    write_i32(&mut out, 1200);
    assert_eq!(string_of(&out), "0 18446744073709551615 -2147483648 1200");
}

#[test]
fn written_numbers_read_back() {
    for n in [0u64, 9, 10, 99, 100, 12345678901234567890, u64::MAX] {
        let mut out = Vec::new();
        write_u64(&mut out, n);
        assert_eq!(parse_u64(&out), Some(n));
    }
    for n in [i32::MIN, -1, 0, 1, i32::MAX] {
        let mut out = Vec::new();
        write_i32(&mut out, n);
        assert_eq!(parse_i32(&out), Some(n));
    }
}
