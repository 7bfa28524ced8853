use process_monitor::error::Error;
use process_monitor::number::{decimal, parse_hundredths_u64, parse_u32, parse_u64};
use process_monitor::text::{
    find_first, has_match, split_lines, split_on, split_whitespace, to_chars, to_string, trimmed,
    without,
};

fn chars(s: &str) -> Vec<char> {
    s.chars().collect()
}

fn strings(v: Vec<Vec<char>>) -> Vec<String> {
    v.iter().map(|w| w.iter().collect()).collect()
}

#[test]
fn text_converts_both_ways() {
    assert_eq!(to_chars("a\u{e9}\u{1F600}"), vec!['a', '\u{e9}', '\u{1F600}']);
    assert_eq!(to_string(&chars("a\u{e9}\u{1F600}")), "a\u{e9}\u{1F600}");
    assert_eq!(to_string(&Vec::new()), "");
}

#[test]
fn words_are_runs_without_whitespace() {
    assert_eq!(strings(split_whitespace(&chars("  a\tbc \u{a0} d\n"))), vec!["a", "bc", "d"]);
    assert!(split_whitespace(&chars(" \t\n")).is_empty());
    assert!(split_whitespace(&chars("")).is_empty());
}

#[test]
fn trim_removes_outer_whitespace_only() {
    assert_eq!(to_string(&trimmed(&chars(" \t a b \r\n"))), "a b");
    assert_eq!(to_string(&trimmed(&chars("   "))), "");
    assert_eq!(to_string(&trimmed(&chars("x"))), "x");
}

#[test]
fn lines_end_at_line_feeds() {
    assert_eq!(strings(split_lines(&chars("a\nb\r\n\nc"))), vec!["a", "b", "", "c"]);
    assert_eq!(strings(split_lines(&chars("a\r"))), vec!["a\r"]);
    assert_eq!(strings(split_lines(&chars("\n"))), vec![""]);
    assert!(split_lines(&chars("")).is_empty());
}

#[test]
fn split_keeps_empty_pieces() {
    assert_eq!(strings(split_on(&chars("a::b:"), ':')), vec!["a", "", "b", ""]);
    assert_eq!(strings(split_on(&chars(""), ':')), vec![""]);
    assert_eq!(strings(split_on(&chars("abc"), ':')), vec!["abc"]);
}

#[test]
fn find_gives_first_occurrence() {
    assert_eq!(find_first(&chars("abcabc"), &chars("bc")), Some(1));
    assert_eq!(find_first(&chars("abc"), &chars("")), Some(0));
    assert_eq!(find_first(&chars(""), &chars("")), Some(0));
    assert_eq!(find_first(&chars("abc"), &chars("abcd")), None);
    assert_eq!(find_first(&chars("aab"), &chars("ab")), Some(1));
    assert!(has_match(&chars("scpu0"), &chars("cpu")));
    assert!(!has_match(&chars("cp u"), &chars("cpu")));
}

#[test]
fn without_removes_occurrences_left_to_right() {
    assert_eq!(to_string(&without(&chars("aaa"), &chars("aa"))), "a");
    assert_eq!(to_string(&without(&chars("\"a\" \"b\""), &chars("\""))), "a b");
    assert_eq!(to_string(&without(&chars("abc"), &chars(""))), "abc");
    assert_eq!(to_string(&without(&chars("abab"), &chars("ab"))), "");
}

#[test]
fn numbers_are_read_as_std_reads_them() {
    for s in ["0", "007", "+5", "18446744073709551615", "18446744073709551616", "", "+", "-1",
        "1_0", " 1", "1 ", "\u{0661}", "++1", "4294967295", "4294967296"]
    {
        assert_eq!(parse_u64(&chars(s)), s.parse::<u64>().ok());
        assert_eq!(parse_u32(&chars(s)), s.parse::<u32>().ok());
    }
}

#[test]
fn numbers_are_written_in_decimal() {
    for n in [0u64, 7, 10, 99, 100, 1234567890, u64::MAX] {
        assert_eq!(to_string(&decimal(n)), n.to_string());
        assert_eq!(parse_u64(&decimal(n)), Some(n));
    }
}

#[test]
fn hundredths_drop_later_digits() {
    assert_eq!(parse_hundredths_u64(&chars("0.019")), Some(1));
    assert_eq!(parse_hundredths_u64(&chars("3.1")), Some(310));
    assert_eq!(parse_hundredths_u64(&chars("3.x")), None);
    assert_eq!(parse_hundredths_u64(&chars("")), None);
}

#[test]
fn error_kinds_have_names() {
    assert_eq!(Error::Io.label(), "IoError");
    assert_eq!(Error::Parse.label(), "ParseError");
    assert_eq!(Error::Lookup.label(), "LookupError");
}
