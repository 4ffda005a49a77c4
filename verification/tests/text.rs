use study::text::{
    chars_of, digit_count, find_char, has_prefix_at, join, letter_prefix_len, parse_decimal,
    push_decimal, push_text, push_zero_padded, same_text, string_of,
};

fn chars(s: &str) -> Vec<char> {
    s.chars().collect()
}

#[test]
fn chars_and_strings_go_back_and_forth() {
    assert_eq!(chars_of("a\u{e9}\u{1f600}z"), chars("a\u{e9}\u{1f600}z"));
    assert_eq!(chars_of(""), Vec::<char>::new());
    let v = chars("h\u{e9}llo");
    assert_eq!(string_of(&v, 0, 5), "h\u{e9}llo");
    assert_eq!(string_of(&v, 1, 3), "\u{e9}l");
    assert_eq!(string_of(&v, 2, 2), "");
}

#[test]
fn same_text_compares_characters() {
    assert!(same_text("abc", "abc"));
    assert!(same_text("", ""));
    assert!(!same_text("abc", "abd"));
    assert!(!same_text("abc", "ab"));
    assert!(!same_text("", "a"));
    assert!(!same_text("e\u{301}", "\u{e9}"));
}

#[test]
fn prefix_is_looked_for_at_a_position() {
    let v = chars("ab{:0{:03}");
    let open = chars("{:0");
    assert!(has_prefix_at(&v, 2, &open));
    assert!(has_prefix_at(&v, 5, &open));
    assert!(!has_prefix_at(&v, 0, &open));
    assert!(!has_prefix_at(&v, 8, &open));
    assert!(!has_prefix_at(&v, 10, &open));
    assert!(has_prefix_at(&v, 10, &Vec::new()));
}

#[test]
fn find_char_gives_the_first_position_or_the_length() {
    assert_eq!(find_char(&chars("a-b-c"), '-'), 1);
    assert_eq!(find_char(&chars("-"), '-'), 0);
    assert_eq!(find_char(&chars("abc"), '-'), 3);
    assert_eq!(find_char(&chars(""), '-'), 0);
    assert_eq!(find_char(&chars("\u{e9}\u{e9}-"), '-'), 2);
}

#[test]
fn letter_prefix_counts_ascii_letters() {
    assert_eq!(letter_prefix_len(&chars("PHYS101")), 4);
    assert_eq!(letter_prefix_len(&chars("azAZ@")), 4);
    assert_eq!(letter_prefix_len(&chars("abc")), 3);
    assert_eq!(letter_prefix_len(&chars("1abc")), 0);
    assert_eq!(letter_prefix_len(&chars("[a")), 0);
    assert_eq!(letter_prefix_len(&chars("`a")), 0);
    assert_eq!(letter_prefix_len(&chars("{a")), 0);
    assert_eq!(letter_prefix_len(&chars("\u{e9}")), 0);
    assert_eq!(letter_prefix_len(&chars("")), 0);
}

#[test]
fn decimal_is_read_within_a_bound() {
    let v = chars("x0042y");
    assert_eq!(parse_decimal(&v, 1, 5, 100), Some(42));
    assert_eq!(parse_decimal(&v, 1, 5, 42), Some(42));
    assert_eq!(parse_decimal(&v, 1, 5, 41), None);
    assert_eq!(parse_decimal(&v, 1, 1, 100), None);
    assert_eq!(parse_decimal(&v, 0, 5, 100), None);
    assert_eq!(parse_decimal(&v, 1, 6, 100), None);
    assert_eq!(parse_decimal(&chars("0"), 0, 1, 0), Some(0));
    assert_eq!(parse_decimal(&chars("+1"), 0, 2, 9), None);
    assert_eq!(parse_decimal(&chars("\u{661}"), 0, 1, 9), None);
}

#[test]
fn decimal_is_read_up_to_the_largest_u64() {
    let max = chars("18446744073709551615");
    assert_eq!(parse_decimal(&max, 0, 20, u64::MAX), Some(u64::MAX));
    let over = chars("18446744073709551616");
    assert_eq!(parse_decimal(&over, 0, 20, u64::MAX), None);
    let long = chars("000000000000000000000000000007");
    assert_eq!(parse_decimal(&long, 0, 30, u64::MAX), Some(7));
}

#[test]
fn digits_are_counted_and_written() {
    for n in [0u64, 1, 9, 10, 99, 100, 12345, 4294967296, u64::MAX] {
        let text = n.to_string();
        assert_eq!(digit_count(n), text.len());
        let mut out = String::from("n=");
        push_decimal(&mut out, n);
        assert_eq!(out, format!("n={}", text));
    }
}

#[test]
fn numbers_are_padded_with_zeros() {
    for n in [0u64, 7, 42, 100, 99999] {
        for width in [0usize, 1, 2, 3, 5, 8] {
            let mut out = String::from("ex");
            push_zero_padded(&mut out, n, width);
            assert_eq!(out, format!("ex{:0>width$}", n, width = width));
        }
    }
}

#[test]
fn push_text_appends() {
    let mut out = String::from("ab");
    push_text(&mut out, "cd");
    push_text(&mut out, "");
    assert_eq!(out, "abcd");
}

#[test]
fn join_puts_the_separator_between_names() {
    let v = |l: &[&str]| l.iter().map(|s| s.to_string()).collect::<Vec<String>>();
    assert_eq!(join(&v(&[]), ", "), "");
    assert_eq!(join(&v(&["lab"]), ", "), "lab");
    assert_eq!(join(&v(&["lab", "hw", "quiz"]), ", "), "lab, hw, quiz");
    assert_eq!(join(&v(&["", ""]), "-"), "-");
}
