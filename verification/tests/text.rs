use attention_challenge::text::{
    contains, number_text, parse_number, same_text, starts_with, two_digit_number_text,
};

#[test]
fn contains_finds_a_pattern_anywhere() {
    assert!(contains("__q_numb|900", "__q_numb|"));
    assert!(contains("x__q_numb|900", "__q_numb|"));
    assert!(contains("900__q_numb|", "__q_numb|"));
    assert!(contains("abc", ""));
    assert!(contains("", ""));
    assert!(contains("abc", "abc"));
    assert!(!contains("abc", "abcd"));
    assert!(!contains("", "a"));
    assert!(!contains("__q_numb900", "__q_numb|"));
    assert!(!contains("15", "__q_numb|"));
    assert!(contains("aab", "ab"));
    assert!(contains("ñandú|x", "ú|"));
}

#[test]
fn contains_agrees_with_std() {
    let texts = ["", "a", "ab", "aab", "abab", "__q_numb|1", "1__q_numb|", "é|é", "||"];
    for text in texts {
        for pattern in texts {
            assert_eq!(contains(text, pattern), text.contains(pattern), "{text:?} {pattern:?}");
            assert_eq!(starts_with(text, pattern), text.starts_with(pattern));
            assert_eq!(same_text(text, pattern), text == pattern);
        }
    }
}

#[test]
fn starts_with_looks_at_the_start_only() {
    assert!(starts_with("__q_numb|900", "__q_numb|"));
    assert!(!starts_with("x__q_numb|900", "__q_numb|"));
    assert!(starts_with("abc", ""));
    assert!(!starts_with("ab", "abc"));
}

#[test]
fn parse_number_reads_digits() {
    assert_eq!(parse_number("0"), Some(0));
    assert_eq!(parse_number("7"), Some(7));
    assert_eq!(parse_number("15"), Some(15));
    assert_eq!(parse_number("900"), Some(900));
    assert_eq!(parse_number("007"), Some(7));
    assert_eq!(parse_number("+42"), Some(42));
    assert_eq!(parse_number("18446744073709551615"), "18446744073709551615".parse().ok());
    assert_eq!(parse_number(&usize::MAX.to_string()), Some(usize::MAX));
    assert_eq!(parse_number(&format!("000{}", usize::MAX)), Some(usize::MAX));
}

#[test]
fn parse_number_refuses_what_is_no_number() {
    assert_eq!(parse_number(""), None);
    assert_eq!(parse_number("+"), None);
    assert_eq!(parse_number("-1"), None);
    assert_eq!(parse_number("++1"), None);
    assert_eq!(parse_number("1+"), None);
    assert_eq!(parse_number(" 1"), None);
    assert_eq!(parse_number("1 "), None);
    assert_eq!(parse_number("1.5"), None);
    assert_eq!(parse_number("abc"), None);
    assert_eq!(parse_number("12a"), None);
    assert_eq!(parse_number("١٢"), None);
    assert_eq!(parse_number("__q_numb|900"), None);
}

#[test]
fn parse_number_refuses_what_does_not_fit() {
    let above = format!("{}0", usize::MAX);
    assert_eq!(parse_number(&above), None);
    assert_eq!(parse_number("18446744073709551616"), "18446744073709551616".parse().ok());
    assert_eq!(parse_number("99999999999999999999999999"), None);
    assert_eq!(parse_number("99999999999999999999999999x"), None);
}

#[test]
fn parse_number_agrees_with_std() {
    let texts = [
        "", "+", "-", "0", "+0", "-0", "1", "10", "0010", "+10", "1_0", "1e3", "0x10", "१",
        "18446744073709551615", "18446744073709551616", "4294967295", "4294967296",
    ];
    for text in texts {
        assert_eq!(parse_number(text), text.parse::<usize>().ok(), "{text:?}");
    }
}

#[test]
fn number_text_writes_digits() {
    assert_eq!(number_text(0), "0");
    assert_eq!(number_text(7), "7");
    assert_eq!(number_text(10), "10");
    assert_eq!(number_text(15), "15");
    assert_eq!(number_text(900), "900");
    assert_eq!(number_text(1080), "1080");
    assert_eq!(number_text(usize::MAX), usize::MAX.to_string());
}

#[test]
fn number_text_agrees_with_std() {
    for number in (0..3000usize).chain([9_999, 10_000, 99_999, 100_000, usize::MAX - 1]) {
        assert_eq!(number_text(number), number.to_string());
    }
}

#[test]
fn two_digit_text_pads_with_a_zero() {
    assert_eq!(two_digit_number_text(0), "00");
    assert_eq!(two_digit_number_text(5), "05");
    assert_eq!(two_digit_number_text(9), "09");
    assert_eq!(two_digit_number_text(10), "10");
    assert_eq!(two_digit_number_text(31), "31");
    assert_eq!(two_digit_number_text(100), "100");
    for number in 0..200usize {
        assert_eq!(two_digit_number_text(number), format!("{:02}", number));
    }
}

#[test]
fn written_numbers_are_read_back() {
    for number in (0..2000usize).chain([usize::MAX / 2, usize::MAX - 1, usize::MAX]) {
        assert_eq!(parse_number(&number_text(number)), Some(number));
    }
}
