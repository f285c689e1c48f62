use codex_lsp::text::{
    chars_of, count_until, decimal_string, equal_ignoring_ascii_case, is_white_space, number_of,
    same_text, same_texts, trimmed, NumberError,
};

fn chars(text: &str) -> Vec<char> {
    text.chars().collect()
}

#[test]
fn white_space_is_that_of_unicode() {
    for c in '\u{0}'..=char::MAX {
        assert_eq!(is_white_space(c), c.is_whitespace());
    }
}

#[test]
fn texts_are_trimmed_at_both_ends() {
    for text in ["", " ", "a", " a", "a\t\u{a0}", "\u{3000}a b\u{2028}", "\u{200b}a "] {
        let all = chars(text);
        let kept: String = trimmed(&all).iter().collect();
        assert_eq!(kept, text.trim());
    }
}

#[test]
fn numbers_are_read_from_digits() {
    for text in [
        "", "0", "7", "007", "+12", "-1", "+", "++1", "1+", "1_0", " 1", "1 ", "a", "\u{663}",
        "4294967296", "18446744073709551615", "18446744073709551616", "+18446744073709551615",
        "000000000000000000000000000000000001", "99999999999999999999999999",
    ] {
        assert_eq!(number_of(&chars(text)).ok(), text.parse::<usize>().ok());
    }
}

#[test]
fn texts_that_are_no_numbers_come_with_the_reason() {
    for text in [
        "", "+", "-", "++1", "-1", "1+", " 1", "\u{663}", "x", "7x",
        "18446744073709551615x", "18446744073709551616", "18446744073709551616x",
        "x18446744073709551616", "+99999999999999999999999999", "99999999999999999999999999 ",
        "0000000000000000000000000000000000000000z",
    ] {
        let reason = text.parse::<usize>().unwrap_err().to_string();
        assert_eq!(number_of(&chars(text)).unwrap_err().message(), reason);
    }
    assert_eq!(number_of(&[]), Err(NumberError::Empty));
    assert_eq!(number_of(&chars("1_0")), Err(NumberError::InvalidDigit));
    assert_eq!(number_of(&chars("99999999999999999999999x")), Err(NumberError::TooLarge));
}

#[test]
fn numerals_are_written_in_decimal() {
    for n in [0, 9, 10, 99, 100, 4294967296, u64::MAX] {
        assert_eq!(decimal_string(n), n.to_string());
    }
}

#[test]
fn case_of_ascii_letters_is_ignored() {
    for (a, b) in [
        ("Content-Length", "content-LENGTH"),
        ("abc", "abd"),
        ("abc", "ab"),
        ("\u{e9}", "\u{c9}"),
        ("[", "{"),
        ("@", "`"),
        ("", ""),
    ] {
        assert_eq!(
            equal_ignoring_ascii_case(&chars(a), &chars(b)),
            a.eq_ignore_ascii_case(b)
        );
    }
}

#[test]
fn characters_are_counted_up_to_the_first_match() {
    assert_eq!(count_until(&chars("a:b:c"), ':'), 1);
    assert_eq!(count_until(&chars("abc"), ':'), 3);
    assert_eq!(count_until(&chars(":"), ':'), 0);
    assert_eq!(count_until(&chars(""), ':'), 0);
}

#[test]
fn texts_are_compared_by_characters() {
    assert!(same_text("", ""));
    assert!(same_text("\u{1f600}x", "\u{1f600}x"));
    assert!(!same_text("a", "A"));
    assert!(!same_text("a", "ab"));
    let one = vec!["a".to_string(), "b".to_string()];
    let two = vec!["a".to_string(), "c".to_string()];
    assert!(same_texts(&one, &one.clone()));
    assert!(!same_texts(&one, &two));
    assert!(!same_texts(&one, &one[..1].to_vec()));
}

#[test]
fn characters_of_a_text() {
    assert_eq!(chars_of("a\u{e9}\u{1f600}"), vec!['a', '\u{e9}', '\u{1f600}']);
    assert!(chars_of("").is_empty());
}
