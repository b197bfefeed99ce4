use mimirdlp::text::{
    decimal_text, eq_ignore_ascii_case, is_blank, joined, parse_number, split_fields, split_lines,
    split_words, starts_with, strip_prefix, trimmed, two_digits_text, white_char,
};

const SAMPLES: [&str; 14] = [
    "",
    "a",
    "\n",
    "a\n",
    "a\r\n",
    "a\rb\n",
    "\r",
    "a\n\nb",
    "  a b\t c \n d  ",
    "\u{a0}x\u{3000}",
    "a,b,,c,",
    ",",
    "a\r\r\n",
    "k=v\nk2=v2\n",
];

#[test]
fn white_space_is_what_the_standard_library_says() {
    for n in 0..=0x10ffff {
        if let Some(c) = char::from_u32(n) {
            assert_eq!(white_char(c), c.is_whitespace(), "{n:x}");
        }
    }
}

#[test]
fn texts_are_split_and_trimmed_as_the_standard_library_does() {
    for s in SAMPLES {
        assert_eq!(split_lines(s), s.lines().collect::<Vec<_>>(), "{s:?}");
        assert_eq!(split_words(s), s.split_whitespace().collect::<Vec<_>>(), "{s:?}");
        assert_eq!(split_fields(s, ','), s.split(',').collect::<Vec<_>>(), "{s:?}");
        assert_eq!(trimmed(s), s.trim(), "{s:?}");
        assert_eq!(is_blank(s), s.trim().is_empty(), "{s:?}");
        for p in ["", "a", "k=", "\r"] {
            assert_eq!(starts_with(s, p), s.starts_with(p), "{s:?} {p:?}");
            assert_eq!(strip_prefix(s, p).as_deref(), s.strip_prefix(p), "{s:?} {p:?}");
        }
        for other in SAMPLES {
            assert_eq!(eq_ignore_ascii_case(s, other), s.eq_ignore_ascii_case(other));
        }
    }
    assert!(eq_ignore_ascii_case("aBcÄ", "AbCÄ"));
    assert!(!eq_ignore_ascii_case("ä", "Ä"));
}

#[test]
fn numbers_are_read_as_the_standard_library_does_but_without_a_sign() {
    for s in [
        "0", "7", "007", "-7", "+7", "", "-", "+", "1a", " 1", "9223372036854775807",
        "9223372036854775808", "-9223372036854775808", "-9223372036854775809", "٣", "--1",
    ] {
        let unsigned = !s.starts_with(['-', '+']);
        assert_eq!(parse_number(s), s.parse::<i64>().ok().filter(|_| unsigned), "{s:?}");
    }
}

#[test]
fn numbers_are_written_out() {
    for n in [0, 9, 10, 99, 100, 4294967295, u64::MAX] {
        assert_eq!(decimal_text(n), n.to_string());
    }
    assert_eq!(two_digits_text(5), "05");
    assert_eq!(two_digits_text(59), "59");
    assert_eq!(two_digits_text(123), "123");
    let parts: Vec<String> = vec!["a".into(), "".into(), "b".into()];
    assert_eq!(joined(&parts, ", "), "a, , b");
}
