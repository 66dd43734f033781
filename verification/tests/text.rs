use webdav::headers::utils::{
    extract_chars, skip_blank, starts_with_ignore_ascii_case, take_one, to_ascii_lower, trim,
    value_is, InvalidHeader,
};
use webdav::text::{
    find_char, format_decimal, from_chars, opt_string_clone, opt_string_eq, parse_decimal,
    str_is_blank, to_chars,
};

#[test]
fn decimal_numbers() {
    assert_eq!(parse_decimal("0", u64::MAX), Some(0));
    assert_eq!(parse_decimal("+0", u64::MAX), Some(0));
    assert_eq!(parse_decimal("00012", u64::MAX), Some(12));
    assert_eq!(parse_decimal("18446744073709551615", u64::MAX), Some(u64::MAX));
    assert_eq!(parse_decimal("18446744073709551616", u64::MAX), None);
    assert_eq!(parse_decimal("99999999999999999999999", u64::MAX), None);
    assert_eq!(parse_decimal("256", 255), None);
    assert_eq!(parse_decimal("255", 255), Some(255));
    assert_eq!(parse_decimal("", 255), None);
    assert_eq!(parse_decimal("+", 255), None);
    assert_eq!(parse_decimal("-1", 255), None);
    assert_eq!(parse_decimal("1+", 255), None);
    assert_eq!(parse_decimal("\u{661}", 255), None);
    assert_eq!(format_decimal(0), "0");
    assert_eq!(format_decimal(9), "9");
    assert_eq!(format_decimal(10), "10");
    assert_eq!(format_decimal(u64::MAX), "18446744073709551615");
    for n in [0u64, 1, 9, 10, 99, 100, 12345, u64::MAX - 1, u64::MAX] {
        assert_eq!(parse_decimal(&format_decimal(n), u64::MAX), Some(n));
        assert_eq!(format_decimal(n), n.to_string());
    }
}

#[test]
fn white_space() {
    for c in ['\t', '\n', '\u{b}', '\u{c}', '\r', ' ', '\u{85}', '\u{a0}', '\u{1680}', '\u{2000}',
        '\u{200a}', '\u{2028}', '\u{2029}', '\u{202f}', '\u{205f}', '\u{3000}'] {
        assert!(str_is_blank(&c.to_string()));
    }
    for c in ['a', '0', '\u{8}', '\u{e}', '\u{200b}', '\u{feff}', '\u{180e}'] {
        assert!(!str_is_blank(&c.to_string()));
    }
    assert!(str_is_blank(""));
    assert!(str_is_blank(" \t\r\n\u{a0}"));
    assert!(!str_is_blank(" x "));
}

#[test]
fn strings_and_characters() {
    assert!(opt_string_eq(&None, &None));
    assert!(opt_string_eq(&Some("a".into()), &Some("a".into())));
    assert!(!opt_string_eq(&Some("a".into()), &None));
    assert!(!opt_string_eq(&Some("a".into()), &Some("b".into())));
    assert!(!opt_string_eq(&Some("a".into()), &Some("ab".into())));
    assert_eq!(opt_string_clone(&Some("a".into())), Some("a".to_string()));
    assert_eq!(to_chars("a\u{e9}b"), vec!['a', '\u{e9}', 'b']);
    let chars = to_chars("hello");
    assert_eq!(from_chars(&chars, 1, 4), "ell");
    assert_eq!(from_chars(&chars, 2, 2), "");
    assert_eq!(find_char(&chars, 0, 'l'), 2);
    assert_eq!(find_char(&chars, 3, 'l'), 3);
    assert_eq!(find_char(&chars, 4, 'l'), 5);
    assert_eq!(from_chars(&to_chars("a\u{e9}"), 0, 2), "a\u{e9}");
}

#[test]
fn header_values_as_text() {
    assert_eq!(take_one(&[b"a".to_vec()]), Ok(&b"a".to_vec()));
    assert_eq!(take_one(&[]), Err(InvalidHeader));
    assert_eq!(
        extract_chars(&[b"a\tb ~".to_vec()]),
        Ok(vec!['a', '\t', 'b', ' ', '~'])
    );
    assert_eq!(extract_chars(&[b"a\nb".to_vec()]), Err(InvalidHeader));
    assert_eq!(extract_chars(&[vec![0x7f]]), Err(InvalidHeader));
    assert_eq!(extract_chars(&[vec![0xe9]]), Err(InvalidHeader));
    assert_eq!(extract_chars(&[Vec::new()]), Ok(Vec::new()));
    assert!(value_is(&b"infinity".to_vec(), "infinity"));
    assert!(!value_is(&b"infinit".to_vec(), "infinity"));
    assert!(!value_is(&b"Infinity".to_vec(), "infinity"));
}

#[test]
fn trimming_and_words() {
    let chars = to_chars(" \t ab c \u{a0}");
    assert_eq!(skip_blank(&chars, 0), 3);
    assert_eq!(skip_blank(&chars, 3), 3);
    assert_eq!(skip_blank(&chars, 7), 9);
    assert_eq!(trim(&chars), to_chars("ab c"));
    assert_eq!(trim(&to_chars("  ")), Vec::<char>::new());
    assert_eq!(trim(&[]), Vec::<char>::new());
    assert_eq!(to_ascii_lower('A'), 'a');
    assert_eq!(to_ascii_lower('Z'), 'z');
    assert_eq!(to_ascii_lower('a'), 'a');
    assert_eq!(to_ascii_lower('['), '[');
    assert_eq!(to_ascii_lower('\u{c9}'), '\u{c9}');
    let text = to_chars("xNoT y");
    assert!(starts_with_ignore_ascii_case(&text, 1, "NOT"));
    assert!(!starts_with_ignore_ascii_case(&text, 0, "NOT"));
    assert!(!starts_with_ignore_ascii_case(&text, 4, "NOT"));
    assert!(starts_with_ignore_ascii_case(&text, 6, ""));
}

#[test]
fn white_space_is_a_fixed_set() {
    let listed = |c: char| {
        matches!(
            c as u32,
            0x09..=0x0D
                | 0x20
                | 0x85
                | 0xA0
                | 0x1680
                | 0x2000..=0x200A
                | 0x2028
                | 0x2029
                | 0x202F
                | 0x205F
                | 0x3000
        )
    };
    let mut code = 0u32;
    while code <= 0x10FFFF {
        if let Some(c) = char::from_u32(code) {
            assert_eq!(str_is_blank(&c.to_string()), listed(c), "U+{code:04X}");
        }
        code += 1;
    }
}

#[test]
fn decimal_numbers_agree_with_the_standard_library() {
    for text in [
        "0", "1", "+1", "-1", "--1", "+-1", "", " ", "+", "12a", "a12", "0012", "4294967295",
        "4294967296", "18446744073709551615", "18446744073709551616", "1_000", "1e3", "\u{ff11}",
    ] {
        assert_eq!(parse_decimal(text, u64::MAX), text.parse::<u64>().ok(), "{text:?}");
        assert_eq!(
            parse_decimal(text, u32::MAX as u64),
            text.parse::<u32>().ok().map(u64::from),
            "{text:?}"
        );
    }
}
