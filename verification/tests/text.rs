use stability_image::text::{
    chars_of, decimal_text, parse_u32, same_text, signed_decimal_text, split_once,
    to_ascii_lowercase, trim, trim_end_matches, white_space,
};

const SAMPLES: [&str; 14] = [
    "",
    " ",
    "a",
    "  a b\t",
    "\u{2003}x\u{2028}",
    "\u{200b}zero width\u{200b}",
    "ABC xyz \u{c9}\u{df}",
    "::",
    "a:b:c",
    "https://x///",
    "///",
    "\u{1f600}:\u{1f600}",
    "+12",
    "\r\n1024 x 768\r\n",
];

#[test]
fn white_space_is_the_property_of_every_char() {
    for code in 0..=0x10ffffu32 {
        if let Some(c) = char::from_u32(code) {
            assert_eq!(white_space(c), c.is_whitespace(), "{code:x}");
        }
    }
}

#[test]
fn text_functions_agree_with_std() {
    for s in SAMPLES {
        assert_eq!(chars_of(s), s.chars().collect::<Vec<char>>());
        assert_eq!(trim(s), s.trim());
        assert_eq!(to_ascii_lowercase(s), s.to_ascii_lowercase());
        for c in [':', '/', 'x', '\u{1f600}'] {
            assert_eq!(split_once(s, c), s.split_once(c));
            assert_eq!(trim_end_matches(s, c), s.trim_end_matches(c));
        }
        for t in SAMPLES {
            assert_eq!(same_text(s, t), s == t);
        }
    }
}

#[test]
fn numbers_agree_with_std() {
    for s in [
        "", "+", "-", "-0", "0", "+0", "007", "++1", "1_000", "1e3", " 1", "1 ", "4294967295",
        "4294967296", "00000000000000000004294967295", "99999999999999999999999", "12a", "\u{661}",
        "+4294967295",
    ] {
        assert_eq!(parse_u32(s), s.parse::<u32>().ok(), "{s:?}");
    }
}

#[test]
fn reading_gives_back_what_was_written() {
    for n in [0u32, 1, 9, 10, 11, 99, 100, 1024, 65535, 4294967295] {
        assert_eq!(parse_u32(&decimal_text(n as u128)), Some(n));
    }
}

#[test]
fn decimals_agree_with_std() {
    for n in [0u128, 7, 10, 19, 4294967294, u128::MAX] {
        assert_eq!(decimal_text(n), n.to_string());
    }
    for n in [0i128, -1, -10, 42, i64::MIN as i128, u64::MAX as i128, i128::MIN, i128::MAX] {
        assert_eq!(signed_decimal_text(n), n.to_string());
    }
}
