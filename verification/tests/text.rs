use agent::text::{
    byte_len, floor_prefix, is_blank, parse_usize, same_text, starts_with, strip_prefix,
    text_before, usize_to_string,
};

#[test]
fn lengths_are_in_bytes() {
    assert_eq!(byte_len(""), 0);
    assert_eq!(byte_len("aé—😀"), 1 + 2 + 3 + 4);
}

#[test]
fn blank_texts() {
    assert!(is_blank(""));
    assert!(is_blank(" \t\r\n\u{85}\u{a0}\u{1680}\u{2028}\u{3000}"));
    assert!(!is_blank(" a "));
    assert!(!is_blank("\u{200b}"));
}

#[test]
fn every_character_is_blank_as_the_standard_library_says() {
    for code in 0..=0x10ffff_u32 {
        if let Some(c) = char::from_u32(code) {
            let mut buffer = [0u8; 4];
            if c.is_whitespace() != is_blank(c.encode_utf8(&mut buffer)) {
                panic!("differs at {code:x}");
            }
        }
    }
}

#[test]
fn prefixes() {
    assert!(starts_with("data: x", "data:"));
    assert!(!starts_with("data", "data:"));
    assert!(starts_with("é", ""));
    assert_eq!(strip_prefix("data: x", "data: "), Some("x"));
    assert_eq!(strip_prefix("data", "x"), None);
    assert_eq!(strip_prefix("élan", "él"), Some("an"));
}

#[test]
fn longest_prefix_within_a_limit() {
    assert_eq!(floor_prefix("abc", 5), "abc");
    assert_eq!(floor_prefix("abc", 2), "ab");
    assert_eq!(floor_prefix("aéb", 2), "a");
    assert_eq!(floor_prefix("aéb", 3), "aé");
    assert_eq!(floor_prefix("😀", 3), "");
}

#[test]
fn decimal_numbers() {
    assert_eq!(usize_to_string(0), "0");
    assert_eq!(usize_to_string(1907), "1907");
    assert_eq!(parse_usize("1907"), Some(1907));
    assert_eq!(parse_usize("+7"), Some(7));
    assert_eq!(parse_usize("007"), Some(7));
    for text in ["", "+", "-1", " 1", "1 ", "1.0", "٣", "99999999999999999999999"] {
        assert_eq!(parse_usize(text), None);
    }
    assert_eq!(parse_usize(&usize_to_string(usize::MAX)), Some(usize::MAX));
}

#[test]
fn the_order_of_texts() {
    let texts = ["", "a", "aa", "ab", "b", "é", "—", "😀"];
    for (i, left) in texts.iter().enumerate() {
        for (j, right) in texts.iter().enumerate() {
            assert_eq!(text_before(left, right), i < j);
            assert_eq!(text_before(left, right), left < right);
            assert_eq!(same_text(left, right), i == j);
        }
    }
}
