use doubao_asr::json::push_quoted;
use doubao_asr::text::{
    contains_text, decimal_int_text, decimal_text, ends_with, hex, hex_upper, lowercase_ascii,
    split_once, starts_with, strip_prefix, strip_suffix, text_eq, trim, white_space,
};

const SAMPLES: [&str; 12] = [
    "",
    " ",
    "a",
    "\u{3000}两 字\u{a0}",
    "data:audio/mpeg;base64,AAAA",
    "MiXeD Ümlaut ß",
    "\t\r\n x y \u{85}\u{2003}",
    "aaab",
    "aab",
    ",lead",
    "trail,",
    "\u{feff}bom",
];

#[test]
fn white_space_is_that_of_unicode() {
    for code in 0..=0x10ffff {
        if let Some(c) = char::from_u32(code) {
            assert_eq!(white_space(c), c.is_whitespace(), "{code:x}");
        }
    }
}

#[test]
fn text_operations_agree_with_the_standard_ones() {
    for s in SAMPLES {
        assert_eq!(trim(s), s.trim());
        assert_eq!(lowercase_ascii(s), s.to_ascii_lowercase());
        assert_eq!(split_once(s, ','), s.split_once(','));
        for t in SAMPLES {
            assert_eq!(text_eq(s, t), s == t);
            assert_eq!(starts_with(s, t), s.starts_with(t));
            assert_eq!(ends_with(s, t), s.ends_with(t));
            assert_eq!(contains_text(s, t), s.contains(t));
            assert_eq!(strip_prefix(s, t), s.strip_prefix(t));
            assert_eq!(strip_suffix(s, t), s.strip_suffix(t));
        }
    }
    assert!(contains_text("aaab", "aab"));
    assert!(!contains_text("abab", "aab"));
}

#[test]
fn numerals_agree_with_the_standard_ones() {
    for n in [0, 9, 10, 99, 100, 401734, u64::MAX as u128, u128::MAX] {
        assert_eq!(decimal_text(n), n.to_string());
    }
    for n in [0, -1, 1, 10, -10, i64::MIN, i64::MAX] {
        assert_eq!(decimal_int_text(n), n.to_string());
    }
    let bytes: Vec<u8> = (0..=255).collect();
    let lower: String = bytes.iter().map(|b| format!("{b:02x}")).collect();
    let upper: String = bytes.iter().map(|b| format!("{b:02X}")).collect();
    assert_eq!(hex(&bytes), lower);
    assert_eq!(hex_upper(&bytes), upper);
}

#[test]
fn json_strings_are_escaped() {
    let mut all = String::new();
    for code in 0..0x3000 {
        if let Some(c) = char::from_u32(code) {
            all.push(c);
        }
    }
    let mut out = String::new();
    push_quoted(&mut out, &all);
    let back: String = serde_json::from_str(&out).unwrap();
    assert_eq!(back, all);
    assert!(out.chars().all(|c| c as u32 >= 32));
    let mut out = String::from("x");
    push_quoted(&mut out, "\"\\\u{8}\t\n\u{c}\r\u{1}\u{1f}\u{7f}/字");
    assert_eq!(out, "x\"\\\"\\\\\\b\\t\\n\\f\\r\\u0001\\u001f\u{7f}/字\"");
}
