use crosshair::text::{
    chars_of, count_words, decimal_text, is_white_space, pad, strip_prefix, trim,
};

const SAMPLES: [&str; 12] = [
    "",
    " ",
    "a",
    "  a b  ",
    "\t\n x\u{85}\u{a0}",
    "\u{3000}wide\u{3000}",
    "no-space",
    "a\u{200b}b",
    " 0 0 * * * ",
    "0  0\t*\n* *",
    "…—🎯",
    " … 🎯 ",
];

#[test]
fn white_space_is_the_unicode_property() {
    for p in 0..=0x10ffffu32 {
        if let Some(c) = char::from_u32(p) {
            assert_eq!(is_white_space(c), c.is_whitespace(), "{p:x}");
        }
    }
}

#[test]
fn trims_both_ends() {
    for s in SAMPLES {
        assert_eq!(trim(s), s.trim(), "{s:?}");
    }
    assert_eq!(trim(" \u{2003}manual\r\n"), "manual");
}

#[test]
fn counts_words() {
    for s in SAMPLES {
        assert_eq!(count_words(s), s.split_whitespace().count(), "{s:?}");
    }
    assert_eq!(count_words("0 0 * * *"), 5);
}

#[test]
fn strips_a_prefix() {
    assert_eq!(strip_prefix("cron:0 0 * * *", "cron:"), Some("0 0 * * *".to_string()));
    assert_eq!(strip_prefix("cron:", "cron:"), Some(String::new()));
    assert_eq!(strip_prefix("cron", "cron:"), None);
    assert_eq!(strip_prefix("every:1h", "cron:"), None);
    assert_eq!(strip_prefix("…x", "…"), Some("x".to_string()));
}

#[test]
fn pads_by_characters() {
    for s in SAMPLES {
        assert_eq!(pad(s, 8), format!("{s:<8}"), "{s:?}");
    }
    assert_eq!(pad("—", 3), "—  ");
    assert_eq!(pad("longer", 3), "longer");
}

#[test]
fn writes_decimals() {
    for n in [0u32, 1, 9, 10, 99, 100, 12_345, u32::MAX] {
        assert_eq!(decimal_text(n), n.to_string());
    }
}

#[test]
fn takes_a_text_apart_into_characters() {
    assert_eq!(chars_of("a…"), vec!['a', '…']);
    assert_eq!(chars_of(""), Vec::<char>::new());
}
