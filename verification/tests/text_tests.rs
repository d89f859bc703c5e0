use playful::text::{
    clock_string, decimal_string, format_channels, is_whitespace, last_token_of, marquee_text, owned,
    push_decimal, push_pad2, push_str, same_text, starts_with, string_from_chars, string_from_range, trim,
};

#[test]
fn decimal_of_zero_and_large() {
    assert_eq!(decimal_string(0), "0");
    assert_eq!(decimal_string(18446744073709551615), "18446744073709551615");
}

#[test]
fn channels_labels() {
    assert_eq!(format_channels(0), "");
    assert_eq!(format_channels(1), "Mono");
    assert_eq!(format_channels(2), "Stereo");
    assert_eq!(format_channels(6), "6 ch");
}

#[test]
fn trim_removes_unicode_spaces() {
    assert_eq!(trim("  \u{3000}music\t\n"), "music");
    assert_eq!(trim("   "), "");
}

#[test]
fn marquee_short_text_is_whole() {
    assert_eq!(marquee_text("short", 123, 10), "short");
}

#[test]
fn marquee_scrolls_long_text() {
    let text = "abcdefghijklmnopqrst"; // 20 characters, cycle of 36 ticks
    assert_eq!(marquee_text(text, 0, 5), text);
    assert_eq!(marquee_text(text, 7, 5), text);
    assert_eq!(marquee_text(text, 8, 5), text);
    assert_eq!(marquee_text(text, 9, 5), "bcdefghijklmnopqrst");
    assert_eq!(marquee_text(text, 27, 5), "t");
    assert_eq!(marquee_text(text, 28, 5), text);
    assert_eq!(marquee_text(text, 9 + 36, 5), marquee_text(text, 9, 5));
}

#[test]
fn last_token_and_prefix() {
    assert_eq!(last_token_of("volume  42 "), Some("42".to_string()));
    assert_eq!(last_token_of("   "), None);
    assert!(starts_with("volume 3", "volume "));
    assert!(!starts_with("vol", "vol "));
}

#[test]
fn trim_twice_is_trim_once() {
    let once = trim(" \t a b \n");
    assert_eq!(trim(&once), once);
    assert_eq!(once, "a b");
}

#[test]
fn building_strings() {
    let mut s = owned("vol ");
    push_str(&mut s, "\u{266a}");
    push_decimal(&mut s, 305);
    push_pad2(&mut s, 7);
    push_pad2(&mut s, 42);
    assert_eq!(s, "vol \u{266a}3050742");
    let v: Vec<char> = "h\u{e9}llo".chars().collect();
    assert_eq!(string_from_range(&v, 1, 3), "\u{e9}l");
    assert_eq!(string_from_range(&v, 2, 2), "");
    assert_eq!(string_from_chars(&v), "h\u{e9}llo");
    assert!(same_text("abc", "abc"));
    assert!(!same_text("abc", "abd"));
    assert!(!same_text("ab", "abc"));
}

#[test]
fn clocks_and_spaces() {
    assert_eq!(clock_string(0), "00:00");
    assert_eq!(clock_string(59), "00:59");
    assert_eq!(clock_string(3599), "59:59");
    assert_eq!(clock_string(3600), "01:00:00");
    assert_eq!(clock_string(360000), "100:00:00");
    for c in [' ', '\t', '\n', '\u{a0}', '\u{2003}', '\u{3000}', '\u{85}'] {
        assert!(is_whitespace(c));
        assert_eq!(is_whitespace(c), c.is_whitespace());
    }
    for c in ['a', '0', '\u{200b}', '_'] {
        assert!(!is_whitespace(c));
        assert_eq!(is_whitespace(c), c.is_whitespace());
    }
}
