use extraction_mmo::text::{
    control, i64_text, or_default, parse_i64, parse_u16, parse_u32, str_eq, three_digit_text,
    trim, u16_or, u16_text, u32_or, u32_text, u64_text, white_space,
};

#[test]
fn texts_compare_by_their_characters() {
    assert!(str_eq("ready", "ready"));
    assert!(!str_eq("ready", "Ready"));
    assert!(!str_eq("ready", "ready "));
    assert!(str_eq("", ""));
}

#[test]
fn numbers_are_written_in_decimal() {
    assert_eq!(u64_text(0), "0");
    assert_eq!(u64_text(u64::MAX), "18446744073709551615");
    assert_eq!(u32_text(4_294_967_295), "4294967295");
    assert_eq!(u16_text(7000), "7000");
    assert_eq!(i64_text(-1), "-1");
    assert_eq!(i64_text(i64::MIN), "-9223372036854775808");
    assert_eq!(i64_text(i64::MAX), "9223372036854775807");
}

#[test]
fn numbers_are_read_like_the_standard_library_reads_them() {
    let samples = [
        "", "0", "7000", "+7000", "-1", "+", "-", "65535", "65536", "4294967295", "4294967296",
        "007", " 7", "7 ", "1_000", "12a", "9223372036854775807", "9223372036854775808",
        "-9223372036854775808", "-9223372036854775809", "-0", "+-1", "00000000000000000000005",
        "٣",
    ];
    for s in samples {
        assert_eq!(parse_u16(s), s.parse::<u16>().ok(), "u16 {s:?}");
        assert_eq!(parse_u32(s), s.parse::<u32>().ok(), "u32 {s:?}");
        assert_eq!(parse_i64(s), s.parse::<i64>().ok(), "i64 {s:?}");
    }
}

#[test]
fn decimal_texts_read_back() {
    for n in [0u32, 1, 9, 10, 99, 100, 12345, u32::MAX] {
        assert_eq!(parse_u32(u32_text(n).as_str()), Some(n));
    }
    for n in [i64::MIN, -10, -1, 0, 1, 10, i64::MAX] {
        assert_eq!(parse_i64(i64_text(n).as_str()), Some(n));
    }
}

#[test]
fn small_numbers_are_padded_to_three_digits() {
    for n in [0u32, 7, 42, 999, 1000, 123_456] {
        assert_eq!(three_digit_text(n), format!("{n:03}"));
    }
}

#[test]
fn trimming_takes_white_space_off_both_ends() {
    for s in ["", " ", "a", " a", "a ", "  a b  ", "\t\n x \u{a0}", "\u{3000}name\u{2029}", "\u{200b}a"] {
        assert_eq!(trim(s), s.trim(), "{s:?}");
        assert_eq!(trim(trim(s)), trim(s));
    }
}

#[test]
fn character_classes_agree_with_the_standard_library() {
    for u in 0u32..0x3100 {
        if let Some(c) = char::from_u32(u) {
            assert_eq!(white_space(c), c.is_whitespace(), "{u:#x}");
            assert_eq!(control(c), c.is_control(), "{u:#x}");
        }
    }
}

#[test]
fn settings_fall_back_to_defaults() {
    assert_eq!(or_default(None, "d"), "d");
    assert_eq!(or_default(Some(String::new()), "d"), "");
    assert_eq!(u16_or(None, 7000), 7000);
    assert_eq!(u16_or(Some("70000".to_string()), 7000), 7000);
    assert_eq!(u16_or(Some("8000".to_string()), 7000), 8000);
    assert_eq!(u32_or(Some("x".to_string()), 128), 128);
    assert_eq!(u32_or(Some("5".to_string()), 128), 5);
}
