use oxllm::text::{
    append_left_aligned, append_right_aligned, characters, decimal_text, has_prefix, hex_text,
    parse_u32, same_text, signed_decimal_text, trim,
};

#[test]
fn decimal_notation_is_the_usual_one() {
    for n in [0u64, 1, 9, 10, 99, 100, 8080, 65535, 4294967296, u64::MAX] {
        assert_eq!(decimal_text(n), n.to_string());
    }
    for n in [0i32, 1, -1, 10, -10, i32::MAX, i32::MIN] {
        assert_eq!(signed_decimal_text(n), n.to_string());
    }
}

#[test]
fn hexadecimal_notation_has_sixteen_digits() {
    assert_eq!(hex_text(0), "0000000000000000");
    assert_eq!(hex_text(0xdeadbeef), "00000000deadbeef");
    for n in [1u64, 15, 16, 255, 0x0123456789abcdef, u64::MAX] {
        assert_eq!(hex_text(n), format!("{:016x}", n));
    }
}

#[test]
fn numbers_are_read_as_the_standard_library_reads_them() {
    for text in [
        "0", "7", "+7", "007", "4294967295", "+4294967295", "4294967296", "99999999999999999999",
        "", "+", "-", "-1", "-0", "++1", "1+", "1 ", " 1", "1_000", "0x10", "12a", "a12", "١",
        "00000000000000000000000000001",
    ] {
        assert_eq!(parse_u32(text), text.parse::<u32>().ok(), "{:?}", text);
    }
}

#[test]
fn decimal_numbers_are_read_back() {
    for n in [0u32, 1, 10, 42, 4096, 32768, u32::MAX] {
        let shown = decimal_text(n as u64);
        assert_eq!(parse_u32(&shown), Some(n));
        assert_eq!(parse_u32(trim(&format!(" \t{}\r\n", shown))), Some(n));
    }
}

#[test]
fn every_character_is_trimmed_as_the_standard_library_trims_it() {
    for code in 0..=0x10ffffu32 {
        if let Some(c) = char::from_u32(code) {
            let mut buffer = [0u8; 4];
            let text: &str = c.encode_utf8(&mut buffer);
            if c.is_whitespace() || code < 0x3100 {
                assert_eq!(trim(text), text.trim(), "{:x}", code);
            }
        }
    }
}

#[test]
fn trimming_keeps_what_is_inside() {
    for text in ["", " ", "a", " a", "a ", "  a b  ", "\u{3000}a\u{a0}b\u{2028}", "\n\n12\n"] {
        assert_eq!(trim(text), text.trim());
    }
}

#[test]
fn columns_are_filled_as_the_standard_library_fills_them() {
    for text in ["", "a", "abc", "abcd", "abcdef", "✓ é"] {
        for width in [0usize, 1, 3, 4, 10] {
            let mut left = String::from("<");
            append_left_aligned(&mut left, text, width);
            assert_eq!(left, format!("<{:<width$}", text, width = width));
            let mut right = String::from("<");
            append_right_aligned(&mut right, text, width);
            assert_eq!(right, format!("<{:>width$}", text, width = width));
        }
    }
}

#[test]
fn texts_are_compared_by_their_characters() {
    assert!(same_text("", ""));
    assert!(same_text("dual", "dual"));
    assert!(!same_text("dual", "duel"));
    assert!(!same_text("dual", "dua"));
    assert!(has_prefix("Half-Open", "Half"));
    assert!(has_prefix("Half", "Half"));
    assert!(has_prefix("Half", ""));
    assert!(!has_prefix("Hal", "Half"));
    assert!(!has_prefix("half-open", "Half"));
    assert_eq!(characters("a✓"), vec!['a', '✓']);
}
