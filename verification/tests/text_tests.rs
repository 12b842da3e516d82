use reminder_engine::text::{
    char_is_letter_ignoring_case, char_is_whitespace, chars_of, parse_decimal_i64, text_is_blank,
    trim_bounds,
};

#[test]
fn white_space_is_what_the_standard_library_calls_white_space() {
    for code in 0u32..=0x11_0000 {
        if let Some(c) = char::from_u32(code) {
            assert_eq!(char_is_whitespace(c), c.is_whitespace(), "U+{:04X}", code);
        }
    }
}

#[test]
fn letters_match_in_either_case() {
    assert!(char_is_letter_ignoring_case('d', 'd'));
    assert!(char_is_letter_ignoring_case('D', 'd'));
    assert!(char_is_letter_ignoring_case('Z', 'z'));
    assert!(!char_is_letter_ignoring_case('e', 'd'));
    assert!(!char_is_letter_ignoring_case('d', 'D'));
    assert!(char_is_letter_ignoring_case('\u{212a}', 'k'));
    assert!(!char_is_letter_ignoring_case('\u{212a}', 'K'));
    assert!(!char_is_letter_ignoring_case('@', '`'));
    assert!(char_is_letter_ignoring_case(' ', ' '));
    assert!(!char_is_letter_ignoring_case('\u{0}', ' '));
}

#[test]
fn letters_match_as_the_standard_library_lower_cases_them() {
    for code in 0u32..=0x11_0000 {
        if let Some(c) = char::from_u32(code) {
            let lowered: Vec<char> = c.to_lowercase().collect();
            for letter in 'a'..='z' {
                assert_eq!(
                    char_is_letter_ignoring_case(c, letter),
                    lowered == [letter],
                    "U+{:04X} against {}",
                    code,
                    letter
                );
            }
        }
    }
}

#[test]
fn chars_of_lists_the_characters() {
    assert_eq!(chars_of(""), Vec::<char>::new());
    assert_eq!(chars_of("aé😀"), vec!['a', 'é', '😀']);
}

#[test]
fn blank_is_empty_or_white_space_only() {
    assert!(text_is_blank(""));
    assert!(text_is_blank("   "));
    assert!(text_is_blank("\t\n\r \u{a0}\u{3000}"));
    assert!(!text_is_blank(" x "));
    assert!(!text_is_blank("\u{200b}"));
}

#[test]
fn trim_bounds_agree_with_the_standard_trim() {
    for text in ["", " ", "a", "  a b  ", "\t\u{a0}x\u{2003}", "no space", "   ", " é "] {
        let chars = chars_of(text);
        let (lo, hi) = trim_bounds(&chars, 0, chars.len());
        let trimmed: String = chars[lo..hi].iter().collect();
        assert_eq!(trimmed, text.trim(), "{:?}", text);
    }
}

#[test]
fn trim_bounds_stay_within_the_given_part() {
    let chars = chars_of("ab  cd  ef");
    assert_eq!(trim_bounds(&chars, 2, 8), (4, 6));
    assert_eq!(trim_bounds(&chars, 2, 4), (4, 4));
    assert_eq!(trim_bounds(&chars, 3, 3), (3, 3));
}

#[test]
fn decimal_numbers_read_as_the_standard_library_reads_them() {
    for text in [
        "0", "7", "+7", "-7", "007", "-0", "+0", "", "+", "-", "--1", "+-1", "1-", " 1", "1 ",
        "12a", "a12", "9223372036854775807", "9223372036854775808", "-9223372036854775808",
        "-9223372036854775809", "18446744073709551616", "1.0", "٣",
        "340282366920938463463374607431768211456",
    ] {
        let chars = chars_of(text);
        assert_eq!(parse_decimal_i64(&chars, 0, chars.len()), text.parse::<i64>().ok(), "{:?}", text);
    }
}

#[test]
fn decimal_numbers_read_from_a_part_of_the_text() {
    let chars = chars_of("ab-42cd");
    assert_eq!(parse_decimal_i64(&chars, 2, 5), Some(-42));
    assert_eq!(parse_decimal_i64(&chars, 3, 5), Some(42));
    assert_eq!(parse_decimal_i64(&chars, 2, 6), None);
    assert_eq!(parse_decimal_i64(&chars, 4, 4), None);
}
