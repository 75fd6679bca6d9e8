use amautum_transcriptor::text::{
    is_ascii_alphanumeric, is_ascii_digit, is_white_space, lines_of, parse_u32, split_at_each,
    strip_suffix, tail, to_lower, trimmed,
};

#[test]
fn characters_are_classified_as_std_does() {
    for n in 0..=0x10FFFFu32 {
        if let Some(c) = char::from_u32(n) {
            assert_eq!(is_white_space(c), c.is_whitespace(), "{n:x}");
            assert_eq!(is_ascii_digit(c), c.is_ascii_digit(), "{n:x}");
            assert_eq!(is_ascii_alphanumeric(c), c.is_ascii_alphanumeric(), "{n:x}");
            assert_eq!(to_lower(c), c.to_ascii_lowercase(), "{n:x}");
        }
    }
}

#[test]
fn texts_are_cut_as_std_does() {
    let samples = [
        "", "a", "\n", "a\n", "a\r\nb", "\r", "a\rb\n", "\n\n", "  x  ", "\u{3000}ñ\u{2003}", ".",
        "a.b..c", "..",
    ];
    for text in samples {
        let lines: Vec<&str> = text.lines().collect();
        assert_eq!(lines_of(text), lines, "{text:?}");
        let parts: Vec<&str> = text.split('.').collect();
        assert_eq!(split_at_each(text, '.'), parts, "{text:?}");
        assert_eq!(trimmed(text), text.trim(), "{text:?}");
        assert_eq!(strip_suffix(text, "c").as_deref(), text.strip_suffix("c"), "{text:?}");
    }
}

#[test]
fn numbers_are_read_as_std_does() {
    for text in ["", "+", "0", "+7", "-1", "4294967295", "4294967296", "007", "1 ", "٣", "1e3"] {
        assert_eq!(parse_u32(text), text.parse::<u32>().ok(), "{text:?}");
    }
}

#[test]
fn the_tail_of_what_a_program_wrote() {
    assert_eq!(tail("", 4), "");
    assert_eq!(tail("a\n \nb\n", 4), "a | b");
    assert_eq!(tail("1\n2\n3\n4\n5", 4), "2 | 3 | 4 | 5");
    assert_eq!(tail("1\n2", 0), "");
}
