use wlrix_screenshot::text::{
    chars_of, is_white_space, join, parse_i32, pieces, strip_prefix, trimmed, whole, write_decimal,
    write_signed,
};

/// White space here is what the standard library calls white space.
#[test]
fn white_space_is_unicode_white_space() {
    for c in '\0'..=char::MAX {
        assert_eq!(is_white_space(c), c.is_whitespace(), "{:?}", c);
    }
}

#[test]
fn trimming_agrees_with_the_standard_library() {
    for text in ["", " ", "a", " a ", "\u{3000}画 像\u{85}", "\t\n", "a b", "\u{200b}a"] {
        assert_eq!(whole(&trimmed(&chars_of(text))), text.trim());
    }
}

#[test]
fn numbers_are_read_as_the_standard_library_reads_them() {
    for text in [
        "", "-", "+", "0", "-0", "+7", "00012", "2147483647", "2147483648", "-2147483648",
        "-2147483649", "99999999999999999999", "1a", " 1", "1 ", "--1", "+-1", "٣", "0x10",
    ] {
        assert_eq!(parse_i32(&chars_of(text)), text.parse::<i32>().ok(), "{}", text);
    }
}

#[test]
fn numbers_are_written_as_the_standard_library_writes_them() {
    for n in [0, 1, 9, 10, 99, 100, 4_294_967_295u32] {
        assert_eq!(write_decimal(n), n.to_string());
    }
    for n in [0, 7, -7, 10, -10, i32::MAX, i32::MIN] {
        assert_eq!(write_signed(n), n.to_string());
        assert_eq!(parse_i32(&chars_of(&write_signed(n))), Some(n));
    }
}

#[test]
fn splitting_agrees_with_the_standard_library() {
    for text in ["", ",", "a", "a,b", ",a,", "1,,2", "画,像"] {
        let parts: Vec<String> = pieces(&chars_of(text), ',').iter().map(whole).collect();
        let expected: Vec<&str> = text.split(',').collect();
        assert_eq!(parts, expected);
    }
    assert_eq!(strip_prefix(&chars_of("~/x"), "~/").map(|rest| whole(&rest)), Some("x".to_string()));
    assert!(strip_prefix(&chars_of("x"), "xy").is_none());
    assert_eq!(join(&vec!["a", "b", "c"], ", "), "a, b, c");
    assert_eq!(join(&Vec::new(), ", "), "");
}
