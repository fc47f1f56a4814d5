use space_game::util::text::{
    cut, field_bounds, is_space_char, line_bounds, read_flag, read_number, spells_word,
    split_bounds, to_chars,
};

fn chars(text: &str) -> Vec<char> {
    text.chars().collect()
}

#[test]
fn to_chars_lists_the_characters() {
    assert_eq!(to_chars("a\u{e9}b"), vec!['a', '\u{e9}', 'b']);
    assert_eq!(to_chars(""), Vec::<char>::new());
}

#[test]
fn white_space_is_what_unicode_says() {
    for c in [' ', '\t', '\n', '\r', '\u{b}', '\u{c}', '\u{85}', '\u{a0}', '\u{1680}', '\u{2000}',
        '\u{200a}', '\u{2028}', '\u{2029}', '\u{202f}', '\u{205f}', '\u{3000}'] {
        assert!(is_space_char(c));
    }
    for c in ['a', '0', '#', '\u{8}', '\u{e}', '\u{200b}', '\u{1f}', '\u{21}'] {
        assert!(!is_space_char(c));
    }
    let mut code = 0u32;
    while code < 0x3100 {
        if let Some(c) = char::from_u32(code) {
            assert_eq!(is_space_char(c), c.is_whitespace());
        }
        code += 1;
    }
}

#[test]
fn split_bounds_cuts_at_every_separator() {
    let text = chars("a,,bc,");
    assert_eq!(split_bounds(&text, 0, 6, ','), vec![(0, 1), (2, 2), (3, 5), (6, 6)]);
    assert_eq!(split_bounds(&text, 3, 5, ','), vec![(3, 5)]);
    assert_eq!(split_bounds(&text, 2, 2, ','), vec![(2, 2)]);
}

#[test]
fn line_bounds_cuts_into_lines() {
    assert_eq!(line_bounds(&chars("")), vec![]);
    assert_eq!(line_bounds(&chars("ab")), vec![(0, 2)]);
    assert_eq!(line_bounds(&chars("ab\n")), vec![(0, 2)]);
    assert_eq!(line_bounds(&chars("ab\n\ncd")), vec![(0, 2), (3, 3), (4, 6)]);
    assert_eq!(line_bounds(&chars("\n")), vec![(0, 0)]);
    assert_eq!(line_bounds(&chars("\n\n")), vec![(0, 0), (1, 1)]);
}

#[test]
fn field_bounds_cuts_into_fields() {
    let text = chars("  ab \t c  ");
    assert_eq!(field_bounds(&text, 0, text.len()), vec![(2, 4), (7, 8)]);
    assert_eq!(field_bounds(&text, 3, 8), vec![(3, 4), (7, 8)]);
    assert_eq!(field_bounds(&text, 4, 7), vec![]);
    assert_eq!(field_bounds(&chars("x"), 0, 1), vec![(0, 1)]);
    assert_eq!(field_bounds(&chars(""), 0, 0), vec![]);
}

#[test]
fn read_number_reads_decimal() {
    let read = |text: &str| read_number(&chars(text), 0, text.chars().count());
    assert_eq!(read("0"), Some(0));
    assert_eq!(read("42"), Some(42));
    assert_eq!(read("+42"), Some(42));
    assert_eq!(read("-42"), Some(-42));
    assert_eq!(read("-0"), Some(0));
    assert_eq!(read("2147483647"), Some(2147483647));
    assert_eq!(read("-2147483648"), Some(-2147483648));
    assert_eq!(read("2147483648"), None);
    assert_eq!(read("-2147483649"), None);
    assert_eq!(read("99999999999999999999999999"), None);
    assert_eq!(read(""), None);
    assert_eq!(read("-"), None);
    assert_eq!(read("+"), None);
    assert_eq!(read("1a"), None);
    assert_eq!(read("--1"), None);
    assert_eq!(read("1.5"), None);
    assert_eq!(read("\u{661}"), None);
    assert_eq!(read_number(&chars("ab12cd"), 2, 4), Some(12));
}

#[test]
fn read_number_agrees_with_the_standard_parser() {
    for text in ["17", "-17", "+0", "0000123", "2147483647", "2147483648", "x", "1_000", " 1"] {
        assert_eq!(
            read_number(&chars(text), 0, text.chars().count()),
            text.parse::<i32>().ok()
        );
    }
}

#[test]
fn read_flag_reads_true_and_false() {
    let read = |text: &str| read_flag(&chars(text), 0, text.chars().count());
    assert_eq!(read("true"), Some(true));
    assert_eq!(read("TRUE"), Some(true));
    assert_eq!(read("fAlSe"), Some(false));
    assert_eq!(read(""), None);
    assert_eq!(read("tru"), None);
    assert_eq!(read("truee"), None);
    assert_eq!(read("yes"), None);
    assert_eq!(read("1"), None);
    assert_eq!(read("TR\u{55}5"), None);
}

#[test]
fn spells_word_ignores_ascii_case_only() {
    let word = chars("ab");
    assert!(spells_word(&chars("ab"), 0, 2, &word));
    assert!(spells_word(&chars("AB"), 0, 2, &word));
    assert!(spells_word(&chars("xaBy"), 1, 3, &word));
    assert!(!spells_word(&chars("abc"), 0, 3, &word));
    assert!(!spells_word(&chars("ac"), 0, 2, &word));
    assert!(!spells_word(&chars("!\""), 0, 2, &chars("AB")));
}

#[test]
fn cut_takes_characters_not_bytes() {
    assert_eq!(cut("h\u{e9}llo", 1, 3), "\u{e9}l");
    assert_eq!(cut("abc", 0, 3), "abc");
    assert_eq!(cut("abc", 2, 2), "");
}
