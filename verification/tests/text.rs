use img2pdf::number::{check_numeral, numeral_to_units};
use img2pdf::text::{
    char_is_digit, char_is_letter, char_is_space, chars_of, find_after_last, find_first,
    normalize, spells, text_of, to_lower,
};

fn chars(s: &str) -> Vec<char> {
    s.chars().collect()
}

#[test]
fn only_ascii_capitals_are_lowered() {
    assert_eq!(to_lower('A'), 'a');
    assert_eq!(to_lower('Z'), 'z');
    assert_eq!(to_lower('m'), 'm');
    assert_eq!(to_lower('@'), '@');
    assert_eq!(to_lower('['), '[');
    assert_eq!(to_lower('4'), '4');
    assert_eq!(to_lower('\u{c9}'), '\u{c9}');
    assert_eq!(to_lower('\u{212a}'), '\u{212a}');
}

#[test]
fn characters_are_classified() {
    for c in [' ', '\t', '\n', '\u{b}', '\u{c}', '\r', '\u{85}', '\u{a0}', '\u{1680}',
        '\u{2000}', '\u{200a}', '\u{2028}', '\u{2029}', '\u{202f}', '\u{205f}', '\u{3000}'] {
        assert!(char_is_space(c), "{:?}", c);
        assert!(c.is_whitespace());
    }
    for c in ['a', '0', '\u{8}', '\u{e}', '\u{200b}', '\u{feff}', '\u{180e}', '_'] {
        assert!(!char_is_space(c), "{:?}", c);
        assert!(!c.is_whitespace());
    }
    assert!(char_is_digit('0') && char_is_digit('9'));
    assert!(!char_is_digit('/') && !char_is_digit(':') && !char_is_digit('\u{661}'));
    assert!(char_is_letter('a') && char_is_letter('z'));
    assert!(!char_is_letter('A') && !char_is_letter('`') && !char_is_letter('{'));
}

#[test]
fn white_space_agrees_with_the_standard_library_everywhere() {
    for code in 0..=0x10ffffu32 {
        if let Some(c) = char::from_u32(code) {
            assert_eq!(char_is_space(c), c.is_whitespace(), "{:x}", code);
        }
    }
}

#[test]
fn text_goes_to_characters_and_back() {
    assert_eq!(chars_of("a4^t"), vec!['a', '4', '^', 't']);
    assert_eq!(chars_of(""), Vec::<char>::new());
    assert_eq!(chars_of("\u{e9}t\u{e9}"), vec!['\u{e9}', 't', '\u{e9}']);
    assert_eq!(text_of(&chars("21cm")), "21cm");
    assert_eq!(text_of(&[]), "");
    assert_eq!(text_of(&['\u{1f600}', 'x']), "\u{1f600}x");
}

#[test]
fn tokens_are_normalized() {
    assert_eq!(normalize("  A4^T \n"), chars("a4^t"));
    assert_eq!(normalize("Le Tt er"), chars("le tt er"));
    assert_eq!(normalize(" \t "), chars(""));
    assert_eq!(normalize(""), chars(""));
    assert_eq!(normalize("x "), chars("x"));
    assert_eq!(normalize(" x"), chars("x"));
}

#[test]
fn characters_are_found() {
    assert_eq!(find_first(&chars("10cmx5cmx"), 'x'), 4);
    assert_eq!(find_first(&chars("10cm"), 'x'), 4);
    assert_eq!(find_first(&chars(""), 'x'), 0);
    assert_eq!(find_first(&chars("x"), 'x'), 0);
    assert_eq!(find_after_last(&chars("a.b.c"), '.'), 4);
    assert_eq!(find_after_last(&chars("abc"), '.'), 0);
    assert_eq!(find_after_last(&chars("abc."), '.'), 4);
    assert_eq!(find_after_last(&chars(""), '.'), 0);
}

#[test]
fn texts_are_compared() {
    assert!(spells(&chars("letter"), "letter"));
    assert!(!spells(&chars("letter"), "legal"));
    assert!(!spells(&chars("letter"), "letters"));
    assert!(!spells(&chars("letters"), "letter"));
    assert!(spells(&chars(""), ""));
    assert!(!spells(&chars("a"), ""));
}

#[test]
fn numerals_are_recognized() {
    for s in ["0", "7", "10", "007", "1.5", "0.0", "10.250", "000.000"] {
        assert!(check_numeral(&chars(s)), "{:?}", s);
    }
    for s in ["", ".", "1.", ".5", "1..5", "1.5.", "1.5.5", "-1", "+1", "1e3", "1,5", " 1", "1 ", "\u{661}"] {
        assert!(!check_numeral(&chars(s)), "{:?}", s);
    }
}

#[test]
fn numerals_are_read_in_smaller_units() {
    assert_eq!(numeral_to_units(&chars("12"), 1000), Some(12_000));
    assert_eq!(numeral_to_units(&chars("12.345"), 1000), Some(12_345));
    assert_eq!(numeral_to_units(&chars("12.3456"), 1000), Some(12_345));
    assert_eq!(numeral_to_units(&chars("12.3459"), 1000), Some(12_345));
    assert_eq!(numeral_to_units(&chars("0.0009"), 1000), Some(0));
    assert_eq!(numeral_to_units(&chars("0.5"), 1), Some(0));
    assert_eq!(numeral_to_units(&chars("0.5"), 3), Some(1));
    assert_eq!(numeral_to_units(&chars("0.99"), 7), Some(6));
    assert_eq!(numeral_to_units(&chars("2.54"), 254), Some(645));
    assert_eq!(numeral_to_units(&chars("18446744073709551615"), 1), Some(u64::MAX));
    assert_eq!(numeral_to_units(&chars("18446744073709551616"), 1), None);
    assert_eq!(numeral_to_units(&chars("18446744073709551615.9"), 1), Some(u64::MAX));
    assert_eq!(numeral_to_units(&chars("1844674407370955161.5"), 10), Some(u64::MAX));
    assert_eq!(numeral_to_units(&chars("1844674407370955161.6"), 10), None);
    assert_eq!(numeral_to_units(&chars("0.99999999999999999999"), u64::MAX), Some(u64::MAX - 1));
}
