use rustshot::text::{is_white_space_char, text_is_blank};

#[test]
fn empty_text_is_blank() {
    assert!(text_is_blank(""));
}

#[test]
fn unicode_spaces_are_blank() {
    assert!(text_is_blank(" \t\n\u{a0}\u{3000}\u{2009}"));
}

#[test]
fn text_with_a_letter_is_not_blank() {
    assert!(!text_is_blank("  x "));
    assert!(!text_is_blank("\u{200b}"));
}

#[test]
fn white_space_matches_std() {
    for c in ['\t', ' ', '\u{85}', '\u{1680}', '\u{202f}', '\u{205f}', 'a', '\u{200b}', '\u{feff}', '0'] {
        assert_eq!(is_white_space_char(c), c.is_whitespace());
    }
}
