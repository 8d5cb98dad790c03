use lazy_git_ext::text::{append_str, chars_of, string_of, whitespace};

#[test]
fn chars_of_lists_the_characters() {
    assert_eq!(chars_of("h\u{e9}llo"), vec!['h', '\u{e9}', 'l', 'l', 'o']);
    assert!(chars_of("").is_empty());
}

#[test]
fn append_str_adds_at_the_end() {
    let mut out = vec!['a'];
    append_str(&mut out, "bc");
    append_str(&mut out, "");
    assert_eq!(out, vec!['a', 'b', 'c']);
}

#[test]
fn string_of_writes_the_characters_in_order() {
    assert_eq!(string_of(&vec!['o', 'k', '\n', '\u{3000}']), "ok\n\u{3000}");
    assert_eq!(string_of(&Vec::new()), "");
}

#[test]
fn string_of_undoes_chars_of() {
    for text in ["", "plain", "two\nlines", "\u{1f600} wide"] {
        assert_eq!(string_of(&chars_of(text)), text);
    }
}

#[test]
fn whitespace_is_unicode_white_space() {
    let white = [
        '\u{9}', '\u{a}', '\u{b}', '\u{c}', '\u{d}', ' ', '\u{85}', '\u{a0}', '\u{1680}',
        '\u{2000}', '\u{2005}', '\u{200a}', '\u{2028}', '\u{2029}', '\u{202f}', '\u{205f}',
        '\u{3000}',
    ];
    for c in white {
        assert!(whitespace(c));
    }
    for c in ['a', '0', '-', '\\', '\u{8}', '\u{e}', '\u{200b}', '\u{180e}', '\u{feff}', '\u{0}'] {
        assert!(!whitespace(c));
    }
}

#[test]
fn whitespace_agrees_with_the_standard_library() {
    for code in 0..0x3100u32 {
        if let Some(c) = char::from_u32(code) {
            assert_eq!(whitespace(c), c.is_whitespace());
        }
    }
}
