use wiredforge::text::{begins_at, chars_of, remove_all_of, split_words, text_of, white_space};

fn v(s: &str) -> Vec<char> {
    s.chars().collect()
}

#[test]
fn characters_of_text() {
    assert_eq!(chars_of("aé\n"), vec!['a', 'é', '\n']);
    assert!(chars_of("").is_empty());
    assert_eq!(text_of(&v("héllo")), "héllo");
}

#[test]
fn prefix_at_position() {
    assert!(begins_at(&v("export function f"), 0, &v("export")));
    assert!(begins_at(&v("xexport"), 1, &v("export")));
    assert!(!begins_at(&v("expo"), 0, &v("export")));
    assert!(begins_at(&v("abc"), 3, &v("")));
}

#[test]
fn removal_matches_left_to_right() {
    assert_eq!(remove_all_of(&v("aaa"), &v("aa")), v("a"));
    assert_eq!(remove_all_of(&v("a;b;;c"), &v(";")), v("abc"));
    assert_eq!(remove_all_of(&v("abc"), &v("")), v("abc"));
    assert_eq!(remove_all_of(&v("import * as import * as x"), &v("import * as ")), v("x"));
}

#[test]
fn words_split_at_unicode_white_space() {
    let words = split_words(&v("  a\tbc\u{3000}d \u{a0}"));
    assert_eq!(words, vec![v("a"), v("bc"), v("d")]);
    assert!(split_words(&v(" \n ")).is_empty());
    for c in [' ', '\t', '\n', '\u{b}', '\u{c}', '\r', '\u{85}', '\u{a0}', '\u{1680}', '\u{2000}', '\u{200a}', '\u{2028}', '\u{2029}', '\u{202f}', '\u{205f}', '\u{3000}'] {
        assert!(white_space(c) && c.is_whitespace(), "{:?}", c);
    }
    for c in ['a', '_', '\u{200b}', '\u{180e}', '\u{feff}'] {
        assert_eq!(white_space(c), c.is_whitespace(), "{:?}", c);
    }
}
