use memegen::text::{
    append_chars, chars_of, find_char, find_first, is_whitespace, matches_at, replace_first_in,
    slice_of, string_of, trim,
};

fn text(chars: &Vec<char>) -> String {
    chars.iter().collect()
}

#[test]
fn strings_and_characters_convert_both_ways() {
    assert_eq!(chars_of("héllo"), vec!['h', 'é', 'l', 'l', 'o']);
    assert_eq!(string_of(&vec!['h', 'é', 'l', 'l', 'o']), "héllo");
    assert!(chars_of("").is_empty());
    assert_eq!(string_of(&Vec::new()), "");
}

#[test]
fn leftmost_occurrence_is_found() {
    assert_eq!(find_first(&chars_of("abcabc"), &chars_of("bc")), Some(1));
    assert_eq!(find_first(&chars_of("abcabc"), &chars_of("abcabc")), Some(0));
    assert_eq!(find_first(&chars_of("abcabc"), &chars_of("c")), Some(2));
    assert_eq!(find_first(&chars_of("abcabc"), &chars_of("")), Some(0));
    assert_eq!(find_first(&chars_of(""), &chars_of("")), Some(0));
    assert_eq!(find_first(&chars_of("abcabc"), &chars_of("cb")), None);
    assert_eq!(find_first(&chars_of("abc"), &chars_of("abcd")), None);
    assert_eq!(find_first(&chars_of("aab"), &chars_of("ab")), Some(1));
}

#[test]
fn occurrence_at_an_index() {
    assert!(matches_at(&chars_of("abc"), &chars_of("bc"), 1));
    assert!(!matches_at(&chars_of("abc"), &chars_of("bc"), 0));
    assert!(!matches_at(&chars_of("abc"), &chars_of("bc"), 2));
    assert!(matches_at(&chars_of("abc"), &chars_of(""), 3));
    assert!(!matches_at(&chars_of("abc"), &chars_of(""), 4));
}

#[test]
fn only_the_leftmost_occurrence_is_replaced() {
    let out = replace_first_in(&chars_of("a-b-c"), &chars_of("-"), &chars_of("+++"));
    assert_eq!(text(&out), "a+++b-c");
    let out = replace_first_in(&chars_of("a-b-c"), &chars_of("x"), &chars_of("+"));
    assert_eq!(text(&out), "a-b-c");
    let out = replace_first_in(&chars_of("abc"), &chars_of("abc"), &chars_of(""));
    assert_eq!(text(&out), "");
    let out = replace_first_in(&chars_of("abc"), &chars_of(""), &chars_of("x"));
    assert_eq!(text(&out), "xabc");
    assert_eq!(text(&out), "abc".replacen("", "x", 1));
}

#[test]
fn slices_and_appends() {
    assert_eq!(text(&slice_of(&chars_of("hello"), 1, 3)), "el");
    assert_eq!(text(&slice_of(&chars_of("hello"), 5, 5)), "");
    let mut head = chars_of("ab");
    append_chars(&mut head, &chars_of("cd"));
    assert_eq!(text(&head), "abcd");
}

#[test]
fn white_space_is_cut_at_both_ends() {
    for s in ["", " ", "a", " a", "a ", "  a b  ", "\t\n a\u{a0}", "\u{3000}x\u{2003}", " \r\n "] {
        assert_eq!(text(&trim(&chars_of(s))), s.trim(), "{:?}", s);
    }
}

#[test]
fn leftmost_character_is_found() {
    assert_eq!(find_char(&chars_of("a;b;c"), ';'), Some(1));
    assert_eq!(find_char(&chars_of(";"), ';'), Some(0));
    assert_eq!(find_char(&chars_of("abc"), ';'), None);
    assert_eq!(find_char(&chars_of(""), ';'), None);
    assert_eq!(find_char(&chars_of("é;ü"), ';'), Some(1));
}

#[test]
fn white_space_is_the_unicode_property() {
    for code in 0u32..=0x10FFFF {
        if let Some(c) = char::from_u32(code) {
            assert_eq!(is_whitespace(c), c.is_whitespace(), "U+{:04X}", code);
        }
    }
}
