use codep::text::{chars_of, chars_eq, find_char, sanitize, sanitize_chars, starts_with, str_eq, string_of, trim};

#[test]
fn chars_of_lists_characters() {
    assert_eq!(chars_of("a\u{e9}\u{1F47E}"), vec!['a', '\u{e9}', '\u{1F47E}']);
    assert_eq!(chars_of(""), Vec::<char>::new());
}

#[test]
fn string_of_takes_a_range() {
    let v = chars_of("h\u{e9}llo");
    assert_eq!(string_of(&v, 0, 5), "h\u{e9}llo");
    assert_eq!(string_of(&v, 1, 3), "\u{e9}l");
    assert_eq!(string_of(&v, 2, 2), "");
}

#[test]
fn str_eq_tells_texts_apart() {
    assert!(str_eq("", ""));
    assert!(str_eq("hostPath", "hostPath"));
    assert!(!str_eq("hostPath", "hostpath"));
    assert!(!str_eq("hostPath", "hostPat"));
    assert!(!str_eq("a", "ab"));
    assert!(chars_eq(&vec!['a'], &vec!['a']));
    assert!(!chars_eq(&vec!['a'], &vec!['b']));
}

#[test]
fn starts_with_tests_the_prefix() {
    assert!(starts_with(&chars_of("file:///x"), "file://"));
    assert!(starts_with(&chars_of("file://"), "file://"));
    assert!(!starts_with(&chars_of("file:/"), "file://"));
    assert!(!starts_with(&chars_of("xfile://"), "file://"));
    assert!(starts_with(&chars_of("anything"), ""));
}

#[test]
fn find_char_finds_the_first() {
    let v = chars_of("a+b+c/d");
    assert_eq!(find_char(&v, 0, '+'), Some(1));
    assert_eq!(find_char(&v, 2, '+'), Some(3));
    assert_eq!(find_char(&v, 4, '+'), None);
    assert_eq!(find_char(&v, 0, '/'), Some(5));
    assert_eq!(find_char(&v, 7, '/'), None);
    assert_eq!(find_char(&v, 100, '/'), None);
}

#[test]
fn sanitize_strips_tab_newline_and_nul() {
    assert_eq!(sanitize("a\tb\nc\0d"), "abcd");
    assert_eq!(sanitize("\t\n\0"), "");
    assert_eq!(sanitize("keeps spaces and \r"), "keeps spaces and \r");
    assert_eq!(sanitize(""), "");
    let v = chars_of("a\tb\nc");
    assert_eq!(sanitize_chars(&v, 1, 4), "b");
}

#[test]
fn trim_removes_whitespace_at_both_ends() {
    assert_eq!(trim("  /home/x \n"), "/home/x");
    assert_eq!(trim("\u{a0}\u{3000}a b\t"), "a b");
    assert_eq!(trim("   "), "");
    assert_eq!(trim(""), "");
    assert_eq!(trim("a"), "a");
    assert_eq!(trim(" a \u{200b} "), "a \u{200b}");
}

#[test]
fn trim_agrees_with_the_standard_library() {
    for s in ["", " ", " x", "x ", "\t x y \r\n", "\u{2028}z\u{85}", "no-space"] {
        assert_eq!(trim(s), s.trim());
    }
}
