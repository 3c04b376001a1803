use cargo_sleek::text::{
    char_is_whitespace, chars_of, contains, find, same_chars, split_first_line, string_of, trim,
};

fn trimmed(s: &str) -> String {
    string_of(trim(&chars_of(s)))
}

fn lines(s: &str) -> Vec<String> {
    let text = chars_of(s);
    let mut rest: &[char] = &text;
    let mut found = Vec::new();
    while !rest.is_empty() {
        let (line, tail) = split_first_line(rest);
        found.push(string_of(line));
        rest = tail;
    }
    found
}

#[test]
fn characters_and_strings_convert_both_ways() {
    assert_eq!(chars_of("a\u{e9}\u{1F600}"), vec!['a', '\u{e9}', '\u{1F600}']);
    assert_eq!(chars_of(""), Vec::<char>::new());
    assert_eq!(string_of(&['o', 'k', '\u{3000}']), "ok\u{3000}");
    assert_eq!(string_of(&[]), "");
}

#[test]
fn whitespace_is_what_the_standard_library_calls_whitespace() {
    for n in 0..=0x10FFFFu32 {
        if let Some(c) = char::from_u32(n) {
            assert_eq!(char_is_whitespace(c), c.is_whitespace(), "U+{:04X}", n);
        }
    }
}

#[test]
fn trimming_removes_whitespace_at_both_ends_only() {
    assert_eq!(trimmed("  a b \t\r\n"), "a b");
    assert_eq!(trimmed("\u{a0}x\u{2009}"), "x");
    assert_eq!(trimmed("   "), "");
    assert_eq!(trimmed(""), "");
    assert_eq!(trimmed("x"), "x");
    for s in ["", " ", " a", "a ", " a b  c ", "\n\n", "\u{85}q\u{1680}"] {
        assert_eq!(trimmed(s), s.trim());
    }
}

#[test]
fn text_splits_into_the_lines_of_the_standard_library() {
    for s in [
        "", "a", "a\n", "a\nb", "a\n\nb\n", "\n", "\n\n", "a\r\nb\r\n", "a\rb\n", "a\r", "\r\n",
        "\r", "a\n\r", "x\r\r\ny",
    ] {
        let expected: Vec<String> = s.lines().map(|l| l.to_string()).collect();
        assert_eq!(lines(s), expected, "{:?}", s);
    }
    assert_eq!(lines("one\r\ntwo\n\nfour"), vec!["one", "two", "", "four"]);
}

#[test]
fn finding_gives_the_first_index() {
    assert_eq!(find(&chars_of("a=b=c"), '='), Some(1));
    assert_eq!(find(&chars_of("=x"), '='), Some(0));
    assert_eq!(find(&chars_of("abc"), '='), None);
    assert_eq!(find(&chars_of(""), '='), None);
    assert_eq!(find(&chars_of("\u{e9}\u{e9}="), '='), Some(2));
}

#[test]
fn containment_is_substring_search() {
    let pairs = [
        ("", ""), ("abc", ""), ("", "a"), ("abc", "abc"), ("abc", "abcd"), ("aab", "ab"),
        ("abab", "bab"), ("abab", "bb"), ("serde_json", "serde"), ("serde", "serde_json"),
        ("xay", "a"), ("aaa", "aaaa"), ("mississippi", "issip"), ("mississippi", "issipi"),
    ];
    for (hay, needle) in pairs {
        assert_eq!(
            contains(&chars_of(hay), &chars_of(needle)),
            hay.contains(needle),
            "{:?} in {:?}",
            needle,
            hay
        );
    }
}

#[test]
fn equal_slices_hold_the_same_characters() {
    assert!(same_chars(&chars_of("abc"), &chars_of("abc")));
    assert!(same_chars(&[], &[]));
    assert!(!same_chars(&chars_of("abc"), &chars_of("abd")));
    assert!(!same_chars(&chars_of("abc"), &chars_of("ab")));
    assert!(!same_chars(&chars_of(""), &chars_of("a")));
}
