use nicyrtdyn::text::{
    find, find_char, from_chars, is_whitespace, join, replace_nul, same, split_lines, starts_with,
    strip_prefix_char, strip_suffix_char, to_chars, trim, trim_end_matches,
};
use nicyrtdyn::text_map::TextMap;

fn chars(s: &str) -> Vec<char> {
    to_chars(s)
}

#[test]
fn white_space_is_that_of_unicode() {
    for n in 0..=0x10ffff_u32 {
        if let Some(c) = char::from_u32(n) {
            assert_eq!(is_whitespace(c), c.is_whitespace(), "{:x}", n);
        }
    }
}

#[test]
fn characters_come_back() {
    for s in ["", "a", "héllo", "a\0b", "日本語 \u{1F600}"] {
        assert_eq!(from_chars(&chars(s)), s);
    }
}

#[test]
fn trimming_agrees_with_the_standard_library() {
    for s in ["", " ", "a", " a ", "\t\u{a0}a b\u{3000}\n", "\r\n", "x\u{2028}"] {
        assert_eq!(from_chars(trim(&chars(s))), s.trim());
        assert_eq!(from_chars(trim_end_matches(&chars(s), 'a')), s.trim_end_matches('a'));
    }
    assert_eq!(from_chars(trim_end_matches(&chars("a,,,"), ',')), "a");
}

#[test]
fn lines_agree_with_the_standard_library() {
    for s in ["", "a", "a\n", "a\r\nb", "\n\n", "a\rb\n", "\r", "a\r", "a\n\r\n", "a\r\r\nb\r"] {
        let expected: Vec<String> = s.lines().map(|l| l.to_string()).collect();
        assert_eq!(split_lines(&chars(s)), expected, "{:?}", s);
    }
}

#[test]
fn joining_puts_the_separator_between() {
    let parts = vec!["a".to_string(), "b".to_string(), "c".to_string()];
    assert_eq!(join(&parts, ", "), "a, b, c");
    assert_eq!(join(&parts[..1], ", "), "a");
    assert_eq!(join(&[], ", "), "");
}

#[test]
fn nul_becomes_a_question_mark() {
    assert_eq!(replace_nul("a\0b\0"), "a?b?");
    assert_eq!(replace_nul("plain"), "plain");
    assert_eq!(replace_nul(""), "");
}

#[test]
fn searching_agrees_with_the_standard_library() {
    let s = "abcabc";
    assert_eq!(find(&chars(s), "bc"), s.find("bc"));
    assert_eq!(find(&chars(s), ""), s.find(""));
    assert_eq!(find(&chars(s), "x"), None);
    assert_eq!(find(&chars(""), ""), Some(0));
    assert_eq!(find_char(&chars(s), 'b', 2), Some(4));
    assert_eq!(find_char(&chars(s), 'x', 0), None);
    assert!(starts_with(&chars(s), "abc"));
    assert!(!starts_with(&chars("ab"), "abc"));
    assert!(same("a", "a") && !same("a", "b") && !same("a", "ab"));
}

#[test]
fn one_character_is_stripped() {
    assert_eq!(from_chars(strip_prefix_char(&chars("//a"), '/')), "/a");
    assert_eq!(from_chars(strip_prefix_char(&chars("a"), '/')), "a");
    assert_eq!(from_chars(strip_suffix_char(&chars("a//"), '/')), "a/");
    assert_eq!(from_chars(strip_suffix_char(&chars(""), '/')), "");
}

#[test]
fn text_map_keeps_one_value_for_a_key() {
    let mut m: TextMap<String> = TextMap::new();
    assert!(!m.contains_key("a"));
    m.insert("a".to_string(), "1".to_string());
    m.insert("b".to_string(), "2".to_string());
    m.insert("a".to_string(), "3".to_string());
    assert_eq!(m.len(), 2);
    assert_eq!(m.get("a"), Some(&"3".to_string()));
    m.remove("a");
    assert_eq!(m.get("a"), None);
    assert_eq!(m.get("b"), Some(&"2".to_string()));
    assert_eq!(m.entry(0), (&"b".to_string(), &"2".to_string()));
}
