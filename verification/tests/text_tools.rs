use vector_canvas::chars::{
    chars_eq, chars_of, is_whitespace, lines_chars, split_whitespace_chars, splitn_chars,
    string_from, trim_chars, trim_end_chars, trim_start_chars, trim_start_spaces_chars,
};

fn chars(s: &str) -> Vec<char> {
    s.chars().collect()
}

fn strings(v: Vec<Vec<char>>) -> Vec<String> {
    v.into_iter().map(|w| w.into_iter().collect()).collect()
}

#[test]
fn whitespace_is_unicode_white_space() {
    for c in [' ', '\t', '\n', '\r', '\u{b}', '\u{c}', '\u{85}', '\u{a0}', '\u{3000}', '\u{2028}'] {
        assert!(is_whitespace(c));
        assert!(c.is_whitespace());
    }
    for c in ['a', '0', '\u{200b}', '#'] {
        assert!(!is_whitespace(c));
        assert_eq!(c.is_whitespace(), is_whitespace(c));
    }
}

#[test]
fn trims_as_str_does() {
    let s = " \t ab c \u{3000}";
    assert_eq!(trim_chars(&chars(s)), chars(s.trim()));
    assert_eq!(trim_start_chars(&chars(s)), chars(s.trim_start()));
    assert_eq!(trim_end_chars(&chars(s)), chars(s.trim_end()));
    assert_eq!(trim_chars(&chars("   ")), Vec::<char>::new());
    assert_eq!(trim_start_spaces_chars(&chars("  \tx ")), chars("\tx "));
}

#[test]
fn splits_on_whitespace_as_str_does() {
    let s = "  #ff0000 4\t1 {  2 3 }  ";
    let expected: Vec<String> = s.split_whitespace().map(|t| t.to_string()).collect();
    assert_eq!(strings(split_whitespace_chars(&chars(s))), expected);
    assert!(split_whitespace_chars(&chars(" \t ")).is_empty());
    assert!(split_whitespace_chars(&chars("")).is_empty());
}

#[test]
fn lines_as_str_does() {
    for s in ["a\r\nb\n\nc", "a\n", "\n", "", "x\r", "a\rb\nc\r\n"] {
        let expected: Vec<String> = s.lines().map(|t| t.to_string()).collect();
        assert_eq!(strings(lines_chars(&chars(s))), expected, "{:?}", s);
    }
}

#[test]
fn splitn_as_str_does() {
    for s in ["a\tb\tc", "", "\t\t", "1\t2\t3\t4\t5\t6\t7\t8\t9\t10\t11\t12"] {
        let expected: Vec<String> = s.splitn(11, '\t').map(|t| t.to_string()).collect();
        assert_eq!(strings(splitn_chars(&chars(s), 11, '\t')), expected, "{:?}", s);
    }
    assert_eq!(strings(splitn_chars(&chars("a:b:c"), 1, ':')), vec!["a:b:c".to_string()]);
}

#[test]
fn chars_and_strings() {
    assert_eq!(chars_of("héllo"), vec!['h', 'é', 'l', 'l', 'o']);
    assert_eq!(string_from(&['o', 'k']), "ok");
    assert!(chars_eq(&chars("path"), "path"));
    assert!(!chars_eq(&chars("pat"), "path"));
    assert!(!chars_eq(&chars("paths"), "path"));
}

#[test]
fn trimming_twice_changes_nothing_more() {
    let once = trim_chars(&chars("\u{a0} x y \n"));
    assert_eq!(trim_chars(&once), once);
    assert_eq!(once, chars("x y"));
}
