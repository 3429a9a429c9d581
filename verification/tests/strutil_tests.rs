use clad::strutil::{
    is_space, split_str_lines, split_words, str_eq, str_replace_dash_with_dot, str_starts_with,
    str_strip_prefix_all, str_trim, str_trim_char, usize_to_string,
};

#[test]
fn test_split_words_basic() {
    assert_eq!(split_words("Hello world test"), vec!["Hello", "world", "test"]);
}

#[test]
fn test_split_words_collapses_whitespace() {
    assert_eq!(split_words("  a\t\tb \n c  "), vec!["a", "b", "c"]);
    let empty: Vec<String> = vec![];
    assert_eq!(split_words(""), empty);
    assert_eq!(split_words(" \t\r\n"), empty);
}

#[test]
fn test_split_words_single() {
    assert_eq!(split_words("one"), vec!["one"]);
}

#[test]
fn test_is_space_classifies() {
    assert!(is_space(' '));
    assert!(is_space('\t'));
    assert!(is_space('\n'));
    assert!(is_space('\u{a0}'));
    assert!(!is_space('a'));
    assert!(!is_space('-'));
}

#[test]
fn test_str_eq_and_starts_with() {
    assert!(str_eq("user", "user"));
    assert!(!str_eq("user", "users"));
    assert!(!str_eq("user", "USER"));
    assert!(str_starts_with("VERSION=9", "VERSION="));
    assert!(!str_starts_with("VERSION_ID=9", "VERSION="));
    assert!(str_starts_with("anything", ""));
}

#[test]
fn test_usize_to_string_renders_decimal() {
    assert_eq!(usize_to_string(0), "0");
    assert_eq!(usize_to_string(7), "7");
    assert_eq!(usize_to_string(10), "10");
    assert_eq!(usize_to_string(1000001), "1000001");
}

#[test]
fn test_trims() {
    assert_eq!(str_trim("  abc \n"), "abc");
    assert_eq!(str_trim(""), "");
    assert_eq!(str_trim(" \t "), "");
    assert_eq!(str_trim_char("\"9.4\"", '"'), "9.4");
    assert_eq!(str_trim_char("\"\"", '"'), "");
}

#[test]
fn test_strip_prefix_all_repeats() {
    assert_eq!(str_strip_prefix_all("VERSION=VERSION=9", "VERSION="), "9");
    assert_eq!(str_strip_prefix_all("9", "VERSION="), "9");
}

#[test]
fn test_replace_dash_with_dot() {
    assert_eq!(str_replace_dash_with_dot("1-2-3"), "1.2.3");
    assert_eq!(str_replace_dash_with_dot("abc"), "abc");
    assert_eq!(str_replace_dash_with_dot(""), "");
}

#[test]
fn test_split_str_lines_matches_line_rules() {
    assert_eq!(split_str_lines("a\nb"), vec!["a", "b"]);
    assert_eq!(split_str_lines("a\nb\n"), vec!["a", "b"]);
    assert_eq!(split_str_lines("a\r\nb\r\n"), vec!["a", "b"]);
    assert_eq!(split_str_lines("a\n\nb"), vec!["a", "", "b"]);
    let empty: Vec<String> = vec![];
    assert_eq!(split_str_lines(""), empty);
}
