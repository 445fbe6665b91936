use flowbit::text::{
    chars_of, contains_chars, decimal_chars, join_chars, parse_usize_chars, same_chars,
    lower_str, split_words, string_of, trim_chars, white_space,
};

fn chars(s: &str) -> Vec<char> {
    s.chars().collect()
}

#[test]
fn decimal_rendering() {
    assert_eq!(string_of(&decimal_chars(0)), "0");
    assert_eq!(string_of(&decimal_chars(42)), "42");
    assert_eq!(string_of(&decimal_chars(u64::MAX)), "18446744073709551615");
}

#[test]
fn words_split_on_unicode_white_space() {
    let w = split_words(&chars("  a\u{3000}bc\t\nd  "));
    let w: Vec<String> = w.iter().map(string_of).collect();
    assert_eq!(w, vec!["a", "bc", "d"]);
    assert!(split_words(&chars("   ")).is_empty());
    assert!(white_space('\u{85}'));
    assert!(!white_space('x'));
}

#[test]
fn trimming() {
    assert_eq!(string_of(&trim_chars(&chars(" \u{a0}x y\r\n"))), "x y");
    assert_eq!(string_of(&trim_chars(&chars("   "))), "");
}

#[test]
fn joining() {
    let parts = vec![chars("a"), chars("b"), chars("c")];
    assert_eq!(string_of(&join_chars(&parts, &chars(", "))), "a, b, c");
    assert_eq!(string_of(&join_chars(&vec![], &chars(", "))), "");
}

#[test]
fn substring_search() {
    assert!(contains_chars(&chars("hello"), &chars("ll")));
    assert!(contains_chars(&chars("hello"), &chars("")));
    assert!(!contains_chars(&chars("hello"), &chars("lo!")));
    assert!(same_chars(&chars_of("abc"), &chars("abc")));
}

#[test]
fn usize_parsing() {
    assert_eq!(parse_usize_chars(&chars("17")), Some(17));
    assert_eq!(parse_usize_chars(&chars("+3")), Some(3));
    assert_eq!(parse_usize_chars(&chars("+")), None);
    assert_eq!(parse_usize_chars(&chars("-3")), None);
    assert_eq!(parse_usize_chars(&chars("18446744073709551616")), None);
    assert_eq!(parse_usize_chars(&chars("18446744073709551615")), Some(usize::MAX));
}

#[test]
fn lowercase_is_unicode_aware() {
    assert_eq!(string_of(&lower_str("ÄBC")), "äbc");
}
