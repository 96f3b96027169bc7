use rustris::strutil::{
    first_token, join_with, parse_i64_digits, second_token, split_char, str_contains,
    str_ends_with, str_eq, str_lex_leq, str_starts_with, str_trim,
};

#[test]
fn eq_and_affixes() {
    assert!(str_eq("abc", "abc"));
    assert!(!str_eq("abc", "abd"));
    assert!(str_starts_with("crash_2024.log", "crash_"));
    assert!(!str_starts_with("x", "crash_"));
    assert!(str_ends_with("file.tar.gz", ".tar.gz"));
    assert!(!str_ends_with("file.tar.gz.sha512sum", ".tar.gz"));
    assert!(str_ends_with("anything", ""));
}

#[test]
fn substring_search() {
    assert!(str_contains("ID=ubuntu\nNAME=x", "ID=ubuntu"));
    assert!(!str_contains("ID=debian", "ID=ubuntu"));
    assert!(str_contains("abc", ""));
    assert!(!str_contains("ab", "abc"));
    assert!(str_contains("3 days, 04:12:14", "days"));
}

#[test]
fn splitting() {
    let parts = split_char("a,b,,c", ',');
    assert_eq!(parts, vec!["a", "b", "", "c"]);
    assert_eq!(split_char("", ','), vec![""]);
    assert_eq!(split_char("xy", ','), vec!["xy"]);
    assert_eq!(split_char("a/b/", '/'), vec!["a", "b", ""]);
}

#[test]
fn trimming() {
    assert_eq!(str_trim("  hello \t"), "hello");
    assert_eq!(str_trim("\n"), "");
    assert_eq!(str_trim("no-space"), "no-space");
    assert_eq!(str_trim(""), "");
}

#[test]
fn digit_parsing() {
    assert_eq!(parse_i64_digits("0"), Some(0));
    assert_eq!(parse_i64_digits("9223372036854775807"), Some(i64::MAX));
    assert_eq!(parse_i64_digits("9223372036854775808"), None); // one past the range
    assert_eq!(parse_i64_digits(""), None);
    assert_eq!(parse_i64_digits("12a"), None);
    assert_eq!(parse_i64_digits("42"), Some(42));
}

#[test]
fn tokens() {
    assert_eq!(first_token("3 days"), "3");
    assert_eq!(first_token(""), "");
    assert_eq!(second_token("1762104463 GE-Proton10-25"), "GE-Proton10-25");
    assert_eq!(second_token("  a   b  c"), "b");
    assert_eq!(second_token("lonely"), "");
}

#[test]
fn lexicographic_order() {
    assert!(str_lex_leq("abc", "abd"));
    assert!(!str_lex_leq("abd", "abc"));
    assert!(str_lex_leq("ab", "abc"));
    assert!(str_lex_leq("same", "same"));
    assert!(str_lex_leq("", "anything"));
}

#[test]
fn joining() {
    let parts: Vec<String> = vec!["A=1".to_string(), "B=2".to_string()];
    assert_eq!(join_with(&parts, ";"), "A=1;B=2");
    let one: Vec<String> = vec!["solo".to_string()];
    assert_eq!(join_with(&one, ";"), "solo");
    let none: Vec<String> = Vec::new();
    assert_eq!(join_with(&none, ";"), "");
}
