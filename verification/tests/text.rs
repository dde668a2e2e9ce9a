use fastgpt::text::{str_eq, str_starts_with, trim};

#[test]
fn trim_removes_both_ends() {
    assert_eq!(trim("  hello  "), "hello");
    assert_eq!(trim("\t a b \r\n"), "a b");
    assert_eq!(trim("word"), "word");
    assert_eq!(trim("   "), "");
    assert_eq!(trim(""), "");
}

#[test]
fn str_eq_compares_characters() {
    assert!(str_eq("abc", "abc"));
    assert!(!str_eq("abc", "abd"));
    assert!(!str_eq("abc", "ab"));
    assert!(str_eq("", ""));
}

#[test]
fn prefix_test() {
    assert!(str_starts_with("/add-file x", "/add-file "));
    assert!(!str_starts_with("/add-file", "/add-file "));
    assert!(str_starts_with("anything", ""));
}
