use react_css_modules::text::{join_with_spaces, same_text, split_words, trim_text};

#[test]
fn splits_on_unicode_whitespace() {
    assert_eq!(split_words(" a\u{3000}b\t\tc "), vec!["a", "b", "c"]);
    assert!(split_words("   ").is_empty());
}

#[test]
fn joins_and_trims() {
    let v = vec!["a".to_string(), "".to_string(), "b".to_string()];
    assert_eq!(join_with_spaces(&v), "a  b");
    assert_eq!(join_with_spaces(&vec![]), "");
    assert_eq!(trim_text("\u{a0} x y \n"), "x y");
    assert_eq!(trim_text("  "), "");
    assert!(same_text("ab", "ab"));
    assert!(!same_text("ab", "abc"));
}
