use kamehameha::text::{first_token_of, same_text, split_after_first_token, split_single_colon, trim};

#[test]
fn trim_removes_unicode_whitespace() {
    assert_eq!(trim("\u{3000} a b \t\n"), "a b");
    assert_eq!(trim("   "), "");
}

#[test]
fn tokens_are_split_on_whitespace() {
    assert_eq!(first_token_of("  GET  https://x "), "GET");
    assert_eq!(split_after_first_token("GET  https://x y "), (true, "https://x y".to_string()));
    assert_eq!(split_after_first_token("only"), (false, "".to_string()));
}

#[test]
fn single_colon_split() {
    assert_eq!(
        split_single_colon("a:b"),
        Some(("a".to_string(), "b".to_string()))
    );
    assert_eq!(split_single_colon("a:b:c"), None);
    assert_eq!(split_single_colon("abc"), None);
    assert!(same_text("ab", "ab"));
    assert!(!same_text("ab", "abc"));
}
