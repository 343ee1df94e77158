use claude_code_proxy::text::{decimal, join_comma, same_text, split_comma_separated, starts_with};

#[test]
fn splits_and_trims_comma_lists() {
    assert_eq!(split_comma_separated("sonnet,haiku"), vec!["sonnet", "haiku"]);
    assert_eq!(split_comma_separated(" a , b ,, c "), vec!["a", "b", "c"]);
    assert_eq!(split_comma_separated(""), Vec::<String>::new());
    assert_eq!(split_comma_separated(" , ,"), Vec::<String>::new());
    assert_eq!(split_comma_separated("model-*-large-*,large-*"), vec!["model-*-large-*", "large-*"]);
}

#[test]
fn trims_unicode_white_space() {
    assert_eq!(split_comma_separated("\u{3000}x\u{a0},\ty\n"), vec!["x", "y"]);
    assert_eq!(split_comma_separated("é ,ü"), vec!["é", "ü"]);
}

#[test]
fn joins_with_commas() {
    let items = vec!["sonnet".to_string(), "haiku".to_string()];
    assert_eq!(join_comma(&items), "sonnet,haiku");
    assert_eq!(join_comma(&[]), "");
    assert_eq!(join_comma(&["one".to_string()]), "one");
}

#[test]
fn joined_list_reads_back() {
    let items = vec!["a".to_string(), "b c".to_string(), "d".to_string()];
    assert_eq!(split_comma_separated(&join_comma(&items)), items);
}

#[test]
fn writes_decimal_numbers() {
    assert_eq!(decimal(0), "0");
    assert_eq!(decimal(7), "7");
    assert_eq!(decimal(-45), "-45");
    assert_eq!(decimal(1234567890), "1234567890");
    assert_eq!(decimal(i64::MIN), i64::MIN.to_string());
    assert_eq!(decimal(i64::MAX), i64::MAX.to_string());
}

#[test]
fn checks_prefixes_and_equality() {
    assert!(starts_with("/dashboard/login/x", "/dashboard/login"));
    assert!(!starts_with("/dash", "/dashboard"));
    assert!(starts_with("abc", ""));
    assert!(same_text("authenticated", "authenticated"));
    assert!(!same_text("authenticated", "Authenticated"));
}
