use glaredb_lite::like::{
    can_str_compare, choose_like_replacement, is_contains_pattern, is_prefix_pattern,
    is_suffix_pattern, StringTest,
};

#[test]
fn can_compare() {
    let cases = [
        ("hello", true),
        ("%hello", false),
        ("%hello%", false),
        ("hello%", false),
        (r#"hello\%"#, false),
        ("he_llo%", false),
        ("he_llo", false),
        ("", true),
    ];

    for case in cases {
        let got = can_str_compare(case.0);
        assert_eq!(case.1, got, "{}", case.0);
    }
}

#[test]
fn is_prefix() {
    let cases = [
        ("hello", false),
        ("%hello", false),
        ("%hello%", false),
        ("hello%", true),
        (r#"hello\%"#, false),
        ("he_llo%", false),
        ("", false),
    ];

    for case in cases {
        let got = is_prefix_pattern(case.0);
        assert_eq!(case.1, got, "{}", case.0);
    }
}

#[test]
fn is_suffix() {
    let cases = [
        ("hello", false),
        ("%hello", true),
        (r#"\%hello"#, false),
        ("%hello%", false),
        ("hello%", false),
        ("%he_llo", false),
        ("", false),
    ];

    for case in cases {
        let got = is_suffix_pattern(case.0);
        assert_eq!(case.1, got, "{}", case.0);
    }
}

#[test]
fn is_contains() {
    let cases = [
        ("hello", false),
        ("%hello", false),
        (r#"%hello\%"#, false),
        ("%hello%", true),
        ("hello%", false),
        ("%he_llo", false),
        ("", false),
        ("%%", true),
        ("%he_llo%", false),
    ];

    for case in cases {
        let got = is_contains_pattern(case.0);
        assert_eq!(case.1, got, "{}", case.0);
    }
}

#[test]
fn lone_percent_is_prefix_and_suffix() {
    assert!(is_prefix_pattern("%"));
    assert!(is_suffix_pattern("%"));
    assert!(!is_contains_pattern("%"));
    assert!(!can_str_compare("%"));
}

#[test]
fn multibyte_patterns_classify_by_characters() {
    assert!(is_prefix_pattern("héllo%"));
    assert!(is_suffix_pattern("%日本"));
    assert!(is_contains_pattern("%ü%"));
    assert!(can_str_compare("日本語"));
    assert!(!is_prefix_pattern("é\\%"));
}

#[test]
fn replacement_order_and_trimmed_argument() {
    assert_eq!(
        choose_like_replacement("hello"),
        Some((StringTest::Equals, "hello".to_string()))
    );
    assert_eq!(
        choose_like_replacement("hello%"),
        Some((StringTest::StartsWith, "hello".to_string()))
    );
    assert_eq!(
        choose_like_replacement("%hello"),
        Some((StringTest::EndsWith, "hello".to_string()))
    );
    assert_eq!(
        choose_like_replacement("%hello%"),
        Some((StringTest::Contains, "hello".to_string()))
    );
    // A lone '%' is first taken as a prefix pattern, with an empty argument.
    assert_eq!(
        choose_like_replacement("%"),
        Some((StringTest::StartsWith, "".to_string()))
    );
    assert_eq!(
        choose_like_replacement("%%"),
        Some((StringTest::Contains, "".to_string()))
    );
    assert_eq!(choose_like_replacement("he_llo"), None);
    assert_eq!(choose_like_replacement("a%b"), None);
}
