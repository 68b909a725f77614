use shipweight::validate::{invalid_npm_name, is_spam, is_valid_npm_chars};

#[test]
fn npm_names_valid() {
    assert_eq!(invalid_npm_name("lodash"), None);
    assert_eq!(invalid_npm_name("@babel/core"), None);
    assert_eq!(invalid_npm_name("a.b_c-1"), None);
    assert_eq!(invalid_npm_name(&"a".repeat(214)), None);
    assert_eq!(invalid_npm_name("a-b-c-d-e-f"), None);
}

#[test]
fn npm_names_invalid() {
    assert_eq!(invalid_npm_name(""), Some("empty name"));
    assert_eq!(invalid_npm_name(&"a".repeat(215)), Some("name too long"));
    assert_eq!(invalid_npm_name(&"\u{e9}".repeat(108)), Some("name too long"));
    assert_eq!(invalid_npm_name(".hidden"), Some("invalid prefix"));
    assert_eq!(invalid_npm_name("_private"), Some("invalid prefix"));
    assert_eq!(invalid_npm_name("@/core"), Some("invalid scoped name"));
    assert_eq!(invalid_npm_name("@babel/"), Some("invalid scoped name"));
    assert_eq!(invalid_npm_name("@babel"), Some("invalid scoped name"));
    assert_eq!(invalid_npm_name("@Babel/core"), Some("invalid characters in scope"));
    assert_eq!(invalid_npm_name("@babel/Core"), Some("invalid characters"));
    assert_eq!(invalid_npm_name("@scope/pkg/extra"), Some("invalid characters"));
    assert_eq!(invalid_npm_name("React"), Some("invalid characters"));
    assert_eq!(invalid_npm_name("caf\u{e9}"), Some("invalid characters"));
    assert_eq!(invalid_npm_name("has space"), Some("invalid characters"));
}

#[test]
fn npm_names_spam() {
    assert_eq!(invalid_npm_name("cheap-watches"), Some("spam pattern"));
    assert_eq!(invalid_npm_name("buy-now"), Some("spam pattern"));
    assert_eq!(invalid_npm_name("@casino-x/pkg"), Some("spam pattern"));
    let long = format!("a-b-c-d-e-{}", "x".repeat(31));
    assert_eq!(long.len(), 41);
    assert_eq!(invalid_npm_name(&long), Some("spam pattern"));
    let short = format!("a-b-c-d-e-{}", "x".repeat(30));
    assert_eq!(invalid_npm_name(&short), None);
}

#[test]
fn spam_and_chars() {
    assert!(is_spam("Casino-Royale"));
    assert!(is_spam("best-KEYGEN"));
    assert!(!is_spam("react"));
    assert!(is_valid_npm_chars("abc-1._"));
    assert!(is_valid_npm_chars(""));
    assert!(!is_valid_npm_chars("a b"));
    assert!(!is_valid_npm_chars("A"));
}
