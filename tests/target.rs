use gentle::target::{Matches, TargetAddress, TargetMatcher, TargetParseError};

#[test]
fn fully_qualified() {
    assert_eq!(
        "//foo/bar:baz".parse(),
        Ok(TargetAddress {
            package: "foo/bar".to_string(),
            identifier: "baz".to_string(),
        })
    );
}

#[test]
fn missing_task() {
    assert_eq!(
        "//foo/bar".parse::<TargetAddress>(),
        Err(TargetParseError::MissingTask),
    );
}

#[test]
fn missing_package() {
    assert_eq!(
        ":baz".parse::<TargetAddress>(),
        Err(TargetParseError::MissingPackage),
    );
}

#[test]
fn relative_target() {
    assert_eq!(
        "foo/bar:baz".parse::<TargetAddress>(),
        Err(TargetParseError::PackageMustBeAbsolute),
    );
}

#[test]
fn exact_target() {
    let matcher: TargetMatcher = "//foo/bar:baz".parse().unwrap();
    let target: TargetAddress = "//foo/bar:baz".parse().unwrap();
    assert!(&[matcher][..].matches(&target));
}

#[test]
fn different_target() {
    let matcher: TargetMatcher = "//foo/bar:baz".parse().unwrap();
    let target: TargetAddress = "//foo/bar:qux".parse().unwrap();
    assert!(!&[matcher][..].matches(&target));
}

#[test]
fn different_package() {
    let matcher: TargetMatcher = "//foo/bar:baz".parse().unwrap();
    let target: TargetAddress = "//foo/qux:baz".parse().unwrap();
    assert!(!&[matcher][..].matches(&target));
}

#[test]
fn root_matcher() {
    let matcher: TargetMatcher = "//...".parse().unwrap();
    let target: TargetAddress = "//foo/qux:baz".parse().unwrap();
    assert!(&[matcher][..].matches(&target));
}

#[test]
fn address_ignores_text_after_second_colon() {
    let a = TargetAddress::parse("//a:b:c").unwrap();
    assert_eq!(a.package, "a");
    assert_eq!(a.identifier, "b");
}

#[test]
fn address_with_empty_identifier() {
    let a = TargetAddress::parse("//a:").unwrap();
    assert_eq!(a.identifier, "");
}

#[test]
fn single_slash_package_is_not_absolute() {
    assert_eq!(
        TargetAddress::parse("/a:b"),
        Err(TargetParseError::PackageMustBeAbsolute)
    );
    assert!(matches!(
        TargetMatcher::parse("/"),
        Err(TargetParseError::PackageMustBeAbsolute)
    ));
}

#[test]
fn empty_text_is_missing_package() {
    assert_eq!(
        TargetAddress::parse(""),
        Err(TargetParseError::MissingPackage)
    );
    assert!(matches!(
        TargetMatcher::parse(""),
        Err(TargetParseError::MissingPackage)
    ));
}

#[test]
fn address_display_form() {
    let a = TargetAddress::parse("//foo/bar:baz").unwrap();
    assert_eq!(a.to_string(), "//foo/bar:baz");
}

#[test]
fn matcher_without_identifier_selects_whole_package() {
    let matcher = TargetMatcher::parse("//foo/bar").unwrap();
    assert_eq!(matcher.identifier, None);
    let target = TargetAddress::parse("//foo/bar:anything").unwrap();
    assert!(matcher.matches(&target));
    let other = TargetAddress::parse("//foo:anything").unwrap();
    assert!(!matcher.matches(&other));
}

#[test]
fn no_matchers_select_nothing() {
    let target = TargetAddress::parse("//foo/bar:baz").unwrap();
    let none: Vec<TargetMatcher> = Vec::new();
    assert!(!none.matches(&target));
}

#[test]
fn any_of_several_matchers() {
    let ms = vec![
        TargetMatcher::parse("//x:y").unwrap(),
        TargetMatcher::parse("//foo/bar:baz").unwrap(),
    ];
    let target = TargetAddress::parse("//foo/bar:baz").unwrap();
    assert!(ms.matches(&target));
}
