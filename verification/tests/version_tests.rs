use ddoc::version::{compare_versions, is_current_version_older_than, DDOC_VERSION};

#[test]
fn test_compare_versions() {
    assert_eq!(
        compare_versions("1.0.0", "1.0.0"),
        std::cmp::Ordering::Equal
    );
    assert_eq!(
        compare_versions("1.0.1", "1.0.0"),
        std::cmp::Ordering::Greater
    );
    assert_eq!(compare_versions("1.0.0", "1.0.1"), std::cmp::Ordering::Less);
    assert_eq!(compare_versions("1.1", "2"), std::cmp::Ordering::Less);
    assert_eq!(
        compare_versions(DDOC_VERSION, DDOC_VERSION),
        std::cmp::Ordering::Equal
    );
    assert!(!is_current_version_older_than(DDOC_VERSION));
}

#[test]
fn version_component_outside_digits_counts_as_zero() {
    assert_eq!(compare_versions("1.x", "1.0"), std::cmp::Ordering::Equal);
    assert_eq!(compare_versions("1.2", "1.x"), std::cmp::Ordering::Greater);
}

#[test]
fn version_parse_component_values() {
    assert_eq!(ddoc::version::parse_component("123"), 123);
    assert_eq!(ddoc::version::parse_component(""), 0);
    assert_eq!(ddoc::version::parse_component("12a"), 0);
    assert_eq!(ddoc::version::parse_component("99999999999"), 0);
}
