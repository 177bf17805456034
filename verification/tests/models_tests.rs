use vitest_linter::models::{Category, Severity};

#[test]
fn severity_ordering() {
    assert!(Severity::Error < Severity::Warning);
    assert!(Severity::Warning < Severity::Info);
    assert!(Severity::Error < Severity::Info);
}

#[test]
fn severity_equality() {
    assert_eq!(Severity::Error, Severity::Error);
    assert_ne!(Severity::Error, Severity::Warning);
}

#[test]
fn category_values() {
    assert_ne!(Category::Flakiness, Category::Maintenance);
    assert_ne!(Category::Maintenance, Category::Structure);
    assert_ne!(Category::Flakiness, Category::Structure);
}
