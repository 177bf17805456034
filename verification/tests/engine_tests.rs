use vitest_linter::engine::is_test_file;

#[test]
fn test_file_accepted_extensions() {
    assert!(is_test_file("foo.test.ts"));
    assert!(is_test_file("foo.spec.ts"));
    assert!(is_test_file("foo.test.tsx"));
    assert!(is_test_file("foo.spec.tsx"));
    assert!(is_test_file("foo.test.js"));
    assert!(is_test_file("foo.spec.js"));
    assert!(is_test_file("foo.test.jsx"));
    assert!(is_test_file("foo.spec.jsx"));
    assert!(is_test_file("path/to/bar.test.ts"));
    assert!(is_test_file("path/to/bar.spec.js"));
    assert!(is_test_file("path/to/baz.test.tsx"));
    // Case-insensitive matching
    assert!(is_test_file("Foo.TEST.ts"));
    assert!(is_test_file("path/To/BaZ.Spec.JS"));
    assert!(is_test_file("UPPER.TEST.TSX"));
}

#[test]
fn test_file_rejected_extensions() {
    assert!(!is_test_file("foo.ts"));
    assert!(!is_test_file("foo.js"));
    assert!(!is_test_file("foo.tsx"));
    assert!(!is_test_file("foo.jsx"));
    assert!(!is_test_file("utils.ts"));
    assert!(!is_test_file("README.md"));
    assert!(!is_test_file("foo.test.py"));
    assert!(!is_test_file("test.ts"));
}
