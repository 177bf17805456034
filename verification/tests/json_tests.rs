use vitest_linter::json::{member_pointer, package_select, tsconfig_parts};

#[test]
fn package_select_reads_string_values() {
    let text = r#"{
  "name": "app",
  "vitest-linter": {
    "select": {
      "VITEST-MNT-002": "error",
      "VITEST-FLK-001": "off",
      "VITEST-MNT-001": 3
    }
  }
}"#;
    let entries = package_select(text).unwrap();
    // serde_json keeps object keys in sorted order.
    assert_eq!(
        entries,
        vec![
            ("VITEST-FLK-001".to_string(), Some("off".to_string())),
            ("VITEST-MNT-001".to_string(), None),
            ("VITEST-MNT-002".to_string(), Some("error".to_string())),
        ]
    );
}

#[test]
fn package_select_missing_table_is_none() {
    assert_eq!(package_select(r#"{"name": "app"}"#), None);
    assert_eq!(package_select(r#"{"vitest-linter": {}}"#), None);
    assert_eq!(package_select(r#"{"vitest-linter": {"select": []}}"#), None);
}

#[test]
fn package_select_invalid_json_is_none() {
    assert_eq!(package_select("{ not json"), None);
    assert_eq!(package_select(""), None);
}

#[test]
fn package_select_empty_table() {
    assert_eq!(package_select(r#"{"vitest-linter": {"select": {}}}"#), Some(vec![]));
}

#[test]
fn package_select_key_with_slash_and_tilde() {
    let text = r#"{"vitest-linter": {"select": {"a/b~c": "warning"}}}"#;
    assert_eq!(
        package_select(text),
        Some(vec![("a/b~c".to_string(), Some("warning".to_string()))])
    );
}

#[test]
fn tsconfig_parts_reads_base_url_and_paths() {
    let text = r#"{
  "compilerOptions": {
    "baseUrl": "./src",
    "paths": {
      "@/*": ["app/*", 7, "lib/*"],
      "~utils": ["utils/index.ts"],
      "bad": "not-an-array"
    }
  }
}"#;
    let (base, entries) = tsconfig_parts(text).unwrap();
    assert_eq!(base, Some("./src".to_string()));
    assert_eq!(
        entries,
        vec![
            (
                "@/*".to_string(),
                Some(vec![Some("app/*".to_string()), None, Some("lib/*".to_string())])
            ),
            ("bad".to_string(), None),
            ("~utils".to_string(), Some(vec![Some("utils/index.ts".to_string())])),
        ]
    );
}

#[test]
fn tsconfig_parts_without_compiler_options_is_none() {
    assert_eq!(tsconfig_parts(r#"{"include": ["src"]}"#), None);
    assert_eq!(tsconfig_parts("not json"), None);
}

#[test]
fn tsconfig_parts_without_base_url_or_paths() {
    let (base, entries) = tsconfig_parts(r#"{"compilerOptions": {"strict": true}}"#).unwrap();
    assert_eq!(base, None);
    assert!(entries.is_empty());
    let (base, entries) = tsconfig_parts(r#"{"compilerOptions": {"baseUrl": 1}}"#).unwrap();
    assert_eq!(base, None);
    assert!(entries.is_empty());
}

#[test]
fn member_pointer_escapes_tilde_and_slash() {
    assert_eq!(member_pointer("/compilerOptions/paths", "@/*"), "/compilerOptions/paths/@~1*");
    assert_eq!(member_pointer("", "a~b"), "/a~0b");
    assert_eq!(member_pointer("/x", "plain"), "/x/plain");
}
