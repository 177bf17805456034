use vitest_linter::suppression::SuppressionMap;

#[test]
fn disable_next_line_single_rule() {
    let source = r#"// vitest-linter-disable-next-line VITEST-FLK-001
setTimeout(() => {}, 100);
"#;
    let map = SuppressionMap::parse(source);
    assert!(map.is_suppressed(2, "VITEST-FLK-001"));
    assert!(!map.is_suppressed(2, "VITEST-FLK-002"));
}

#[test]
fn disable_next_line_all_rules() {
    let source = r#"// vitest-linter-disable-next-line
setTimeout(() => {}, 100);
"#;
    let map = SuppressionMap::parse(source);
    assert!(map.is_suppressed(2, "VITEST-FLK-001"));
    assert!(map.is_suppressed(2, "VITEST-MNT-001"));
}

#[test]
fn disable_next_line_multiple_rules() {
    let source = r#"// vitest-linter-disable-next-line VITEST-FLK-001, VITEST-FLK-002
setTimeout(() => {}, 100);
"#;
    let map = SuppressionMap::parse(source);
    assert!(map.is_suppressed(2, "VITEST-FLK-001"));
    assert!(map.is_suppressed(2, "VITEST-FLK-002"));
    assert!(!map.is_suppressed(2, "VITEST-FLK-003"));
}

#[test]
fn disable_range() {
    let source = r#"// vitest-linter-disable VITEST-FLK-001
const x = 1;
const y = 2;
// vitest-linter-enable VITEST-FLK-001
const z = 3;
"#;
    let map = SuppressionMap::parse(source);
    assert!(map.is_suppressed(2, "VITEST-FLK-001"));
    assert!(map.is_suppressed(3, "VITEST-FLK-001"));
    assert!(!map.is_suppressed(5, "VITEST-FLK-001"));
}

#[test]
fn disable_all_range() {
    let source = r#"// vitest-linter-disable
const x = 1;
// vitest-linter-enable
const y = 2;
"#;
    let map = SuppressionMap::parse(source);
    assert!(map.is_suppressed(2, "VITEST-FLK-001"));
    assert!(map.is_suppressed(2, "VITEST-MNT-001"));
    assert!(!map.is_suppressed(4, "VITEST-FLK-001"));
}

#[test]
fn no_suppression() {
    let source = r#"const x = 1;
setTimeout(() => {}, 100);
"#;
    let map = SuppressionMap::parse(source);
    assert!(!map.is_suppressed(2, "VITEST-FLK-001"));
}

#[test]
fn suppression_comment_on_last_line_covers_nothing_before() {
    let source = "const a = 1;\n// vitest-linter-disable-next-line VITEST-FLK-001\n";
    let map = SuppressionMap::parse(source);
    assert!(!map.is_suppressed(1, "VITEST-FLK-001"));
    assert!(!map.is_suppressed(2, "VITEST-FLK-001"));
    assert!(map.is_suppressed(3, "VITEST-FLK-001"));
}

#[test]
fn enable_without_ids_clears_every_range() {
    let source = "// vitest-linter-disable VITEST-FLK-001\nconst a = 1;\n// vitest-linter-enable\nconst b = 2;\n";
    let map = SuppressionMap::parse(source);
    assert!(map.is_suppressed(2, "VITEST-FLK-001"));
    assert!(!map.is_suppressed(4, "VITEST-FLK-001"));
}

#[test]
fn disable_enable_pair_covers_exactly_the_lines_between() {
    let source = "a();\n// vitest-linter-disable VITEST-MNT-003\nb();\nc();\n// vitest-linter-enable VITEST-MNT-003\nd();\n";
    let map = SuppressionMap::parse(source);
    let got: Vec<bool> = (1..=7).map(|l| map.is_suppressed(l, "VITEST-MNT-003")).collect();
    assert_eq!(got, vec![false, true, true, true, false, false, false]);
    assert!(!map.is_suppressed(3, "VITEST-MNT-004"));
}

#[test]
fn unclosed_disable_runs_to_the_end_and_next_line_covers_one_line() {
    let source = "a();\n// vitest-linter-disable\nb();\nc();\n";
    let map = SuppressionMap::parse(source);
    let got: Vec<bool> = (1..=5).map(|l| map.is_suppressed(l, "VITEST-FLK-001")).collect();
    assert_eq!(got, vec![false, true, true, true, false]);
    let source = "a();\n// vitest-linter-disable-next-line VITEST-FLK-001\nb();\nc();\n";
    let map = SuppressionMap::parse(source);
    let got: Vec<bool> = (1..=5).map(|l| map.is_suppressed(l, "VITEST-FLK-001")).collect();
    assert_eq!(got, vec![false, false, true, false, false]);
}

#[test]
fn disable_all_enable_all_pair_covers_exactly_the_lines_between() {
    let source = "a();\n// vitest-linter-disable\nb();\n// vitest-linter-enable\nc();\n";
    let map = SuppressionMap::parse(source);
    for rule in ["VITEST-FLK-001", "VITEST-PW-100"] {
        let got: Vec<bool> = (1..=6).map(|l| map.is_suppressed(l, rule)).collect();
        assert_eq!(got, vec![false, true, true, false, false, false]);
    }
}

#[test]
fn unclosed_disable_of_one_rule_leaves_the_others() {
    let source = "a();\n// vitest-linter-disable VITEST-FLK-001\nb();\n";
    let map = SuppressionMap::parse(source);
    let got: Vec<bool> = (1..=4).map(|l| map.is_suppressed(l, "VITEST-FLK-001")).collect();
    assert_eq!(got, vec![false, true, true, false]);
    for l in 1..=4 {
        assert!(!map.is_suppressed(l, "VITEST-FLK-002"));
    }
}
