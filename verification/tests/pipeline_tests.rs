use vitest_linter::config::{Config, RawConfig, RawDepsConfig, RawRulesConfig};
use vitest_linter::engine::{
    count_severity, group_by_root, has_errors, summary_line, LintEngine, LintGroup,
};
use vitest_linter::models::{Category, ModuleGraph, ParsedModule, Severity, Violation};
use vitest_linter::order::{discovered_files, sort_violations};
use vitest_linter::paths::path_components;
use vitest_linter::tsconfig::TsConfig;

fn config_with_select(select: Vec<(&str, &str)>) -> Config {
    let raw = RawConfig {
        deps: RawDepsConfig::default(),
        rules: RawRulesConfig {
            select: select
                .into_iter()
                .map(|(k, v)| (k.to_string(), v.to_string()))
                .collect(),
        },
    };
    Config::from_raw(raw).unwrap()
}

fn lint_one(config: Config, path: &str, source: &str) -> Vec<Violation> {
    let engine = LintEngine::new().unwrap();
    let module = engine.parse(path, source).unwrap();
    let modules = vec![module.clone()];
    let graph = ModuleGraph::new(&modules, &[]);
    let groups = vec![LintGroup {
        config,
        modules: vec![module],
        sources: vec![source.to_string()],
    }];
    engine.lint(&groups, &graph)
}

const FOCUSED_AND_EMPTY: &str = r#"import { it, expect } from 'vitest';

it.only('runs alone', () => {
  expect(1).toBe(1);
});

it('checks nothing', () => {
  const x = 1;
});
"#;

fn ids(vs: &[Violation]) -> Vec<(String, usize)> {
    vs.iter().map(|v| (v.rule_id.clone(), v.line)).collect()
}

#[test]
fn engine_reports_focused_and_assertionless_tests_in_line_order() {
    let vs = lint_one(Config::default(), "a.test.ts", FOCUSED_AND_EMPTY);
    assert_eq!(
        ids(&vs),
        vec![
            ("VITEST-MNT-007".to_string(), 3),
            ("VITEST-MNT-001".to_string(), 7),
        ]
    );
    assert_eq!(vs[0].severity, Severity::Error);
    assert_eq!(vs[0].category, Category::Maintenance);
    assert_eq!(vs[0].file_path, "a.test.ts");
    assert!(has_errors(&vs));
    assert_eq!(count_severity(&vs, Severity::Error), 2);
    assert_eq!(
        summary_line(&vs),
        "Found 2 violation(s): 2 error(s), 0 warning(s), 0 info"
    );
}

#[test]
fn engine_turns_off_a_rule_and_overrides_a_severity() {
    let cfg = config_with_select(vec![("VITEST-MNT-007", "Off"), ("VITEST-MNT-001", "info")]);
    let vs = lint_one(cfg, "a.test.ts", FOCUSED_AND_EMPTY);
    assert_eq!(ids(&vs), vec![("VITEST-MNT-001".to_string(), 7)]);
    assert_eq!(vs[0].severity, Severity::Info);
    assert!(!has_errors(&vs));
    assert_eq!(
        summary_line(&vs),
        "Found 1 violation(s): 0 error(s), 0 warning(s), 1 info"
    );
}

#[test]
fn engine_keeps_the_severity_for_an_unknown_override() {
    let cfg = config_with_select(vec![("VITEST-MNT-001", "loud")]);
    let vs = lint_one(cfg, "a.test.ts", FOCUSED_AND_EMPTY);
    let no_assert: Vec<&Violation> = vs.iter().filter(|v| v.rule_id == "VITEST-MNT-001").collect();
    assert_eq!(no_assert.len(), 1);
    assert_eq!(no_assert[0].severity, Severity::Error);
}

#[test]
fn engine_drops_suppressed_violations() {
    let source = r#"import { it, expect } from 'vitest';

// vitest-linter-disable-next-line VITEST-MNT-007
it.only('runs alone', () => {
  expect(1).toBe(1);
});

it('checks nothing', () => {
  const x = 1;
});
"#;
    let vs = lint_one(Config::default(), "a.test.ts", source);
    assert_eq!(ids(&vs), vec![("VITEST-MNT-001".to_string(), 8)]);
}

#[test]
fn engine_reports_nothing_for_a_clean_file() {
    let source = "import { it, expect } from 'vitest';\nit('ok', () => {\n  expect(1).toBe(1);\n});\n";
    let vs = lint_one(Config::default(), "clean.test.ts", source);
    assert!(vs.is_empty());
    assert!(!has_errors(&vs));
    assert_eq!(
        summary_line(&vs),
        "Found 0 violation(s): 0 error(s), 0 warning(s), 0 info"
    );
}

fn violation(path: &str, line: usize, id: &str) -> Violation {
    Violation {
        rule_id: id.to_string(),
        rule_name: "R".to_string(),
        severity: Severity::Warning,
        category: Category::Maintenance,
        message: String::new(),
        file_path: path.to_string(),
        line,
        col: None,
        suggestion: None,
        test_name: None,
    }
}

#[test]
fn report_is_sorted_by_path_components_then_line_stably() {
    let vs = vec![
        violation("b/x.test.ts", 2, "first"),
        violation("a/z.test.ts", 9, "a"),
        violation("b/x.test.ts", 1, "b"),
        violation("b//x.test.ts", 1, "c"),
        violation("a-b.test.ts", 1, "d"),
    ];
    let sorted = sort_violations(&vs);
    let got: Vec<(&str, usize, &str)> = sorted
        .iter()
        .map(|v| (v.file_path.as_str(), v.line, v.rule_id.as_str()))
        .collect();
    assert_eq!(
        got,
        vec![
            ("a/z.test.ts", 9, "a"),
            ("a-b.test.ts", 1, "d"),
            ("b/x.test.ts", 1, "b"),
            ("b//x.test.ts", 1, "c"),
            ("b/x.test.ts", 2, "first"),
        ]
    );
}

#[test]
fn discovered_files_are_sorted_and_unique_by_path() {
    let candidates: Vec<String> = vec![
        "src/b.test.ts",
        "src/a.test.ts",
        "src//b.test.ts",
        "./src/c.test.ts",
        "src/a.test.ts",
    ]
    .into_iter()
    .map(String::from)
    .collect();
    let files = discovered_files(&candidates);
    assert_eq!(
        files,
        vec!["./src/c.test.ts", "src/a.test.ts", "src/b.test.ts"]
    );
}

#[test]
fn modules_are_grouped_by_configuration_root() {
    let roots = vec![
        path_components("proj/a"),
        path_components("proj/b"),
        path_components("proj//a"),
        path_components("proj/b/"),
        path_components("proj/c"),
    ];
    let groups = group_by_root(&roots);
    let got: Vec<(Vec<String>, Vec<usize>)> = groups
        .into_iter()
        .map(|g| (g.root, g.members))
        .collect();
    assert_eq!(
        got,
        vec![
            (vec!["proj".to_string(), "a".to_string()], vec![0, 2]),
            (vec!["proj".to_string(), "b".to_string()], vec![1, 3]),
            (vec!["proj".to_string(), "c".to_string()], vec![4]),
        ]
    );
}

#[test]
fn package_json_select_overrides_the_file() {
    let mut cfg = config_with_select(vec![("VITEST-FLK-001", "warning"), ("VITEST-MNT-003", "info")]);
    cfg.merge_package_select(&vec![
        ("VITEST-FLK-001".to_string(), Some("off".to_string())),
        ("VITEST-MNT-003".to_string(), None),
        ("VITEST-MNT-002".to_string(), Some("error".to_string())),
    ]);
    assert!(cfg.rules.is_disabled("VITEST-FLK-001"));
    assert_eq!(cfg.rules.severity_override("VITEST-MNT-003"), Some("info"));
    assert_eq!(cfg.rules.severity_override("VITEST-MNT-002"), Some("error"));
    assert_eq!(cfg.rules.select.len(), 4);
}

fn comps(v: &[Vec<String>]) -> Vec<String> {
    v.iter().map(|c| c.join("|")).collect()
}

#[test]
fn tsconfig_alias_candidates_follow_targets_and_extensions() {
    let ts = TsConfig::from_parts(
        "/proj",
        Some("."),
        &vec![
            (
                "@/*".to_string(),
                Some(vec![Some("src/*".to_string()), None, Some("lib/*".to_string())]),
            ),
            ("@utils/*".to_string(), Some(vec![Some("lib/utils/*".to_string())])),
            ("broken".to_string(), None),
        ],
    );
    let c = comps(&ts.resolve_candidates("@/components/Button"));
    assert_eq!(
        c,
        vec![
            "/|proj|src|components|Button.ts",
            "/|proj|src|components|Button.tsx",
            "/|proj|src|components|Button.js",
            "/|proj|src|components|Button.jsx",
            "/|proj|src|components|Button|index.ts",
            "/|proj|src|components|Button|index.tsx",
            "/|proj|src|components|Button|index.js",
            "/|proj|src|components|Button|index.jsx",
            "/|proj|lib|components|Button.ts",
            "/|proj|lib|components|Button.tsx",
            "/|proj|lib|components|Button.js",
            "/|proj|lib|components|Button.jsx",
            "/|proj|lib|components|Button|index.ts",
            "/|proj|lib|components|Button|index.tsx",
            "/|proj|lib|components|Button|index.js",
            "/|proj|lib|components|Button|index.jsx",
        ]
    );
    assert!(ts.resolve_candidates("lodash").is_empty());
}

#[test]
fn tsconfig_exact_alias_and_base_url() {
    let ts = TsConfig::from_parts(
        "root",
        Some("web"),
        &vec![("config".to_string(), Some(vec![Some("conf/main".to_string())]))],
    );
    let c = comps(&ts.resolve_candidates("config"));
    assert_eq!(c[0], "root|web|conf|main.ts");
    assert_eq!(c[4], "root|web|conf|main|index.ts");
    assert_eq!(c.len(), 8);
}

#[test]
fn parsed_test_blocks_agree_with_their_assertion_counts() {
    let engine = LintEngine::new().unwrap();
    let source = r#"import { describe, it, expect } from 'vitest';
describe('group', () => {
  it('none', () => {});
  it('one', () => { expect(1).toBe(1); });
  it('two', () => { expect(1).toBe(1); expect(2).toBe(2); });
});
"#;
    let m: ParsedModule = engine.parse("x.test.ts", source).unwrap();
    assert_eq!(m.test_blocks.len(), 3);
    for t in &m.test_blocks {
        assert_eq!(t.has_assertions, t.assertion_count > 0);
        assert_eq!(t.has_multiple_expects, t.assertion_count > 1);
        assert_eq!(t.file_path, "x.test.ts");
    }
    let counts: Vec<usize> = m.test_blocks.iter().map(|t| t.assertion_count).collect();
    assert_eq!(counts, vec![0, 1, 2]);
    assert_eq!(m.describe_blocks[0].file_path, "x.test.ts");
}

#[test]
fn tsconfig_drops_aliases_whose_glob_is_rejected() {
    let ts = TsConfig::from_parts(
        "/p",
        None,
        &vec![
            ("a[/*".to_string(), Some(vec![Some("x/*".to_string())])),
            ("b/*".to_string(), Some(vec![Some("y/*".to_string())])),
        ],
    );
    assert!(ts.resolve_candidates("a[/q").is_empty());
    let c = comps(&ts.resolve_candidates("b/q"));
    assert_eq!(c[0], "/|p|y|q.ts");
    assert_eq!(c.len(), 8);
}

#[test]
fn node_text_keeps_multibyte_characters() {
    let engine = LintEngine::new().unwrap();
    let source = "import { it, expect } from 'vitest';\nit('caf\u{e9} \u{2603} works', () => {\n  expect(1).toBe(1);\n});\n";
    let m = engine.parse("u.test.ts", source).unwrap();
    assert_eq!(m.test_blocks.len(), 1);
    assert_eq!(m.test_blocks[0].name, "caf\u{e9} \u{2603} works");
    assert_eq!(m.test_blocks[0].line, 2);
}
