use vitest_linter::config::{Config, RawBannedSingleton, RawConfig, RawDepsConfig, RawRulesConfig};
use vitest_linter::models::{
    LocatorChain, ModuleGraph, ParsedModule, PlaywrightCall, PlaywrightModule, TestRuntime,
};
use vitest_linter::parser::TsParser;
use vitest_linter::rules::dependencies::{
    BannedModuleMockRule, ProductionSingletonImportRule, ResetEscapeHatchRule,
};
use vitest_linter::rules::maintenance::ImplementationCoupledRule;
use vitest_linter::rules::playwright::{
    PwArbitrarySleepRule, PwLocatorNthRule, PwPageDollarRule, PwWaitForTimeoutRule,
    PwXPathSelectorRule,
};
use vitest_linter::rules::validation::{
    NoUnneededAsyncExpectFunctionRule, ValidDescribeCallbackRule, ValidExpectInPromiseRule,
    ValidExpectRule, ValidTitleRule,
};
use vitest_linter::rules::{LintContext, Rule};

fn parse(content: &str, name: &str) -> ParsedModule {
    let parser = TsParser::new().unwrap();
    parser.parse_file(name, content).unwrap()
}

fn raw_deps(
    banned_mock_paths: Vec<&str>,
    banned_singletons: Vec<(&str, Vec<&str>)>,
) -> RawConfig {
    RawConfig {
        deps: RawDepsConfig {
            banned_mock_paths: banned_mock_paths.into_iter().map(String::from).collect(),
            banned_singletons: banned_singletons
                .into_iter()
                .map(|(from, names)| RawBannedSingleton {
                    from: from.to_string(),
                    names: names.into_iter().map(String::from).collect(),
                })
                .collect(),
            integration_test_glob: None,
        },
        rules: RawRulesConfig { select: vec![] },
    }
}

fn cfg(raw: RawConfig) -> Config {
    Config::from_raw(raw).unwrap()
}

#[test]
fn dep_001_flags_banned_module_mock() {
    let module = parse(
        r#"
import { vi } from 'vitest';
vi.mock('../infrastructure/database', () => ({ db: {} }));
"#,
        "progress.test.ts",
    );
    let cfg = cfg(raw_deps(vec!["**/infrastructure/database"], vec![]));
    let ctx = LintContext {
        config: &cfg,
        all_modules: &[],
    };
    let v = BannedModuleMockRule.check(&module, &ctx, &ModuleGraph::default());
    assert_eq!(v.len(), 1);
    assert_eq!(v[0].rule_id, "VITEST-DEP-001");
}

#[test]
fn dep_001_passes_when_path_not_banned() {
    let module = parse(
        r#"
import { vi } from 'vitest';
vi.mock('./local-helper');
"#,
        "ok.test.ts",
    );
    let cfg = cfg(raw_deps(vec!["**/infrastructure/database"], vec![]));
    let ctx = LintContext {
        config: &cfg,
        all_modules: &[],
    };
    let v = BannedModuleMockRule.check(&module, &ctx, &ModuleGraph::default());
    assert!(v.is_empty());
}

#[test]
fn dep_001_inactive_with_empty_config() {
    let module = parse(
        r#"
import { vi } from 'vitest';
vi.mock('../infrastructure/database');
"#,
        "noconfig.test.ts",
    );
    let cfg = Config::default();
    let ctx = LintContext {
        config: &cfg,
        all_modules: &[],
    };
    let v = BannedModuleMockRule.check(&module, &ctx, &ModuleGraph::default());
    assert!(v.is_empty());
}

#[test]
fn dep_002_flags_singleton_import_in_unit_test() {
    let module = parse(
        r#"
import { progressPersistence } from './progress-persistence';
"#,
        "pipeline.test.ts",
    );
    let cfg = cfg(raw_deps(
        vec![],
        vec![("**/progress-persistence", vec!["progressPersistence"])],
    ));
    let ctx = LintContext {
        config: &cfg,
        all_modules: &[],
    };
    let v = ProductionSingletonImportRule.check(&module, &ctx, &ModuleGraph::default());
    assert_eq!(v.len(), 1);
    assert_eq!(v[0].rule_id, "VITEST-DEP-002");
}

#[test]
fn dep_002_skips_integration_test_files() {
    let module = parse(
        r#"
import { progressPersistence } from './progress-persistence';
"#,
        "pipeline.integration.test.ts",
    );
    let cfg = cfg(raw_deps(
        vec![],
        vec![("**/progress-persistence", vec!["progressPersistence"])],
    ));
    let ctx = LintContext {
        config: &cfg,
        all_modules: &[],
    };
    let v = ProductionSingletonImportRule.check(&module, &ctx, &ModuleGraph::default());
    assert!(v.is_empty());
}

#[test]
fn dep_002_ignores_non_banned_names() {
    let module = parse(
        r#"
import { ProgressPersistenceService } from './progress-persistence';
"#,
        "pipeline.test.ts",
    );
    let cfg = cfg(raw_deps(
        vec![],
        vec![("**/progress-persistence", vec!["progressPersistence"])],
    ));
    let ctx = LintContext {
        config: &cfg,
        all_modules: &[],
    };
    let v = ProductionSingletonImportRule.check(&module, &ctx, &ModuleGraph::default());
    assert!(v.is_empty());
}

#[test]
fn dep_002_flags_default_import_singleton() {
    let module = parse(
        r#"
import db from './infrastructure/database';
"#,
        "pipeline.test.ts",
    );
    let cfg = cfg(raw_deps(
        vec![],
        vec![("**/infrastructure/database", vec!["db"])],
    ));
    let ctx = LintContext {
        config: &cfg,
        all_modules: &[],
    };
    let v = ProductionSingletonImportRule.check(&module, &ctx, &ModuleGraph::default());
    assert_eq!(v.len(), 1);
    assert_eq!(v[0].rule_id, "VITEST-DEP-002");
}

#[test]
fn dep_003_flags_reset_in_before_each() {
    let module = parse(
        r#"
import { beforeEach, vi } from 'vitest';
beforeEach(() => {
    vi.resetModules();
    vi.restoreAllMocks();
});
"#,
        "hooks.test.ts",
    );
    let cfg = Config::default();
    let ctx = LintContext {
        config: &cfg,
        all_modules: &[],
    };
    let v = ResetEscapeHatchRule.check(&module, &ctx, &ModuleGraph::default());
    assert_eq!(v.len(), 2);
    assert!(v.iter().all(|x| x.rule_id == "VITEST-DEP-003"));
}

#[test]
fn dep_003_ignores_clear_all_mocks() {
    let module = parse(
        r#"
import { beforeEach, vi } from 'vitest';
beforeEach(() => { vi.clearAllMocks(); });
"#,
        "ok.test.ts",
    );
    let cfg = Config::default();
    let ctx = LintContext {
        config: &cfg,
        all_modules: &[],
    };
    let v = ResetEscapeHatchRule.check(&module, &ctx, &ModuleGraph::default());
    assert!(v.is_empty());
}

fn empty_module() -> ParsedModule {
    ParsedModule {
        file_path: "test.ts".to_string(),
        ..ParsedModule::default()
    }
}

#[test]
fn implementation_coupled_no_prod_imports() {
    let mut module = empty_module();
    module.imports = vec!["vitest".into(), "@testing-library/react".into()];
    let rule = ImplementationCoupledRule;
    let cfg = Config::default();
    let ctx = LintContext {
        config: &cfg,
        all_modules: &[],
    };
    let violations = rule.check(&module, &ctx, &ModuleGraph::new(&[], &[]));
    assert!(violations.is_empty());
}

#[test]
fn implementation_coupled_multiple_prod_imports() {
    let mut module = empty_module();
    module.imports = vec!["vitest".into(), "lodash".into(), "axios".into()];
    let rule = ImplementationCoupledRule;
    let cfg = Config::default();
    let ctx = LintContext {
        config: &cfg,
        all_modules: &[],
    };
    let violations = rule.check(&module, &ctx, &ModuleGraph::new(&[], &[]));
    assert!(violations.is_empty());
}

fn make_pw_module(calls: Vec<PlaywrightCall>, chains: Vec<LocatorChain>) -> ParsedModule {
    ParsedModule {
        file_path: "test.spec.ts".to_string(),
        runtime: TestRuntime::Playwright,
        playwright: Some(PlaywrightModule {
            calls,
            locator_chains: chains,
            evaluate_inner_text: vec![],
            uses_axe: false,
        }),
        ..ParsedModule::default()
    }
}

#[test]
fn pw001_flags_wait_for_timeout() {
    let module = make_pw_module(
        vec![PlaywrightCall {
            call_name: "waitForTimeout".to_string(),
            line: 5,
            raw_arg: Some("1000".to_string()),
        }],
        vec![],
    );
    let cfg = Config::default();
    let ctx = LintContext {
        config: &cfg,
        all_modules: &[],
    };
    let graph = ModuleGraph::default();
    let violations = PwWaitForTimeoutRule.check(&module, &ctx, &graph);
    assert_eq!(violations.len(), 1);
    assert_eq!(violations[0].rule_id, "VITEST-PW-001");
}

#[test]
fn pw003_flags_xpath_method() {
    let module = make_pw_module(
        vec![],
        vec![LocatorChain {
            root: "page".to_string(),
            raw_arg: Some("//div".to_string()),
            method: "xpath".to_string(),
            line: 3,
        }],
    );
    let cfg = Config::default();
    let ctx = LintContext {
        config: &cfg,
        all_modules: &[],
    };
    let graph = ModuleGraph::default();
    let violations = PwXPathSelectorRule.check(&module, &ctx, &graph);
    assert_eq!(violations.len(), 1);
    assert_eq!(violations[0].rule_id, "VITEST-PW-003");
}

#[test]
fn pw003_flags_xpath_prefix_in_arg() {
    let module = make_pw_module(
        vec![],
        vec![LocatorChain {
            root: "page".to_string(),
            raw_arg: Some("xpath=//div".to_string()),
            method: "locator".to_string(),
            line: 3,
        }],
    );
    let cfg = Config::default();
    let ctx = LintContext {
        config: &cfg,
        all_modules: &[],
    };
    let graph = ModuleGraph::default();
    let violations = PwXPathSelectorRule.check(&module, &ctx, &graph);
    assert_eq!(violations.len(), 1);
}

#[test]
fn pw004_flags_nth_locator() {
    let module = make_pw_module(
        vec![],
        vec![LocatorChain {
            root: "page".to_string(),
            raw_arg: None,
            method: "nth".to_string(),
            line: 7,
        }],
    );
    let cfg = Config::default();
    let ctx = LintContext {
        config: &cfg,
        all_modules: &[],
    };
    let graph = ModuleGraph::default();
    let violations = PwLocatorNthRule.check(&module, &ctx, &graph);
    assert_eq!(violations.len(), 1);
    assert_eq!(violations[0].rule_id, "VITEST-PW-004");
}

#[test]
fn pw005_flags_page_dollar() {
    let module = make_pw_module(
        vec![
            PlaywrightCall {
                call_name: "page.$".to_string(),
                line: 4,
                raw_arg: Some(".btn".to_string()),
            },
            PlaywrightCall {
                call_name: "page.$$".to_string(),
                line: 5,
                raw_arg: Some(".item".to_string()),
            },
        ],
        vec![],
    );
    let cfg = Config::default();
    let ctx = LintContext {
        config: &cfg,
        all_modules: &[],
    };
    let graph = ModuleGraph::default();
    let violations = PwPageDollarRule.check(&module, &ctx, &graph);
    assert_eq!(violations.len(), 2);
}

#[test]
fn pw010_flags_settimeout_in_promise() {
    let module = make_pw_module(
        vec![PlaywrightCall {
            call_name: "setTimeout_in_promise".to_string(),
            line: 8,
            raw_arg: None,
        }],
        vec![],
    );
    let cfg = Config::default();
    let ctx = LintContext {
        config: &cfg,
        all_modules: &[],
    };
    let graph = ModuleGraph::default();
    let violations = PwArbitrarySleepRule.check(&module, &ctx, &graph);
    assert_eq!(violations.len(), 1);
    assert_eq!(violations[0].rule_id, "VITEST-PW-010");
}

#[test]
fn pw_rules_skip_vitest_files() {
    let module = ParsedModule {
        file_path: "test.test.ts".to_string(),
        runtime: TestRuntime::Vitest,
        ..ParsedModule::default()
    };
    let cfg = Config::default();
    let ctx = LintContext {
        config: &cfg,
        all_modules: &[],
    };
    let graph = ModuleGraph::default();
    assert!(PwWaitForTimeoutRule.check(&module, &ctx, &graph).is_empty());
    assert!(PwXPathSelectorRule.check(&module, &ctx, &graph).is_empty());
    assert!(PwLocatorNthRule.check(&module, &ctx, &graph).is_empty());
    assert!(PwPageDollarRule.check(&module, &ctx, &graph).is_empty());
    assert!(PwArbitrarySleepRule.check(&module, &ctx, &graph).is_empty());
}

#[test]
fn val_001_flags_expect_without_assertion() {
    let module = parse(
        r#"
import { test, expect } from 'vitest';

test('bare expect', () => {
    expect(true);
});
"#,
        "bare_expect.test.ts",
    );
    let cfg = Config::default();
    let ctx = LintContext {
        config: &cfg,
        all_modules: &[],
    };
    let v = ValidExpectRule.check(&module, &ctx, &ModuleGraph::default());
    assert_eq!(v.len(), 1);
    assert_eq!(v[0].rule_id, "VITEST-VAL-001");
}

#[test]
fn val_001_no_violation_with_assertion() {
    let module = parse(
        r#"
import { test, expect } from 'vitest';

test('proper expect', () => {
    expect(1).toBe(1);
});
"#,
        "proper_expect.test.ts",
    );
    let cfg = Config::default();
    let ctx = LintContext {
        config: &cfg,
        all_modules: &[],
    };
    let v = ValidExpectRule.check(&module, &ctx, &ModuleGraph::default());
    assert!(v.is_empty());
}

#[test]
fn val_002_flags_return_of_expect() {
    let module = parse(
        r#"
import { test, expect } from 'vitest';

test('return expect', () => {
    return expect(Promise.resolve(1)).resolves.toBe(1);
});
"#,
        "return_expect.test.ts",
    );
    let cfg = Config::default();
    let ctx = LintContext {
        config: &cfg,
        all_modules: &[],
    };
    let v = ValidExpectInPromiseRule.check(&module, &ctx, &ModuleGraph::default());
    assert_eq!(v.len(), 1);
    assert_eq!(v[0].rule_id, "VITEST-VAL-002");
}

#[test]
fn val_002_no_violation_without_return() {
    let module = parse(
        r#"
import { test, expect } from 'vitest';

test('no return', async () => {
    await expect(Promise.resolve(1)).resolves.toBe(1);
});
"#,
        "no_return.test.ts",
    );
    let cfg = Config::default();
    let ctx = LintContext {
        config: &cfg,
        all_modules: &[],
    };
    let v = ValidExpectInPromiseRule.check(&module, &ctx, &ModuleGraph::default());
    assert!(v.is_empty());
}

#[test]
fn val_003_flags_async_describe() {
    let module = parse(
        r#"
import { describe, test, expect } from 'vitest';

describe('async describe', async () => {
    test('inside', () => {
    expect(1).toBe(1);
    });
});
"#,
        "async_describe.test.ts",
    );
    let cfg = Config::default();
    let ctx = LintContext {
        config: &cfg,
        all_modules: &[],
    };
    let v = ValidDescribeCallbackRule.check(&module, &ctx, &ModuleGraph::default());
    assert_eq!(v.len(), 1);
    assert_eq!(v[0].rule_id, "VITEST-VAL-003");
}

#[test]
fn val_003_no_violation_sync_describe() {
    let module = parse(
        r#"
import { describe, test, expect } from 'vitest';

describe('sync describe', () => {
    test('inside', () => {
    expect(1).toBe(1);
    });
});
"#,
        "sync_describe.test.ts",
    );
    let cfg = Config::default();
    let ctx = LintContext {
        config: &cfg,
        all_modules: &[],
    };
    let v = ValidDescribeCallbackRule.check(&module, &ctx, &ModuleGraph::default());
    assert!(v.is_empty());
}

#[test]
fn val_004_flags_template_literal_test_title() {
    let module = parse(
        r#"
import { test, expect } from 'vitest';

test(`template title`, () => {
    expect(1).toBe(1);
});
"#,
        "template_title.test.ts",
    );
    let cfg = Config::default();
    let ctx = LintContext {
        config: &cfg,
        all_modules: &[],
    };
    let v = ValidTitleRule.check(&module, &ctx, &ModuleGraph::default());
    assert_eq!(v.len(), 1);
    assert_eq!(v[0].rule_id, "VITEST-VAL-004");
}

#[test]
fn val_004_flags_empty_describe_title() {
    let module = parse(
        r#"
import { describe, test, expect } from 'vitest';

describe('', () => {
    test('inside', () => {
    expect(1).toBe(1);
    });
});
"#,
        "empty_describe.test.ts",
    );
    let cfg = Config::default();
    let ctx = LintContext {
        config: &cfg,
        all_modules: &[],
    };
    let v = ValidTitleRule.check(&module, &ctx, &ModuleGraph::default());
    assert_eq!(v.len(), 1);
    assert_eq!(v[0].rule_id, "VITEST-VAL-004");
}

#[test]
fn val_004_no_violation_with_string_titles() {
    let module = parse(
        r#"
import { describe, test, expect } from 'vitest';

describe('proper title', () => {
    test('proper test', () => {
    expect(1).toBe(1);
    });
});
"#,
        "proper_titles.test.ts",
    );
    let cfg = Config::default();
    let ctx = LintContext {
        config: &cfg,
        all_modules: &[],
    };
    let v = ValidTitleRule.check(&module, &ctx, &ModuleGraph::default());
    assert!(v.is_empty());
}

#[test]
fn val_005_flags_async_expect_wrapper() {
    let module = parse(
        r#"
import { test, expect } from 'vitest';

test('async wrapper', () => {
    expect(async () => {
    await Promise.resolve(1);
    }).not.toThrow();
});
"#,
        "async_wrapper.test.ts",
    );
    let cfg = Config::default();
    let ctx = LintContext {
        config: &cfg,
        all_modules: &[],
    };
    let v = NoUnneededAsyncExpectFunctionRule.check(&module, &ctx, &ModuleGraph::default());
    assert_eq!(v.len(), 1);
    assert_eq!(v[0].rule_id, "VITEST-VAL-005");
}

#[test]
fn val_005_no_violation_without_async_wrapper() {
    let module = parse(
        r#"
import { test, expect } from 'vitest';

test('sync expect', () => {
    expect(1).toBe(1);
});
"#,
        "sync_expect.test.ts",
    );
    let cfg = Config::default();
    let ctx = LintContext {
        config: &cfg,
        all_modules: &[],
    };
    let v = NoUnneededAsyncExpectFunctionRule.check(&module, &ctx, &ModuleGraph::default());
    assert!(v.is_empty());
}

#[test]
fn all_rules_unique_ids() {
    let rules = vitest_linter::rules::all_rules();
    let ids: Vec<&str> = rules.iter().map(|r| r.id()).collect();
    let mut unique = ids.clone();
    unique.sort();
    unique.dedup();
    assert_eq!(ids.len(), unique.len(), "Duplicate rule IDs found");
}

#[test]
fn dep_001_flags_stable_dependency_in_any_case() {
    let module = parse(
        r#"
import { vi } from 'vitest';
vi.mock('../Models/User.ts');
vi.mock('../api/Client');
"#,
        "user.test.ts",
    );
    let cfg = Config::default();
    let ctx = LintContext {
        config: &cfg,
        all_modules: &[],
    };
    let v = BannedModuleMockRule.check(&module, &ctx, &ModuleGraph::default());
    assert_eq!(v.len(), 1);
    assert_eq!(v[0].line, 3);
    assert_eq!(
        v[0].message,
        "vi.mock('../Models/User.ts') mocks a stable dependency \u{2014} avoid mocking pure functions and data models"
    );
}

#[test]
fn dep_002_inactive_without_banlist() {
    let module = parse(
        r#"
import { orchestrator } from './services/pipeline-orchestrator';
"#,
        "pipeline.test.ts",
    );
    let cfg = Config::default();
    let ctx = LintContext {
        config: &cfg,
        all_modules: &[],
    };
    let v = ProductionSingletonImportRule.check(&module, &ctx, &ModuleGraph::default());
    assert!(v.is_empty());
}

fn export(name: &str) -> vitest_linter::models::ExportEntry {
    vitest_linter::models::ExportEntry {
        name: name.to_string(),
        kind: vitest_linter::models::ExportKind::Named,
        line: 1,
    }
}

fn coupled_case(test_names: &[&str], exports: &[&str]) -> Vec<vitest_linter::models::Violation> {
    let mut source = String::from("import { it, expect } from 'vitest';\n");
    for n in test_names {
        source.push_str(&format!("it('{n}', () => {{ expect(1).toBe(1); }});\n"));
    }
    let mut module = parse(&source, "math.test.ts");
    module.imports = vec!["vitest".into(), "mathlib".into()];
    let lib = ParsedModule {
        file_path: "mathlib".to_string(),
        exports: exports.iter().map(|e| export(e)).collect(),
        ..ParsedModule::default()
    };
    let tests = vec![module.clone()];
    let sources = vec![lib];
    let graph = ModuleGraph::new(&tests, &sources);
    let cfg = Config::default();
    let ctx = LintContext {
        config: &cfg,
        all_modules: &tests,
    };
    ImplementationCoupledRule.check(&module, &ctx, &graph)
}

#[test]
fn implementation_coupled_flags_tests_mirroring_exports() {
    let v = coupled_case(
        &["add works", "SUB works", "mul works", "div works", "pow thing"],
        &["Add", "Sub", "Mul", "Div", "Pow"],
    );
    assert_eq!(v.len(), 1);
    assert_eq!(v[0].rule_id, "VITEST-MNT-010");
    assert_eq!(v[0].line, 1);
    assert_eq!(
        v[0].message,
        "Test file is tightly coupled to 'mathlib' \u{2014} 5 tests for 5 exports, 100% name match"
    );
    // Exactly 80% of the tests named after an export is not more than 80%.
    let v = coupled_case(
        &["add works", "SUB works", "mul works", "div works", "other thing"],
        &["Add", "Sub", "Mul", "Div", "Pow"],
    );
    assert!(v.is_empty());
}

#[test]
fn implementation_coupled_ratio_bounds() {
    // Six tests for five exports is a ratio of 1.2, still inside the band.
    let v = coupled_case(
        &["add", "sub", "mul", "div", "pow", "misc"],
        &["add", "sub", "mul", "div", "pow"],
    );
    assert_eq!(v.len(), 1);
    assert_eq!(
        v[0].message,
        "Test file is tightly coupled to 'mathlib' \u{2014} 6 tests for 5 exports, 83% name match"
    );
    // Five tests for four exports is a ratio of 1.25, outside it.
    let v = coupled_case(&["add", "sub", "mul", "div", "x"], &["add", "sub", "mul", "div"]);
    assert!(v.is_empty());
    // Three of four tests named after an export is under 80%.
    let v = coupled_case(&["add", "sub", "mul", "x"], &["add", "sub", "mul", "div"]);
    assert!(v.is_empty());
}

#[test]
fn dep_001_ignores_mocks_outside_module_scope() {
    let module = parse(
        r#"
import { vi, beforeEach, it } from 'vitest';
beforeEach(() => {
  vi.mock('../infrastructure/database');
});
it('x', () => {
  vi.mock('../infrastructure/database');
});
"#,
        "scoped.test.ts",
    );
    let cfg = cfg(raw_deps(vec!["**/infrastructure/database"], vec![]));
    let ctx = LintContext {
        config: &cfg,
        all_modules: &[],
    };
    let v = BannedModuleMockRule.check(&module, &ctx, &ModuleGraph::default());
    assert!(v.is_empty());
}

#[test]
fn val_004_flags_empty_test_title() {
    let module = parse(
        "import { test, expect } from 'vitest';\ntest('', () => {\n  expect(1).toBe(1);\n});\n",
        "empty_title.test.ts",
    );
    let cfg = Config::default();
    let ctx = LintContext {
        config: &cfg,
        all_modules: &[],
    };
    let v = ValidTitleRule.check(&module, &ctx, &ModuleGraph::default());
    assert_eq!(v.len(), 1);
    assert_eq!(v[0].rule_id, "VITEST-VAL-004");
    assert_eq!(v[0].line, 2);
    assert_eq!(
        v[0].message,
        "test() has an empty title \u{2014} provide a meaningful name"
    );
}
