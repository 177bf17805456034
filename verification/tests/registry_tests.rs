use vitest_linter::models::Category;
use vitest_linter::rules::{all_rules, Rule};

const REGISTERED: [(&str, &str, Category); 37] = [
    ("VITEST-FLK-001", "TimeoutRule", Category::Flakiness),
    ("VITEST-FLK-002", "DateMockRule", Category::Flakiness),
    ("VITEST-FLK-003", "NetworkImportRule", Category::Flakiness),
    ("VITEST-MNT-001", "NoAssertionRule", Category::Maintenance),
    ("VITEST-MNT-002", "MultipleExpectRule", Category::Maintenance),
    ("VITEST-MNT-003", "ConditionalLogicRule", Category::Maintenance),
    ("VITEST-MNT-004", "TryCatchRule", Category::Maintenance),
    ("VITEST-MNT-005", "EmptyTestRule", Category::Maintenance),
    ("VITEST-STR-001", "NestedDescribeRule", Category::Structure),
    ("VITEST-STR-002", "ReturnInTestRule", Category::Structure),
    ("VITEST-MNT-006", "MissingAwaitAssertionRule", Category::Maintenance),
    ("VITEST-MNT-007", "FocusedTestRule", Category::Maintenance),
    ("VITEST-MNT-008", "MissingMockCleanupRule", Category::Maintenance),
    ("VITEST-MNT-009", "WeakAssertionRule", Category::Maintenance),
    ("VITEST-MNT-010", "ImplementationCoupledRule", Category::Maintenance),
    ("VITEST-DEP-001", "BannedModuleMockRule", Category::Dependencies),
    ("VITEST-DEP-002", "ProductionSingletonImportRule", Category::Dependencies),
    ("VITEST-DEP-003", "ResetEscapeHatchRule", Category::Dependencies),
    ("VITEST-DEP-004", "MockExportValidationRule", Category::Dependencies),
    ("VITEST-VAL-001", "ValidExpectRule", Category::Validation),
    ("VITEST-VAL-002", "ValidExpectInPromiseRule", Category::Validation),
    ("VITEST-VAL-003", "ValidDescribeCallbackRule", Category::Validation),
    ("VITEST-VAL-004", "ValidTitleRule", Category::Validation),
    ("VITEST-VAL-005", "NoUnneededAsyncExpectFunctionRule", Category::Validation),
    ("VITEST-PW-001", "PwWaitForTimeoutRule", Category::Playwright),
    ("VITEST-PW-002", "PwCssIdSelectorRule", Category::Playwright),
    ("VITEST-PW-003", "PwXPathSelectorRule", Category::Playwright),
    ("VITEST-PW-004", "PwLocatorNthRule", Category::Playwright),
    ("VITEST-PW-005", "PwPageDollarRule", Category::Playwright),
    ("VITEST-PW-006", "PwEvaluateInnerTextRule", Category::Playwright),
    ("VITEST-PW-007", "PwTextAssertionOverRoleRule", Category::Playwright),
    ("VITEST-PW-008", "PwTestIdOverSemanticRoleRule", Category::Playwright),
    ("VITEST-PW-009", "PwDuplicateSpecFileRule", Category::Playwright),
    ("VITEST-PW-010", "PwArbitrarySleepRule", Category::Playwright),
    ("VITEST-PW-011", "PwHardCssClassChainRule", Category::Playwright),
    ("VITEST-PW-012", "PwMissingWebFirstAssertionRule", Category::Playwright),
    ("VITEST-PW-100", "PwMissingAxeScanRule", Category::Playwright),
];

#[test]
fn registered_rules_count() {
    let rules = all_rules();
    assert_eq!(rules.len(), 37);
}

#[test]
fn registered_rule_ids_present() {
    let rules = all_rules();
    let ids: Vec<&str> = rules.iter().map(|r| r.id()).collect();
    for (id, _, _) in REGISTERED.iter() {
        assert!(ids.contains(id), "Missing rule: {}", id);
    }
}

#[test]
fn registered_rule_categories() {
    let rules = all_rules();
    let count = |c: Category| rules.iter().filter(|r| r.category() == c).count();
    assert_eq!(count(Category::Flakiness), 3);
    assert_eq!(count(Category::Maintenance), 10);
    assert_eq!(count(Category::Structure), 2);
    assert_eq!(count(Category::Dependencies), 4);
    assert_eq!(count(Category::Validation), 5);
    assert_eq!(count(Category::Playwright), 13);
}

#[test]
fn registered_rule_names_correct() {
    let rules = all_rules();
    for (id, name, category) in REGISTERED.iter() {
        let rule = rules.iter().find(|r| r.id() == *id).unwrap();
        assert_eq!(rule.name(), *name, "Rule {} should have name '{}'", id, name);
        assert_eq!(rule.category(), *category, "Rule {} category", id);
    }
}
