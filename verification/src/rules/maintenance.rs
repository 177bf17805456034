//! Rules for tests that are hard to maintain or that check too little.

use vstd::prelude::*;
use crate::config::Config;
use crate::graph::lookup;
use crate::models::{Category, DescribeBlock, ExportEntry, HookCall, HookKind, ModuleGraph, ParsedModule, Severity, TestBlock, TestRuntime, ViMockCall, Violation, ViolationView, violations_view};
use crate::paths::components;
use crate::rules::{lemma_scan_filter_map, ItemRule, LintContext, Rule, all_stamped, lemma_scan_stamped, lemma_stamped_concat, block_view, block_violation, cat3, file_view, file_violation, lemma_concat_empty, lemma_violations_empty, not_playwright, push_violation, scan, scan_spec};
use crate::seqs::{filter_map, lemma_filter_map_step, lemma_strs_view_push, lemma_take_full, strs_view};
use crate::text::{contains, decimal, decimal_string, owned, starts_with, str_contains, str_eq, str_starts_with, str_to_lowercase, unicode_lowercase};

verus! {

/// Flags tests that contain no `expect()` assertion: they pass even if the code under test is broken.
#[derive(Debug, Clone, Copy)]
pub struct NoAssertionRule;

impl ItemRule<TestBlock> for NoAssertionRule {
    open spec fn spec_item(&self, m: ParsedModule, config: Config, x: TestBlock) -> Seq<ViolationView> {
        if !x.has_assertions {
            seq![block_view("VITEST-MNT-001"@, "NoAssertionRule"@, Severity::Error, Category::Maintenance, "Test has no assertions \u{2014} it will pass even if the code is broken"@, x, "Add at least one expect() assertion to verify behavior"@)]
        } else {
            Seq::empty()
        }
    }

    fn check_item(&self, m: &ParsedModule, config: &Config, x: &TestBlock, out: &mut Vec<Violation>) {
        let ghost start = violations_view(out@);
        if !x.has_assertions {
            let v = block_violation("VITEST-MNT-001", "NoAssertionRule", Severity::Error, Category::Maintenance, owned("Test has no assertions \u{2014} it will pass even if the code is broken"), x, "Add at least one expect() assertion to verify behavior");
            push_violation(out, v);
        } else {
            proof { lemma_concat_empty(violations_view(out@)); }
        }
        assert(violations_view(out@) =~= start + self.spec_item(*m, *config, *x));
    }
}

impl Rule for NoAssertionRule {
    open spec fn spec_id(&self) -> Seq<char> {
        "VITEST-MNT-001"@
    }

    open spec fn spec_name(&self) -> Seq<char> {
        "NoAssertionRule"@
    }

    open spec fn spec_severity(&self) -> Severity {
        Severity::Error
    }

    open spec fn spec_category(&self) -> Category {
        Category::Maintenance
    }

    open spec fn spec_applies(&self, runtime: TestRuntime) -> bool {
        true
    }

    open spec fn spec_check(
        &self,
        m: ParsedModule,
        config: Config,
        all: Seq<ParsedModule>,
        tests: Seq<ParsedModule>,
        nodes: Seq<ParsedModule>,
    ) -> Seq<ViolationView> {
        scan_spec(*self, m, config, m.test_blocks@)
    }

    fn id(&self) -> &'static str {
        "VITEST-MNT-001"
    }

    fn name(&self) -> &'static str {
        "NoAssertionRule"
    }

    fn severity(&self) -> Severity {
        Severity::Error
    }

    fn category(&self) -> Category {
        Category::Maintenance
    }

    fn applies_to_runtime(&self, runtime: TestRuntime) -> bool {
        true
    }

    fn check(&self, module: &ParsedModule, ctx: &LintContext, graph: &ModuleGraph) -> Vec<Violation> {
        let mut out: Vec<Violation> = Vec::new();
        proof { lemma_violations_empty(); }
        scan(self, module, ctx.config, module.test_blocks.as_slice(), &mut out);
        assert(violations_view(out@) =~= self.spec_check(*module, *ctx.config, ctx.all_modules@, graph.test_seq(), graph.node_seq()));
        out
    }
}

/// Every violation of `NoAssertionRule` carries its id, name, severity and
/// category.
pub proof fn lemma_no_assertion_rule_stamped(
    m: ParsedModule,
    config: Config,
    all: Seq<ParsedModule>,
    tests: Seq<ParsedModule>,
    nodes: Seq<ParsedModule>,
)
    ensures
        all_stamped(
            NoAssertionRule.spec_check(m, config, all, tests, nodes),
            "VITEST-MNT-001"@,
            "NoAssertionRule"@,
            Severity::Error,
            Category::Maintenance,
        ),
{
    lemma_scan_stamped(NoAssertionRule, m, config, m.test_blocks@, "VITEST-MNT-001"@, "NoAssertionRule"@, Severity::Error, Category::Maintenance);
}

/// Flags tests with more than five `expect()` calls.
#[derive(Debug, Clone, Copy)]
pub struct MultipleExpectRule;

impl ItemRule<TestBlock> for MultipleExpectRule {
    open spec fn spec_item(&self, m: ParsedModule, config: Config, x: TestBlock) -> Seq<ViolationView> {
        if x.assertion_count > 5 {
            seq![block_view("VITEST-MNT-002"@, "MultipleExpectRule"@, Severity::Warning, Category::Maintenance, "Test has "@ + decimal(x.assertion_count as nat) + " assertions \u{2014} consider splitting into focused tests"@, x, "Each test should verify one behavior. Split multiple assertions into separate tests"@)]
        } else {
            Seq::empty()
        }
    }

    fn check_item(&self, m: &ParsedModule, config: &Config, x: &TestBlock, out: &mut Vec<Violation>) {
        let ghost start = violations_view(out@);
        if x.assertion_count > 5 {
            let v = block_violation("VITEST-MNT-002", "MultipleExpectRule", Severity::Warning, Category::Maintenance, cat3("Test has ", decimal_string(x.assertion_count).as_str(), " assertions \u{2014} consider splitting into focused tests"), x, "Each test should verify one behavior. Split multiple assertions into separate tests");
            push_violation(out, v);
        } else {
            proof { lemma_concat_empty(violations_view(out@)); }
        }
        assert(violations_view(out@) =~= start + self.spec_item(*m, *config, *x));
    }
}

impl Rule for MultipleExpectRule {
    open spec fn spec_id(&self) -> Seq<char> {
        "VITEST-MNT-002"@
    }

    open spec fn spec_name(&self) -> Seq<char> {
        "MultipleExpectRule"@
    }

    open spec fn spec_severity(&self) -> Severity {
        Severity::Warning
    }

    open spec fn spec_category(&self) -> Category {
        Category::Maintenance
    }

    open spec fn spec_applies(&self, runtime: TestRuntime) -> bool {
        not_playwright(runtime)
    }

    open spec fn spec_check(
        &self,
        m: ParsedModule,
        config: Config,
        all: Seq<ParsedModule>,
        tests: Seq<ParsedModule>,
        nodes: Seq<ParsedModule>,
    ) -> Seq<ViolationView> {
        scan_spec(*self, m, config, m.test_blocks@)
    }

    fn id(&self) -> &'static str {
        "VITEST-MNT-002"
    }

    fn name(&self) -> &'static str {
        "MultipleExpectRule"
    }

    fn severity(&self) -> Severity {
        Severity::Warning
    }

    fn category(&self) -> Category {
        Category::Maintenance
    }

    fn applies_to_runtime(&self, runtime: TestRuntime) -> bool {
        runtime != TestRuntime::Playwright
    }

    fn check(&self, module: &ParsedModule, ctx: &LintContext, graph: &ModuleGraph) -> Vec<Violation> {
        let mut out: Vec<Violation> = Vec::new();
        proof { lemma_violations_empty(); }
        scan(self, module, ctx.config, module.test_blocks.as_slice(), &mut out);
        assert(violations_view(out@) =~= self.spec_check(*module, *ctx.config, ctx.all_modules@, graph.test_seq(), graph.node_seq()));
        out
    }
}

/// Every violation of `MultipleExpectRule` carries its id, name, severity and
/// category.
pub proof fn lemma_multiple_expect_rule_stamped(
    m: ParsedModule,
    config: Config,
    all: Seq<ParsedModule>,
    tests: Seq<ParsedModule>,
    nodes: Seq<ParsedModule>,
)
    ensures
        all_stamped(
            MultipleExpectRule.spec_check(m, config, all, tests, nodes),
            "VITEST-MNT-002"@,
            "MultipleExpectRule"@,
            Severity::Warning,
            Category::Maintenance,
        ),
{
    lemma_scan_stamped(MultipleExpectRule, m, config, m.test_blocks@, "VITEST-MNT-002"@, "MultipleExpectRule"@, Severity::Warning, Category::Maintenance);
}

/// Flags tests that contain `if`/`switch` statements.
#[derive(Debug, Clone, Copy)]
pub struct ConditionalLogicRule;

impl ItemRule<TestBlock> for ConditionalLogicRule {
    open spec fn spec_item(&self, m: ParsedModule, config: Config, x: TestBlock) -> Seq<ViolationView> {
        if x.has_conditional_logic {
            seq![block_view("VITEST-MNT-003"@, "ConditionalLogicRule"@, Severity::Warning, Category::Maintenance, "Test contains conditional logic (if/switch) \u{2014} tests should be deterministic"@, x, "Replace conditional logic with separate test cases using test.each() or describe.each()"@)]
        } else {
            Seq::empty()
        }
    }

    fn check_item(&self, m: &ParsedModule, config: &Config, x: &TestBlock, out: &mut Vec<Violation>) {
        let ghost start = violations_view(out@);
        if x.has_conditional_logic {
            let v = block_violation("VITEST-MNT-003", "ConditionalLogicRule", Severity::Warning, Category::Maintenance, owned("Test contains conditional logic (if/switch) \u{2014} tests should be deterministic"), x, "Replace conditional logic with separate test cases using test.each() or describe.each()");
            push_violation(out, v);
        } else {
            proof { lemma_concat_empty(violations_view(out@)); }
        }
        assert(violations_view(out@) =~= start + self.spec_item(*m, *config, *x));
    }
}

impl Rule for ConditionalLogicRule {
    open spec fn spec_id(&self) -> Seq<char> {
        "VITEST-MNT-003"@
    }

    open spec fn spec_name(&self) -> Seq<char> {
        "ConditionalLogicRule"@
    }

    open spec fn spec_severity(&self) -> Severity {
        Severity::Warning
    }

    open spec fn spec_category(&self) -> Category {
        Category::Maintenance
    }

    open spec fn spec_applies(&self, runtime: TestRuntime) -> bool {
        not_playwright(runtime)
    }

    open spec fn spec_check(
        &self,
        m: ParsedModule,
        config: Config,
        all: Seq<ParsedModule>,
        tests: Seq<ParsedModule>,
        nodes: Seq<ParsedModule>,
    ) -> Seq<ViolationView> {
        scan_spec(*self, m, config, m.test_blocks@)
    }

    fn id(&self) -> &'static str {
        "VITEST-MNT-003"
    }

    fn name(&self) -> &'static str {
        "ConditionalLogicRule"
    }

    fn severity(&self) -> Severity {
        Severity::Warning
    }

    fn category(&self) -> Category {
        Category::Maintenance
    }

    fn applies_to_runtime(&self, runtime: TestRuntime) -> bool {
        runtime != TestRuntime::Playwright
    }

    fn check(&self, module: &ParsedModule, ctx: &LintContext, graph: &ModuleGraph) -> Vec<Violation> {
        let mut out: Vec<Violation> = Vec::new();
        proof { lemma_violations_empty(); }
        scan(self, module, ctx.config, module.test_blocks.as_slice(), &mut out);
        assert(violations_view(out@) =~= self.spec_check(*module, *ctx.config, ctx.all_modules@, graph.test_seq(), graph.node_seq()));
        out
    }
}

/// Every violation of `ConditionalLogicRule` carries its id, name, severity and
/// category.
pub proof fn lemma_conditional_logic_rule_stamped(
    m: ParsedModule,
    config: Config,
    all: Seq<ParsedModule>,
    tests: Seq<ParsedModule>,
    nodes: Seq<ParsedModule>,
)
    ensures
        all_stamped(
            ConditionalLogicRule.spec_check(m, config, all, tests, nodes),
            "VITEST-MNT-003"@,
            "ConditionalLogicRule"@,
            Severity::Warning,
            Category::Maintenance,
        ),
{
    lemma_scan_stamped(ConditionalLogicRule, m, config, m.test_blocks@, "VITEST-MNT-003"@, "ConditionalLogicRule"@, Severity::Warning, Category::Maintenance);
}

/// Flags tests that use `try/catch`.
#[derive(Debug, Clone, Copy)]
pub struct TryCatchRule;

impl ItemRule<TestBlock> for TryCatchRule {
    open spec fn spec_item(&self, m: ParsedModule, config: Config, x: TestBlock) -> Seq<ViolationView> {
        if x.has_try_catch {
            seq![block_view("VITEST-MNT-004"@, "TryCatchRule"@, Severity::Warning, Category::Maintenance, "Test uses try/catch \u{2014} use expect(() => fn()).toThrow() instead"@, x, "Use expect().toThrow() or expect().rejects for error testing"@)]
        } else {
            Seq::empty()
        }
    }

    fn check_item(&self, m: &ParsedModule, config: &Config, x: &TestBlock, out: &mut Vec<Violation>) {
        let ghost start = violations_view(out@);
        if x.has_try_catch {
            let v = block_violation("VITEST-MNT-004", "TryCatchRule", Severity::Warning, Category::Maintenance, owned("Test uses try/catch \u{2014} use expect(() => fn()).toThrow() instead"), x, "Use expect().toThrow() or expect().rejects for error testing");
            push_violation(out, v);
        } else {
            proof { lemma_concat_empty(violations_view(out@)); }
        }
        assert(violations_view(out@) =~= start + self.spec_item(*m, *config, *x));
    }
}

impl Rule for TryCatchRule {
    open spec fn spec_id(&self) -> Seq<char> {
        "VITEST-MNT-004"@
    }

    open spec fn spec_name(&self) -> Seq<char> {
        "TryCatchRule"@
    }

    open spec fn spec_severity(&self) -> Severity {
        Severity::Warning
    }

    open spec fn spec_category(&self) -> Category {
        Category::Maintenance
    }

    open spec fn spec_applies(&self, runtime: TestRuntime) -> bool {
        not_playwright(runtime)
    }

    open spec fn spec_check(
        &self,
        m: ParsedModule,
        config: Config,
        all: Seq<ParsedModule>,
        tests: Seq<ParsedModule>,
        nodes: Seq<ParsedModule>,
    ) -> Seq<ViolationView> {
        scan_spec(*self, m, config, m.test_blocks@)
    }

    fn id(&self) -> &'static str {
        "VITEST-MNT-004"
    }

    fn name(&self) -> &'static str {
        "TryCatchRule"
    }

    fn severity(&self) -> Severity {
        Severity::Warning
    }

    fn category(&self) -> Category {
        Category::Maintenance
    }

    fn applies_to_runtime(&self, runtime: TestRuntime) -> bool {
        runtime != TestRuntime::Playwright
    }

    fn check(&self, module: &ParsedModule, ctx: &LintContext, graph: &ModuleGraph) -> Vec<Violation> {
        let mut out: Vec<Violation> = Vec::new();
        proof { lemma_violations_empty(); }
        scan(self, module, ctx.config, module.test_blocks.as_slice(), &mut out);
        assert(violations_view(out@) =~= self.spec_check(*module, *ctx.config, ctx.all_modules@, graph.test_seq(), graph.node_seq()));
        out
    }
}

/// Every violation of `TryCatchRule` carries its id, name, severity and
/// category.
pub proof fn lemma_try_catch_rule_stamped(
    m: ParsedModule,
    config: Config,
    all: Seq<ParsedModule>,
    tests: Seq<ParsedModule>,
    nodes: Seq<ParsedModule>,
)
    ensures
        all_stamped(
            TryCatchRule.spec_check(m, config, all, tests, nodes),
            "VITEST-MNT-004"@,
            "TryCatchRule"@,
            Severity::Warning,
            Category::Maintenance,
        ),
{
    lemma_scan_stamped(TryCatchRule, m, config, m.test_blocks@, "VITEST-MNT-004"@, "TryCatchRule"@, Severity::Warning, Category::Maintenance);
}

/// Law: `TryCatchRule` reports every test that uses `try`/`catch`, whatever
/// its assertions, once, at the test's line, in order, and no other test.
pub proof fn law_try_catch_reports(
    m: ParsedModule,
    config: Config,
    all: Seq<ParsedModule>,
    tests: Seq<ParsedModule>,
    nodes: Seq<ParsedModule>,
)
    ensures
        TryCatchRule.spec_check(m, config, all, tests, nodes) == filter_map(
            m.test_blocks@,
            |b: TestBlock|
                if b.has_try_catch {
                    Some(
                        block_view(
                            "VITEST-MNT-004"@,
                            "TryCatchRule"@,
                            Severity::Warning,
                            Category::Maintenance,
                            "Test uses try/catch \u{2014} use expect(() => fn()).toThrow() instead"@,
                            b,
                            "Use expect().toThrow() or expect().rejects for error testing"@,
                        ),
                    )
                } else {
                    None
                },
        ),
{
    let f = |b: TestBlock|
        if b.has_try_catch {
            Some(
                block_view(
                    "VITEST-MNT-004"@,
                    "TryCatchRule"@,
                    Severity::Warning,
                    Category::Maintenance,
                    "Test uses try/catch \u{2014} use expect(() => fn()).toThrow() instead"@,
                    b,
                    "Use expect().toThrow() or expect().rejects for error testing"@,
                ),
            )
        } else {
            None
        };
    assert forall|x: TestBlock| #[trigger] TryCatchRule.spec_item(m, config, x) == match f(x) {
        Some(v) => seq![v],
        None => Seq::<ViolationView>::empty(),
    } by {}
    lemma_scan_filter_map(TryCatchRule, m, config, m.test_blocks@, f);
}

/// Flags skipped tests (`it.skip`, `test.todo`).
#[derive(Debug, Clone, Copy)]
pub struct EmptyTestRule;

impl ItemRule<TestBlock> for EmptyTestRule {
    open spec fn spec_item(&self, m: ParsedModule, config: Config, x: TestBlock) -> Seq<ViolationView> {
        if x.is_skipped {
            seq![block_view("VITEST-MNT-005"@, "EmptyTestRule"@, Severity::Info, Category::Maintenance, "Skipped test detected \u{2014} skipped tests provide no value"@, x, "Either fix the test or remove it. Avoid leaving skipped tests in the codebase"@)]
        } else {
            Seq::empty()
        }
    }

    fn check_item(&self, m: &ParsedModule, config: &Config, x: &TestBlock, out: &mut Vec<Violation>) {
        let ghost start = violations_view(out@);
        if x.is_skipped {
            let v = block_violation("VITEST-MNT-005", "EmptyTestRule", Severity::Info, Category::Maintenance, owned("Skipped test detected \u{2014} skipped tests provide no value"), x, "Either fix the test or remove it. Avoid leaving skipped tests in the codebase");
            push_violation(out, v);
        } else {
            proof { lemma_concat_empty(violations_view(out@)); }
        }
        assert(violations_view(out@) =~= start + self.spec_item(*m, *config, *x));
    }
}

impl Rule for EmptyTestRule {
    open spec fn spec_id(&self) -> Seq<char> {
        "VITEST-MNT-005"@
    }

    open spec fn spec_name(&self) -> Seq<char> {
        "EmptyTestRule"@
    }

    open spec fn spec_severity(&self) -> Severity {
        Severity::Info
    }

    open spec fn spec_category(&self) -> Category {
        Category::Maintenance
    }

    open spec fn spec_applies(&self, runtime: TestRuntime) -> bool {
        true
    }

    open spec fn spec_check(
        &self,
        m: ParsedModule,
        config: Config,
        all: Seq<ParsedModule>,
        tests: Seq<ParsedModule>,
        nodes: Seq<ParsedModule>,
    ) -> Seq<ViolationView> {
        scan_spec(*self, m, config, m.test_blocks@)
    }

    fn id(&self) -> &'static str {
        "VITEST-MNT-005"
    }

    fn name(&self) -> &'static str {
        "EmptyTestRule"
    }

    fn severity(&self) -> Severity {
        Severity::Info
    }

    fn category(&self) -> Category {
        Category::Maintenance
    }

    fn applies_to_runtime(&self, runtime: TestRuntime) -> bool {
        true
    }

    fn check(&self, module: &ParsedModule, ctx: &LintContext, graph: &ModuleGraph) -> Vec<Violation> {
        let mut out: Vec<Violation> = Vec::new();
        proof { lemma_violations_empty(); }
        scan(self, module, ctx.config, module.test_blocks.as_slice(), &mut out);
        assert(violations_view(out@) =~= self.spec_check(*module, *ctx.config, ctx.all_modules@, graph.test_seq(), graph.node_seq()));
        out
    }
}

/// Every violation of `EmptyTestRule` carries its id, name, severity and
/// category.
pub proof fn lemma_empty_test_rule_stamped(
    m: ParsedModule,
    config: Config,
    all: Seq<ParsedModule>,
    tests: Seq<ParsedModule>,
    nodes: Seq<ParsedModule>,
)
    ensures
        all_stamped(
            EmptyTestRule.spec_check(m, config, all, tests, nodes),
            "VITEST-MNT-005"@,
            "EmptyTestRule"@,
            Severity::Info,
            Category::Maintenance,
        ),
{
    lemma_scan_stamped(EmptyTestRule, m, config, m.test_blocks@, "VITEST-MNT-005"@, "EmptyTestRule"@, Severity::Info, Category::Maintenance);
}

/// Flags tests inside `describe` blocks nested deeper than three levels.
#[derive(Debug, Clone, Copy)]
pub struct NestedDescribeRule;

impl ItemRule<TestBlock> for NestedDescribeRule {
    open spec fn spec_item(&self, m: ParsedModule, config: Config, x: TestBlock) -> Seq<ViolationView> {
        if x.is_nested {
            seq![block_view("VITEST-STR-001"@, "NestedDescribeRule"@, Severity::Warning, Category::Structure, "Deeply nested describe blocks \u{2014} consider flattening test structure"@, x, "Keep describe nesting to 2 levels. Use descriptive test names instead of deep nesting"@)]
        } else {
            Seq::empty()
        }
    }

    fn check_item(&self, m: &ParsedModule, config: &Config, x: &TestBlock, out: &mut Vec<Violation>) {
        let ghost start = violations_view(out@);
        if x.is_nested {
            let v = block_violation("VITEST-STR-001", "NestedDescribeRule", Severity::Warning, Category::Structure, owned("Deeply nested describe blocks \u{2014} consider flattening test structure"), x, "Keep describe nesting to 2 levels. Use descriptive test names instead of deep nesting");
            push_violation(out, v);
        } else {
            proof { lemma_concat_empty(violations_view(out@)); }
        }
        assert(violations_view(out@) =~= start + self.spec_item(*m, *config, *x));
    }
}

impl Rule for NestedDescribeRule {
    open spec fn spec_id(&self) -> Seq<char> {
        "VITEST-STR-001"@
    }

    open spec fn spec_name(&self) -> Seq<char> {
        "NestedDescribeRule"@
    }

    open spec fn spec_severity(&self) -> Severity {
        Severity::Warning
    }

    open spec fn spec_category(&self) -> Category {
        Category::Structure
    }

    open spec fn spec_applies(&self, runtime: TestRuntime) -> bool {
        not_playwright(runtime)
    }

    open spec fn spec_check(
        &self,
        m: ParsedModule,
        config: Config,
        all: Seq<ParsedModule>,
        tests: Seq<ParsedModule>,
        nodes: Seq<ParsedModule>,
    ) -> Seq<ViolationView> {
        scan_spec(*self, m, config, m.test_blocks@)
    }

    fn id(&self) -> &'static str {
        "VITEST-STR-001"
    }

    fn name(&self) -> &'static str {
        "NestedDescribeRule"
    }

    fn severity(&self) -> Severity {
        Severity::Warning
    }

    fn category(&self) -> Category {
        Category::Structure
    }

    fn applies_to_runtime(&self, runtime: TestRuntime) -> bool {
        runtime != TestRuntime::Playwright
    }

    fn check(&self, module: &ParsedModule, ctx: &LintContext, graph: &ModuleGraph) -> Vec<Violation> {
        let mut out: Vec<Violation> = Vec::new();
        proof { lemma_violations_empty(); }
        scan(self, module, ctx.config, module.test_blocks.as_slice(), &mut out);
        assert(violations_view(out@) =~= self.spec_check(*module, *ctx.config, ctx.all_modules@, graph.test_seq(), graph.node_seq()));
        out
    }
}

/// Every violation of `NestedDescribeRule` carries its id, name, severity and
/// category.
pub proof fn lemma_nested_describe_rule_stamped(
    m: ParsedModule,
    config: Config,
    all: Seq<ParsedModule>,
    tests: Seq<ParsedModule>,
    nodes: Seq<ParsedModule>,
)
    ensures
        all_stamped(
            NestedDescribeRule.spec_check(m, config, all, tests, nodes),
            "VITEST-STR-001"@,
            "NestedDescribeRule"@,
            Severity::Warning,
            Category::Structure,
        ),
{
    lemma_scan_stamped(NestedDescribeRule, m, config, m.test_blocks@, "VITEST-STR-001"@, "NestedDescribeRule"@, Severity::Warning, Category::Structure);
}

/// Flags tests that contain a `return` statement.
#[derive(Debug, Clone, Copy)]
pub struct ReturnInTestRule;

impl ItemRule<TestBlock> for ReturnInTestRule {
    open spec fn spec_item(&self, m: ParsedModule, config: Config, x: TestBlock) -> Seq<ViolationView> {
        if x.has_return_statement {
            seq![block_view("VITEST-STR-002"@, "ReturnInTestRule"@, Severity::Warning, Category::Structure, "Return statement in test \u{2014} tests should use assertions, not return values"@, x, "Replace return with explicit expect() assertions"@)]
        } else {
            Seq::empty()
        }
    }

    fn check_item(&self, m: &ParsedModule, config: &Config, x: &TestBlock, out: &mut Vec<Violation>) {
        let ghost start = violations_view(out@);
        if x.has_return_statement {
            let v = block_violation("VITEST-STR-002", "ReturnInTestRule", Severity::Warning, Category::Structure, owned("Return statement in test \u{2014} tests should use assertions, not return values"), x, "Replace return with explicit expect() assertions");
            push_violation(out, v);
        } else {
            proof { lemma_concat_empty(violations_view(out@)); }
        }
        assert(violations_view(out@) =~= start + self.spec_item(*m, *config, *x));
    }
}

impl Rule for ReturnInTestRule {
    open spec fn spec_id(&self) -> Seq<char> {
        "VITEST-STR-002"@
    }

    open spec fn spec_name(&self) -> Seq<char> {
        "ReturnInTestRule"@
    }

    open spec fn spec_severity(&self) -> Severity {
        Severity::Warning
    }

    open spec fn spec_category(&self) -> Category {
        Category::Structure
    }

    open spec fn spec_applies(&self, runtime: TestRuntime) -> bool {
        not_playwright(runtime)
    }

    open spec fn spec_check(
        &self,
        m: ParsedModule,
        config: Config,
        all: Seq<ParsedModule>,
        tests: Seq<ParsedModule>,
        nodes: Seq<ParsedModule>,
    ) -> Seq<ViolationView> {
        scan_spec(*self, m, config, m.test_blocks@)
    }

    fn id(&self) -> &'static str {
        "VITEST-STR-002"
    }

    fn name(&self) -> &'static str {
        "ReturnInTestRule"
    }

    fn severity(&self) -> Severity {
        Severity::Warning
    }

    fn category(&self) -> Category {
        Category::Structure
    }

    fn applies_to_runtime(&self, runtime: TestRuntime) -> bool {
        runtime != TestRuntime::Playwright
    }

    fn check(&self, module: &ParsedModule, ctx: &LintContext, graph: &ModuleGraph) -> Vec<Violation> {
        let mut out: Vec<Violation> = Vec::new();
        proof { lemma_violations_empty(); }
        scan(self, module, ctx.config, module.test_blocks.as_slice(), &mut out);
        assert(violations_view(out@) =~= self.spec_check(*module, *ctx.config, ctx.all_modules@, graph.test_seq(), graph.node_seq()));
        out
    }
}

/// Every violation of `ReturnInTestRule` carries its id, name, severity and
/// category.
pub proof fn lemma_return_in_test_rule_stamped(
    m: ParsedModule,
    config: Config,
    all: Seq<ParsedModule>,
    tests: Seq<ParsedModule>,
    nodes: Seq<ParsedModule>,
)
    ensures
        all_stamped(
            ReturnInTestRule.spec_check(m, config, all, tests, nodes),
            "VITEST-STR-002"@,
            "ReturnInTestRule"@,
            Severity::Warning,
            Category::Structure,
        ),
{
    lemma_scan_stamped(ReturnInTestRule, m, config, m.test_blocks@, "VITEST-STR-002"@, "ReturnInTestRule"@, Severity::Warning, Category::Structure);
}

/// Flags tests with `.resolves` / `.rejects` assertions that are not awaited.
#[derive(Debug, Clone, Copy)]
pub struct MissingAwaitAssertionRule;

impl ItemRule<TestBlock> for MissingAwaitAssertionRule {
    open spec fn spec_item(&self, m: ParsedModule, config: Config, x: TestBlock) -> Seq<ViolationView> {
        if x.unawaited_async_assertions > 0 {
            seq![block_view("VITEST-MNT-006"@, "MissingAwaitAssertionRule"@, Severity::Warning, Category::Maintenance, "Test has "@ + decimal(x.unawaited_async_assertions as nat) + " unawaited async assertions \u{2014} these will fail silently"@, x, "Add await before expect() for .resolves or .rejects assertions"@)]
        } else {
            Seq::empty()
        }
    }

    fn check_item(&self, m: &ParsedModule, config: &Config, x: &TestBlock, out: &mut Vec<Violation>) {
        let ghost start = violations_view(out@);
        if x.unawaited_async_assertions > 0 {
            let v = block_violation("VITEST-MNT-006", "MissingAwaitAssertionRule", Severity::Warning, Category::Maintenance, cat3("Test has ", decimal_string(x.unawaited_async_assertions).as_str(), " unawaited async assertions \u{2014} these will fail silently"), x, "Add await before expect() for .resolves or .rejects assertions");
            push_violation(out, v);
        } else {
            proof { lemma_concat_empty(violations_view(out@)); }
        }
        assert(violations_view(out@) =~= start + self.spec_item(*m, *config, *x));
    }
}

impl Rule for MissingAwaitAssertionRule {
    open spec fn spec_id(&self) -> Seq<char> {
        "VITEST-MNT-006"@
    }

    open spec fn spec_name(&self) -> Seq<char> {
        "MissingAwaitAssertionRule"@
    }

    open spec fn spec_severity(&self) -> Severity {
        Severity::Warning
    }

    open spec fn spec_category(&self) -> Category {
        Category::Maintenance
    }

    open spec fn spec_applies(&self, runtime: TestRuntime) -> bool {
        not_playwright(runtime)
    }

    open spec fn spec_check(
        &self,
        m: ParsedModule,
        config: Config,
        all: Seq<ParsedModule>,
        tests: Seq<ParsedModule>,
        nodes: Seq<ParsedModule>,
    ) -> Seq<ViolationView> {
        scan_spec(*self, m, config, m.test_blocks@)
    }

    fn id(&self) -> &'static str {
        "VITEST-MNT-006"
    }

    fn name(&self) -> &'static str {
        "MissingAwaitAssertionRule"
    }

    fn severity(&self) -> Severity {
        Severity::Warning
    }

    fn category(&self) -> Category {
        Category::Maintenance
    }

    fn applies_to_runtime(&self, runtime: TestRuntime) -> bool {
        runtime != TestRuntime::Playwright
    }

    fn check(&self, module: &ParsedModule, ctx: &LintContext, graph: &ModuleGraph) -> Vec<Violation> {
        let mut out: Vec<Violation> = Vec::new();
        proof { lemma_violations_empty(); }
        scan(self, module, ctx.config, module.test_blocks.as_slice(), &mut out);
        assert(violations_view(out@) =~= self.spec_check(*module, *ctx.config, ctx.all_modules@, graph.test_seq(), graph.node_seq()));
        out
    }
}

/// Every violation of `MissingAwaitAssertionRule` carries its id, name, severity and
/// category.
pub proof fn lemma_missing_await_assertion_rule_stamped(
    m: ParsedModule,
    config: Config,
    all: Seq<ParsedModule>,
    tests: Seq<ParsedModule>,
    nodes: Seq<ParsedModule>,
)
    ensures
        all_stamped(
            MissingAwaitAssertionRule.spec_check(m, config, all, tests, nodes),
            "VITEST-MNT-006"@,
            "MissingAwaitAssertionRule"@,
            Severity::Warning,
            Category::Maintenance,
        ),
{
    lemma_scan_stamped(MissingAwaitAssertionRule, m, config, m.test_blocks@, "VITEST-MNT-006"@, "MissingAwaitAssertionRule"@, Severity::Warning, Category::Maintenance);
}

/// Flags focused tests and describes (`.only`), which skip every other test of the file.
#[derive(Debug, Clone, Copy)]
pub struct FocusedTestRule;

impl ItemRule<TestBlock> for FocusedTestRule {
    open spec fn spec_item(&self, m: ParsedModule, config: Config, x: TestBlock) -> Seq<ViolationView> {
        if x.is_only {
            seq![block_view("VITEST-MNT-007"@, "FocusedTestRule"@, Severity::Error, Category::Maintenance, "Focused test '"@ + x.name@ + "' uses .only \u{2014} all other tests in this file will be skipped"@, x, "Remove .only before committing. Focused tests mask failures in CI"@)]
        } else {
            Seq::empty()
        }
    }

    fn check_item(&self, m: &ParsedModule, config: &Config, x: &TestBlock, out: &mut Vec<Violation>) {
        let ghost start = violations_view(out@);
        if x.is_only {
            let v = block_violation("VITEST-MNT-007", "FocusedTestRule", Severity::Error, Category::Maintenance, cat3("Focused test '", x.name.as_str(), "' uses .only \u{2014} all other tests in this file will be skipped"), x, "Remove .only before committing. Focused tests mask failures in CI");
            push_violation(out, v);
        } else {
            proof { lemma_concat_empty(violations_view(out@)); }
        }
        assert(violations_view(out@) =~= start + self.spec_item(*m, *config, *x));
    }
}

impl ItemRule<DescribeBlock> for FocusedTestRule {
    open spec fn spec_item(&self, m: ParsedModule, config: Config, x: DescribeBlock) -> Seq<ViolationView> {
        if x.is_only {
            seq![file_view("VITEST-MNT-007"@, "FocusedTestRule"@, Severity::Error, Category::Maintenance, "Focused describe '"@ + x.name@ + "' uses .only \u{2014} all other tests in this file will be skipped"@, x.file_path@, x.line, "Remove .only before committing. Focused tests mask failures in CI"@)]
        } else {
            Seq::empty()
        }
    }

    fn check_item(&self, m: &ParsedModule, config: &Config, x: &DescribeBlock, out: &mut Vec<Violation>) {
        let ghost start = violations_view(out@);
        if x.is_only {
            let v = file_violation("VITEST-MNT-007", "FocusedTestRule", Severity::Error, Category::Maintenance, cat3("Focused describe '", x.name.as_str(), "' uses .only \u{2014} all other tests in this file will be skipped"), &x.file_path, x.line, "Remove .only before committing. Focused tests mask failures in CI");
            push_violation(out, v);
        } else {
            proof { lemma_concat_empty(violations_view(out@)); }
        }
        assert(violations_view(out@) =~= start + self.spec_item(*m, *config, *x));
    }
}

impl Rule for FocusedTestRule {
    open spec fn spec_id(&self) -> Seq<char> {
        "VITEST-MNT-007"@
    }

    open spec fn spec_name(&self) -> Seq<char> {
        "FocusedTestRule"@
    }

    open spec fn spec_severity(&self) -> Severity {
        Severity::Error
    }

    open spec fn spec_category(&self) -> Category {
        Category::Maintenance
    }

    open spec fn spec_applies(&self, runtime: TestRuntime) -> bool {
        true
    }

    open spec fn spec_check(
        &self,
        m: ParsedModule,
        config: Config,
        all: Seq<ParsedModule>,
        tests: Seq<ParsedModule>,
        nodes: Seq<ParsedModule>,
    ) -> Seq<ViolationView> {
        scan_spec(*self, m, config, m.test_blocks@) + scan_spec(*self, m, config, m.describe_blocks@)
    }

    fn id(&self) -> &'static str {
        "VITEST-MNT-007"
    }

    fn name(&self) -> &'static str {
        "FocusedTestRule"
    }

    fn severity(&self) -> Severity {
        Severity::Error
    }

    fn category(&self) -> Category {
        Category::Maintenance
    }

    fn applies_to_runtime(&self, runtime: TestRuntime) -> bool {
        true
    }

    fn check(&self, module: &ParsedModule, ctx: &LintContext, graph: &ModuleGraph) -> Vec<Violation> {
        let mut out: Vec<Violation> = Vec::new();
        proof { lemma_violations_empty(); }
        scan(self, module, ctx.config, module.test_blocks.as_slice(), &mut out);
        scan(self, module, ctx.config, module.describe_blocks.as_slice(), &mut out);
        assert(violations_view(out@) =~= self.spec_check(*module, *ctx.config, ctx.all_modules@, graph.test_seq(), graph.node_seq()));
        out
    }
}

/// Every violation of `FocusedTestRule` carries its id, name, severity and
/// category.
pub proof fn lemma_focused_test_rule_stamped(
    m: ParsedModule,
    config: Config,
    all: Seq<ParsedModule>,
    tests: Seq<ParsedModule>,
    nodes: Seq<ParsedModule>,
)
    ensures
        all_stamped(
            FocusedTestRule.spec_check(m, config, all, tests, nodes),
            "VITEST-MNT-007"@,
            "FocusedTestRule"@,
            Severity::Error,
            Category::Maintenance,
        ),
{
    lemma_scan_stamped(FocusedTestRule, m, config, m.test_blocks@, "VITEST-MNT-007"@, "FocusedTestRule"@, Severity::Error, Category::Maintenance);
    lemma_scan_stamped(FocusedTestRule, m, config, m.describe_blocks@, "VITEST-MNT-007"@, "FocusedTestRule"@, Severity::Error, Category::Maintenance);
    lemma_stamped_concat(scan_spec(FocusedTestRule, m, config, m.test_blocks@), scan_spec(FocusedTestRule, m, config, m.describe_blocks@), "VITEST-MNT-007"@, "FocusedTestRule"@, Severity::Error, Category::Maintenance);
}

/// Flags tests whose assertions are all weak (`toBeDefined()`, `toBeTruthy()`, `not.toThrow()`, ...).
#[derive(Debug, Clone, Copy)]
pub struct WeakAssertionRule;

impl ItemRule<TestBlock> for WeakAssertionRule {
    open spec fn spec_item(&self, m: ParsedModule, config: Config, x: TestBlock) -> Seq<ViolationView> {
        if x.assertion_count > 0 && x.weak_assertion_count == x.assertion_count {
            seq![block_view("VITEST-MNT-009"@, "WeakAssertionRule"@, Severity::Warning, Category::Maintenance, "All "@ + decimal(x.assertion_count as nat) + " assertion(s) in this test are weak \u{2014} they verify existence or truthiness, not actual behavior"@, x, "Use specific assertions like toBe(), toEqual(), or toHaveLength() instead of toBeDefined()/toBeTruthy()/not.toThrow()"@)]
        } else {
            Seq::empty()
        }
    }

    fn check_item(&self, m: &ParsedModule, config: &Config, x: &TestBlock, out: &mut Vec<Violation>) {
        let ghost start = violations_view(out@);
        if x.assertion_count > 0 && x.weak_assertion_count == x.assertion_count {
            let v = block_violation("VITEST-MNT-009", "WeakAssertionRule", Severity::Warning, Category::Maintenance, cat3("All ", decimal_string(x.assertion_count).as_str(), " assertion(s) in this test are weak \u{2014} they verify existence or truthiness, not actual behavior"), x, "Use specific assertions like toBe(), toEqual(), or toHaveLength() instead of toBeDefined()/toBeTruthy()/not.toThrow()");
            push_violation(out, v);
        } else {
            proof { lemma_concat_empty(violations_view(out@)); }
        }
        assert(violations_view(out@) =~= start + self.spec_item(*m, *config, *x));
    }
}

impl Rule for WeakAssertionRule {
    open spec fn spec_id(&self) -> Seq<char> {
        "VITEST-MNT-009"@
    }

    open spec fn spec_name(&self) -> Seq<char> {
        "WeakAssertionRule"@
    }

    open spec fn spec_severity(&self) -> Severity {
        Severity::Warning
    }

    open spec fn spec_category(&self) -> Category {
        Category::Maintenance
    }

    open spec fn spec_applies(&self, runtime: TestRuntime) -> bool {
        not_playwright(runtime)
    }

    open spec fn spec_check(
        &self,
        m: ParsedModule,
        config: Config,
        all: Seq<ParsedModule>,
        tests: Seq<ParsedModule>,
        nodes: Seq<ParsedModule>,
    ) -> Seq<ViolationView> {
        scan_spec(*self, m, config, m.test_blocks@)
    }

    fn id(&self) -> &'static str {
        "VITEST-MNT-009"
    }

    fn name(&self) -> &'static str {
        "WeakAssertionRule"
    }

    fn severity(&self) -> Severity {
        Severity::Warning
    }

    fn category(&self) -> Category {
        Category::Maintenance
    }

    fn applies_to_runtime(&self, runtime: TestRuntime) -> bool {
        runtime != TestRuntime::Playwright
    }

    fn check(&self, module: &ParsedModule, ctx: &LintContext, graph: &ModuleGraph) -> Vec<Violation> {
        let mut out: Vec<Violation> = Vec::new();
        proof { lemma_violations_empty(); }
        scan(self, module, ctx.config, module.test_blocks.as_slice(), &mut out);
        assert(violations_view(out@) =~= self.spec_check(*module, *ctx.config, ctx.all_modules@, graph.test_seq(), graph.node_seq()));
        out
    }
}

/// Every violation of `WeakAssertionRule` carries its id, name, severity and
/// category.
pub proof fn lemma_weak_assertion_rule_stamped(
    m: ParsedModule,
    config: Config,
    all: Seq<ParsedModule>,
    tests: Seq<ParsedModule>,
    nodes: Seq<ParsedModule>,
)
    ensures
        all_stamped(
            WeakAssertionRule.spec_check(m, config, all, tests, nodes),
            "VITEST-MNT-009"@,
            "WeakAssertionRule"@,
            Severity::Warning,
            Category::Maintenance,
        ),
{
    lemma_scan_stamped(WeakAssertionRule, m, config, m.test_blocks@, "VITEST-MNT-009"@, "WeakAssertionRule"@, Severity::Warning, Category::Maintenance);
}
/// Whether `c` is one of the `vi` calls that reset every mock:
/// `vi.restoreAllMocks`, `vi.clearAllMocks` or `vi.resetAllMocks`.
pub open spec fn is_cleanup_call(c: Seq<char>) -> bool {
    c == "vi.restoreAllMocks"@ || c == "vi.clearAllMocks"@ || c == "vi.resetAllMocks"@
}

/// Whether a hook runs around each test and resets the mocks.
pub open spec fn hook_cleans(h: HookCall) -> bool {
    &&& (h.kind == HookKind::AfterEach || h.kind == HookKind::BeforeEach)
    &&& exists|j: int| 0 <= j < h.vi_calls@.len() && is_cleanup_call(#[trigger] h.vi_calls@[j]@)
}

/// Whether some hook of `m` resets the mocks around each test.
pub open spec fn has_mock_cleanup(m: ParsedModule) -> bool {
    exists|i: int| 0 <= i < m.hook_calls@.len() && hook_cleans(#[trigger] m.hook_calls@[i])
}

/// Whether `k` is the position of the first of the `vi.mock` calls with the
/// smallest line.
pub open spec fn earliest_mock(s: Seq<ViMockCall>, k: int) -> bool {
    &&& 0 <= k < s.len()
    &&& forall|j: int| 0 <= j < s.len() ==> s[k].line <= #[trigger] s[j].line
    &&& forall|j: int| 0 <= j < k ==> #[trigger] s[j].line > s[k].line
}

/// There is at most one earliest mock.
pub proof fn lemma_earliest_unique(s: Seq<ViMockCall>, a: int, b: int)
    requires
        earliest_mock(s, a),
        earliest_mock(s, b),
    ensures
        a == b,
{
    assert(s[a].line <= s[b].line);
    assert(s[b].line <= s[a].line);
}

/// Whether `c` is the name of a `vi` call that resets every mock.
fn is_cleanup_call_exec(c: &str) -> (b: bool)
    ensures
        b == is_cleanup_call(c@),
{
    str_eq(c, "vi.restoreAllMocks") || str_eq(c, "vi.clearAllMocks") || str_eq(c, "vi.resetAllMocks")
}

/// Decides `hook_cleans`.
fn hook_cleans_exec(h: &HookCall) -> (b: bool)
    ensures
        b == hook_cleans(*h),
{
    if !(h.kind == HookKind::AfterEach || h.kind == HookKind::BeforeEach) {
        return false;
    }
    let mut j: usize = 0;
    while j < h.vi_calls.len()
        invariant
            j <= h.vi_calls@.len(),
            h.kind == HookKind::AfterEach || h.kind == HookKind::BeforeEach,
            forall|k: int| 0 <= k < j ==> !is_cleanup_call(#[trigger] h.vi_calls@[k]@),
        decreases h.vi_calls@.len() - j,
    {
        if is_cleanup_call_exec(h.vi_calls[j].as_str()) {
            assert(is_cleanup_call(h.vi_calls@[j as int]@));
            return true;
        }
        j = j + 1;
    }
    false
}

/// The message and suggestion of a leaking `vi.mock`.
pub open spec fn leaking_mock_view(m: ParsedModule, mk: ViMockCall) -> ViolationView {
    file_view(
        "VITEST-MNT-008"@,
        "MissingMockCleanupRule"@,
        Severity::Warning,
        Category::Maintenance,
        "vi.mock('"@ + mk.source@ + "') used without afterEach cleanup \u{2014} mocks may leak between tests"@,
        m.file_path@,
        mk.line,
        "Add afterEach(() => { vi.restoreAllMocks() }) or beforeEach(() => { vi.clearAllMocks() }) to clean up mocks between tests"@,
    )
}

/// Flags files that call `vi.mock()` without resetting the mocks in an
/// `afterEach` or `beforeEach` hook; reported once, at the earliest mock.
#[derive(Debug, Clone, Copy)]
pub struct MissingMockCleanupRule;

impl Rule for MissingMockCleanupRule {
    open spec fn spec_id(&self) -> Seq<char> {
        "VITEST-MNT-008"@
    }

    open spec fn spec_name(&self) -> Seq<char> {
        "MissingMockCleanupRule"@
    }

    open spec fn spec_severity(&self) -> Severity {
        Severity::Warning
    }

    open spec fn spec_category(&self) -> Category {
        Category::Maintenance
    }

    open spec fn spec_applies(&self, runtime: TestRuntime) -> bool {
        not_playwright(runtime)
    }

    open spec fn spec_check(
        &self,
        m: ParsedModule,
        config: Config,
        all: Seq<ParsedModule>,
        tests: Seq<ParsedModule>,
        nodes: Seq<ParsedModule>,
    ) -> Seq<ViolationView> {
        if m.vi_mocks@.len() == 0 || has_mock_cleanup(m) {
            Seq::empty()
        } else {
            let k = choose|k: int| earliest_mock(m.vi_mocks@, k);
            seq![leaking_mock_view(m, m.vi_mocks@[k])]
        }
    }

    fn id(&self) -> &'static str {
        "VITEST-MNT-008"
    }

    fn name(&self) -> &'static str {
        "MissingMockCleanupRule"
    }

    fn severity(&self) -> Severity {
        Severity::Warning
    }

    fn category(&self) -> Category {
        Category::Maintenance
    }

    fn applies_to_runtime(&self, runtime: TestRuntime) -> bool {
        runtime != TestRuntime::Playwright
    }

    fn check(&self, module: &ParsedModule, ctx: &LintContext, graph: &ModuleGraph) -> Vec<Violation> {
        proof { lemma_violations_empty(); }
        if module.vi_mocks.len() == 0 {
            return Vec::new();
        }
        let mut i: usize = 0;
        while i < module.hook_calls.len()
            invariant
                i <= module.hook_calls@.len(),
                forall|j: int| 0 <= j < i ==> !hook_cleans(#[trigger] module.hook_calls@[j]),
            decreases module.hook_calls@.len() - i,
        {
            if hook_cleans_exec(&module.hook_calls[i]) {
                assert(hook_cleans(module.hook_calls@[i as int]));
                return Vec::new();
            }
            i = i + 1;
        }
        let mut k: usize = 0;
        let mut j: usize = 1;
        while j < module.vi_mocks.len()
            invariant
                1 <= j <= module.vi_mocks@.len(),
                earliest_mock(module.vi_mocks@.take(j as int), k as int),
            decreases module.vi_mocks@.len() - j,
        {
            let ghost s = module.vi_mocks@;
            if module.vi_mocks[j].line < module.vi_mocks[k].line {
                k = j;
            }
            assert(earliest_mock(s.take(j + 1), k as int)) by {
                assert forall|q: int| 0 <= q < j + 1 implies s.take(j + 1)[k as int].line <= #[trigger] s.take(j + 1)[q].line by {
                    if q < j {
                        assert(s.take(j + 1)[q] == s.take(j as int)[q]);
                    }
                }
                assert forall|q: int| 0 <= q < k implies #[trigger] s.take(j + 1)[q].line > s.take(j + 1)[k as int].line by {
                    assert(s.take(j + 1)[q] == s.take(j as int)[q]);
                }
            }
            j = j + 1;
        }
        proof {
            assert(module.vi_mocks@.take(module.vi_mocks@.len() as int) == module.vi_mocks@);
            let c = choose|c: int| earliest_mock(module.vi_mocks@, c);
            lemma_earliest_unique(module.vi_mocks@, c, k as int);
        }
        let mk = &module.vi_mocks[k];
        let msg = cat3(
            "vi.mock('",
            mk.source.as_str(),
            "') used without afterEach cleanup \u{2014} mocks may leak between tests",
        );
        let v = file_violation(
            "VITEST-MNT-008",
            "MissingMockCleanupRule",
            Severity::Warning,
            Category::Maintenance,
            msg,
            &module.file_path,
            mk.line,
            "Add afterEach(() => { vi.restoreAllMocks() }) or beforeEach(() => { vi.clearAllMocks() }) to clean up mocks between tests",
        );
        let mut out: Vec<Violation> = Vec::new();
        push_violation(&mut out, v);
        out
    }
}

/// Whether an import names a production module: not a test framework, not
/// `node_modules`, not a relative or absolute path.
pub open spec fn prod_import(s: Seq<char>) -> bool {
    &&& !starts_with(s, "vitest"@)
    &&& !starts_with(s, "@testing-library"@)
    &&& !starts_with(s, "jest"@)
    &&& !starts_with(s, "@jest"@)
    &&& !contains(s, "node_modules"@)
    &&& !starts_with(s, "."@)
    &&& !starts_with(s, "/"@)
}

/// Decides `prod_import`.
fn is_prod_import(s: &str) -> (b: bool)
    ensures
        b == prod_import(s@),
{
    !str_starts_with(s, "vitest") && !str_starts_with(s, "@testing-library") && !str_starts_with(
        s,
        "jest",
    ) && !str_starts_with(s, "@jest") && !str_contains(s, "node_modules") && !str_starts_with(s, ".")
        && !str_starts_with(s, "/")
}

/// The production imports of a module, in order.
pub open spec fn prod_imports(imports: Seq<String>) -> Seq<Seq<char>> {
    filter_map(imports, |s: String| if prod_import(s@) { Some(s@) } else { None })
}

/// The lower-cased names of the exports of a module.
pub open spec fn lowered_export_names(exports: Seq<ExportEntry>) -> Seq<Seq<char>> {
    exports.map_values(|e: ExportEntry| unicode_lowercase(e.name@))
}

/// Whether a lower-cased test name contains one of `names`.
pub open spec fn name_matches(test_lower: Seq<char>, names: Seq<Seq<char>>) -> bool {
    exists|j: int| 0 <= j < names.len() && contains(test_lower, #[trigger] names[j])
}

/// How many of the tests have a lower-cased name that contains one of `names`.
pub open spec fn matching_tests(tbs: Seq<TestBlock>, names: Seq<Seq<char>>) -> nat
    decreases tbs.len(),
{
    if tbs.len() == 0 {
        0
    } else {
        matching_tests(tbs.drop_last(), names) + if name_matches(
            unicode_lowercase(tbs.last().name@),
            names,
        ) {
            1nat
        } else {
            0nat
        }
    }
}

/// The violation of a file that mirrors the module `p`: `t` tests for `e`
/// exports, `k` of the tests named after an export.
pub open spec fn coupled_view(m: ParsedModule, p: Seq<char>, t: nat, e: nat, k: nat) -> ViolationView {
    file_view(
        "VITEST-MNT-010"@,
        "ImplementationCoupledRule"@,
        Severity::Warning,
        Category::Maintenance,
        "Test file is tightly coupled to '"@ + p + "' \u{2014} "@ + decimal(t) + " tests for "@
            + decimal(e) + " exports, "@ + decimal(100 * k / t) + "% name match"@,
        m.file_path@,
        1,
        "Test behavior, not implementation details. Refactor tests to verify public API outcomes rather than mirroring export structure"@,
    )
}

/// What the rule reports for `m`, given the nodes of the graph: when `m`
/// imports exactly one production module, that module is a node with
/// exports, there are between 0.8 and 1.2 tests per export, and more than
/// 80% of the tests are named after an export.
pub open spec fn coupled_check(m: ParsedModule, nodes: Seq<ParsedModule>) -> Seq<ViolationView> {
    let ps = prod_imports(m.imports@);
    if ps.len() != 1 {
        Seq::empty()
    } else {
        match lookup(nodes, components(ps[0])) {
            None => Seq::empty(),
            Some(sm) => {
                let e = sm.exports@.len();
                let t = m.test_blocks@.len();
                if e == 0 || t == 0 || 5 * t < 4 * e || 5 * t > 6 * e {
                    Seq::empty()
                } else {
                    let k = matching_tests(m.test_blocks@, lowered_export_names(sm.exports@));
                    if 5 * k <= 4 * t {
                        Seq::empty()
                    } else {
                        seq![coupled_view(m, ps[0], t, e, k)]
                    }
                }
            },
        }
    }
}

/// The production imports of `imports`, in order.
fn collect_prod_imports(imports: &Vec<String>) -> (r: Vec<String>)
    ensures
        strs_view(r@) == prod_imports(imports@),
{
    let mut r: Vec<String> = Vec::new();
    let mut i: usize = 0;
    while i < imports.len()
        invariant
            i <= imports@.len(),
            strs_view(r@) == filter_map(
                imports@.take(i as int),
                |s: String| if prod_import(s@) { Some(s@) } else { None },
            ),
        decreases imports@.len() - i,
    {
        proof {
            lemma_filter_map_step(
                imports@,
                |s: String| if prod_import(s@) { Some(s@) } else { None },
                i as int,
            );
        }
        if is_prod_import(imports[i].as_str()) {
            let s = imports[i].clone();
            proof {
                lemma_strs_view_push(r@, s);
            }
            r.push(s);
        }
        i = i + 1;
    }
    proof {
        lemma_take_full(imports@);
    }
    r
}

/// The lower-cased names of `exports`.
fn lower_export_names(exports: &Vec<ExportEntry>) -> (r: Vec<String>)
    ensures
        strs_view(r@) == lowered_export_names(exports@),
{
    let mut r: Vec<String> = Vec::new();
    let mut i: usize = 0;
    while i < exports.len()
        invariant
            i <= exports@.len(),
            strs_view(r@) == lowered_export_names(exports@.take(i as int)),
        decreases exports@.len() - i,
    {
        let s = str_to_lowercase(exports[i].name.as_str());
        proof {
            lemma_strs_view_push(r@, s);
        }
        r.push(s);
        assert(lowered_export_names(exports@.take(i + 1)) =~= lowered_export_names(
            exports@.take(i as int),
        ).push(unicode_lowercase(exports@[i as int].name@)));
        i = i + 1;
    }
    proof {
        lemma_take_full(exports@);
    }
    r
}

/// Whether `s` contains one of `names`.
fn contains_any(s: &str, names: &Vec<String>) -> (b: bool)
    ensures
        b == name_matches(s@, strs_view(names@)),
{
    let mut j: usize = 0;
    while j < names.len()
        invariant
            j <= names@.len(),
            forall|q: int| 0 <= q < j ==> !contains(s@, #[trigger] strs_view(names@)[q]),
        decreases names@.len() - j,
    {
        if str_contains(s, names[j].as_str()) {
            assert(contains(s@, strs_view(names@)[j as int]));
            return true;
        }
        j = j + 1;
    }
    false
}

/// How many tests have a lower-cased name that contains one of `names`.
fn count_matching(tbs: &Vec<TestBlock>, names: &Vec<String>) -> (k: usize)
    ensures
        k == matching_tests(tbs@, strs_view(names@)),
        k <= tbs@.len(),
{
    let mut k: usize = 0;
    let mut i: usize = 0;
    while i < tbs.len()
        invariant
            i <= tbs@.len(),
            k <= i,
            k == matching_tests(tbs@.take(i as int), strs_view(names@)),
        decreases tbs@.len() - i,
    {
        let lower = str_to_lowercase(tbs[i].name.as_str());
        let hit = contains_any(lower.as_str(), names);
        proof {
            let t = tbs@.take(i + 1);
            assert(t.drop_last() == tbs@.take(i as int));
            assert(t.last() == tbs@[i as int]);
        }
        if hit {
            k = k + 1;
        }
        i = i + 1;
    }
    proof {
        lemma_take_full(tbs@);
    }
    k
}

/// Flags test files that mirror one production module: one test per export,
/// named after the exports. Such tests break on any refactor.
#[derive(Debug, Clone, Copy)]
pub struct ImplementationCoupledRule;

impl Rule for ImplementationCoupledRule {
    open spec fn spec_id(&self) -> Seq<char> {
        "VITEST-MNT-010"@
    }

    open spec fn spec_name(&self) -> Seq<char> {
        "ImplementationCoupledRule"@
    }

    open spec fn spec_severity(&self) -> Severity {
        Severity::Warning
    }

    open spec fn spec_category(&self) -> Category {
        Category::Maintenance
    }

    open spec fn spec_applies(&self, runtime: TestRuntime) -> bool {
        not_playwright(runtime)
    }

    open spec fn spec_check(
        &self,
        m: ParsedModule,
        config: Config,
        all: Seq<ParsedModule>,
        tests: Seq<ParsedModule>,
        nodes: Seq<ParsedModule>,
    ) -> Seq<ViolationView> {
        coupled_check(m, nodes)
    }

    fn id(&self) -> &'static str {
        "VITEST-MNT-010"
    }

    fn name(&self) -> &'static str {
        "ImplementationCoupledRule"
    }

    fn severity(&self) -> Severity {
        Severity::Warning
    }

    fn category(&self) -> Category {
        Category::Maintenance
    }

    fn applies_to_runtime(&self, runtime: TestRuntime) -> bool {
        runtime != TestRuntime::Playwright
    }

    fn check(&self, module: &ParsedModule, ctx: &LintContext, graph: &ModuleGraph) -> Vec<Violation> {
        proof { lemma_violations_empty(); }
        let ps = collect_prod_imports(&module.imports);
        if ps.len() != 1 {
            return Vec::new();
        }
        let p = &ps[0];
        assert(p@ == prod_imports(module.imports@)[0]);
        let resolved = ctx.config.resolve_module_path(p.as_str());
        let sm = match graph.get_module(resolved.as_str()) {
            Some(sm) => sm,
            None => return Vec::new(),
        };
        let e = sm.exports.len();
        let t = module.test_blocks.len();
        if e == 0 || t == 0 {
            return Vec::new();
        }
        let t5: u128 = t as u128 * 5;
        if t5 < e as u128 * 4 || t5 > e as u128 * 6 {
            return Vec::new();
        }
        let names = lower_export_names(&sm.exports);
        let k = count_matching(&module.test_blocks, &names);
        if (k as u128) * 5 <= (t as u128) * 4 {
            return Vec::new();
        }
        let pct128: u128 = (k as u128) * 100 / (t as u128);
        assert(pct128 <= 100) by (nonlinear_arith)
            requires
                pct128 == (k as int) * 100 / (t as int),
                k <= t,
                t > 0,
        ;
        let pct: usize = pct128 as usize;
        let mut msg = owned("Test file is tightly coupled to '");
        msg.append(p.as_str());
        msg.append("' \u{2014} ");
        msg.append(decimal_string(t).as_str());
        msg.append(" tests for ");
        msg.append(decimal_string(e).as_str());
        msg.append(" exports, ");
        msg.append(decimal_string(pct).as_str());
        msg.append("% name match");
        let v = file_violation(
            "VITEST-MNT-010",
            "ImplementationCoupledRule",
            Severity::Warning,
            Category::Maintenance,
            msg,
            &module.file_path,
            1,
            "Test behavior, not implementation details. Refactor tests to verify public API outcomes rather than mirroring export structure",
        );
        let mut out: Vec<Violation> = Vec::new();
        push_violation(&mut out, v);
        out
    }
}

/// Every violation of `MissingMockCleanupRule` carries its id, name, severity
/// and category.
pub proof fn lemma_missing_mock_cleanup_rule_stamped(
    m: ParsedModule,
    config: Config,
    all: Seq<ParsedModule>,
    tests: Seq<ParsedModule>,
    nodes: Seq<ParsedModule>,
)
    ensures
        all_stamped(
            MissingMockCleanupRule.spec_check(m, config, all, tests, nodes),
            "VITEST-MNT-008"@,
            "MissingMockCleanupRule"@,
            Severity::Warning,
            Category::Maintenance,
        ),
{
}

/// Every violation of `ImplementationCoupledRule` carries its id, name,
/// severity and category.
pub proof fn lemma_implementation_coupled_rule_stamped(
    m: ParsedModule,
    config: Config,
    all: Seq<ParsedModule>,
    tests: Seq<ParsedModule>,
    nodes: Seq<ParsedModule>,
)
    ensures
        all_stamped(
            ImplementationCoupledRule.spec_check(m, config, all, tests, nodes),
            "VITEST-MNT-010"@,
            "ImplementationCoupledRule"@,
            Severity::Warning,
            Category::Maintenance,
        ),
{
}


/// Law: `NoAssertionRule` reports each test without an assertion, once, at the test's line, in order, and no
/// other test.
pub proof fn law_no_assertion_reports(
    m: ParsedModule,
    config: Config,
    all: Seq<ParsedModule>,
    tests: Seq<ParsedModule>,
    nodes: Seq<ParsedModule>,
)
    ensures
        NoAssertionRule.spec_check(m, config, all, tests, nodes) == filter_map(
            m.test_blocks@,
            |x: TestBlock| if !x.has_assertions { Some(block_view("VITEST-MNT-001"@, "NoAssertionRule"@, Severity::Error, Category::Maintenance, "Test has no assertions \u{2014} it will pass even if the code is broken"@, x, "Add at least one expect() assertion to verify behavior"@)) } else { None },
        ),
{
    let f = |x: TestBlock| if !x.has_assertions { Some(block_view("VITEST-MNT-001"@, "NoAssertionRule"@, Severity::Error, Category::Maintenance, "Test has no assertions \u{2014} it will pass even if the code is broken"@, x, "Add at least one expect() assertion to verify behavior"@)) } else { None };
    assert forall|x: TestBlock| #[trigger] NoAssertionRule.spec_item(m, config, x) == match f(x) {
        Some(v) => seq![v],
        None => Seq::<ViolationView>::empty(),
    } by {}
    lemma_scan_filter_map(NoAssertionRule, m, config, m.test_blocks@, f);
}

/// Law: `MultipleExpectRule` reports each test with more than five assertions, once, at the test's line, in order, and no
/// other test.
pub proof fn law_multiple_expect_reports(
    m: ParsedModule,
    config: Config,
    all: Seq<ParsedModule>,
    tests: Seq<ParsedModule>,
    nodes: Seq<ParsedModule>,
)
    ensures
        MultipleExpectRule.spec_check(m, config, all, tests, nodes) == filter_map(
            m.test_blocks@,
            |x: TestBlock| if x.assertion_count > 5 { Some(block_view("VITEST-MNT-002"@, "MultipleExpectRule"@, Severity::Warning, Category::Maintenance, "Test has "@ + decimal(x.assertion_count as nat) + " assertions \u{2014} consider splitting into focused tests"@, x, "Each test should verify one behavior. Split multiple assertions into separate tests"@)) } else { None },
        ),
{
    let f = |x: TestBlock| if x.assertion_count > 5 { Some(block_view("VITEST-MNT-002"@, "MultipleExpectRule"@, Severity::Warning, Category::Maintenance, "Test has "@ + decimal(x.assertion_count as nat) + " assertions \u{2014} consider splitting into focused tests"@, x, "Each test should verify one behavior. Split multiple assertions into separate tests"@)) } else { None };
    assert forall|x: TestBlock| #[trigger] MultipleExpectRule.spec_item(m, config, x) == match f(x) {
        Some(v) => seq![v],
        None => Seq::<ViolationView>::empty(),
    } by {}
    lemma_scan_filter_map(MultipleExpectRule, m, config, m.test_blocks@, f);
}

/// Law: `ConditionalLogicRule` reports each test with conditional logic, once, at the test's line, in order, and no
/// other test.
pub proof fn law_conditional_logic_reports(
    m: ParsedModule,
    config: Config,
    all: Seq<ParsedModule>,
    tests: Seq<ParsedModule>,
    nodes: Seq<ParsedModule>,
)
    ensures
        ConditionalLogicRule.spec_check(m, config, all, tests, nodes) == filter_map(
            m.test_blocks@,
            |x: TestBlock| if x.has_conditional_logic { Some(block_view("VITEST-MNT-003"@, "ConditionalLogicRule"@, Severity::Warning, Category::Maintenance, "Test contains conditional logic (if/switch) \u{2014} tests should be deterministic"@, x, "Replace conditional logic with separate test cases using test.each() or describe.each()"@)) } else { None },
        ),
{
    let f = |x: TestBlock| if x.has_conditional_logic { Some(block_view("VITEST-MNT-003"@, "ConditionalLogicRule"@, Severity::Warning, Category::Maintenance, "Test contains conditional logic (if/switch) \u{2014} tests should be deterministic"@, x, "Replace conditional logic with separate test cases using test.each() or describe.each()"@)) } else { None };
    assert forall|x: TestBlock| #[trigger] ConditionalLogicRule.spec_item(m, config, x) == match f(x) {
        Some(v) => seq![v],
        None => Seq::<ViolationView>::empty(),
    } by {}
    lemma_scan_filter_map(ConditionalLogicRule, m, config, m.test_blocks@, f);
}

/// Law: `EmptyTestRule` reports each skipped test, once, at the test's line, in order, and no
/// other test.
pub proof fn law_empty_test_reports(
    m: ParsedModule,
    config: Config,
    all: Seq<ParsedModule>,
    tests: Seq<ParsedModule>,
    nodes: Seq<ParsedModule>,
)
    ensures
        EmptyTestRule.spec_check(m, config, all, tests, nodes) == filter_map(
            m.test_blocks@,
            |x: TestBlock| if x.is_skipped { Some(block_view("VITEST-MNT-005"@, "EmptyTestRule"@, Severity::Info, Category::Maintenance, "Skipped test detected \u{2014} skipped tests provide no value"@, x, "Either fix the test or remove it. Avoid leaving skipped tests in the codebase"@)) } else { None },
        ),
{
    let f = |x: TestBlock| if x.is_skipped { Some(block_view("VITEST-MNT-005"@, "EmptyTestRule"@, Severity::Info, Category::Maintenance, "Skipped test detected \u{2014} skipped tests provide no value"@, x, "Either fix the test or remove it. Avoid leaving skipped tests in the codebase"@)) } else { None };
    assert forall|x: TestBlock| #[trigger] EmptyTestRule.spec_item(m, config, x) == match f(x) {
        Some(v) => seq![v],
        None => Seq::<ViolationView>::empty(),
    } by {}
    lemma_scan_filter_map(EmptyTestRule, m, config, m.test_blocks@, f);
}

/// Law: `NestedDescribeRule` reports each test nested in describe blocks more than two deep, once, at the test's line, in order, and no
/// other test.
pub proof fn law_nested_describe_reports(
    m: ParsedModule,
    config: Config,
    all: Seq<ParsedModule>,
    tests: Seq<ParsedModule>,
    nodes: Seq<ParsedModule>,
)
    ensures
        NestedDescribeRule.spec_check(m, config, all, tests, nodes) == filter_map(
            m.test_blocks@,
            |x: TestBlock| if x.is_nested { Some(block_view("VITEST-STR-001"@, "NestedDescribeRule"@, Severity::Warning, Category::Structure, "Deeply nested describe blocks \u{2014} consider flattening test structure"@, x, "Keep describe nesting to 2 levels. Use descriptive test names instead of deep nesting"@)) } else { None },
        ),
{
    let f = |x: TestBlock| if x.is_nested { Some(block_view("VITEST-STR-001"@, "NestedDescribeRule"@, Severity::Warning, Category::Structure, "Deeply nested describe blocks \u{2014} consider flattening test structure"@, x, "Keep describe nesting to 2 levels. Use descriptive test names instead of deep nesting"@)) } else { None };
    assert forall|x: TestBlock| #[trigger] NestedDescribeRule.spec_item(m, config, x) == match f(x) {
        Some(v) => seq![v],
        None => Seq::<ViolationView>::empty(),
    } by {}
    lemma_scan_filter_map(NestedDescribeRule, m, config, m.test_blocks@, f);
}

/// Law: `ReturnInTestRule` reports each test with a `return` statement, once, at the test's line, in order, and no
/// other test.
pub proof fn law_return_in_test_reports(
    m: ParsedModule,
    config: Config,
    all: Seq<ParsedModule>,
    tests: Seq<ParsedModule>,
    nodes: Seq<ParsedModule>,
)
    ensures
        ReturnInTestRule.spec_check(m, config, all, tests, nodes) == filter_map(
            m.test_blocks@,
            |x: TestBlock| if x.has_return_statement { Some(block_view("VITEST-STR-002"@, "ReturnInTestRule"@, Severity::Warning, Category::Structure, "Return statement in test \u{2014} tests should use assertions, not return values"@, x, "Replace return with explicit expect() assertions"@)) } else { None },
        ),
{
    let f = |x: TestBlock| if x.has_return_statement { Some(block_view("VITEST-STR-002"@, "ReturnInTestRule"@, Severity::Warning, Category::Structure, "Return statement in test \u{2014} tests should use assertions, not return values"@, x, "Replace return with explicit expect() assertions"@)) } else { None };
    assert forall|x: TestBlock| #[trigger] ReturnInTestRule.spec_item(m, config, x) == match f(x) {
        Some(v) => seq![v],
        None => Seq::<ViolationView>::empty(),
    } by {}
    lemma_scan_filter_map(ReturnInTestRule, m, config, m.test_blocks@, f);
}

/// Law: `MissingAwaitAssertionRule` reports each test with an unawaited async assertion, once, at the test's line, in order, and no
/// other test.
pub proof fn law_missing_await_assertion_reports(
    m: ParsedModule,
    config: Config,
    all: Seq<ParsedModule>,
    tests: Seq<ParsedModule>,
    nodes: Seq<ParsedModule>,
)
    ensures
        MissingAwaitAssertionRule.spec_check(m, config, all, tests, nodes) == filter_map(
            m.test_blocks@,
            |x: TestBlock| if x.unawaited_async_assertions > 0 { Some(block_view("VITEST-MNT-006"@, "MissingAwaitAssertionRule"@, Severity::Warning, Category::Maintenance, "Test has "@ + decimal(x.unawaited_async_assertions as nat) + " unawaited async assertions \u{2014} these will fail silently"@, x, "Add await before expect() for .resolves or .rejects assertions"@)) } else { None },
        ),
{
    let f = |x: TestBlock| if x.unawaited_async_assertions > 0 { Some(block_view("VITEST-MNT-006"@, "MissingAwaitAssertionRule"@, Severity::Warning, Category::Maintenance, "Test has "@ + decimal(x.unawaited_async_assertions as nat) + " unawaited async assertions \u{2014} these will fail silently"@, x, "Add await before expect() for .resolves or .rejects assertions"@)) } else { None };
    assert forall|x: TestBlock| #[trigger] MissingAwaitAssertionRule.spec_item(m, config, x) == match f(x) {
        Some(v) => seq![v],
        None => Seq::<ViolationView>::empty(),
    } by {}
    lemma_scan_filter_map(MissingAwaitAssertionRule, m, config, m.test_blocks@, f);
}

/// Law: `WeakAssertionRule` reports each test whose assertions, at least one, are all weak, once, at the test's line, in order, and no
/// other test.
pub proof fn law_weak_assertion_reports(
    m: ParsedModule,
    config: Config,
    all: Seq<ParsedModule>,
    tests: Seq<ParsedModule>,
    nodes: Seq<ParsedModule>,
)
    ensures
        WeakAssertionRule.spec_check(m, config, all, tests, nodes) == filter_map(
            m.test_blocks@,
            |x: TestBlock| if x.assertion_count > 0 && x.weak_assertion_count == x.assertion_count { Some(block_view("VITEST-MNT-009"@, "WeakAssertionRule"@, Severity::Warning, Category::Maintenance, "All "@ + decimal(x.assertion_count as nat) + " assertion(s) in this test are weak \u{2014} they verify existence or truthiness, not actual behavior"@, x, "Use specific assertions like toBe(), toEqual(), or toHaveLength() instead of toBeDefined()/toBeTruthy()/not.toThrow()"@)) } else { None },
        ),
{
    let f = |x: TestBlock| if x.assertion_count > 0 && x.weak_assertion_count == x.assertion_count { Some(block_view("VITEST-MNT-009"@, "WeakAssertionRule"@, Severity::Warning, Category::Maintenance, "All "@ + decimal(x.assertion_count as nat) + " assertion(s) in this test are weak \u{2014} they verify existence or truthiness, not actual behavior"@, x, "Use specific assertions like toBe(), toEqual(), or toHaveLength() instead of toBeDefined()/toBeTruthy()/not.toThrow()"@)) } else { None };
    assert forall|x: TestBlock| #[trigger] WeakAssertionRule.spec_item(m, config, x) == match f(x) {
        Some(v) => seq![v],
        None => Seq::<ViolationView>::empty(),
    } by {}
    lemma_scan_filter_map(WeakAssertionRule, m, config, m.test_blocks@, f);
}


/// Law: `FocusedTestRule` reports each test marked `.only`, in order, then
/// each describe block marked `.only`, in order; once each, at its line,
/// and nothing else.
pub proof fn law_focused_test_reports(
    m: ParsedModule,
    config: Config,
    all: Seq<ParsedModule>,
    tests: Seq<ParsedModule>,
    nodes: Seq<ParsedModule>,
)
    ensures
        FocusedTestRule.spec_check(m, config, all, tests, nodes) == filter_map(
            m.test_blocks@,
            |x: TestBlock| if x.is_only { Some(block_view("VITEST-MNT-007"@, "FocusedTestRule"@, Severity::Error, Category::Maintenance, "Focused test '"@ + x.name@ + "' uses .only \u{2014} all other tests in this file will be skipped"@, x, "Remove .only before committing. Focused tests mask failures in CI"@)) } else { None },
        ) + filter_map(
            m.describe_blocks@,
            |x: DescribeBlock| if x.is_only { Some(file_view("VITEST-MNT-007"@, "FocusedTestRule"@, Severity::Error, Category::Maintenance, "Focused describe '"@ + x.name@ + "' uses .only \u{2014} all other tests in this file will be skipped"@, x.file_path@, x.line, "Remove .only before committing. Focused tests mask failures in CI"@)) } else { None },
        ),
{
    let f = |x: TestBlock| if x.is_only { Some(block_view("VITEST-MNT-007"@, "FocusedTestRule"@, Severity::Error, Category::Maintenance, "Focused test '"@ + x.name@ + "' uses .only \u{2014} all other tests in this file will be skipped"@, x, "Remove .only before committing. Focused tests mask failures in CI"@)) } else { None };
    let g = |x: DescribeBlock| if x.is_only { Some(file_view("VITEST-MNT-007"@, "FocusedTestRule"@, Severity::Error, Category::Maintenance, "Focused describe '"@ + x.name@ + "' uses .only \u{2014} all other tests in this file will be skipped"@, x.file_path@, x.line, "Remove .only before committing. Focused tests mask failures in CI"@)) } else { None };
    assert forall|x: TestBlock| #[trigger] ItemRule::<TestBlock>::spec_item(&FocusedTestRule, m, config, x) == match f(x) {
        Some(v) => seq![v],
        None => Seq::<ViolationView>::empty(),
    } by {}
    assert forall|x: DescribeBlock| #[trigger] ItemRule::<DescribeBlock>::spec_item(&FocusedTestRule, m, config, x) == match g(x) {
        Some(v) => seq![v],
        None => Seq::<ViolationView>::empty(),
    } by {}
    lemma_scan_filter_map::<TestBlock, FocusedTestRule>(FocusedTestRule, m, config, m.test_blocks@, f);
    lemma_scan_filter_map::<DescribeBlock, FocusedTestRule>(FocusedTestRule, m, config, m.describe_blocks@, g);
}


/// A non-empty sequence of `vi.mock` calls has an earliest one.
proof fn lemma_earliest_exists(s: Seq<ViMockCall>)
    requires
        s.len() > 0,
    ensures
        exists|k: int| earliest_mock(s, k),
    decreases s.len(),
{
    if s.len() == 1 {
        assert(earliest_mock(s, 0));
    } else {
        let t = s.drop_last();
        lemma_earliest_exists(t);
        let k = choose|k: int| earliest_mock(t, k);
        if s.last().line < t[k].line {
            let n = s.len() - 1;
            assert forall|j: int| 0 <= j < n implies #[trigger] s[j].line > s[n].line by {
                assert(s[j] == t[j]);
            }
            assert(earliest_mock(s, n));
        } else {
            assert forall|j: int| 0 <= j < s.len() implies s[k].line <= #[trigger] s[j].line by {
                if j < s.len() - 1 {
                    assert(s[j] == t[j]);
                }
            }
            assert forall|j: int| 0 <= j < k implies #[trigger] s[j].line > s[k].line by {
                assert(s[j] == t[j]);
            }
            assert(earliest_mock(s, k));
        }
    }
}

/// Law: `MissingMockCleanupRule` reports a file once exactly when it calls
/// `vi.mock()` and no `afterEach` or `beforeEach` hook calls
/// `vi.restoreAllMocks`, `vi.clearAllMocks` or `vi.resetAllMocks`; the
/// violation stands at the line of the earliest `vi.mock()`. Otherwise it
/// reports nothing.
pub proof fn law_missing_mock_cleanup_reports(
    m: ParsedModule,
    config: Config,
    all: Seq<ParsedModule>,
    tests: Seq<ParsedModule>,
    nodes: Seq<ParsedModule>,
)
    ensures
        MissingMockCleanupRule.spec_check(m, config, all, tests, nodes).len() == if m.vi_mocks@.len() > 0
            && !(exists|i: int, j: int|
            0 <= i < m.hook_calls@.len() && 0 <= j < m.hook_calls@[i].vi_calls@.len() && (
            m.hook_calls@[i].kind == HookKind::AfterEach || m.hook_calls@[i].kind == HookKind::BeforeEach)
                && ({
                let c = #[trigger] m.hook_calls@[i].vi_calls@[j]@;
                c == "vi.restoreAllMocks"@ || c == "vi.clearAllMocks"@ || c == "vi.resetAllMocks"@
            })) {
            1int
        } else {
            0int
        },
        MissingMockCleanupRule.spec_check(m, config, all, tests, nodes).len() == 1 ==> {
            let v = MissingMockCleanupRule.spec_check(m, config, all, tests, nodes)[0];
            &&& v.rule_id == "VITEST-MNT-008"@
            &&& v.file_path == m.file_path@
            &&& forall|j: int| 0 <= j < m.vi_mocks@.len() ==> v.line <= #[trigger] m.vi_mocks@[j].line
            &&& exists|j: int| 0 <= j < m.vi_mocks@.len() && #[trigger] m.vi_mocks@[j].line == v.line
        },
{
    let hooks = m.hook_calls@;
    let explicit = exists|i: int, j: int|
        0 <= i < hooks.len() && 0 <= j < hooks[i].vi_calls@.len() && (hooks[i].kind == HookKind::AfterEach
            || hooks[i].kind == HookKind::BeforeEach) && ({
            let c = #[trigger] hooks[i].vi_calls@[j]@;
            c == "vi.restoreAllMocks"@ || c == "vi.clearAllMocks"@ || c == "vi.resetAllMocks"@
        });
    if has_mock_cleanup(m) {
        let i = choose|i: int| 0 <= i < hooks.len() && hook_cleans(#[trigger] hooks[i]);
        let j = choose|j: int| 0 <= j < hooks[i].vi_calls@.len() && is_cleanup_call(#[trigger] hooks[i].vi_calls@[j]@);
        assert(is_cleanup_call(hooks[i].vi_calls@[j]@));
        assert(explicit);
    }
    if explicit {
        let (i, j) = choose|i: int, j: int|
            0 <= i < hooks.len() && 0 <= j < hooks[i].vi_calls@.len() && (hooks[i].kind == HookKind::AfterEach
                || hooks[i].kind == HookKind::BeforeEach) && ({
                let c = #[trigger] hooks[i].vi_calls@[j]@;
                c == "vi.restoreAllMocks"@ || c == "vi.clearAllMocks"@ || c == "vi.resetAllMocks"@
            });
        assert(is_cleanup_call(hooks[i].vi_calls@[j]@));
        assert(hook_cleans(hooks[i]));
        assert(has_mock_cleanup(m));
    }
    if m.vi_mocks@.len() > 0 && !has_mock_cleanup(m) {
        lemma_earliest_exists(m.vi_mocks@);
        let k = choose|k: int| earliest_mock(m.vi_mocks@, k);
        assert(m.vi_mocks@[k].line == MissingMockCleanupRule.spec_check(m, config, all, tests, nodes)[0].line);
    }
}

} // verus!
