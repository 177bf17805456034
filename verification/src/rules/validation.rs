//! Rules for calls that Vitest accepts but that do not check what they seem to.

use vstd::prelude::*;
use crate::seqs::filter_map;
use crate::config::Config;
use crate::models::{Category, DescribeBlock, ModuleGraph, ParsedModule, Severity, TestBlock, TestRuntime, Violation, ViolationView, violations_view};
use crate::rules::{concat_map, lemma_scan_concat_map, lemma_scan_filter_map, ItemRule, LintContext, Rule, all_stamped, lemma_scan_stamped, lemma_stamped_concat, block_view, block_violation, cat3, file_view, file_violation, lemma_concat_empty, lemma_violations_empty, not_playwright, push_violation, scan, scan_spec};
use crate::text::{chars_of, owned};

verus! {

/// Flags tests that call `expect()` without an assertion method after it.
#[derive(Debug, Clone, Copy)]
pub struct ValidExpectRule;

impl ItemRule<TestBlock> for ValidExpectRule {
    open spec fn spec_item(&self, m: ParsedModule, config: Config, x: TestBlock) -> Seq<ViolationView> {
        if x.has_expect_call_without_assertion {
            seq![block_view("VITEST-VAL-001"@, "ValidExpectRule"@, Severity::Error, Category::Validation, "expect() called without an assertion method \u{2014} the assertion will always pass"@, x, "Add an assertion method like .toBe(), .toEqual(), or .toBeTruthy() after expect()"@)]
        } else {
            Seq::empty()
        }
    }

    fn check_item(&self, m: &ParsedModule, config: &Config, x: &TestBlock, out: &mut Vec<Violation>) {
        let ghost start = violations_view(out@);
        if x.has_expect_call_without_assertion {
            let v = block_violation("VITEST-VAL-001", "ValidExpectRule", Severity::Error, Category::Validation, owned("expect() called without an assertion method \u{2014} the assertion will always pass"), x, "Add an assertion method like .toBe(), .toEqual(), or .toBeTruthy() after expect()");
            push_violation(out, v);
        } else {
            proof { lemma_concat_empty(violations_view(out@)); }
        }
        assert(violations_view(out@) =~= start + self.spec_item(*m, *config, *x));
    }
}

impl Rule for ValidExpectRule {
    open spec fn spec_id(&self) -> Seq<char> {
        "VITEST-VAL-001"@
    }

    open spec fn spec_name(&self) -> Seq<char> {
        "ValidExpectRule"@
    }

    open spec fn spec_severity(&self) -> Severity {
        Severity::Error
    }

    open spec fn spec_category(&self) -> Category {
        Category::Validation
    }

    open spec fn spec_applies(&self, runtime: TestRuntime) -> bool {
        not_playwright(runtime)
    }

    open spec fn spec_check(
        &self,
        m: ParsedModule,
        config: Config,
        all: Seq<ParsedModule>,
        tests: Seq<ParsedModule>,
        nodes: Seq<ParsedModule>,
    ) -> Seq<ViolationView> {
        scan_spec(*self, m, config, m.test_blocks@)
    }

    fn id(&self) -> &'static str {
        "VITEST-VAL-001"
    }

    fn name(&self) -> &'static str {
        "ValidExpectRule"
    }

    fn severity(&self) -> Severity {
        Severity::Error
    }

    fn category(&self) -> Category {
        Category::Validation
    }

    fn applies_to_runtime(&self, runtime: TestRuntime) -> bool {
        runtime != TestRuntime::Playwright
    }

    fn check(&self, module: &ParsedModule, ctx: &LintContext, graph: &ModuleGraph) -> Vec<Violation> {
        let mut out: Vec<Violation> = Vec::new();
        proof { lemma_violations_empty(); }
        scan(self, module, ctx.config, module.test_blocks.as_slice(), &mut out);
        assert(violations_view(out@) =~= self.spec_check(*module, *ctx.config, ctx.all_modules@, graph.test_seq(), graph.node_seq()));
        out
    }
}

/// Every violation of `ValidExpectRule` carries its id, name, severity and
/// category.
pub proof fn lemma_valid_expect_rule_stamped(
    m: ParsedModule,
    config: Config,
    all: Seq<ParsedModule>,
    tests: Seq<ParsedModule>,
    nodes: Seq<ParsedModule>,
)
    ensures
        all_stamped(
            ValidExpectRule.spec_check(m, config, all, tests, nodes),
            "VITEST-VAL-001"@,
            "ValidExpectRule"@,
            Severity::Error,
            Category::Validation,
        ),
{
    lemma_scan_stamped(ValidExpectRule, m, config, m.test_blocks@, "VITEST-VAL-001"@, "ValidExpectRule"@, Severity::Error, Category::Validation);
}

/// Flags tests that return `expect(...)` instead of awaiting it.
#[derive(Debug, Clone, Copy)]
pub struct ValidExpectInPromiseRule;

impl ItemRule<TestBlock> for ValidExpectInPromiseRule {
    open spec fn spec_item(&self, m: ParsedModule, config: Config, x: TestBlock) -> Seq<ViolationView> {
        if x.has_return_of_expect {
            seq![block_view("VITEST-VAL-002"@, "ValidExpectInPromiseRule"@, Severity::Error, Category::Validation, "expect() returned instead of awaited \u{2014} the assertion may fail silently"@, x, "Use await before expect() for async assertions, or remove the return statement"@)]
        } else {
            Seq::empty()
        }
    }

    fn check_item(&self, m: &ParsedModule, config: &Config, x: &TestBlock, out: &mut Vec<Violation>) {
        let ghost start = violations_view(out@);
        if x.has_return_of_expect {
            let v = block_violation("VITEST-VAL-002", "ValidExpectInPromiseRule", Severity::Error, Category::Validation, owned("expect() returned instead of awaited \u{2014} the assertion may fail silently"), x, "Use await before expect() for async assertions, or remove the return statement");
            push_violation(out, v);
        } else {
            proof { lemma_concat_empty(violations_view(out@)); }
        }
        assert(violations_view(out@) =~= start + self.spec_item(*m, *config, *x));
    }
}

impl Rule for ValidExpectInPromiseRule {
    open spec fn spec_id(&self) -> Seq<char> {
        "VITEST-VAL-002"@
    }

    open spec fn spec_name(&self) -> Seq<char> {
        "ValidExpectInPromiseRule"@
    }

    open spec fn spec_severity(&self) -> Severity {
        Severity::Error
    }

    open spec fn spec_category(&self) -> Category {
        Category::Validation
    }

    open spec fn spec_applies(&self, runtime: TestRuntime) -> bool {
        not_playwright(runtime)
    }

    open spec fn spec_check(
        &self,
        m: ParsedModule,
        config: Config,
        all: Seq<ParsedModule>,
        tests: Seq<ParsedModule>,
        nodes: Seq<ParsedModule>,
    ) -> Seq<ViolationView> {
        scan_spec(*self, m, config, m.test_blocks@)
    }

    fn id(&self) -> &'static str {
        "VITEST-VAL-002"
    }

    fn name(&self) -> &'static str {
        "ValidExpectInPromiseRule"
    }

    fn severity(&self) -> Severity {
        Severity::Error
    }

    fn category(&self) -> Category {
        Category::Validation
    }

    fn applies_to_runtime(&self, runtime: TestRuntime) -> bool {
        runtime != TestRuntime::Playwright
    }

    fn check(&self, module: &ParsedModule, ctx: &LintContext, graph: &ModuleGraph) -> Vec<Violation> {
        let mut out: Vec<Violation> = Vec::new();
        proof { lemma_violations_empty(); }
        scan(self, module, ctx.config, module.test_blocks.as_slice(), &mut out);
        assert(violations_view(out@) =~= self.spec_check(*module, *ctx.config, ctx.all_modules@, graph.test_seq(), graph.node_seq()));
        out
    }
}

/// Every violation of `ValidExpectInPromiseRule` carries its id, name, severity and
/// category.
pub proof fn lemma_valid_expect_in_promise_rule_stamped(
    m: ParsedModule,
    config: Config,
    all: Seq<ParsedModule>,
    tests: Seq<ParsedModule>,
    nodes: Seq<ParsedModule>,
)
    ensures
        all_stamped(
            ValidExpectInPromiseRule.spec_check(m, config, all, tests, nodes),
            "VITEST-VAL-002"@,
            "ValidExpectInPromiseRule"@,
            Severity::Error,
            Category::Validation,
        ),
{
    lemma_scan_stamped(ValidExpectInPromiseRule, m, config, m.test_blocks@, "VITEST-VAL-002"@, "ValidExpectInPromiseRule"@, Severity::Error, Category::Validation);
}

/// Flags `describe` blocks with an `async` callback, which Vitest does not wait for.
#[derive(Debug, Clone, Copy)]
pub struct ValidDescribeCallbackRule;

impl ItemRule<DescribeBlock> for ValidDescribeCallbackRule {
    open spec fn spec_item(&self, m: ParsedModule, config: Config, x: DescribeBlock) -> Seq<ViolationView> {
        if x.is_async {
            seq![file_view("VITEST-VAL-003"@, "ValidDescribeCallbackRule"@, Severity::Error, Category::Validation, "describe('"@ + x.name@ + "') has an async callback \u{2014} describe callbacks must be synchronous"@, x.file_path@, x.line, "Remove the async keyword from the describe callback. Use async in individual test callbacks instead"@)]
        } else {
            Seq::empty()
        }
    }

    fn check_item(&self, m: &ParsedModule, config: &Config, x: &DescribeBlock, out: &mut Vec<Violation>) {
        let ghost start = violations_view(out@);
        if x.is_async {
            let v = file_violation("VITEST-VAL-003", "ValidDescribeCallbackRule", Severity::Error, Category::Validation, cat3("describe('", x.name.as_str(), "') has an async callback \u{2014} describe callbacks must be synchronous"), &x.file_path, x.line, "Remove the async keyword from the describe callback. Use async in individual test callbacks instead");
            push_violation(out, v);
        } else {
            proof { lemma_concat_empty(violations_view(out@)); }
        }
        assert(violations_view(out@) =~= start + self.spec_item(*m, *config, *x));
    }
}

impl Rule for ValidDescribeCallbackRule {
    open spec fn spec_id(&self) -> Seq<char> {
        "VITEST-VAL-003"@
    }

    open spec fn spec_name(&self) -> Seq<char> {
        "ValidDescribeCallbackRule"@
    }

    open spec fn spec_severity(&self) -> Severity {
        Severity::Error
    }

    open spec fn spec_category(&self) -> Category {
        Category::Validation
    }

    open spec fn spec_applies(&self, runtime: TestRuntime) -> bool {
        not_playwright(runtime)
    }

    open spec fn spec_check(
        &self,
        m: ParsedModule,
        config: Config,
        all: Seq<ParsedModule>,
        tests: Seq<ParsedModule>,
        nodes: Seq<ParsedModule>,
    ) -> Seq<ViolationView> {
        scan_spec(*self, m, config, m.describe_blocks@)
    }

    fn id(&self) -> &'static str {
        "VITEST-VAL-003"
    }

    fn name(&self) -> &'static str {
        "ValidDescribeCallbackRule"
    }

    fn severity(&self) -> Severity {
        Severity::Error
    }

    fn category(&self) -> Category {
        Category::Validation
    }

    fn applies_to_runtime(&self, runtime: TestRuntime) -> bool {
        runtime != TestRuntime::Playwright
    }

    fn check(&self, module: &ParsedModule, ctx: &LintContext, graph: &ModuleGraph) -> Vec<Violation> {
        let mut out: Vec<Violation> = Vec::new();
        proof { lemma_violations_empty(); }
        scan(self, module, ctx.config, module.describe_blocks.as_slice(), &mut out);
        assert(violations_view(out@) =~= self.spec_check(*module, *ctx.config, ctx.all_modules@, graph.test_seq(), graph.node_seq()));
        out
    }
}

/// Every violation of `ValidDescribeCallbackRule` carries its id, name, severity and
/// category.
pub proof fn lemma_valid_describe_callback_rule_stamped(
    m: ParsedModule,
    config: Config,
    all: Seq<ParsedModule>,
    tests: Seq<ParsedModule>,
    nodes: Seq<ParsedModule>,
)
    ensures
        all_stamped(
            ValidDescribeCallbackRule.spec_check(m, config, all, tests, nodes),
            "VITEST-VAL-003"@,
            "ValidDescribeCallbackRule"@,
            Severity::Error,
            Category::Validation,
        ),
{
    lemma_scan_stamped(ValidDescribeCallbackRule, m, config, m.describe_blocks@, "VITEST-VAL-003"@, "ValidDescribeCallbackRule"@, Severity::Error, Category::Validation);
}

/// Flags test and describe blocks with an empty or a template-literal title:
/// a test once (an empty title first), a describe block for each.
#[derive(Debug, Clone, Copy)]
pub struct ValidTitleRule;

impl ItemRule<TestBlock> for ValidTitleRule {
    open spec fn spec_item(&self, m: ParsedModule, config: Config, x: TestBlock) -> Seq<ViolationView> {
        if x.name@.len() == 0 {
            seq![block_view("VITEST-VAL-004"@, "ValidTitleRule"@, Severity::Warning, Category::Validation, "test() has an empty title \u{2014} provide a meaningful name"@, x, "Add a descriptive name to the test"@)]
        } else if x.title_is_template_literal {
            seq![block_view("VITEST-VAL-004"@, "ValidTitleRule"@, Severity::Warning, Category::Validation, "Test '"@ + x.name@ + "' uses a template literal title \u{2014} prefer static string titles for stable test output"@, x, "Use a plain string literal for the test title instead of a template literal"@)]
        } else {
            Seq::empty()
        }
    }

    fn check_item(&self, m: &ParsedModule, config: &Config, x: &TestBlock, out: &mut Vec<Violation>) {
        let ghost start = violations_view(out@);
        if chars_of(x.name.as_str()).len() == 0 {
            let v = block_violation("VITEST-VAL-004", "ValidTitleRule", Severity::Warning, Category::Validation, owned("test() has an empty title \u{2014} provide a meaningful name"), x, "Add a descriptive name to the test");
            push_violation(out, v);
        } else if x.title_is_template_literal {
            let v = block_violation("VITEST-VAL-004", "ValidTitleRule", Severity::Warning, Category::Validation, cat3("Test '", x.name.as_str(), "' uses a template literal title \u{2014} prefer static string titles for stable test output"), x, "Use a plain string literal for the test title instead of a template literal");
            push_violation(out, v);
        } else {
            proof { lemma_concat_empty(violations_view(out@)); }
        }
        assert(violations_view(out@) =~= start + self.spec_item(*m, *config, *x));
    }
}

impl ItemRule<DescribeBlock> for ValidTitleRule {
    open spec fn spec_item(&self, m: ParsedModule, config: Config, x: DescribeBlock) -> Seq<ViolationView> {
        (if x.title_is_empty { seq![file_view("VITEST-VAL-004"@, "ValidTitleRule"@, Severity::Warning, Category::Validation, "describe() has an empty title \u{2014} provide a meaningful name"@, x.file_path@, x.line, "Add a descriptive name to the describe() block"@)] } else { Seq::empty() })
            + (if x.title_is_template_literal { seq![file_view("VITEST-VAL-004"@, "ValidTitleRule"@, Severity::Warning, Category::Validation, "describe('"@ + x.name@ + "') uses a template literal title \u{2014} prefer static string titles"@, x.file_path@, x.line, "Use a plain string literal for the describe title instead of a template literal"@)] } else { Seq::empty() })
    }

    fn check_item(&self, m: &ParsedModule, config: &Config, x: &DescribeBlock, out: &mut Vec<Violation>) {
        let ghost start = violations_view(out@);
        if x.title_is_empty {
            let v = file_violation("VITEST-VAL-004", "ValidTitleRule", Severity::Warning, Category::Validation, owned("describe() has an empty title \u{2014} provide a meaningful name"), &x.file_path, x.line, "Add a descriptive name to the describe() block");
            push_violation(out, v);
        } else {
            proof { lemma_concat_empty(violations_view(out@)); }
        }
        if x.title_is_template_literal {
            let v = file_violation("VITEST-VAL-004", "ValidTitleRule", Severity::Warning, Category::Validation, cat3("describe('", x.name.as_str(), "') uses a template literal title \u{2014} prefer static string titles"), &x.file_path, x.line, "Use a plain string literal for the describe title instead of a template literal");
            push_violation(out, v);
        } else {
            proof { lemma_concat_empty(violations_view(out@)); }
        }
        assert(violations_view(out@) =~= start + self.spec_item(*m, *config, *x));
    }
}

impl Rule for ValidTitleRule {
    open spec fn spec_id(&self) -> Seq<char> {
        "VITEST-VAL-004"@
    }

    open spec fn spec_name(&self) -> Seq<char> {
        "ValidTitleRule"@
    }

    open spec fn spec_severity(&self) -> Severity {
        Severity::Warning
    }

    open spec fn spec_category(&self) -> Category {
        Category::Validation
    }

    open spec fn spec_applies(&self, runtime: TestRuntime) -> bool {
        not_playwright(runtime)
    }

    open spec fn spec_check(
        &self,
        m: ParsedModule,
        config: Config,
        all: Seq<ParsedModule>,
        tests: Seq<ParsedModule>,
        nodes: Seq<ParsedModule>,
    ) -> Seq<ViolationView> {
        scan_spec(*self, m, config, m.test_blocks@) + scan_spec(*self, m, config, m.describe_blocks@)
    }

    fn id(&self) -> &'static str {
        "VITEST-VAL-004"
    }

    fn name(&self) -> &'static str {
        "ValidTitleRule"
    }

    fn severity(&self) -> Severity {
        Severity::Warning
    }

    fn category(&self) -> Category {
        Category::Validation
    }

    fn applies_to_runtime(&self, runtime: TestRuntime) -> bool {
        runtime != TestRuntime::Playwright
    }

    fn check(&self, module: &ParsedModule, ctx: &LintContext, graph: &ModuleGraph) -> Vec<Violation> {
        let mut out: Vec<Violation> = Vec::new();
        proof { lemma_violations_empty(); }
        scan(self, module, ctx.config, module.test_blocks.as_slice(), &mut out);
        scan(self, module, ctx.config, module.describe_blocks.as_slice(), &mut out);
        assert(violations_view(out@) =~= self.spec_check(*module, *ctx.config, ctx.all_modules@, graph.test_seq(), graph.node_seq()));
        out
    }
}

/// Every violation of `ValidTitleRule` carries its id, name, severity and
/// category.
pub proof fn lemma_valid_title_rule_stamped(
    m: ParsedModule,
    config: Config,
    all: Seq<ParsedModule>,
    tests: Seq<ParsedModule>,
    nodes: Seq<ParsedModule>,
)
    ensures
        all_stamped(
            ValidTitleRule.spec_check(m, config, all, tests, nodes),
            "VITEST-VAL-004"@,
            "ValidTitleRule"@,
            Severity::Warning,
            Category::Validation,
        ),
{
    lemma_scan_stamped(ValidTitleRule, m, config, m.test_blocks@, "VITEST-VAL-004"@, "ValidTitleRule"@, Severity::Warning, Category::Validation);
    lemma_scan_stamped(ValidTitleRule, m, config, m.describe_blocks@, "VITEST-VAL-004"@, "ValidTitleRule"@, Severity::Warning, Category::Validation);
    lemma_stamped_concat(scan_spec(ValidTitleRule, m, config, m.test_blocks@), scan_spec(ValidTitleRule, m, config, m.describe_blocks@), "VITEST-VAL-004"@, "ValidTitleRule"@, Severity::Warning, Category::Validation);
}

/// Flags `expect(async () => ...)`, which wraps an async function needlessly.
#[derive(Debug, Clone, Copy)]
pub struct NoUnneededAsyncExpectFunctionRule;

impl ItemRule<TestBlock> for NoUnneededAsyncExpectFunctionRule {
    open spec fn spec_item(&self, m: ParsedModule, config: Config, x: TestBlock) -> Seq<ViolationView> {
        if x.has_async_expect_wrapper {
            seq![block_view("VITEST-VAL-005"@, "NoUnneededAsyncExpectFunctionRule"@, Severity::Warning, Category::Validation, "expect() wraps an async function unnecessarily \u{2014} use expect(...).resolves or expect(...).rejects instead"@, x, "Use expect(await asyncFn()) or expect(asyncFn()).resolves instead of expect(async () => ...)"@)]
        } else {
            Seq::empty()
        }
    }

    fn check_item(&self, m: &ParsedModule, config: &Config, x: &TestBlock, out: &mut Vec<Violation>) {
        let ghost start = violations_view(out@);
        if x.has_async_expect_wrapper {
            let v = block_violation("VITEST-VAL-005", "NoUnneededAsyncExpectFunctionRule", Severity::Warning, Category::Validation, owned("expect() wraps an async function unnecessarily \u{2014} use expect(...).resolves or expect(...).rejects instead"), x, "Use expect(await asyncFn()) or expect(asyncFn()).resolves instead of expect(async () => ...)");
            push_violation(out, v);
        } else {
            proof { lemma_concat_empty(violations_view(out@)); }
        }
        assert(violations_view(out@) =~= start + self.spec_item(*m, *config, *x));
    }
}

impl Rule for NoUnneededAsyncExpectFunctionRule {
    open spec fn spec_id(&self) -> Seq<char> {
        "VITEST-VAL-005"@
    }

    open spec fn spec_name(&self) -> Seq<char> {
        "NoUnneededAsyncExpectFunctionRule"@
    }

    open spec fn spec_severity(&self) -> Severity {
        Severity::Warning
    }

    open spec fn spec_category(&self) -> Category {
        Category::Validation
    }

    open spec fn spec_applies(&self, runtime: TestRuntime) -> bool {
        not_playwright(runtime)
    }

    open spec fn spec_check(
        &self,
        m: ParsedModule,
        config: Config,
        all: Seq<ParsedModule>,
        tests: Seq<ParsedModule>,
        nodes: Seq<ParsedModule>,
    ) -> Seq<ViolationView> {
        scan_spec(*self, m, config, m.test_blocks@)
    }

    fn id(&self) -> &'static str {
        "VITEST-VAL-005"
    }

    fn name(&self) -> &'static str {
        "NoUnneededAsyncExpectFunctionRule"
    }

    fn severity(&self) -> Severity {
        Severity::Warning
    }

    fn category(&self) -> Category {
        Category::Validation
    }

    fn applies_to_runtime(&self, runtime: TestRuntime) -> bool {
        runtime != TestRuntime::Playwright
    }

    fn check(&self, module: &ParsedModule, ctx: &LintContext, graph: &ModuleGraph) -> Vec<Violation> {
        let mut out: Vec<Violation> = Vec::new();
        proof { lemma_violations_empty(); }
        scan(self, module, ctx.config, module.test_blocks.as_slice(), &mut out);
        assert(violations_view(out@) =~= self.spec_check(*module, *ctx.config, ctx.all_modules@, graph.test_seq(), graph.node_seq()));
        out
    }
}

/// Every violation of `NoUnneededAsyncExpectFunctionRule` carries its id, name, severity and
/// category.
pub proof fn lemma_no_unneeded_async_expect_function_rule_stamped(
    m: ParsedModule,
    config: Config,
    all: Seq<ParsedModule>,
    tests: Seq<ParsedModule>,
    nodes: Seq<ParsedModule>,
)
    ensures
        all_stamped(
            NoUnneededAsyncExpectFunctionRule.spec_check(m, config, all, tests, nodes),
            "VITEST-VAL-005"@,
            "NoUnneededAsyncExpectFunctionRule"@,
            Severity::Warning,
            Category::Validation,
        ),
{
    lemma_scan_stamped(NoUnneededAsyncExpectFunctionRule, m, config, m.test_blocks@, "VITEST-VAL-005"@, "NoUnneededAsyncExpectFunctionRule"@, Severity::Warning, Category::Validation);
}


/// Law: `ValidExpectRule` reports each test that calls `expect()` without an assertion method, once, at its line, in order, and
/// nothing else.
pub proof fn law_valid_expect_reports(
    m: ParsedModule,
    config: Config,
    all: Seq<ParsedModule>,
    tests: Seq<ParsedModule>,
    nodes: Seq<ParsedModule>,
)
    ensures
        ValidExpectRule.spec_check(m, config, all, tests, nodes) == filter_map(
            m.test_blocks@,
            |x: TestBlock| if x.has_expect_call_without_assertion { Some(block_view("VITEST-VAL-001"@, "ValidExpectRule"@, Severity::Error, Category::Validation, "expect() called without an assertion method \u{2014} the assertion will always pass"@, x, "Add an assertion method like .toBe(), .toEqual(), or .toBeTruthy() after expect()"@)) } else { None },
        ),
{
    let f = |x: TestBlock| if x.has_expect_call_without_assertion { Some(block_view("VITEST-VAL-001"@, "ValidExpectRule"@, Severity::Error, Category::Validation, "expect() called without an assertion method \u{2014} the assertion will always pass"@, x, "Add an assertion method like .toBe(), .toEqual(), or .toBeTruthy() after expect()"@)) } else { None };
    assert forall|x: TestBlock| #[trigger] ValidExpectRule.spec_item(m, config, x) == match f(x) {
        Some(v) => seq![v],
        None => Seq::<ViolationView>::empty(),
    } by {}
    lemma_scan_filter_map(ValidExpectRule, m, config, m.test_blocks@, f);
}


/// Law: `ValidExpectInPromiseRule` reports each test that returns an `expect()` instead of awaiting it, once, at its line, in order, and
/// nothing else.
pub proof fn law_valid_expect_in_promise_reports(
    m: ParsedModule,
    config: Config,
    all: Seq<ParsedModule>,
    tests: Seq<ParsedModule>,
    nodes: Seq<ParsedModule>,
)
    ensures
        ValidExpectInPromiseRule.spec_check(m, config, all, tests, nodes) == filter_map(
            m.test_blocks@,
            |x: TestBlock| if x.has_return_of_expect { Some(block_view("VITEST-VAL-002"@, "ValidExpectInPromiseRule"@, Severity::Error, Category::Validation, "expect() returned instead of awaited \u{2014} the assertion may fail silently"@, x, "Use await before expect() for async assertions, or remove the return statement"@)) } else { None },
        ),
{
    let f = |x: TestBlock| if x.has_return_of_expect { Some(block_view("VITEST-VAL-002"@, "ValidExpectInPromiseRule"@, Severity::Error, Category::Validation, "expect() returned instead of awaited \u{2014} the assertion may fail silently"@, x, "Use await before expect() for async assertions, or remove the return statement"@)) } else { None };
    assert forall|x: TestBlock| #[trigger] ValidExpectInPromiseRule.spec_item(m, config, x) == match f(x) {
        Some(v) => seq![v],
        None => Seq::<ViolationView>::empty(),
    } by {}
    lemma_scan_filter_map(ValidExpectInPromiseRule, m, config, m.test_blocks@, f);
}


/// Law: `NoUnneededAsyncExpectFunctionRule` reports each test whose `expect()` wraps an async function, once, at its line, in order, and
/// nothing else.
pub proof fn law_no_unneeded_async_expect_reports(
    m: ParsedModule,
    config: Config,
    all: Seq<ParsedModule>,
    tests: Seq<ParsedModule>,
    nodes: Seq<ParsedModule>,
)
    ensures
        NoUnneededAsyncExpectFunctionRule.spec_check(m, config, all, tests, nodes) == filter_map(
            m.test_blocks@,
            |x: TestBlock| if x.has_async_expect_wrapper { Some(block_view("VITEST-VAL-005"@, "NoUnneededAsyncExpectFunctionRule"@, Severity::Warning, Category::Validation, "expect() wraps an async function unnecessarily \u{2014} use expect(...).resolves or expect(...).rejects instead"@, x, "Use expect(await asyncFn()) or expect(asyncFn()).resolves instead of expect(async () => ...)"@)) } else { None },
        ),
{
    let f = |x: TestBlock| if x.has_async_expect_wrapper { Some(block_view("VITEST-VAL-005"@, "NoUnneededAsyncExpectFunctionRule"@, Severity::Warning, Category::Validation, "expect() wraps an async function unnecessarily \u{2014} use expect(...).resolves or expect(...).rejects instead"@, x, "Use expect(await asyncFn()) or expect(asyncFn()).resolves instead of expect(async () => ...)"@)) } else { None };
    assert forall|x: TestBlock| #[trigger] NoUnneededAsyncExpectFunctionRule.spec_item(m, config, x) == match f(x) {
        Some(v) => seq![v],
        None => Seq::<ViolationView>::empty(),
    } by {}
    lemma_scan_filter_map(NoUnneededAsyncExpectFunctionRule, m, config, m.test_blocks@, f);
}


/// Law: `ValidDescribeCallbackRule` reports each describe block with an async callback, once, at its line, in order, and
/// nothing else.
pub proof fn law_valid_describe_callback_reports(
    m: ParsedModule,
    config: Config,
    all: Seq<ParsedModule>,
    tests: Seq<ParsedModule>,
    nodes: Seq<ParsedModule>,
)
    ensures
        ValidDescribeCallbackRule.spec_check(m, config, all, tests, nodes) == filter_map(
            m.describe_blocks@,
            |x: DescribeBlock| if x.is_async { Some(file_view("VITEST-VAL-003"@, "ValidDescribeCallbackRule"@, Severity::Error, Category::Validation, "describe('"@ + x.name@ + "') has an async callback \u{2014} describe callbacks must be synchronous"@, x.file_path@, x.line, "Remove the async keyword from the describe callback. Use async in individual test callbacks instead"@)) } else { None },
        ),
{
    let f = |x: DescribeBlock| if x.is_async { Some(file_view("VITEST-VAL-003"@, "ValidDescribeCallbackRule"@, Severity::Error, Category::Validation, "describe('"@ + x.name@ + "') has an async callback \u{2014} describe callbacks must be synchronous"@, x.file_path@, x.line, "Remove the async keyword from the describe callback. Use async in individual test callbacks instead"@)) } else { None };
    assert forall|x: DescribeBlock| #[trigger] ValidDescribeCallbackRule.spec_item(m, config, x) == match f(x) {
        Some(v) => seq![v],
        None => Seq::<ViolationView>::empty(),
    } by {}
    lemma_scan_filter_map(ValidDescribeCallbackRule, m, config, m.describe_blocks@, f);
}


/// Law: `ValidTitleRule` reports, in order, each test with an empty title,
/// and each other test with a template-literal title, once at its line;
/// then, for each describe block in order, one violation where its title is
/// empty and one where it is a template literal, at its line; and nothing
/// else.
pub proof fn law_valid_title_reports(
    m: ParsedModule,
    config: Config,
    all: Seq<ParsedModule>,
    tests: Seq<ParsedModule>,
    nodes: Seq<ParsedModule>,
)
    ensures
        ValidTitleRule.spec_check(m, config, all, tests, nodes) == filter_map(
            m.test_blocks@,
            |x: TestBlock| if x.name@.len() == 0 { Some(block_view("VITEST-VAL-004"@, "ValidTitleRule"@, Severity::Warning, Category::Validation, "test() has an empty title \u{2014} provide a meaningful name"@, x, "Add a descriptive name to the test"@)) } else if x.title_is_template_literal { Some(block_view("VITEST-VAL-004"@, "ValidTitleRule"@, Severity::Warning, Category::Validation, "Test '"@ + x.name@ + "' uses a template literal title \u{2014} prefer static string titles for stable test output"@, x, "Use a plain string literal for the test title instead of a template literal"@)) } else { None },
        ) + concat_map(
            m.describe_blocks@,
            |x: DescribeBlock| (if x.title_is_empty { seq![file_view("VITEST-VAL-004"@, "ValidTitleRule"@, Severity::Warning, Category::Validation, "describe() has an empty title \u{2014} provide a meaningful name"@, x.file_path@, x.line, "Add a descriptive name to the describe() block"@)] } else { Seq::<ViolationView>::empty() }) + (if x.title_is_template_literal { seq![file_view("VITEST-VAL-004"@, "ValidTitleRule"@, Severity::Warning, Category::Validation, "describe('"@ + x.name@ + "') uses a template literal title \u{2014} prefer static string titles"@, x.file_path@, x.line, "Use a plain string literal for the describe title instead of a template literal"@)] } else { Seq::<ViolationView>::empty() }),
        ),
{
    let f = |x: TestBlock| if x.name@.len() == 0 { Some(block_view("VITEST-VAL-004"@, "ValidTitleRule"@, Severity::Warning, Category::Validation, "test() has an empty title \u{2014} provide a meaningful name"@, x, "Add a descriptive name to the test"@)) } else if x.title_is_template_literal { Some(block_view("VITEST-VAL-004"@, "ValidTitleRule"@, Severity::Warning, Category::Validation, "Test '"@ + x.name@ + "' uses a template literal title \u{2014} prefer static string titles for stable test output"@, x, "Use a plain string literal for the test title instead of a template literal"@)) } else { None };
    let g = |x: DescribeBlock| (if x.title_is_empty { seq![file_view("VITEST-VAL-004"@, "ValidTitleRule"@, Severity::Warning, Category::Validation, "describe() has an empty title \u{2014} provide a meaningful name"@, x.file_path@, x.line, "Add a descriptive name to the describe() block"@)] } else { Seq::<ViolationView>::empty() }) + (if x.title_is_template_literal { seq![file_view("VITEST-VAL-004"@, "ValidTitleRule"@, Severity::Warning, Category::Validation, "describe('"@ + x.name@ + "') uses a template literal title \u{2014} prefer static string titles"@, x.file_path@, x.line, "Use a plain string literal for the describe title instead of a template literal"@)] } else { Seq::<ViolationView>::empty() });
    assert forall|x: TestBlock| #[trigger] ItemRule::<TestBlock>::spec_item(&ValidTitleRule, m, config, x) == match f(x) {
        Some(v) => seq![v],
        None => Seq::<ViolationView>::empty(),
    } by {}
    assert forall|x: DescribeBlock| #[trigger] ItemRule::<DescribeBlock>::spec_item(&ValidTitleRule, m, config, x) == g(x) by {}
    lemma_scan_filter_map::<TestBlock, ValidTitleRule>(ValidTitleRule, m, config, m.test_blocks@, f);
    lemma_scan_concat_map::<DescribeBlock, ValidTitleRule>(ValidTitleRule, m, config, m.describe_blocks@, g);
}

} // verus!
