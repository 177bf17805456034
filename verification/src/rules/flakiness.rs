//! Rules for tests whose outcome may change from one run to the next.

use vstd::prelude::*;
use crate::config::Config;
use crate::models::{Category, ModuleGraph, ParsedModule, Severity, TestBlock, TestRuntime, Violation, ViolationView, violations_view};
use crate::rules::{lemma_scan_filter_map, lemma_scan_silent, ItemRule, LintContext, Rule, all_stamped, lemma_scan_stamped, lemma_stamped_concat, block_view, block_violation, file_view, file_violation, lemma_concat_empty, lemma_violations_empty, not_playwright, push_violation, scan, scan_spec};
use crate::seqs::filter_map;
use crate::text::{contains, owned, str_contains};

verus! {

/// Flags tests that call `setTimeout`, whose timing makes them flaky.
#[derive(Debug, Clone, Copy)]
pub struct TimeoutRule;

impl ItemRule<TestBlock> for TimeoutRule {
    open spec fn spec_item(&self, m: ParsedModule, config: Config, x: TestBlock) -> Seq<ViolationView> {
        if x.uses_settimeout {
            seq![block_view("VITEST-FLK-001"@, "TimeoutRule"@, Severity::Warning, Category::Flakiness, "Test uses setTimeout which can cause timing-dependent flakiness"@, x, "Use vi.useFakeTimers() or vi.advanceTimersByTime() for deterministic time control"@)]
        } else {
            Seq::empty()
        }
    }

    fn check_item(&self, m: &ParsedModule, config: &Config, x: &TestBlock, out: &mut Vec<Violation>) {
        let ghost start = violations_view(out@);
        if x.uses_settimeout {
            let v = block_violation("VITEST-FLK-001", "TimeoutRule", Severity::Warning, Category::Flakiness, owned("Test uses setTimeout which can cause timing-dependent flakiness"), x, "Use vi.useFakeTimers() or vi.advanceTimersByTime() for deterministic time control");
            push_violation(out, v);
        } else {
            proof { lemma_concat_empty(violations_view(out@)); }
        }
        assert(violations_view(out@) =~= start + self.spec_item(*m, *config, *x));
    }
}

impl Rule for TimeoutRule {
    open spec fn spec_id(&self) -> Seq<char> {
        "VITEST-FLK-001"@
    }

    open spec fn spec_name(&self) -> Seq<char> {
        "TimeoutRule"@
    }

    open spec fn spec_severity(&self) -> Severity {
        Severity::Warning
    }

    open spec fn spec_category(&self) -> Category {
        Category::Flakiness
    }

    open spec fn spec_applies(&self, runtime: TestRuntime) -> bool {
        not_playwright(runtime)
    }

    open spec fn spec_check(
        &self,
        m: ParsedModule,
        config: Config,
        all: Seq<ParsedModule>,
        tests: Seq<ParsedModule>,
        nodes: Seq<ParsedModule>,
    ) -> Seq<ViolationView> {
        scan_spec(*self, m, config, m.test_blocks@)
    }

    fn id(&self) -> &'static str {
        "VITEST-FLK-001"
    }

    fn name(&self) -> &'static str {
        "TimeoutRule"
    }

    fn severity(&self) -> Severity {
        Severity::Warning
    }

    fn category(&self) -> Category {
        Category::Flakiness
    }

    fn applies_to_runtime(&self, runtime: TestRuntime) -> bool {
        runtime != TestRuntime::Playwright
    }

    fn check(&self, module: &ParsedModule, ctx: &LintContext, graph: &ModuleGraph) -> Vec<Violation> {
        let mut out: Vec<Violation> = Vec::new();
        proof { lemma_violations_empty(); }
        scan(self, module, ctx.config, module.test_blocks.as_slice(), &mut out);
        assert(violations_view(out@) =~= self.spec_check(*module, *ctx.config, ctx.all_modules@, graph.test_seq(), graph.node_seq()));
        out
    }
}

/// Every violation of `TimeoutRule` carries its id, name, severity and
/// category.
pub proof fn lemma_timeout_rule_stamped(
    m: ParsedModule,
    config: Config,
    all: Seq<ParsedModule>,
    tests: Seq<ParsedModule>,
    nodes: Seq<ParsedModule>,
)
    ensures
        all_stamped(
            TimeoutRule.spec_check(m, config, all, tests, nodes),
            "VITEST-FLK-001"@,
            "TimeoutRule"@,
            Severity::Warning,
            Category::Flakiness,
        ),
{
    lemma_scan_stamped(TimeoutRule, m, config, m.test_blocks@, "VITEST-FLK-001"@, "TimeoutRule"@, Severity::Warning, Category::Flakiness);
}

/// Flags tests that read the current date in a file that never fakes the timers.
#[derive(Debug, Clone, Copy)]
pub struct DateMockRule;

impl ItemRule<TestBlock> for DateMockRule {
    open spec fn spec_item(&self, m: ParsedModule, config: Config, x: TestBlock) -> Seq<ViolationView> {
        if !m.has_fake_timers && x.uses_datemock {
            seq![block_view("VITEST-FLK-002"@, "DateMockRule"@, Severity::Warning, Category::Flakiness, "Test uses Date without mocking, results may vary across runs"@, x, "Use vi.useFakeTimers() to freeze time and ensure consistent test results"@)]
        } else {
            Seq::empty()
        }
    }

    fn check_item(&self, m: &ParsedModule, config: &Config, x: &TestBlock, out: &mut Vec<Violation>) {
        let ghost start = violations_view(out@);
        if !m.has_fake_timers && x.uses_datemock {
            let v = block_violation("VITEST-FLK-002", "DateMockRule", Severity::Warning, Category::Flakiness, owned("Test uses Date without mocking, results may vary across runs"), x, "Use vi.useFakeTimers() to freeze time and ensure consistent test results");
            push_violation(out, v);
        } else {
            proof { lemma_concat_empty(violations_view(out@)); }
        }
        assert(violations_view(out@) =~= start + self.spec_item(*m, *config, *x));
    }
}

impl Rule for DateMockRule {
    open spec fn spec_id(&self) -> Seq<char> {
        "VITEST-FLK-002"@
    }

    open spec fn spec_name(&self) -> Seq<char> {
        "DateMockRule"@
    }

    open spec fn spec_severity(&self) -> Severity {
        Severity::Warning
    }

    open spec fn spec_category(&self) -> Category {
        Category::Flakiness
    }

    open spec fn spec_applies(&self, runtime: TestRuntime) -> bool {
        not_playwright(runtime)
    }

    open spec fn spec_check(
        &self,
        m: ParsedModule,
        config: Config,
        all: Seq<ParsedModule>,
        tests: Seq<ParsedModule>,
        nodes: Seq<ParsedModule>,
    ) -> Seq<ViolationView> {
        scan_spec(*self, m, config, m.test_blocks@)
    }

    fn id(&self) -> &'static str {
        "VITEST-FLK-002"
    }

    fn name(&self) -> &'static str {
        "DateMockRule"
    }

    fn severity(&self) -> Severity {
        Severity::Warning
    }

    fn category(&self) -> Category {
        Category::Flakiness
    }

    fn applies_to_runtime(&self, runtime: TestRuntime) -> bool {
        runtime != TestRuntime::Playwright
    }

    fn check(&self, module: &ParsedModule, ctx: &LintContext, graph: &ModuleGraph) -> Vec<Violation> {
        let mut out: Vec<Violation> = Vec::new();
        proof { lemma_violations_empty(); }
        scan(self, module, ctx.config, module.test_blocks.as_slice(), &mut out);
        assert(violations_view(out@) =~= self.spec_check(*module, *ctx.config, ctx.all_modules@, graph.test_seq(), graph.node_seq()));
        out
    }
}

/// Every violation of `DateMockRule` carries its id, name, severity and
/// category.
pub proof fn lemma_date_mock_rule_stamped(
    m: ParsedModule,
    config: Config,
    all: Seq<ParsedModule>,
    tests: Seq<ParsedModule>,
    nodes: Seq<ParsedModule>,
)
    ensures
        all_stamped(
            DateMockRule.spec_check(m, config, all, tests, nodes),
            "VITEST-FLK-002"@,
            "DateMockRule"@,
            Severity::Warning,
            Category::Flakiness,
        ),
{
    lemma_scan_stamped(DateMockRule, m, config, m.test_blocks@, "VITEST-FLK-002"@, "DateMockRule"@, Severity::Warning, Category::Flakiness);
}
/// Law: a file that calls `vi.useFakeTimers()` controls `Date`, so
/// `DateMockRule` reports nothing for it; in any other file it reports each
/// test that uses `Date`, once, at the test's line, in order.
pub proof fn law_date_mock_reports(
    m: ParsedModule,
    config: Config,
    all: Seq<ParsedModule>,
    tests: Seq<ParsedModule>,
    nodes: Seq<ParsedModule>,
)
    ensures
        m.has_fake_timers ==> DateMockRule.spec_check(m, config, all, tests, nodes).len() == 0,
        !m.has_fake_timers ==> DateMockRule.spec_check(m, config, all, tests, nodes) == filter_map(
            m.test_blocks@,
            |b: TestBlock|
                if b.uses_datemock {
                    Some(
                        block_view(
                            "VITEST-FLK-002"@,
                            "DateMockRule"@,
                            Severity::Warning,
                            Category::Flakiness,
                            "Test uses Date without mocking, results may vary across runs"@,
                            b,
                            "Use vi.useFakeTimers() to freeze time and ensure consistent test results"@,
                        ),
                    )
                } else {
                    None
                },
        ),
{
    if m.has_fake_timers {
        assert forall|x: TestBlock| #[trigger] DateMockRule.spec_item(m, config, x).len() == 0 by {}
        lemma_scan_silent(DateMockRule, m, config, m.test_blocks@);
    } else {
        let f = |b: TestBlock|
            if b.uses_datemock {
                Some(
                    block_view(
                        "VITEST-FLK-002"@,
                        "DateMockRule"@,
                        Severity::Warning,
                        Category::Flakiness,
                        "Test uses Date without mocking, results may vary across runs"@,
                        b,
                        "Use vi.useFakeTimers() to freeze time and ensure consistent test results"@,
                    ),
                )
            } else {
                None
            };
        assert forall|x: TestBlock| #[trigger] DateMockRule.spec_item(m, config, x) == match f(x) {
            Some(v) => seq![v],
            None => Seq::<ViolationView>::empty(),
        } by {}
        lemma_scan_filter_map(DateMockRule, m, config, m.test_blocks@, f);
    }
}

/// Whether an import source names a network library: it contains one of
/// `axios`, `node-fetch`, `got`, `undici`, `http`, `https` or `fetch`.
pub open spec fn network_import(s: Seq<char>) -> bool {
    ||| contains(s, "axios"@)
    ||| contains(s, "node-fetch"@)
    ||| contains(s, "got"@)
    ||| contains(s, "undici"@)
    ||| contains(s, "http"@)
    ||| contains(s, "https"@)
    ||| contains(s, "fetch"@)
}

/// Decides `network_import`.
pub fn is_network_import(s: &str) -> (b: bool)
    ensures
        b == network_import(s@),
{
    str_contains(s, "axios") || str_contains(s, "node-fetch") || str_contains(s, "got")
        || str_contains(s, "undici") || str_contains(s, "http") || str_contains(s, "https")
        || str_contains(s, "fetch")
}

/// Whether some import of `m` names a network library.
pub open spec fn imports_network(m: ParsedModule) -> bool {
    exists|i: int| 0 <= i < m.imports@.len() && network_import(#[trigger] m.imports@[i]@)
}

/// Flags test files that import a network library; reported once, at line 1.
#[derive(Debug, Clone, Copy)]
pub struct NetworkImportRule;

impl Rule for NetworkImportRule {
    open spec fn spec_id(&self) -> Seq<char> {
        "VITEST-FLK-003"@
    }

    open spec fn spec_name(&self) -> Seq<char> {
        "NetworkImportRule"@
    }

    open spec fn spec_severity(&self) -> Severity {
        Severity::Warning
    }

    open spec fn spec_category(&self) -> Category {
        Category::Flakiness
    }

    open spec fn spec_applies(&self, runtime: TestRuntime) -> bool {
        not_playwright(runtime)
    }

    open spec fn spec_check(
        &self,
        m: ParsedModule,
        config: Config,
        all: Seq<ParsedModule>,
        tests: Seq<ParsedModule>,
        nodes: Seq<ParsedModule>,
    ) -> Seq<ViolationView> {
        if imports_network(m) {
            seq![file_view(
                "VITEST-FLK-003"@,
                "NetworkImportRule"@,
                Severity::Warning,
                Category::Flakiness,
                "Test file imports network libraries \u{2014} tests may fail due to network issues"@,
                m.file_path@,
                1,
                "Mock network calls using vi.mock() or msw"@,
            )]
        } else {
            Seq::empty()
        }
    }

    fn id(&self) -> &'static str {
        "VITEST-FLK-003"
    }

    fn name(&self) -> &'static str {
        "NetworkImportRule"
    }

    fn severity(&self) -> Severity {
        Severity::Warning
    }

    fn category(&self) -> Category {
        Category::Flakiness
    }

    fn applies_to_runtime(&self, runtime: TestRuntime) -> bool {
        runtime != TestRuntime::Playwright
    }

    fn check(&self, module: &ParsedModule, ctx: &LintContext, graph: &ModuleGraph) -> Vec<Violation> {
        let mut i: usize = 0;
        while i < module.imports.len()
            invariant
                i <= module.imports@.len(),
                forall|j: int| 0 <= j < i ==> !network_import(#[trigger] module.imports@[j]@),
            decreases module.imports@.len() - i,
        {
            if is_network_import(module.imports[i].as_str()) {
                assert(network_import(module.imports@[i as int]@));
                let mut out: Vec<Violation> = Vec::new();
                proof { lemma_violations_empty(); }
                let v = file_violation(
                    "VITEST-FLK-003",
                    "NetworkImportRule",
                    Severity::Warning,
                    Category::Flakiness,
                    owned("Test file imports network libraries \u{2014} tests may fail due to network issues"),
                    &module.file_path,
                    1,
                    "Mock network calls using vi.mock() or msw",
                );
                push_violation(&mut out, v);
                return out;
            }
            i = i + 1;
        }
        proof { lemma_violations_empty(); }
        Vec::new()
    }
}

/// Every violation of `NetworkImportRule` carries its id, name, severity and
/// category.
pub proof fn lemma_network_import_rule_stamped(
    m: ParsedModule,
    config: Config,
    all: Seq<ParsedModule>,
    tests: Seq<ParsedModule>,
    nodes: Seq<ParsedModule>,
)
    ensures
        all_stamped(
            NetworkImportRule.spec_check(m, config, all, tests, nodes),
            "VITEST-FLK-003"@,
            "NetworkImportRule"@,
            Severity::Warning,
            Category::Flakiness,
        ),
{
}


/// Law: `TimeoutRule` reports each test that calls `setTimeout`, once, at the test's line, in order, and no
/// other test.
pub proof fn law_timeout_reports(
    m: ParsedModule,
    config: Config,
    all: Seq<ParsedModule>,
    tests: Seq<ParsedModule>,
    nodes: Seq<ParsedModule>,
)
    ensures
        TimeoutRule.spec_check(m, config, all, tests, nodes) == filter_map(
            m.test_blocks@,
            |x: TestBlock| if x.uses_settimeout { Some(block_view("VITEST-FLK-001"@, "TimeoutRule"@, Severity::Warning, Category::Flakiness, "Test uses setTimeout which can cause timing-dependent flakiness"@, x, "Use vi.useFakeTimers() or vi.advanceTimersByTime() for deterministic time control"@)) } else { None },
        ),
{
    let f = |x: TestBlock| if x.uses_settimeout { Some(block_view("VITEST-FLK-001"@, "TimeoutRule"@, Severity::Warning, Category::Flakiness, "Test uses setTimeout which can cause timing-dependent flakiness"@, x, "Use vi.useFakeTimers() or vi.advanceTimersByTime() for deterministic time control"@)) } else { None };
    assert forall|x: TestBlock| #[trigger] TimeoutRule.spec_item(m, config, x) == match f(x) {
        Some(v) => seq![v],
        None => Seq::<ViolationView>::empty(),
    } by {}
    lemma_scan_filter_map(TimeoutRule, m, config, m.test_blocks@, f);
}


/// Law: `NetworkImportRule` reports a file once, at line 1 of the file,
/// exactly when one of its imports names `axios`, `node-fetch`, `got`,
/// `undici`, `http`, `https` or `fetch`; otherwise it reports nothing.
pub proof fn law_network_import_reports(
    m: ParsedModule,
    config: Config,
    all: Seq<ParsedModule>,
    tests: Seq<ParsedModule>,
    nodes: Seq<ParsedModule>,
)
    ensures
        NetworkImportRule.spec_check(m, config, all, tests, nodes).len() == if exists|i: int|
            0 <= i < m.imports@.len() && ({
                let s = #[trigger] m.imports@[i]@;
                contains(s, "axios"@) || contains(s, "node-fetch"@) || contains(s, "got"@) || contains(
                    s,
                    "undici"@,
                ) || contains(s, "http"@) || contains(s, "https"@) || contains(s, "fetch"@)
            }) {
            1int
        } else {
            0int
        },
        forall|q: int|
            0 <= q < NetworkImportRule.spec_check(m, config, all, tests, nodes).len() ==> {
                let v = #[trigger] NetworkImportRule.spec_check(m, config, all, tests, nodes)[q];
                v.rule_id == "VITEST-FLK-003"@ && v.line == 1 && v.file_path == m.file_path@
                    && v.test_name is None
            },
{
}

} // verus!
