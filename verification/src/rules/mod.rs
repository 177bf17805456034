//! The lint rules, the interface they share and the context they read.

use vstd::prelude::*;
use crate::config::Config;
use crate::models::{Category, ModuleGraph, ParsedModule, Severity, TestBlock, TestRuntime, Violation, ViolationView, opt_view, violations_view};
use crate::text::{concat, owned};

pub mod dependencies;
pub mod flakiness;
pub mod maintenance;
pub mod playwright;
pub mod validation;

verus! {

/// Context passed to each rule during evaluation, including the active
/// configuration and all modules in the current group.
pub struct LintContext<'a> {
    pub config: &'a Config,
    pub all_modules: &'a [ParsedModule],
}

/// The interface every lint rule implements.
pub trait Rule {
    /// The rule's identifier.
    spec fn spec_id(&self) -> Seq<char>;

    /// The rule's human-readable name.
    spec fn spec_name(&self) -> Seq<char>;

    /// The default severity.
    spec fn spec_severity(&self) -> Severity;

    /// The category.
    spec fn spec_category(&self) -> Category;

    /// The runtimes the rule is evaluated for.
    spec fn spec_applies(&self, runtime: TestRuntime) -> bool;

    /// The violations of `m`, given the configuration, the modules of the
    /// group and the graph's test modules and nodes.
    spec fn spec_check(
        &self,
        m: ParsedModule,
        config: Config,
        all: Seq<ParsedModule>,
        tests: Seq<ParsedModule>,
        nodes: Seq<ParsedModule>,
    ) -> Seq<ViolationView>;

    /// Unique rule identifier (e.g. `VITEST-FLK-001`).
    fn id(&self) -> (r: &'static str)
        ensures
            r@ == self.spec_id(),
    ;

    /// Human-readable rule name (e.g. `TimeoutRule`).
    fn name(&self) -> (r: &'static str)
        ensures
            r@ == self.spec_name(),
    ;

    /// Default severity level for this rule.
    fn severity(&self) -> (r: Severity)
        ensures
            r == self.spec_severity(),
    ;

    /// Category this rule belongs to.
    fn category(&self) -> (r: Category)
        ensures
            r == self.spec_category(),
    ;

    /// Whether the rule is evaluated for files of `runtime`.
    fn applies_to_runtime(&self, runtime: TestRuntime) -> (r: bool)
        ensures
            r == self.spec_applies(runtime),
    ;

    /// Evaluate the rule against a parsed module and return any violations.
    fn check(&self, module: &ParsedModule, ctx: &LintContext, graph: &ModuleGraph) -> (r: Vec<
        Violation,
    >)
        ensures
            violations_view(r@) == self.spec_check(
                *module,
                *ctx.config,
                ctx.all_modules@,
                graph.test_seq(),
                graph.node_seq(),
            ),
    ;
}

/// The runtimes most rules are evaluated for: every file but Playwright ones.
pub open spec fn not_playwright(runtime: TestRuntime) -> bool {
    runtime != TestRuntime::Playwright
}

/// A violation reported at a test block.
pub open spec fn block_view(
    rule_id: Seq<char>,
    rule_name: Seq<char>,
    severity: Severity,
    category: Category,
    message: Seq<char>,
    tb: TestBlock,
    suggestion: Seq<char>,
) -> ViolationView {
    ViolationView {
        rule_id,
        rule_name,
        severity,
        category,
        message,
        file_path: tb.file_path@,
        line: tb.line,
        col: None,
        suggestion: Some(suggestion),
        test_name: Some(tb.name@),
    }
}

/// A violation reported at a line of a file, for no particular test.
pub open spec fn file_view(
    rule_id: Seq<char>,
    rule_name: Seq<char>,
    severity: Severity,
    category: Category,
    message: Seq<char>,
    file_path: Seq<char>,
    line: usize,
    suggestion: Seq<char>,
) -> ViolationView {
    ViolationView {
        rule_id,
        rule_name,
        severity,
        category,
        message,
        file_path,
        line,
        col: None,
        suggestion: Some(suggestion),
        test_name: None,
    }
}

/// Builds the violation `block_view` describes.
pub fn block_violation(
    rule_id: &str,
    rule_name: &str,
    severity: Severity,
    category: Category,
    message: String,
    tb: &TestBlock,
    suggestion: &str,
) -> (v: Violation)
    ensures
        v@ == block_view(rule_id@, rule_name@, severity, category, message@, *tb, suggestion@),
{
    Violation {
        rule_id: owned(rule_id),
        rule_name: owned(rule_name),
        severity,
        category,
        message,
        file_path: tb.file_path.clone(),
        line: tb.line,
        col: None,
        suggestion: Some(owned(suggestion)),
        test_name: Some(tb.name.clone()),
    }
}

/// Builds the violation `file_view` describes.
pub fn file_violation(
    rule_id: &str,
    rule_name: &str,
    severity: Severity,
    category: Category,
    message: String,
    file_path: &String,
    line: usize,
    suggestion: &str,
) -> (v: Violation)
    ensures
        v@ == file_view(rule_id@, rule_name@, severity, category, message@, file_path@, line, suggestion@),
{
    Violation {
        rule_id: owned(rule_id),
        rule_name: owned(rule_name),
        severity,
        category,
        message,
        file_path: file_path.clone(),
        line,
        col: None,
        suggestion: Some(owned(suggestion)),
        test_name: None,
    }
}

/// The concatenation of three strings.
pub fn cat3(a: &str, b: &str, c: &str) -> (r: String)
    ensures
        r@ == a@ + b@ + c@,
{
    let mut r = concat(a, b);
    r.append(c);
    r
}

/// A rule that reports, for each item of a list of a module, the violations
/// that this item alone gives, in the order of the list.
pub trait ItemRule<T> {
    /// The violations that `x` gives, in module `m` under `config`.
    spec fn spec_item(&self, m: ParsedModule, config: Config, x: T) -> Seq<ViolationView>;

    /// Appends the violations that `x` gives to `out`.
    fn check_item(&self, m: &ParsedModule, config: &Config, x: &T, out: &mut Vec<Violation>)
        ensures
            violations_view(final(out)@) == violations_view(old(out)@) + self.spec_item(
                *m,
                *config,
                *x,
            ),
    ;
}

/// The violations that the items of `s` give, one item after the other.
pub open spec fn scan_spec<T, R: ItemRule<T>>(
    r: R,
    m: ParsedModule,
    config: Config,
    s: Seq<T>,
) -> Seq<ViolationView>
    decreases s.len(),
{
    if s.len() == 0 {
        Seq::empty()
    } else {
        scan_spec(r, m, config, s.drop_last()) + r.spec_item(m, config, s.last())
    }
}

/// Appends to `out` the violations that the items of `items` give.
pub fn scan<T, R: ItemRule<T>>(
    r: &R,
    m: &ParsedModule,
    config: &Config,
    items: &[T],
    out: &mut Vec<Violation>,
)
    ensures
        violations_view(final(out)@) == violations_view(old(out)@) + scan_spec(
            *r,
            *m,
            *config,
            items@,
        ),
{
    let ghost start = violations_view(out@);
    let mut i: usize = 0;
    assert(scan_spec(*r, *m, *config, items@.take(0)) == Seq::<ViolationView>::empty());
    assert(start + Seq::<ViolationView>::empty() == start);
    while i < items.len()
        invariant
            i <= items@.len(),
            violations_view(out@) == start + scan_spec(*r, *m, *config, items@.take(i as int)),
        decreases items@.len() - i,
    {
        let ghost before = violations_view(out@);
        r.check_item(m, config, &items[i], out);
        proof {
            let t = items@.take(i + 1);
            assert(t.drop_last() == items@.take(i as int));
            assert(t.last() == items@[i as int]);
            assert(before + r.spec_item(*m, *config, items@[i as int]) == start + scan_spec(
                *r,
                *m,
                *config,
                t,
            ));
        }
        i = i + 1;
    }
    assert(items@.take(items@.len() as int) == items@);
}

/// Appends one violation to `out`.
pub fn push_violation(out: &mut Vec<Violation>, v: Violation)
    ensures
        violations_view(final(out)@) == violations_view(old(out)@).push(v@),
{
    proof {
        lemma_violations_push(out@, v);
    }
    out.push(v);
}

/// Appending nothing leaves a sequence of violations as it is.
pub proof fn lemma_concat_empty(s: Seq<ViolationView>)
    ensures
        s + Seq::<ViolationView>::empty() == s,
{
    assert(s + Seq::<ViolationView>::empty() =~= s);
}

/// Whether every violation of `vs` carries the given rule id, rule name,
/// severity and category.
pub open spec fn all_stamped(
    vs: Seq<ViolationView>,
    id: Seq<char>,
    name: Seq<char>,
    sev: Severity,
    cat: Category,
) -> bool {
    forall|i: int|
        0 <= i < vs.len() ==> (#[trigger] vs[i]).rule_id == id && vs[i].rule_name == name
            && vs[i].severity == sev && vs[i].category == cat
}

/// Stamped sequences concatenate to a stamped sequence.
pub proof fn lemma_stamped_concat(
    a: Seq<ViolationView>,
    b: Seq<ViolationView>,
    id: Seq<char>,
    name: Seq<char>,
    sev: Severity,
    cat: Category,
)
    requires
        all_stamped(a, id, name, sev, cat),
        all_stamped(b, id, name, sev, cat),
    ensures
        all_stamped(a + b, id, name, sev, cat),
{
    assert forall|i: int| 0 <= i < (a + b).len() implies ((#[trigger] (a + b)[i]).rule_id == id
        && (a + b)[i].rule_name == name && (a + b)[i].severity == sev && (a + b)[i].category
        == cat) by {
        if i < a.len() {
            assert((a + b)[i] == a[i]);
        } else {
            assert((a + b)[i] == b[i - a.len()]);
        }
    }
}

/// A scan whose every item gives stamped violations gives stamped violations.
pub proof fn lemma_scan_stamped<T, R: ItemRule<T>>(
    r: R,
    m: ParsedModule,
    config: Config,
    s: Seq<T>,
    id: Seq<char>,
    name: Seq<char>,
    sev: Severity,
    cat: Category,
)
    requires
        forall|i: int| 0 <= i < s.len() ==> all_stamped(r.spec_item(m, config, #[trigger] s[i]), id, name, sev, cat),
    ensures
        all_stamped(scan_spec(r, m, config, s), id, name, sev, cat),
    decreases s.len(),
{
    if s.len() > 0 {
        assert forall|i: int| 0 <= i < s.drop_last().len() implies all_stamped(
            r.spec_item(m, config, #[trigger] s.drop_last()[i]),
            id,
            name,
            sev,
            cat,
        ) by {
            assert(s.drop_last()[i] == s[i]);
        }
        lemma_scan_stamped(r, m, config, s.drop_last(), id, name, sev, cat);
        assert(all_stamped(r.spec_item(m, config, s[s.len() - 1]), id, name, sev, cat));
        lemma_stamped_concat(
            scan_spec(r, m, config, s.drop_last()),
            r.spec_item(m, config, s.last()),
            id,
            name,
            sev,
            cat,
        );
    }
}

/// The view of a pushed sequence of violations.
pub proof fn lemma_violations_push(vs: Seq<Violation>, v: Violation)
    ensures
        violations_view(vs.push(v)) == violations_view(vs).push(v@),
{
    assert(violations_view(vs.push(v)) =~= violations_view(vs).push(v@));
}

/// The view of the empty sequence of violations.
pub proof fn lemma_violations_empty()
    ensures
        violations_view(Seq::<Violation>::empty()) == Seq::<ViolationView>::empty(),
{
    assert(violations_view(Seq::<Violation>::empty()) =~= Seq::<ViolationView>::empty());
}

/// Every rule of the linter, as one type.
#[derive(Debug, Clone, Copy)]
pub enum AnyRule {
    Timeout(flakiness::TimeoutRule),
    DateMock(flakiness::DateMockRule),
    NetworkImport(flakiness::NetworkImportRule),
    NoAssertion(maintenance::NoAssertionRule),
    MultipleExpect(maintenance::MultipleExpectRule),
    ConditionalLogic(maintenance::ConditionalLogicRule),
    TryCatch(maintenance::TryCatchRule),
    EmptyTest(maintenance::EmptyTestRule),
    NestedDescribe(maintenance::NestedDescribeRule),
    ReturnInTest(maintenance::ReturnInTestRule),
    MissingAwaitAssertion(maintenance::MissingAwaitAssertionRule),
    FocusedTest(maintenance::FocusedTestRule),
    MissingMockCleanup(maintenance::MissingMockCleanupRule),
    WeakAssertion(maintenance::WeakAssertionRule),
    ImplementationCoupled(maintenance::ImplementationCoupledRule),
    BannedModuleMock(dependencies::BannedModuleMockRule),
    ProductionSingletonImport(dependencies::ProductionSingletonImportRule),
    ResetEscapeHatch(dependencies::ResetEscapeHatchRule),
    MockExportValidation(dependencies::MockExportValidationRule),
    ValidExpect(validation::ValidExpectRule),
    ValidExpectInPromise(validation::ValidExpectInPromiseRule),
    ValidDescribeCallback(validation::ValidDescribeCallbackRule),
    ValidTitle(validation::ValidTitleRule),
    NoUnneededAsyncExpectFunction(validation::NoUnneededAsyncExpectFunctionRule),
    PwWaitForTimeout(playwright::PwWaitForTimeoutRule),
    PwCssIdSelector(playwright::PwCssIdSelectorRule),
    PwXPathSelector(playwright::PwXPathSelectorRule),
    PwLocatorNth(playwright::PwLocatorNthRule),
    PwPageDollar(playwright::PwPageDollarRule),
    PwEvaluateInnerText(playwright::PwEvaluateInnerTextRule),
    PwTextAssertionOverRole(playwright::PwTextAssertionOverRoleRule),
    PwTestIdOverSemanticRole(playwright::PwTestIdOverSemanticRoleRule),
    PwDuplicateSpecFile(playwright::PwDuplicateSpecFileRule),
    PwArbitrarySleep(playwright::PwArbitrarySleepRule),
    PwHardCssClassChain(playwright::PwHardCssClassChainRule),
    PwMissingWebFirstAssertion(playwright::PwMissingWebFirstAssertionRule),
    PwMissingAxeScan(playwright::PwMissingAxeScanRule),
}

impl Rule for AnyRule {
    open spec fn spec_id(&self) -> Seq<char> {
        match self {
            AnyRule::Timeout(r) => r.spec_id(),
            AnyRule::DateMock(r) => r.spec_id(),
            AnyRule::NetworkImport(r) => r.spec_id(),
            AnyRule::NoAssertion(r) => r.spec_id(),
            AnyRule::MultipleExpect(r) => r.spec_id(),
            AnyRule::ConditionalLogic(r) => r.spec_id(),
            AnyRule::TryCatch(r) => r.spec_id(),
            AnyRule::EmptyTest(r) => r.spec_id(),
            AnyRule::NestedDescribe(r) => r.spec_id(),
            AnyRule::ReturnInTest(r) => r.spec_id(),
            AnyRule::MissingAwaitAssertion(r) => r.spec_id(),
            AnyRule::FocusedTest(r) => r.spec_id(),
            AnyRule::MissingMockCleanup(r) => r.spec_id(),
            AnyRule::WeakAssertion(r) => r.spec_id(),
            AnyRule::ImplementationCoupled(r) => r.spec_id(),
            AnyRule::BannedModuleMock(r) => r.spec_id(),
            AnyRule::ProductionSingletonImport(r) => r.spec_id(),
            AnyRule::ResetEscapeHatch(r) => r.spec_id(),
            AnyRule::MockExportValidation(r) => r.spec_id(),
            AnyRule::ValidExpect(r) => r.spec_id(),
            AnyRule::ValidExpectInPromise(r) => r.spec_id(),
            AnyRule::ValidDescribeCallback(r) => r.spec_id(),
            AnyRule::ValidTitle(r) => r.spec_id(),
            AnyRule::NoUnneededAsyncExpectFunction(r) => r.spec_id(),
            AnyRule::PwWaitForTimeout(r) => r.spec_id(),
            AnyRule::PwCssIdSelector(r) => r.spec_id(),
            AnyRule::PwXPathSelector(r) => r.spec_id(),
            AnyRule::PwLocatorNth(r) => r.spec_id(),
            AnyRule::PwPageDollar(r) => r.spec_id(),
            AnyRule::PwEvaluateInnerText(r) => r.spec_id(),
            AnyRule::PwTextAssertionOverRole(r) => r.spec_id(),
            AnyRule::PwTestIdOverSemanticRole(r) => r.spec_id(),
            AnyRule::PwDuplicateSpecFile(r) => r.spec_id(),
            AnyRule::PwArbitrarySleep(r) => r.spec_id(),
            AnyRule::PwHardCssClassChain(r) => r.spec_id(),
            AnyRule::PwMissingWebFirstAssertion(r) => r.spec_id(),
            AnyRule::PwMissingAxeScan(r) => r.spec_id(),
        }
    }

    open spec fn spec_name(&self) -> Seq<char> {
        match self {
            AnyRule::Timeout(r) => r.spec_name(),
            AnyRule::DateMock(r) => r.spec_name(),
            AnyRule::NetworkImport(r) => r.spec_name(),
            AnyRule::NoAssertion(r) => r.spec_name(),
            AnyRule::MultipleExpect(r) => r.spec_name(),
            AnyRule::ConditionalLogic(r) => r.spec_name(),
            AnyRule::TryCatch(r) => r.spec_name(),
            AnyRule::EmptyTest(r) => r.spec_name(),
            AnyRule::NestedDescribe(r) => r.spec_name(),
            AnyRule::ReturnInTest(r) => r.spec_name(),
            AnyRule::MissingAwaitAssertion(r) => r.spec_name(),
            AnyRule::FocusedTest(r) => r.spec_name(),
            AnyRule::MissingMockCleanup(r) => r.spec_name(),
            AnyRule::WeakAssertion(r) => r.spec_name(),
            AnyRule::ImplementationCoupled(r) => r.spec_name(),
            AnyRule::BannedModuleMock(r) => r.spec_name(),
            AnyRule::ProductionSingletonImport(r) => r.spec_name(),
            AnyRule::ResetEscapeHatch(r) => r.spec_name(),
            AnyRule::MockExportValidation(r) => r.spec_name(),
            AnyRule::ValidExpect(r) => r.spec_name(),
            AnyRule::ValidExpectInPromise(r) => r.spec_name(),
            AnyRule::ValidDescribeCallback(r) => r.spec_name(),
            AnyRule::ValidTitle(r) => r.spec_name(),
            AnyRule::NoUnneededAsyncExpectFunction(r) => r.spec_name(),
            AnyRule::PwWaitForTimeout(r) => r.spec_name(),
            AnyRule::PwCssIdSelector(r) => r.spec_name(),
            AnyRule::PwXPathSelector(r) => r.spec_name(),
            AnyRule::PwLocatorNth(r) => r.spec_name(),
            AnyRule::PwPageDollar(r) => r.spec_name(),
            AnyRule::PwEvaluateInnerText(r) => r.spec_name(),
            AnyRule::PwTextAssertionOverRole(r) => r.spec_name(),
            AnyRule::PwTestIdOverSemanticRole(r) => r.spec_name(),
            AnyRule::PwDuplicateSpecFile(r) => r.spec_name(),
            AnyRule::PwArbitrarySleep(r) => r.spec_name(),
            AnyRule::PwHardCssClassChain(r) => r.spec_name(),
            AnyRule::PwMissingWebFirstAssertion(r) => r.spec_name(),
            AnyRule::PwMissingAxeScan(r) => r.spec_name(),
        }
    }

    open spec fn spec_severity(&self) -> Severity {
        match self {
            AnyRule::Timeout(r) => r.spec_severity(),
            AnyRule::DateMock(r) => r.spec_severity(),
            AnyRule::NetworkImport(r) => r.spec_severity(),
            AnyRule::NoAssertion(r) => r.spec_severity(),
            AnyRule::MultipleExpect(r) => r.spec_severity(),
            AnyRule::ConditionalLogic(r) => r.spec_severity(),
            AnyRule::TryCatch(r) => r.spec_severity(),
            AnyRule::EmptyTest(r) => r.spec_severity(),
            AnyRule::NestedDescribe(r) => r.spec_severity(),
            AnyRule::ReturnInTest(r) => r.spec_severity(),
            AnyRule::MissingAwaitAssertion(r) => r.spec_severity(),
            AnyRule::FocusedTest(r) => r.spec_severity(),
            AnyRule::MissingMockCleanup(r) => r.spec_severity(),
            AnyRule::WeakAssertion(r) => r.spec_severity(),
            AnyRule::ImplementationCoupled(r) => r.spec_severity(),
            AnyRule::BannedModuleMock(r) => r.spec_severity(),
            AnyRule::ProductionSingletonImport(r) => r.spec_severity(),
            AnyRule::ResetEscapeHatch(r) => r.spec_severity(),
            AnyRule::MockExportValidation(r) => r.spec_severity(),
            AnyRule::ValidExpect(r) => r.spec_severity(),
            AnyRule::ValidExpectInPromise(r) => r.spec_severity(),
            AnyRule::ValidDescribeCallback(r) => r.spec_severity(),
            AnyRule::ValidTitle(r) => r.spec_severity(),
            AnyRule::NoUnneededAsyncExpectFunction(r) => r.spec_severity(),
            AnyRule::PwWaitForTimeout(r) => r.spec_severity(),
            AnyRule::PwCssIdSelector(r) => r.spec_severity(),
            AnyRule::PwXPathSelector(r) => r.spec_severity(),
            AnyRule::PwLocatorNth(r) => r.spec_severity(),
            AnyRule::PwPageDollar(r) => r.spec_severity(),
            AnyRule::PwEvaluateInnerText(r) => r.spec_severity(),
            AnyRule::PwTextAssertionOverRole(r) => r.spec_severity(),
            AnyRule::PwTestIdOverSemanticRole(r) => r.spec_severity(),
            AnyRule::PwDuplicateSpecFile(r) => r.spec_severity(),
            AnyRule::PwArbitrarySleep(r) => r.spec_severity(),
            AnyRule::PwHardCssClassChain(r) => r.spec_severity(),
            AnyRule::PwMissingWebFirstAssertion(r) => r.spec_severity(),
            AnyRule::PwMissingAxeScan(r) => r.spec_severity(),
        }
    }

    open spec fn spec_category(&self) -> Category {
        match self {
            AnyRule::Timeout(r) => r.spec_category(),
            AnyRule::DateMock(r) => r.spec_category(),
            AnyRule::NetworkImport(r) => r.spec_category(),
            AnyRule::NoAssertion(r) => r.spec_category(),
            AnyRule::MultipleExpect(r) => r.spec_category(),
            AnyRule::ConditionalLogic(r) => r.spec_category(),
            AnyRule::TryCatch(r) => r.spec_category(),
            AnyRule::EmptyTest(r) => r.spec_category(),
            AnyRule::NestedDescribe(r) => r.spec_category(),
            AnyRule::ReturnInTest(r) => r.spec_category(),
            AnyRule::MissingAwaitAssertion(r) => r.spec_category(),
            AnyRule::FocusedTest(r) => r.spec_category(),
            AnyRule::MissingMockCleanup(r) => r.spec_category(),
            AnyRule::WeakAssertion(r) => r.spec_category(),
            AnyRule::ImplementationCoupled(r) => r.spec_category(),
            AnyRule::BannedModuleMock(r) => r.spec_category(),
            AnyRule::ProductionSingletonImport(r) => r.spec_category(),
            AnyRule::ResetEscapeHatch(r) => r.spec_category(),
            AnyRule::MockExportValidation(r) => r.spec_category(),
            AnyRule::ValidExpect(r) => r.spec_category(),
            AnyRule::ValidExpectInPromise(r) => r.spec_category(),
            AnyRule::ValidDescribeCallback(r) => r.spec_category(),
            AnyRule::ValidTitle(r) => r.spec_category(),
            AnyRule::NoUnneededAsyncExpectFunction(r) => r.spec_category(),
            AnyRule::PwWaitForTimeout(r) => r.spec_category(),
            AnyRule::PwCssIdSelector(r) => r.spec_category(),
            AnyRule::PwXPathSelector(r) => r.spec_category(),
            AnyRule::PwLocatorNth(r) => r.spec_category(),
            AnyRule::PwPageDollar(r) => r.spec_category(),
            AnyRule::PwEvaluateInnerText(r) => r.spec_category(),
            AnyRule::PwTextAssertionOverRole(r) => r.spec_category(),
            AnyRule::PwTestIdOverSemanticRole(r) => r.spec_category(),
            AnyRule::PwDuplicateSpecFile(r) => r.spec_category(),
            AnyRule::PwArbitrarySleep(r) => r.spec_category(),
            AnyRule::PwHardCssClassChain(r) => r.spec_category(),
            AnyRule::PwMissingWebFirstAssertion(r) => r.spec_category(),
            AnyRule::PwMissingAxeScan(r) => r.spec_category(),
        }
    }

    open spec fn spec_applies(&self, runtime: TestRuntime) -> bool {
        match self {
            AnyRule::Timeout(r) => r.spec_applies(runtime),
            AnyRule::DateMock(r) => r.spec_applies(runtime),
            AnyRule::NetworkImport(r) => r.spec_applies(runtime),
            AnyRule::NoAssertion(r) => r.spec_applies(runtime),
            AnyRule::MultipleExpect(r) => r.spec_applies(runtime),
            AnyRule::ConditionalLogic(r) => r.spec_applies(runtime),
            AnyRule::TryCatch(r) => r.spec_applies(runtime),
            AnyRule::EmptyTest(r) => r.spec_applies(runtime),
            AnyRule::NestedDescribe(r) => r.spec_applies(runtime),
            AnyRule::ReturnInTest(r) => r.spec_applies(runtime),
            AnyRule::MissingAwaitAssertion(r) => r.spec_applies(runtime),
            AnyRule::FocusedTest(r) => r.spec_applies(runtime),
            AnyRule::MissingMockCleanup(r) => r.spec_applies(runtime),
            AnyRule::WeakAssertion(r) => r.spec_applies(runtime),
            AnyRule::ImplementationCoupled(r) => r.spec_applies(runtime),
            AnyRule::BannedModuleMock(r) => r.spec_applies(runtime),
            AnyRule::ProductionSingletonImport(r) => r.spec_applies(runtime),
            AnyRule::ResetEscapeHatch(r) => r.spec_applies(runtime),
            AnyRule::MockExportValidation(r) => r.spec_applies(runtime),
            AnyRule::ValidExpect(r) => r.spec_applies(runtime),
            AnyRule::ValidExpectInPromise(r) => r.spec_applies(runtime),
            AnyRule::ValidDescribeCallback(r) => r.spec_applies(runtime),
            AnyRule::ValidTitle(r) => r.spec_applies(runtime),
            AnyRule::NoUnneededAsyncExpectFunction(r) => r.spec_applies(runtime),
            AnyRule::PwWaitForTimeout(r) => r.spec_applies(runtime),
            AnyRule::PwCssIdSelector(r) => r.spec_applies(runtime),
            AnyRule::PwXPathSelector(r) => r.spec_applies(runtime),
            AnyRule::PwLocatorNth(r) => r.spec_applies(runtime),
            AnyRule::PwPageDollar(r) => r.spec_applies(runtime),
            AnyRule::PwEvaluateInnerText(r) => r.spec_applies(runtime),
            AnyRule::PwTextAssertionOverRole(r) => r.spec_applies(runtime),
            AnyRule::PwTestIdOverSemanticRole(r) => r.spec_applies(runtime),
            AnyRule::PwDuplicateSpecFile(r) => r.spec_applies(runtime),
            AnyRule::PwArbitrarySleep(r) => r.spec_applies(runtime),
            AnyRule::PwHardCssClassChain(r) => r.spec_applies(runtime),
            AnyRule::PwMissingWebFirstAssertion(r) => r.spec_applies(runtime),
            AnyRule::PwMissingAxeScan(r) => r.spec_applies(runtime),
        }
    }

    open spec fn spec_check(
        &self,
        m: ParsedModule,
        config: Config,
        all: Seq<ParsedModule>,
        tests: Seq<ParsedModule>,
        nodes: Seq<ParsedModule>,
    ) -> Seq<ViolationView> {
        match self {
            AnyRule::Timeout(r) => r.spec_check(m, config, all, tests, nodes),
            AnyRule::DateMock(r) => r.spec_check(m, config, all, tests, nodes),
            AnyRule::NetworkImport(r) => r.spec_check(m, config, all, tests, nodes),
            AnyRule::NoAssertion(r) => r.spec_check(m, config, all, tests, nodes),
            AnyRule::MultipleExpect(r) => r.spec_check(m, config, all, tests, nodes),
            AnyRule::ConditionalLogic(r) => r.spec_check(m, config, all, tests, nodes),
            AnyRule::TryCatch(r) => r.spec_check(m, config, all, tests, nodes),
            AnyRule::EmptyTest(r) => r.spec_check(m, config, all, tests, nodes),
            AnyRule::NestedDescribe(r) => r.spec_check(m, config, all, tests, nodes),
            AnyRule::ReturnInTest(r) => r.spec_check(m, config, all, tests, nodes),
            AnyRule::MissingAwaitAssertion(r) => r.spec_check(m, config, all, tests, nodes),
            AnyRule::FocusedTest(r) => r.spec_check(m, config, all, tests, nodes),
            AnyRule::MissingMockCleanup(r) => r.spec_check(m, config, all, tests, nodes),
            AnyRule::WeakAssertion(r) => r.spec_check(m, config, all, tests, nodes),
            AnyRule::ImplementationCoupled(r) => r.spec_check(m, config, all, tests, nodes),
            AnyRule::BannedModuleMock(r) => r.spec_check(m, config, all, tests, nodes),
            AnyRule::ProductionSingletonImport(r) => r.spec_check(m, config, all, tests, nodes),
            AnyRule::ResetEscapeHatch(r) => r.spec_check(m, config, all, tests, nodes),
            AnyRule::MockExportValidation(r) => r.spec_check(m, config, all, tests, nodes),
            AnyRule::ValidExpect(r) => r.spec_check(m, config, all, tests, nodes),
            AnyRule::ValidExpectInPromise(r) => r.spec_check(m, config, all, tests, nodes),
            AnyRule::ValidDescribeCallback(r) => r.spec_check(m, config, all, tests, nodes),
            AnyRule::ValidTitle(r) => r.spec_check(m, config, all, tests, nodes),
            AnyRule::NoUnneededAsyncExpectFunction(r) => r.spec_check(m, config, all, tests, nodes),
            AnyRule::PwWaitForTimeout(r) => r.spec_check(m, config, all, tests, nodes),
            AnyRule::PwCssIdSelector(r) => r.spec_check(m, config, all, tests, nodes),
            AnyRule::PwXPathSelector(r) => r.spec_check(m, config, all, tests, nodes),
            AnyRule::PwLocatorNth(r) => r.spec_check(m, config, all, tests, nodes),
            AnyRule::PwPageDollar(r) => r.spec_check(m, config, all, tests, nodes),
            AnyRule::PwEvaluateInnerText(r) => r.spec_check(m, config, all, tests, nodes),
            AnyRule::PwTextAssertionOverRole(r) => r.spec_check(m, config, all, tests, nodes),
            AnyRule::PwTestIdOverSemanticRole(r) => r.spec_check(m, config, all, tests, nodes),
            AnyRule::PwDuplicateSpecFile(r) => r.spec_check(m, config, all, tests, nodes),
            AnyRule::PwArbitrarySleep(r) => r.spec_check(m, config, all, tests, nodes),
            AnyRule::PwHardCssClassChain(r) => r.spec_check(m, config, all, tests, nodes),
            AnyRule::PwMissingWebFirstAssertion(r) => r.spec_check(m, config, all, tests, nodes),
            AnyRule::PwMissingAxeScan(r) => r.spec_check(m, config, all, tests, nodes),
        }
    }

    fn id(&self) -> &'static str {
        match self {
            AnyRule::Timeout(r) => r.id(),
            AnyRule::DateMock(r) => r.id(),
            AnyRule::NetworkImport(r) => r.id(),
            AnyRule::NoAssertion(r) => r.id(),
            AnyRule::MultipleExpect(r) => r.id(),
            AnyRule::ConditionalLogic(r) => r.id(),
            AnyRule::TryCatch(r) => r.id(),
            AnyRule::EmptyTest(r) => r.id(),
            AnyRule::NestedDescribe(r) => r.id(),
            AnyRule::ReturnInTest(r) => r.id(),
            AnyRule::MissingAwaitAssertion(r) => r.id(),
            AnyRule::FocusedTest(r) => r.id(),
            AnyRule::MissingMockCleanup(r) => r.id(),
            AnyRule::WeakAssertion(r) => r.id(),
            AnyRule::ImplementationCoupled(r) => r.id(),
            AnyRule::BannedModuleMock(r) => r.id(),
            AnyRule::ProductionSingletonImport(r) => r.id(),
            AnyRule::ResetEscapeHatch(r) => r.id(),
            AnyRule::MockExportValidation(r) => r.id(),
            AnyRule::ValidExpect(r) => r.id(),
            AnyRule::ValidExpectInPromise(r) => r.id(),
            AnyRule::ValidDescribeCallback(r) => r.id(),
            AnyRule::ValidTitle(r) => r.id(),
            AnyRule::NoUnneededAsyncExpectFunction(r) => r.id(),
            AnyRule::PwWaitForTimeout(r) => r.id(),
            AnyRule::PwCssIdSelector(r) => r.id(),
            AnyRule::PwXPathSelector(r) => r.id(),
            AnyRule::PwLocatorNth(r) => r.id(),
            AnyRule::PwPageDollar(r) => r.id(),
            AnyRule::PwEvaluateInnerText(r) => r.id(),
            AnyRule::PwTextAssertionOverRole(r) => r.id(),
            AnyRule::PwTestIdOverSemanticRole(r) => r.id(),
            AnyRule::PwDuplicateSpecFile(r) => r.id(),
            AnyRule::PwArbitrarySleep(r) => r.id(),
            AnyRule::PwHardCssClassChain(r) => r.id(),
            AnyRule::PwMissingWebFirstAssertion(r) => r.id(),
            AnyRule::PwMissingAxeScan(r) => r.id(),
        }
    }

    fn name(&self) -> &'static str {
        match self {
            AnyRule::Timeout(r) => r.name(),
            AnyRule::DateMock(r) => r.name(),
            AnyRule::NetworkImport(r) => r.name(),
            AnyRule::NoAssertion(r) => r.name(),
            AnyRule::MultipleExpect(r) => r.name(),
            AnyRule::ConditionalLogic(r) => r.name(),
            AnyRule::TryCatch(r) => r.name(),
            AnyRule::EmptyTest(r) => r.name(),
            AnyRule::NestedDescribe(r) => r.name(),
            AnyRule::ReturnInTest(r) => r.name(),
            AnyRule::MissingAwaitAssertion(r) => r.name(),
            AnyRule::FocusedTest(r) => r.name(),
            AnyRule::MissingMockCleanup(r) => r.name(),
            AnyRule::WeakAssertion(r) => r.name(),
            AnyRule::ImplementationCoupled(r) => r.name(),
            AnyRule::BannedModuleMock(r) => r.name(),
            AnyRule::ProductionSingletonImport(r) => r.name(),
            AnyRule::ResetEscapeHatch(r) => r.name(),
            AnyRule::MockExportValidation(r) => r.name(),
            AnyRule::ValidExpect(r) => r.name(),
            AnyRule::ValidExpectInPromise(r) => r.name(),
            AnyRule::ValidDescribeCallback(r) => r.name(),
            AnyRule::ValidTitle(r) => r.name(),
            AnyRule::NoUnneededAsyncExpectFunction(r) => r.name(),
            AnyRule::PwWaitForTimeout(r) => r.name(),
            AnyRule::PwCssIdSelector(r) => r.name(),
            AnyRule::PwXPathSelector(r) => r.name(),
            AnyRule::PwLocatorNth(r) => r.name(),
            AnyRule::PwPageDollar(r) => r.name(),
            AnyRule::PwEvaluateInnerText(r) => r.name(),
            AnyRule::PwTextAssertionOverRole(r) => r.name(),
            AnyRule::PwTestIdOverSemanticRole(r) => r.name(),
            AnyRule::PwDuplicateSpecFile(r) => r.name(),
            AnyRule::PwArbitrarySleep(r) => r.name(),
            AnyRule::PwHardCssClassChain(r) => r.name(),
            AnyRule::PwMissingWebFirstAssertion(r) => r.name(),
            AnyRule::PwMissingAxeScan(r) => r.name(),
        }
    }

    fn severity(&self) -> Severity {
        match self {
            AnyRule::Timeout(r) => r.severity(),
            AnyRule::DateMock(r) => r.severity(),
            AnyRule::NetworkImport(r) => r.severity(),
            AnyRule::NoAssertion(r) => r.severity(),
            AnyRule::MultipleExpect(r) => r.severity(),
            AnyRule::ConditionalLogic(r) => r.severity(),
            AnyRule::TryCatch(r) => r.severity(),
            AnyRule::EmptyTest(r) => r.severity(),
            AnyRule::NestedDescribe(r) => r.severity(),
            AnyRule::ReturnInTest(r) => r.severity(),
            AnyRule::MissingAwaitAssertion(r) => r.severity(),
            AnyRule::FocusedTest(r) => r.severity(),
            AnyRule::MissingMockCleanup(r) => r.severity(),
            AnyRule::WeakAssertion(r) => r.severity(),
            AnyRule::ImplementationCoupled(r) => r.severity(),
            AnyRule::BannedModuleMock(r) => r.severity(),
            AnyRule::ProductionSingletonImport(r) => r.severity(),
            AnyRule::ResetEscapeHatch(r) => r.severity(),
            AnyRule::MockExportValidation(r) => r.severity(),
            AnyRule::ValidExpect(r) => r.severity(),
            AnyRule::ValidExpectInPromise(r) => r.severity(),
            AnyRule::ValidDescribeCallback(r) => r.severity(),
            AnyRule::ValidTitle(r) => r.severity(),
            AnyRule::NoUnneededAsyncExpectFunction(r) => r.severity(),
            AnyRule::PwWaitForTimeout(r) => r.severity(),
            AnyRule::PwCssIdSelector(r) => r.severity(),
            AnyRule::PwXPathSelector(r) => r.severity(),
            AnyRule::PwLocatorNth(r) => r.severity(),
            AnyRule::PwPageDollar(r) => r.severity(),
            AnyRule::PwEvaluateInnerText(r) => r.severity(),
            AnyRule::PwTextAssertionOverRole(r) => r.severity(),
            AnyRule::PwTestIdOverSemanticRole(r) => r.severity(),
            AnyRule::PwDuplicateSpecFile(r) => r.severity(),
            AnyRule::PwArbitrarySleep(r) => r.severity(),
            AnyRule::PwHardCssClassChain(r) => r.severity(),
            AnyRule::PwMissingWebFirstAssertion(r) => r.severity(),
            AnyRule::PwMissingAxeScan(r) => r.severity(),
        }
    }

    fn category(&self) -> Category {
        match self {
            AnyRule::Timeout(r) => r.category(),
            AnyRule::DateMock(r) => r.category(),
            AnyRule::NetworkImport(r) => r.category(),
            AnyRule::NoAssertion(r) => r.category(),
            AnyRule::MultipleExpect(r) => r.category(),
            AnyRule::ConditionalLogic(r) => r.category(),
            AnyRule::TryCatch(r) => r.category(),
            AnyRule::EmptyTest(r) => r.category(),
            AnyRule::NestedDescribe(r) => r.category(),
            AnyRule::ReturnInTest(r) => r.category(),
            AnyRule::MissingAwaitAssertion(r) => r.category(),
            AnyRule::FocusedTest(r) => r.category(),
            AnyRule::MissingMockCleanup(r) => r.category(),
            AnyRule::WeakAssertion(r) => r.category(),
            AnyRule::ImplementationCoupled(r) => r.category(),
            AnyRule::BannedModuleMock(r) => r.category(),
            AnyRule::ProductionSingletonImport(r) => r.category(),
            AnyRule::ResetEscapeHatch(r) => r.category(),
            AnyRule::MockExportValidation(r) => r.category(),
            AnyRule::ValidExpect(r) => r.category(),
            AnyRule::ValidExpectInPromise(r) => r.category(),
            AnyRule::ValidDescribeCallback(r) => r.category(),
            AnyRule::ValidTitle(r) => r.category(),
            AnyRule::NoUnneededAsyncExpectFunction(r) => r.category(),
            AnyRule::PwWaitForTimeout(r) => r.category(),
            AnyRule::PwCssIdSelector(r) => r.category(),
            AnyRule::PwXPathSelector(r) => r.category(),
            AnyRule::PwLocatorNth(r) => r.category(),
            AnyRule::PwPageDollar(r) => r.category(),
            AnyRule::PwEvaluateInnerText(r) => r.category(),
            AnyRule::PwTextAssertionOverRole(r) => r.category(),
            AnyRule::PwTestIdOverSemanticRole(r) => r.category(),
            AnyRule::PwDuplicateSpecFile(r) => r.category(),
            AnyRule::PwArbitrarySleep(r) => r.category(),
            AnyRule::PwHardCssClassChain(r) => r.category(),
            AnyRule::PwMissingWebFirstAssertion(r) => r.category(),
            AnyRule::PwMissingAxeScan(r) => r.category(),
        }
    }

    fn applies_to_runtime(&self, runtime: TestRuntime) -> bool {
        match self {
            AnyRule::Timeout(r) => r.applies_to_runtime(runtime),
            AnyRule::DateMock(r) => r.applies_to_runtime(runtime),
            AnyRule::NetworkImport(r) => r.applies_to_runtime(runtime),
            AnyRule::NoAssertion(r) => r.applies_to_runtime(runtime),
            AnyRule::MultipleExpect(r) => r.applies_to_runtime(runtime),
            AnyRule::ConditionalLogic(r) => r.applies_to_runtime(runtime),
            AnyRule::TryCatch(r) => r.applies_to_runtime(runtime),
            AnyRule::EmptyTest(r) => r.applies_to_runtime(runtime),
            AnyRule::NestedDescribe(r) => r.applies_to_runtime(runtime),
            AnyRule::ReturnInTest(r) => r.applies_to_runtime(runtime),
            AnyRule::MissingAwaitAssertion(r) => r.applies_to_runtime(runtime),
            AnyRule::FocusedTest(r) => r.applies_to_runtime(runtime),
            AnyRule::MissingMockCleanup(r) => r.applies_to_runtime(runtime),
            AnyRule::WeakAssertion(r) => r.applies_to_runtime(runtime),
            AnyRule::ImplementationCoupled(r) => r.applies_to_runtime(runtime),
            AnyRule::BannedModuleMock(r) => r.applies_to_runtime(runtime),
            AnyRule::ProductionSingletonImport(r) => r.applies_to_runtime(runtime),
            AnyRule::ResetEscapeHatch(r) => r.applies_to_runtime(runtime),
            AnyRule::MockExportValidation(r) => r.applies_to_runtime(runtime),
            AnyRule::ValidExpect(r) => r.applies_to_runtime(runtime),
            AnyRule::ValidExpectInPromise(r) => r.applies_to_runtime(runtime),
            AnyRule::ValidDescribeCallback(r) => r.applies_to_runtime(runtime),
            AnyRule::ValidTitle(r) => r.applies_to_runtime(runtime),
            AnyRule::NoUnneededAsyncExpectFunction(r) => r.applies_to_runtime(runtime),
            AnyRule::PwWaitForTimeout(r) => r.applies_to_runtime(runtime),
            AnyRule::PwCssIdSelector(r) => r.applies_to_runtime(runtime),
            AnyRule::PwXPathSelector(r) => r.applies_to_runtime(runtime),
            AnyRule::PwLocatorNth(r) => r.applies_to_runtime(runtime),
            AnyRule::PwPageDollar(r) => r.applies_to_runtime(runtime),
            AnyRule::PwEvaluateInnerText(r) => r.applies_to_runtime(runtime),
            AnyRule::PwTextAssertionOverRole(r) => r.applies_to_runtime(runtime),
            AnyRule::PwTestIdOverSemanticRole(r) => r.applies_to_runtime(runtime),
            AnyRule::PwDuplicateSpecFile(r) => r.applies_to_runtime(runtime),
            AnyRule::PwArbitrarySleep(r) => r.applies_to_runtime(runtime),
            AnyRule::PwHardCssClassChain(r) => r.applies_to_runtime(runtime),
            AnyRule::PwMissingWebFirstAssertion(r) => r.applies_to_runtime(runtime),
            AnyRule::PwMissingAxeScan(r) => r.applies_to_runtime(runtime),
        }
    }

    fn check(&self, module: &ParsedModule, ctx: &LintContext, graph: &ModuleGraph) -> Vec<Violation> {
        match self {
            AnyRule::Timeout(r) => r.check(module, ctx, graph),
            AnyRule::DateMock(r) => r.check(module, ctx, graph),
            AnyRule::NetworkImport(r) => r.check(module, ctx, graph),
            AnyRule::NoAssertion(r) => r.check(module, ctx, graph),
            AnyRule::MultipleExpect(r) => r.check(module, ctx, graph),
            AnyRule::ConditionalLogic(r) => r.check(module, ctx, graph),
            AnyRule::TryCatch(r) => r.check(module, ctx, graph),
            AnyRule::EmptyTest(r) => r.check(module, ctx, graph),
            AnyRule::NestedDescribe(r) => r.check(module, ctx, graph),
            AnyRule::ReturnInTest(r) => r.check(module, ctx, graph),
            AnyRule::MissingAwaitAssertion(r) => r.check(module, ctx, graph),
            AnyRule::FocusedTest(r) => r.check(module, ctx, graph),
            AnyRule::MissingMockCleanup(r) => r.check(module, ctx, graph),
            AnyRule::WeakAssertion(r) => r.check(module, ctx, graph),
            AnyRule::ImplementationCoupled(r) => r.check(module, ctx, graph),
            AnyRule::BannedModuleMock(r) => r.check(module, ctx, graph),
            AnyRule::ProductionSingletonImport(r) => r.check(module, ctx, graph),
            AnyRule::ResetEscapeHatch(r) => r.check(module, ctx, graph),
            AnyRule::MockExportValidation(r) => r.check(module, ctx, graph),
            AnyRule::ValidExpect(r) => r.check(module, ctx, graph),
            AnyRule::ValidExpectInPromise(r) => r.check(module, ctx, graph),
            AnyRule::ValidDescribeCallback(r) => r.check(module, ctx, graph),
            AnyRule::ValidTitle(r) => r.check(module, ctx, graph),
            AnyRule::NoUnneededAsyncExpectFunction(r) => r.check(module, ctx, graph),
            AnyRule::PwWaitForTimeout(r) => r.check(module, ctx, graph),
            AnyRule::PwCssIdSelector(r) => r.check(module, ctx, graph),
            AnyRule::PwXPathSelector(r) => r.check(module, ctx, graph),
            AnyRule::PwLocatorNth(r) => r.check(module, ctx, graph),
            AnyRule::PwPageDollar(r) => r.check(module, ctx, graph),
            AnyRule::PwEvaluateInnerText(r) => r.check(module, ctx, graph),
            AnyRule::PwTextAssertionOverRole(r) => r.check(module, ctx, graph),
            AnyRule::PwTestIdOverSemanticRole(r) => r.check(module, ctx, graph),
            AnyRule::PwDuplicateSpecFile(r) => r.check(module, ctx, graph),
            AnyRule::PwArbitrarySleep(r) => r.check(module, ctx, graph),
            AnyRule::PwHardCssClassChain(r) => r.check(module, ctx, graph),
            AnyRule::PwMissingWebFirstAssertion(r) => r.check(module, ctx, graph),
            AnyRule::PwMissingAxeScan(r) => r.check(module, ctx, graph),
        }
    }
}

/// The rules of the linter, in the order they are evaluated.
pub open spec fn registered_rules() -> Seq<AnyRule> {
    seq![
        AnyRule::Timeout(flakiness::TimeoutRule),
        AnyRule::DateMock(flakiness::DateMockRule),
        AnyRule::NetworkImport(flakiness::NetworkImportRule),
        AnyRule::NoAssertion(maintenance::NoAssertionRule),
        AnyRule::MultipleExpect(maintenance::MultipleExpectRule),
        AnyRule::ConditionalLogic(maintenance::ConditionalLogicRule),
        AnyRule::TryCatch(maintenance::TryCatchRule),
        AnyRule::EmptyTest(maintenance::EmptyTestRule),
        AnyRule::NestedDescribe(maintenance::NestedDescribeRule),
        AnyRule::ReturnInTest(maintenance::ReturnInTestRule),
        AnyRule::MissingAwaitAssertion(maintenance::MissingAwaitAssertionRule),
        AnyRule::FocusedTest(maintenance::FocusedTestRule),
        AnyRule::MissingMockCleanup(maintenance::MissingMockCleanupRule),
        AnyRule::WeakAssertion(maintenance::WeakAssertionRule),
        AnyRule::ImplementationCoupled(maintenance::ImplementationCoupledRule),
        AnyRule::BannedModuleMock(dependencies::BannedModuleMockRule),
        AnyRule::ProductionSingletonImport(dependencies::ProductionSingletonImportRule),
        AnyRule::ResetEscapeHatch(dependencies::ResetEscapeHatchRule),
        AnyRule::MockExportValidation(dependencies::MockExportValidationRule),
        AnyRule::ValidExpect(validation::ValidExpectRule),
        AnyRule::ValidExpectInPromise(validation::ValidExpectInPromiseRule),
        AnyRule::ValidDescribeCallback(validation::ValidDescribeCallbackRule),
        AnyRule::ValidTitle(validation::ValidTitleRule),
        AnyRule::NoUnneededAsyncExpectFunction(validation::NoUnneededAsyncExpectFunctionRule),
        AnyRule::PwWaitForTimeout(playwright::PwWaitForTimeoutRule),
        AnyRule::PwCssIdSelector(playwright::PwCssIdSelectorRule),
        AnyRule::PwXPathSelector(playwright::PwXPathSelectorRule),
        AnyRule::PwLocatorNth(playwright::PwLocatorNthRule),
        AnyRule::PwPageDollar(playwright::PwPageDollarRule),
        AnyRule::PwEvaluateInnerText(playwright::PwEvaluateInnerTextRule),
        AnyRule::PwTextAssertionOverRole(playwright::PwTextAssertionOverRoleRule),
        AnyRule::PwTestIdOverSemanticRole(playwright::PwTestIdOverSemanticRoleRule),
        AnyRule::PwDuplicateSpecFile(playwright::PwDuplicateSpecFileRule),
        AnyRule::PwArbitrarySleep(playwright::PwArbitrarySleepRule),
        AnyRule::PwHardCssClassChain(playwright::PwHardCssClassChainRule),
        AnyRule::PwMissingWebFirstAssertion(playwright::PwMissingWebFirstAssertionRule),
        AnyRule::PwMissingAxeScan(playwright::PwMissingAxeScanRule)
    ]
}

/// The rules of the linter, in the order they are evaluated.
pub fn all_rules() -> (r: Vec<AnyRule>)
    ensures
        r@ == registered_rules(),
{
    let mut r: Vec<AnyRule> = Vec::new();
    r.push(AnyRule::Timeout(flakiness::TimeoutRule));
    r.push(AnyRule::DateMock(flakiness::DateMockRule));
    r.push(AnyRule::NetworkImport(flakiness::NetworkImportRule));
    r.push(AnyRule::NoAssertion(maintenance::NoAssertionRule));
    r.push(AnyRule::MultipleExpect(maintenance::MultipleExpectRule));
    r.push(AnyRule::ConditionalLogic(maintenance::ConditionalLogicRule));
    r.push(AnyRule::TryCatch(maintenance::TryCatchRule));
    r.push(AnyRule::EmptyTest(maintenance::EmptyTestRule));
    r.push(AnyRule::NestedDescribe(maintenance::NestedDescribeRule));
    r.push(AnyRule::ReturnInTest(maintenance::ReturnInTestRule));
    r.push(AnyRule::MissingAwaitAssertion(maintenance::MissingAwaitAssertionRule));
    r.push(AnyRule::FocusedTest(maintenance::FocusedTestRule));
    r.push(AnyRule::MissingMockCleanup(maintenance::MissingMockCleanupRule));
    r.push(AnyRule::WeakAssertion(maintenance::WeakAssertionRule));
    r.push(AnyRule::ImplementationCoupled(maintenance::ImplementationCoupledRule));
    r.push(AnyRule::BannedModuleMock(dependencies::BannedModuleMockRule));
    r.push(AnyRule::ProductionSingletonImport(dependencies::ProductionSingletonImportRule));
    r.push(AnyRule::ResetEscapeHatch(dependencies::ResetEscapeHatchRule));
    r.push(AnyRule::MockExportValidation(dependencies::MockExportValidationRule));
    r.push(AnyRule::ValidExpect(validation::ValidExpectRule));
    r.push(AnyRule::ValidExpectInPromise(validation::ValidExpectInPromiseRule));
    r.push(AnyRule::ValidDescribeCallback(validation::ValidDescribeCallbackRule));
    r.push(AnyRule::ValidTitle(validation::ValidTitleRule));
    r.push(AnyRule::NoUnneededAsyncExpectFunction(validation::NoUnneededAsyncExpectFunctionRule));
    r.push(AnyRule::PwWaitForTimeout(playwright::PwWaitForTimeoutRule));
    r.push(AnyRule::PwCssIdSelector(playwright::PwCssIdSelectorRule));
    r.push(AnyRule::PwXPathSelector(playwright::PwXPathSelectorRule));
    r.push(AnyRule::PwLocatorNth(playwright::PwLocatorNthRule));
    r.push(AnyRule::PwPageDollar(playwright::PwPageDollarRule));
    r.push(AnyRule::PwEvaluateInnerText(playwright::PwEvaluateInnerTextRule));
    r.push(AnyRule::PwTextAssertionOverRole(playwright::PwTextAssertionOverRoleRule));
    r.push(AnyRule::PwTestIdOverSemanticRole(playwright::PwTestIdOverSemanticRoleRule));
    r.push(AnyRule::PwDuplicateSpecFile(playwright::PwDuplicateSpecFileRule));
    r.push(AnyRule::PwArbitrarySleep(playwright::PwArbitrarySleepRule));
    r.push(AnyRule::PwHardCssClassChain(playwright::PwHardCssClassChainRule));
    r.push(AnyRule::PwMissingWebFirstAssertion(playwright::PwMissingWebFirstAssertionRule));
    r.push(AnyRule::PwMissingAxeScan(playwright::PwMissingAxeScanRule));
    assert(r@ =~= registered_rules());
    r
}

/// Law: every violation a registered rule reports carries the rule's id,
/// name, default severity and category.
pub proof fn law_rule_stamps(
    r: AnyRule,
    m: ParsedModule,
    config: Config,
    all: Seq<ParsedModule>,
    tests: Seq<ParsedModule>,
    nodes: Seq<ParsedModule>,
)
    ensures
        all_stamped(
            r.spec_check(m, config, all, tests, nodes),
            r.spec_id(),
            r.spec_name(),
            r.spec_severity(),
            r.spec_category(),
        ),
{
    match r {
        AnyRule::Timeout(_) => flakiness::lemma_timeout_rule_stamped(m, config, all, tests, nodes),
        AnyRule::DateMock(_) => flakiness::lemma_date_mock_rule_stamped(m, config, all, tests, nodes),
        AnyRule::NetworkImport(_) => flakiness::lemma_network_import_rule_stamped(m, config, all, tests, nodes),
        AnyRule::NoAssertion(_) => maintenance::lemma_no_assertion_rule_stamped(m, config, all, tests, nodes),
        AnyRule::MultipleExpect(_) => maintenance::lemma_multiple_expect_rule_stamped(m, config, all, tests, nodes),
        AnyRule::ConditionalLogic(_) => maintenance::lemma_conditional_logic_rule_stamped(m, config, all, tests, nodes),
        AnyRule::TryCatch(_) => maintenance::lemma_try_catch_rule_stamped(m, config, all, tests, nodes),
        AnyRule::EmptyTest(_) => maintenance::lemma_empty_test_rule_stamped(m, config, all, tests, nodes),
        AnyRule::NestedDescribe(_) => maintenance::lemma_nested_describe_rule_stamped(m, config, all, tests, nodes),
        AnyRule::ReturnInTest(_) => maintenance::lemma_return_in_test_rule_stamped(m, config, all, tests, nodes),
        AnyRule::MissingAwaitAssertion(_) => maintenance::lemma_missing_await_assertion_rule_stamped(m, config, all, tests, nodes),
        AnyRule::FocusedTest(_) => maintenance::lemma_focused_test_rule_stamped(m, config, all, tests, nodes),
        AnyRule::MissingMockCleanup(_) => maintenance::lemma_missing_mock_cleanup_rule_stamped(m, config, all, tests, nodes),
        AnyRule::WeakAssertion(_) => maintenance::lemma_weak_assertion_rule_stamped(m, config, all, tests, nodes),
        AnyRule::ImplementationCoupled(_) => maintenance::lemma_implementation_coupled_rule_stamped(m, config, all, tests, nodes),
        AnyRule::BannedModuleMock(_) => dependencies::lemma_banned_module_mock_rule_stamped(m, config, all, tests, nodes),
        AnyRule::ProductionSingletonImport(_) => dependencies::lemma_production_singleton_import_rule_stamped(m, config, all, tests, nodes),
        AnyRule::ResetEscapeHatch(_) => dependencies::lemma_reset_escape_hatch_rule_stamped(m, config, all, tests, nodes),
        AnyRule::MockExportValidation(_) => dependencies::lemma_mock_export_validation_rule_stamped(m, config, all, tests, nodes),
        AnyRule::ValidExpect(_) => validation::lemma_valid_expect_rule_stamped(m, config, all, tests, nodes),
        AnyRule::ValidExpectInPromise(_) => validation::lemma_valid_expect_in_promise_rule_stamped(m, config, all, tests, nodes),
        AnyRule::ValidDescribeCallback(_) => validation::lemma_valid_describe_callback_rule_stamped(m, config, all, tests, nodes),
        AnyRule::ValidTitle(_) => validation::lemma_valid_title_rule_stamped(m, config, all, tests, nodes),
        AnyRule::NoUnneededAsyncExpectFunction(_) => validation::lemma_no_unneeded_async_expect_function_rule_stamped(m, config, all, tests, nodes),
        AnyRule::PwWaitForTimeout(_) => playwright::lemma_pw_wait_for_timeout_rule_stamped(m, config, all, tests, nodes),
        AnyRule::PwCssIdSelector(_) => playwright::lemma_pw_css_id_selector_rule_stamped(m, config, all, tests, nodes),
        AnyRule::PwXPathSelector(_) => playwright::lemma_pw_x_path_selector_rule_stamped(m, config, all, tests, nodes),
        AnyRule::PwLocatorNth(_) => playwright::lemma_pw_locator_nth_rule_stamped(m, config, all, tests, nodes),
        AnyRule::PwPageDollar(_) => playwright::lemma_pw_page_dollar_rule_stamped(m, config, all, tests, nodes),
        AnyRule::PwEvaluateInnerText(_) => playwright::lemma_pw_evaluate_inner_text_rule_stamped(m, config, all, tests, nodes),
        AnyRule::PwTextAssertionOverRole(_) => playwright::lemma_pw_text_assertion_over_role_rule_stamped(m, config, all, tests, nodes),
        AnyRule::PwTestIdOverSemanticRole(_) => playwright::lemma_pw_test_id_over_semantic_role_rule_stamped(m, config, all, tests, nodes),
        AnyRule::PwDuplicateSpecFile(_) => playwright::lemma_pw_duplicate_spec_file_rule_stamped(m, config, all, tests, nodes),
        AnyRule::PwArbitrarySleep(_) => playwright::lemma_pw_arbitrary_sleep_rule_stamped(m, config, all, tests, nodes),
        AnyRule::PwHardCssClassChain(_) => playwright::lemma_pw_hard_css_class_chain_rule_stamped(m, config, all, tests, nodes),
        AnyRule::PwMissingWebFirstAssertion(_) => playwright::lemma_pw_missing_web_first_assertion_rule_stamped(m, config, all, tests, nodes),
        AnyRule::PwMissingAxeScan(_) => playwright::lemma_pw_missing_axe_scan_rule_stamped(m, config, all, tests, nodes),
    }
}


/// Where every item gives at most one violation, `f` of the item, the
/// violations of a sequence of items are those of the items that give one,
/// in order.
pub proof fn lemma_scan_filter_map<T, R: ItemRule<T>>(
    r: R,
    m: ParsedModule,
    config: Config,
    s: Seq<T>,
    f: spec_fn(T) -> Option<ViolationView>,
)
    requires
        forall|x: T|
            #[trigger] r.spec_item(m, config, x) == match f(x) {
                Some(v) => seq![v],
                None => Seq::<ViolationView>::empty(),
            },
    ensures
        scan_spec(r, m, config, s) == crate::seqs::filter_map(s, f),
    decreases s.len(),
{
    if s.len() > 0 {
        lemma_scan_filter_map(r, m, config, s.drop_last(), f);
        let prev = scan_spec(r, m, config, s.drop_last());
        assert(r.spec_item(m, config, s.last()) == match f(s.last()) {
            Some(v) => seq![v],
            None => Seq::<ViolationView>::empty(),
        });
        match f(s.last()) {
            Some(v) => {
                assert(prev + seq![v] =~= prev.push(v));
            },
            None => {
                assert(prev + Seq::<ViolationView>::empty() =~= prev);
            },
        }
    }
}

/// Where no item gives a violation, a sequence of items gives none.
pub proof fn lemma_scan_silent<T, R: ItemRule<T>>(r: R, m: ParsedModule, config: Config, s: Seq<T>)
    requires
        forall|x: T| #[trigger] r.spec_item(m, config, x).len() == 0,
    ensures
        scan_spec(r, m, config, s) == Seq::<ViolationView>::empty(),
    decreases s.len(),
{
    if s.len() > 0 {
        lemma_scan_silent(r, m, config, s.drop_last());
        assert(r.spec_item(m, config, s.last()).len() == 0);
        assert(scan_spec(r, m, config, s) =~= Seq::<ViolationView>::empty());
    }
}

/// Each violation that an item gives is among the violations of a sequence
/// that holds the item.
pub proof fn lemma_scan_includes<T, R: ItemRule<T>>(
    r: R,
    m: ParsedModule,
    config: Config,
    s: Seq<T>,
    i: int,
    k: int,
)
    requires
        0 <= i < s.len(),
        0 <= k < r.spec_item(m, config, s[i]).len(),
    ensures
        exists|q: int|
            0 <= q < scan_spec(r, m, config, s).len() && #[trigger] scan_spec(r, m, config, s)[q]
                == r.spec_item(m, config, s[i])[k],
    decreases s.len(),
{
    let prev = scan_spec(r, m, config, s.drop_last());
    let whole = scan_spec(r, m, config, s);
    if i == s.len() - 1 {
        let q = prev.len() + k;
        assert(whole[q] == r.spec_item(m, config, s[i])[k]);
    } else {
        lemma_scan_includes(r, m, config, s.drop_last(), i, k);
        let q = choose|q: int| 0 <= q < prev.len() && #[trigger] prev[q] == r.spec_item(m, config, s.drop_last()[i])[k];
        assert(whole[q] == prev[q]);
    }
}

/// Each violation of a sequence of items is one that some item gives.
pub proof fn lemma_scan_origin<T, R: ItemRule<T>>(
    r: R,
    m: ParsedModule,
    config: Config,
    s: Seq<T>,
    q: int,
)
    requires
        0 <= q < scan_spec(r, m, config, s).len(),
    ensures
        exists|i: int, k: int|
            0 <= i < s.len() && 0 <= k < r.spec_item(m, config, s[i]).len()
                && scan_spec(r, m, config, s)[q] == #[trigger] r.spec_item(m, config, s[i])[k],
    decreases s.len(),
{
    let prev = scan_spec(r, m, config, s.drop_last());
    let whole = scan_spec(r, m, config, s);
    if q < prev.len() {
        lemma_scan_origin(r, m, config, s.drop_last(), q);
        let (i, k) = choose|i: int, k: int|
            0 <= i < s.drop_last().len() && 0 <= k < r.spec_item(m, config, s.drop_last()[i]).len()
                && prev[q] == #[trigger] r.spec_item(m, config, s.drop_last()[i])[k];
        assert(whole[q] == prev[q]);
        assert(s.drop_last()[i] == s[i]);
    } else {
        let i = s.len() - 1;
        let k = q - prev.len();
        assert(whole[q] == r.spec_item(m, config, s[i])[k]);
    }
}


/// The violations that `g` gives for each item of `s`, one item after the
/// other.
pub open spec fn concat_map<T>(s: Seq<T>, g: spec_fn(T) -> Seq<ViolationView>) -> Seq<ViolationView>
    decreases s.len(),
{
    if s.len() == 0 {
        Seq::empty()
    } else {
        concat_map(s.drop_last(), g) + g(s.last())
    }
}

/// Where each item gives the violations `g` of it, a sequence of items
/// gives them one item after the other.
pub proof fn lemma_scan_concat_map<T, R: ItemRule<T>>(
    r: R,
    m: ParsedModule,
    config: Config,
    s: Seq<T>,
    g: spec_fn(T) -> Seq<ViolationView>,
)
    requires
        forall|x: T| #[trigger] r.spec_item(m, config, x) == g(x),
    ensures
        scan_spec(r, m, config, s) == concat_map(s, g),
    decreases s.len(),
{
    if s.len() > 0 {
        lemma_scan_concat_map(r, m, config, s.drop_last(), g);
        assert(r.spec_item(m, config, s.last()) == g(s.last()));
    }
}

} // verus!
