//! The data model: violations, and the facts the parser records about a
//! test file that the rules read.

use vstd::prelude::*;

pub use crate::graph::ModuleGraph;

verus! {

/// Severity level for a lint violation, ordered Error > Warning > Info.
#[derive(Debug, Clone, Copy, PartialEq, Eq, PartialOrd, Ord, Hash, Structural)]
pub enum Severity {
    Error,
    Warning,
    Info,
}

/// Category grouping for lint rules.
#[derive(Debug, Clone, Copy, PartialEq, Eq, Hash, Structural)]
pub enum Category {
    Flakiness,
    Maintenance,
    Structure,
    Dependencies,
    Validation,
    Playwright,
}

/// The test runner a file is written for, as its imports show.
#[derive(Debug, Clone, Copy, PartialEq, Eq, Hash, Structural)]
pub enum TestRuntime {
    Vitest,
    Playwright,
    Unknown,
}

/// A single lint violation found by a rule.
#[derive(Debug, Clone)]
pub struct Violation {
    pub rule_id: String,
    pub rule_name: String,
    pub severity: Severity,
    pub category: Category,
    pub message: String,
    pub file_path: String,
    pub line: usize,
    pub col: Option<usize>,
    pub suggestion: Option<String>,
    pub test_name: Option<String>,
}

/// The mathematical value of a [`Violation`].
pub struct ViolationView {
    pub rule_id: Seq<char>,
    pub rule_name: Seq<char>,
    pub severity: Severity,
    pub category: Category,
    pub message: Seq<char>,
    pub file_path: Seq<char>,
    pub line: usize,
    pub col: Option<usize>,
    pub suggestion: Option<Seq<char>>,
    pub test_name: Option<Seq<char>>,
}

/// The view of an optional string.
pub open spec fn opt_view(o: Option<String>) -> Option<Seq<char>> {
    match o {
        Some(s) => Some(s@),
        None => None,
    }
}

impl View for Violation {
    type V = ViolationView;

    open spec fn view(&self) -> ViolationView {
        ViolationView {
            rule_id: self.rule_id@,
            rule_name: self.rule_name@,
            severity: self.severity,
            category: self.category,
            message: self.message@,
            file_path: self.file_path@,
            line: self.line,
            col: self.col,
            suggestion: opt_view(self.suggestion),
            test_name: opt_view(self.test_name),
        }
    }
}

/// The views of a sequence of violations.
pub open spec fn violations_view(vs: Seq<Violation>) -> Seq<ViolationView> {
    vs.map_values(|v: Violation| v@)
}

/// A `test(...)` / `it(...)` block and what its body does.
#[derive(Debug, Clone)]
pub struct TestBlock {
    pub name: String,
    pub file_path: String,
    pub line: usize,
    pub has_assertions: bool,
    pub assertion_count: usize,
    pub has_conditional_logic: bool,
    pub has_try_catch: bool,
    pub uses_settimeout: bool,
    pub uses_datemock: bool,
    pub has_multiple_expects: bool,
    pub is_skipped: bool,
    pub is_only: bool,
    pub is_nested: bool,
    pub has_return_statement: bool,
    pub unawaited_async_assertions: usize,
    pub uses_fake_timers: bool,
    pub uses_random: bool,
    pub has_expect_call_without_assertion: bool,
    pub has_return_of_expect: bool,
    pub title_is_template_literal: bool,
    pub has_async_expect_wrapper: bool,
    pub uses_fit_or_xit: bool,
    pub has_done_callback: bool,
    pub has_conditional_expect: bool,
    pub weak_assertion_count: usize,
    pub has_real_timers_call: bool,
}

/// A `describe(...)` block.
#[derive(Debug, Clone)]
pub struct DescribeBlock {
    pub name: String,
    pub file_path: String,
    pub line: usize,
    pub is_only: bool,
    pub depth: usize,
    pub title_is_template_literal: bool,
    pub title_is_empty: bool,
    pub is_async: bool,
}

/// An `expect(...)` call that stands outside any test body.
#[derive(Debug, Clone)]
pub struct ExpectOutsideTest {
    pub line: usize,
}

/// The size of an inline snapshot.
#[derive(Debug, Clone)]
pub struct SnapshotSize {
    pub line: usize,
    pub size: usize,
}

/// How a module exports a name.
#[derive(Debug, Clone, Copy, PartialEq, Eq, Structural)]
pub enum ExportKind {
    Named,
    Default,
    Namespace,
}

/// One exported name of a module.
#[derive(Debug, Clone)]
pub struct ExportEntry {
    pub name: String,
    pub kind: ExportKind,
    pub line: usize,
}

/// Level of a diagnostic message.
#[derive(Debug, Clone, Copy, PartialEq, Eq, Structural)]
pub enum DiagnosticLevel {
    Info,
    Warning,
}

/// A message about the linting itself (not a test smell).
#[derive(Debug, Clone)]
pub struct Diagnostic {
    pub level: DiagnosticLevel,
    pub message: String,
    pub file_path: Option<String>,
}

/// One `import` statement, taken apart.
#[derive(Debug, Clone)]
pub struct ImportEntry {
    pub source: String,
    pub named: Vec<String>,
    pub default: Option<String>,
    pub namespace: Option<String>,
    pub line: usize,
}

/// The lexical place of a `vi.mock(...)` call.
#[derive(Debug, Clone, Copy, PartialEq, Eq, Structural)]
pub enum MockScope {
    Module,
    Hook,
    Test,
}

/// A `vi.mock(<source>, ...)` call.
#[derive(Debug, Clone)]
pub struct ViMockCall {
    pub source: String,
    pub line: usize,
    pub scope: MockScope,
    pub factory_keys: Vec<String>,
}

/// The four lifecycle hooks.
#[derive(Debug, Clone, Copy, PartialEq, Eq, Structural)]
pub enum HookKind {
    BeforeEach,
    AfterEach,
    BeforeAll,
    AfterAll,
}

/// A lifecycle hook call and the `vi.*` functions called in its body.
#[derive(Debug, Clone)]
pub struct HookCall {
    pub kind: HookKind,
    pub line: usize,
    pub vi_calls: Vec<String>,
}

/// A call made through the Playwright API.
#[derive(Debug, Clone)]
pub struct PlaywrightCall {
    pub call_name: String,
    pub line: usize,
    pub raw_arg: Option<String>,
}

/// A locator chain such as `page.locator('#x').nth(2)`.
#[derive(Debug, Clone)]
pub struct LocatorChain {
    pub root: String,
    pub raw_arg: Option<String>,
    pub method: String,
    pub line: usize,
}

/// The Playwright facts of a file.
#[derive(Debug, Clone)]
pub struct PlaywrightModule {
    pub calls: Vec<PlaywrightCall>,
    pub locator_chains: Vec<LocatorChain>,
    pub evaluate_inner_text: Vec<usize>,
    pub uses_axe: bool,
}

/// Everything the rules read about one test file.
#[derive(Debug, Clone)]
pub struct ParsedModule {
    pub file_path: String,
    pub imports: Vec<String>,
    pub imports_parsed: Vec<ImportEntry>,
    pub vi_mocks: Vec<ViMockCall>,
    pub hook_calls: Vec<HookCall>,
    pub test_blocks: Vec<TestBlock>,
    pub describe_blocks: Vec<DescribeBlock>,
    pub has_fake_timers: bool,
    pub expects_outside_tests: Vec<ExpectOutsideTest>,
    pub imports_node_test: bool,
    pub snapshot_sizes: Vec<SnapshotSize>,
    pub exports: Vec<ExportEntry>,
    pub runtime: TestRuntime,
    pub playwright: Option<PlaywrightModule>,
}

impl Default for ParsedModule {
    /// An empty module with an empty path and an unknown runtime.
    fn default() -> (m: Self)
        ensures
            m.file_path@ == Seq::<char>::empty(),
            m.imports@ == Seq::<String>::empty(),
            m.imports_parsed@ == Seq::<ImportEntry>::empty(),
            m.vi_mocks@ == Seq::<ViMockCall>::empty(),
            m.hook_calls@ == Seq::<HookCall>::empty(),
            m.test_blocks@ == Seq::<TestBlock>::empty(),
            m.describe_blocks@ == Seq::<DescribeBlock>::empty(),
            !m.has_fake_timers,
            m.expects_outside_tests@ == Seq::<ExpectOutsideTest>::empty(),
            !m.imports_node_test,
            m.snapshot_sizes@ == Seq::<SnapshotSize>::empty(),
            m.exports@ == Seq::<ExportEntry>::empty(),
            m.runtime == TestRuntime::Unknown,
            m.playwright.is_none(),
    {
        ParsedModule {
            file_path: String::new(),
            imports: Vec::new(),
            imports_parsed: Vec::new(),
            vi_mocks: Vec::new(),
            hook_calls: Vec::new(),
            test_blocks: Vec::new(),
            describe_blocks: Vec::new(),
            has_fake_timers: false,
            expects_outside_tests: Vec::new(),
            imports_node_test: false,
            snapshot_sizes: Vec::new(),
            exports: Vec::new(),
            runtime: TestRuntime::Unknown,
            playwright: None,
        }
    }
}

/// A copy of a string.
pub fn copy_string(s: &String) -> (r: String)
    ensures
        r@ == s@,
{
    s.clone()
}

/// A copy of an optional string.
pub fn copy_opt_string(s: &Option<String>) -> (r: Option<String>)
    ensures
        opt_view(r) == opt_view(*s),
{
    match s {
        Some(x) => Some(x.clone()),
        None => None,
    }
}

/// A copy of a list of strings.
pub fn copy_strings(v: &Vec<String>) -> (r: Vec<String>)
    ensures
        r@ == v@,
{
    let mut r: Vec<String> = Vec::new();
    let mut i: usize = 0;
    while i < v.len()
        invariant
            i <= v.len(),
            r@ == v@.take(i as int),
        decreases v.len() - i,
    {
        r.push(v[i].clone());
        assert(v@.take(i + 1) == v@.take(i as int).push(v@[i as int]));
        i = i + 1;
    }
    assert(v@.take(v.len() as int) == v@);
    r
}

/// A copy of a violation.
pub fn copy_violation(v: &Violation) -> (r: Violation)
    ensures
        r@ == v@,
{
    Violation {
        rule_id: copy_string(&v.rule_id),
        rule_name: copy_string(&v.rule_name),
        severity: v.severity,
        category: v.category,
        message: copy_string(&v.message),
        file_path: copy_string(&v.file_path),
        line: v.line,
        col: v.col,
        suggestion: copy_opt_string(&v.suggestion),
        test_name: copy_opt_string(&v.test_name),
    }
}

/// The view of a list of strings.
pub open spec fn strings_view(v: Seq<String>) -> Seq<Seq<char>> {
    v.map_values(|s: String| s@)
}

/// The mathematical value of an [`ImportEntry`].
pub struct ImportView {
    pub source: Seq<char>,
    pub named: Seq<Seq<char>>,
    pub default: Option<Seq<char>>,
    pub namespace: Option<Seq<char>>,
    pub line: usize,
}

impl View for ImportEntry {
    type V = ImportView;

    open spec fn view(&self) -> ImportView {
        ImportView {
            source: self.source@,
            named: strings_view(self.named@),
            default: opt_view(self.default),
            namespace: opt_view(self.namespace),
            line: self.line,
        }
    }
}

/// The mathematical value of a [`ViMockCall`].
pub struct MockView {
    pub source: Seq<char>,
    pub line: usize,
    pub scope: MockScope,
    pub factory_keys: Seq<Seq<char>>,
}

impl View for ViMockCall {
    type V = MockView;

    open spec fn view(&self) -> MockView {
        MockView {
            source: self.source@,
            line: self.line,
            scope: self.scope,
            factory_keys: strings_view(self.factory_keys@),
        }
    }
}

/// The mathematical value of a [`HookCall`].
pub struct HookView {
    pub kind: HookKind,
    pub line: usize,
    pub vi_calls: Seq<Seq<char>>,
}

impl View for HookCall {
    type V = HookView;

    open spec fn view(&self) -> HookView {
        HookView { kind: self.kind, line: self.line, vi_calls: strings_view(self.vi_calls@) }
    }
}

/// The mathematical value of a [`TestBlock`]: its texts as character
/// sequences, its flags and counts as they are.
pub struct TestView {
    pub name: Seq<char>,
    pub file_path: Seq<char>,
    pub line: usize,
    pub has_assertions: bool,
    pub assertion_count: usize,
    pub has_conditional_logic: bool,
    pub has_try_catch: bool,
    pub uses_settimeout: bool,
    pub uses_datemock: bool,
    pub has_multiple_expects: bool,
    pub is_skipped: bool,
    pub is_only: bool,
    pub is_nested: bool,
    pub has_return_statement: bool,
    pub unawaited_async_assertions: usize,
    pub uses_fake_timers: bool,
    pub uses_random: bool,
    pub has_expect_call_without_assertion: bool,
    pub has_return_of_expect: bool,
    pub title_is_template_literal: bool,
    pub has_async_expect_wrapper: bool,
    pub uses_fit_or_xit: bool,
    pub has_done_callback: bool,
    pub has_conditional_expect: bool,
    pub weak_assertion_count: usize,
    pub has_real_timers_call: bool,
}

impl View for TestBlock {
    type V = TestView;

    open spec fn view(&self) -> TestView {
        TestView {
            name: self.name@,
            file_path: self.file_path@,
            line: self.line,
            has_assertions: self.has_assertions,
            assertion_count: self.assertion_count,
            has_conditional_logic: self.has_conditional_logic,
            has_try_catch: self.has_try_catch,
            uses_settimeout: self.uses_settimeout,
            uses_datemock: self.uses_datemock,
            has_multiple_expects: self.has_multiple_expects,
            is_skipped: self.is_skipped,
            is_only: self.is_only,
            is_nested: self.is_nested,
            has_return_statement: self.has_return_statement,
            unawaited_async_assertions: self.unawaited_async_assertions,
            uses_fake_timers: self.uses_fake_timers,
            uses_random: self.uses_random,
            has_expect_call_without_assertion: self.has_expect_call_without_assertion,
            has_return_of_expect: self.has_return_of_expect,
            title_is_template_literal: self.title_is_template_literal,
            has_async_expect_wrapper: self.has_async_expect_wrapper,
            uses_fit_or_xit: self.uses_fit_or_xit,
            has_done_callback: self.has_done_callback,
            has_conditional_expect: self.has_conditional_expect,
            weak_assertion_count: self.weak_assertion_count,
            has_real_timers_call: self.has_real_timers_call,
        }
    }
}

/// The mathematical value of a [`DescribeBlock`].
pub struct DescribeView {
    pub name: Seq<char>,
    pub file_path: Seq<char>,
    pub line: usize,
    pub is_only: bool,
    pub depth: usize,
    pub title_is_template_literal: bool,
    pub title_is_empty: bool,
    pub is_async: bool,
}

impl View for DescribeBlock {
    type V = DescribeView;

    open spec fn view(&self) -> DescribeView {
        DescribeView {
            name: self.name@,
            file_path: self.file_path@,
            line: self.line,
            is_only: self.is_only,
            depth: self.depth,
            title_is_template_literal: self.title_is_template_literal,
            title_is_empty: self.title_is_empty,
            is_async: self.is_async,
        }
    }
}

/// The mathematical value of an [`ExportEntry`].
pub struct ExportView {
    pub name: Seq<char>,
    pub kind: ExportKind,
    pub line: usize,
}

impl View for ExportEntry {
    type V = ExportView;

    open spec fn view(&self) -> ExportView {
        ExportView { name: self.name@, kind: self.kind, line: self.line }
    }
}

/// The mathematical value of a [`PlaywrightCall`].
pub struct CallView {
    pub call_name: Seq<char>,
    pub line: usize,
    pub raw_arg: Option<Seq<char>>,
}

impl View for PlaywrightCall {
    type V = CallView;

    open spec fn view(&self) -> CallView {
        CallView { call_name: self.call_name@, line: self.line, raw_arg: opt_view(self.raw_arg) }
    }
}

/// The mathematical value of a [`LocatorChain`].
pub struct ChainView {
    pub root: Seq<char>,
    pub raw_arg: Option<Seq<char>>,
    pub method: Seq<char>,
    pub line: usize,
}

impl View for LocatorChain {
    type V = ChainView;

    open spec fn view(&self) -> ChainView {
        ChainView { root: self.root@, raw_arg: opt_view(self.raw_arg), method: self.method@, line: self.line }
    }
}

/// The views of the items of a list.
pub open spec fn views<T: View>(s: Seq<T>) -> Seq<T::V> {
    s.map_values(|x: T| x@)
}

/// The mathematical value of a [`PlaywrightModule`].
pub struct PlaywrightView {
    pub calls: Seq<CallView>,
    pub locator_chains: Seq<ChainView>,
    pub evaluate_inner_text: Seq<usize>,
    pub uses_axe: bool,
}

impl View for PlaywrightModule {
    type V = PlaywrightView;

    open spec fn view(&self) -> PlaywrightView {
        PlaywrightView {
            calls: views(self.calls@),
            locator_chains: views(self.locator_chains@),
            evaluate_inner_text: self.evaluate_inner_text@,
            uses_axe: self.uses_axe,
        }
    }
}

/// The mathematical value of a [`ParsedModule`].
pub struct ModuleView {
    pub file_path: Seq<char>,
    pub imports: Seq<Seq<char>>,
    pub imports_parsed: Seq<ImportView>,
    pub vi_mocks: Seq<MockView>,
    pub hook_calls: Seq<HookView>,
    pub test_blocks: Seq<TestView>,
    pub describe_blocks: Seq<DescribeView>,
    pub has_fake_timers: bool,
    pub expects_outside_tests: Seq<usize>,
    pub imports_node_test: bool,
    pub snapshot_sizes: Seq<(usize, usize)>,
    pub exports: Seq<ExportView>,
    pub runtime: TestRuntime,
    pub playwright: Option<PlaywrightView>,
}

impl View for ParsedModule {
    type V = ModuleView;

    open spec fn view(&self) -> ModuleView {
        ModuleView {
            file_path: self.file_path@,
            imports: strings_view(self.imports@),
            imports_parsed: views(self.imports_parsed@),
            vi_mocks: views(self.vi_mocks@),
            hook_calls: views(self.hook_calls@),
            test_blocks: views(self.test_blocks@),
            describe_blocks: views(self.describe_blocks@),
            has_fake_timers: self.has_fake_timers,
            expects_outside_tests: self.expects_outside_tests@.map_values(|e: ExpectOutsideTest| e.line),
            imports_node_test: self.imports_node_test,
            snapshot_sizes: self.snapshot_sizes@.map_values(|s: SnapshotSize| (s.line, s.size)),
            exports: views(self.exports@),
            runtime: self.runtime,
            playwright: match self.playwright {
                Some(p) => Some(p@),
                None => None,
            },
        }
    }
}

} // verus!
