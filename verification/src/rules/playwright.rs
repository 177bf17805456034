//! Rules for Playwright test files: brittle selectors, arbitrary waits and
//! missing accessibility checks. They are evaluated for Playwright files only.

use vstd::prelude::*;
use crate::config::Config;
use crate::models::{Category, LocatorChain, ModuleGraph, ParsedModule, PlaywrightCall, Severity, TestRuntime, Violation, ViolationView, violations_view};
use crate::paths::{components, components_eq, file_stem, path_components, path_file_stem};
use crate::rules::{lemma_scan_filter_map, ItemRule, LintContext, Rule, all_stamped, lemma_scan_stamped, lemma_stamped_concat, cat3, file_view, file_violation, lemma_concat_empty, lemma_violations_empty, push_violation, scan, scan_spec};
use crate::seqs::filter_map;
use crate::text::{occurs_at, char_is_ws, chars_of, contains, decimal, decimal_string, has_char, is_ws, owned, starts_with, str_contains, str_eq, str_has_char, str_starts_with, str_to_lowercase, unicode_lowercase};

verus! {

/// Whether a locator argument selects by CSS id: it starts with `#`, or
/// holds a `#` and no `data-testid`.
pub open spec fn css_id_selector(a: Seq<char>) -> bool {
    starts_with(a, "#"@) || (has_char(a, '#') && !starts_with(a, "[data-testid"@) && !contains(
        a,
        "data-testid"@,
    ))
}

/// Whether a locator chain's argument selects by CSS id.
pub open spec fn css_id_chain(c: LocatorChain) -> bool {
    match c.raw_arg {
        Some(a) => css_id_selector(a@),
        None => false,
    }
}

/// Decides `css_id_chain`.
fn is_css_id_chain(c: &LocatorChain) -> (b: bool)
    ensures
        b == css_id_chain(*c),
{
    match &c.raw_arg {
        Some(a) => {
            let a = a.as_str();
            str_starts_with(a, "#") || (str_has_char(a, '#') && !str_starts_with(a, "[data-testid")
                && !str_contains(a, "data-testid"))
        },
        None => false,
    }
}

/// Whether `s` holds two words: a white-space character with a non-space
/// character on either side of it, somewhere before and after
/// (`s.split_whitespace().count() > 1`).
pub open spec fn two_words(s: Seq<char>) -> bool {
    exists|i: int, j: int, k: int|
        0 <= i < j < k < s.len() && !is_ws(#[trigger] s[i]) && is_ws(#[trigger] s[j]) && !is_ws(
            #[trigger] s[k],
        )
}

/// The first position at or after `from` whose character is white space
/// exactly when `want` is, or the length.
fn next_where_ws(s: &[char], from: usize, want: bool) -> (r: usize)
    requires
        from <= s.len(),
    ensures
        from <= r <= s.len(),
        forall|q: int| from <= q < r ==> is_ws(#[trigger] s@[q]) != want,
        r < s.len() ==> is_ws(s@[r as int]) == want,
{
    let mut i = from;
    while i < s.len() && char_is_ws(s[i]) != want
        invariant
            from <= i <= s.len(),
            forall|q: int| from <= q < i ==> is_ws(#[trigger] s@[q]) != want,
        decreases s.len() - i,
    {
        i = i + 1;
    }
    i
}

/// Decides `two_words`.
fn has_two_words(s: &str) -> (b: bool)
    ensures
        b == two_words(s@),
{
    let cs = chars_of(s);
    let c = cs.as_slice();
    let f = next_where_ws(c, 0, false);
    if f == c.len() {
        proof {
            if two_words(s@) {
                let (i, j, k) = choose|i: int, j: int, k: int|
                    0 <= i < j < k < s@.len() && !is_ws(#[trigger] s@[i]) && is_ws(#[trigger] s@[j])
                        && !is_ws(#[trigger] s@[k]);
                assert(is_ws(c@[i]) != false);
            }
        }
        return false;
    }
    let j = next_where_ws(c, f, true);
    if j == c.len() {
        proof {
            if two_words(s@) {
                let (i0, j0, k0) = choose|i: int, j: int, k: int|
                    0 <= i < j < k < s@.len() && !is_ws(#[trigger] s@[i]) && is_ws(#[trigger] s@[j])
                        && !is_ws(#[trigger] s@[k]);
                if i0 < f {
                    assert(is_ws(c@[i0]) != false);
                }
                assert(is_ws(c@[j0]) != true);
            }
        }
        return false;
    }
    let k = next_where_ws(c, j, false);
    if k == c.len() {
        proof {
            if two_words(s@) {
                let (i0, j0, k0) = choose|i: int, j: int, k: int|
                    0 <= i < j < k < s@.len() && !is_ws(#[trigger] s@[i]) && is_ws(#[trigger] s@[j])
                        && !is_ws(#[trigger] s@[k]);
                if i0 < f {
                    assert(is_ws(c@[i0]) != false);
                }
                if j0 < j {
                    assert(is_ws(c@[j0]) != true);
                }
                assert(is_ws(c@[k0]) != false);
            }
        }
        return false;
    }
    assert(!is_ws(s@[f as int]) && is_ws(s@[j as int]) && !is_ws(s@[k as int]));
    true
}

/// Whether a locator argument is a hard CSS class chain: it holds a class
/// (`.`) and either a child combinator ` > ` or more than one word.
pub open spec fn hard_css_selector(a: Seq<char>) -> bool {
    let has_child = contains(a, " > "@);
    let has_descendant = two_words(a) && !has_child && has_char(a, '.');
    (has_child || has_descendant) && has_char(a, '.')
}

/// Whether a locator chain's argument is a hard CSS class chain.
pub open spec fn hard_css_chain(c: LocatorChain) -> bool {
    match c.raw_arg {
        Some(a) => hard_css_selector(a@),
        None => false,
    }
}

/// Decides `hard_css_chain`.
fn is_hard_css_chain(c: &LocatorChain) -> (b: bool)
    ensures
        b == hard_css_chain(*c),
{
    match &c.raw_arg {
        Some(a) => {
            let a = a.as_str();
            let has_child = str_contains(a, " > ");
            let has_descendant = has_two_words(a) && !has_child && str_has_char(a, '.');
            (has_child || has_descendant) && str_has_char(a, '.')
        },
        None => false,
    }
}

/// Whether a locator chain uses XPath: the `xpath` method, or an argument
/// that starts with `xpath=` or `//`.
pub open spec fn xpath_chain(c: LocatorChain) -> bool {
    c.method@ == "xpath"@ || match c.raw_arg {
        Some(a) => starts_with(a@, "xpath="@) || starts_with(a@, "//"@),
        None => false,
    }
}

/// Decides `xpath_chain`.
fn is_xpath_chain(c: &LocatorChain) -> (b: bool)
    ensures
        b == xpath_chain(*c),
{
    if str_eq(c.method.as_str(), "xpath") {
        return true;
    }
    match &c.raw_arg {
        Some(a) => str_starts_with(a.as_str(), "xpath=") || str_starts_with(a.as_str(), "//"),
        None => false,
    }
}

/// Whether an XPath locator chain of `m` stands on `line`.
pub open spec fn xpath_line(m: ParsedModule, line: usize) -> bool {
    match m.playwright {
        Some(pw) => exists|i: int|
            0 <= i < pw.locator_chains@.len() && xpath_chain(#[trigger] pw.locator_chains@[i])
                && pw.locator_chains@[i].line == line,
        None => false,
    }
}

/// Decides `xpath_line`.
fn has_xpath_line(m: &ParsedModule, line: usize) -> (b: bool)
    ensures
        b == xpath_line(*m, line),
{
    match &m.playwright {
        Some(pw) => {
            let mut i: usize = 0;
            while i < pw.locator_chains.len()
                invariant
                    i <= pw.locator_chains@.len(),
                    m.playwright == Some(*pw),
                    forall|j: int|
                        0 <= j < i ==> !(xpath_chain(#[trigger] pw.locator_chains@[j])
                            && pw.locator_chains@[j].line == line),
                decreases pw.locator_chains@.len() - i,
            {
                let c = &pw.locator_chains[i];
                if is_xpath_chain(c) && c.line == line {
                    assert(xpath_chain(pw.locator_chains@[i as int]) && pw.locator_chains@[i as int].line == line);
                    return true;
                }
                i = i + 1;
            }
            false
        },
        None => false,
    }
}

/// Flags `waitForTimeout` calls, which wait for a fixed time.
#[derive(Debug, Clone, Copy)]
pub struct PwWaitForTimeoutRule;

impl ItemRule<PlaywrightCall> for PwWaitForTimeoutRule {
    open spec fn spec_item(&self, m: ParsedModule, config: Config, x: PlaywrightCall) -> Seq<ViolationView> {
        if contains(x.call_name@, "waitForTimeout"@) {
            seq![file_view("VITEST-PW-001"@, "PwWaitForTimeoutRule"@, Severity::Warning, Category::Playwright, "waitForTimeout causes flaky waits \u{2014} prefer auto-retry assertions or waitForSelector"@, m.file_path@, x.line, "Replace with await page.waitForSelector(...) or an assertion-based wait"@)]
        } else {
            Seq::empty()
        }
    }

    fn check_item(&self, m: &ParsedModule, config: &Config, x: &PlaywrightCall, out: &mut Vec<Violation>) {
        let ghost start = violations_view(out@);
        if str_contains(x.call_name.as_str(), "waitForTimeout") {
            let v = file_violation("VITEST-PW-001", "PwWaitForTimeoutRule", Severity::Warning, Category::Playwright, owned("waitForTimeout causes flaky waits \u{2014} prefer auto-retry assertions or waitForSelector"), &m.file_path, x.line, "Replace with await page.waitForSelector(...) or an assertion-based wait");
            push_violation(out, v);
        } else {
            proof { lemma_concat_empty(violations_view(out@)); }
        }
        assert(violations_view(out@) =~= start + self.spec_item(*m, *config, *x));
    }
}

impl Rule for PwWaitForTimeoutRule {
    open spec fn spec_id(&self) -> Seq<char> {
        "VITEST-PW-001"@
    }

    open spec fn spec_name(&self) -> Seq<char> {
        "PwWaitForTimeoutRule"@
    }

    open spec fn spec_severity(&self) -> Severity {
        Severity::Warning
    }

    open spec fn spec_category(&self) -> Category {
        Category::Playwright
    }

    open spec fn spec_applies(&self, runtime: TestRuntime) -> bool {
        runtime == TestRuntime::Playwright
    }

    open spec fn spec_check(
        &self,
        m: ParsedModule,
        config: Config,
        all: Seq<ParsedModule>,
        tests: Seq<ParsedModule>,
        nodes: Seq<ParsedModule>,
    ) -> Seq<ViolationView> {
        match m.playwright {
            Some(pw) => scan_spec(*self, m, config, pw.calls@),
            None => Seq::empty(),
        }
    }

    fn id(&self) -> &'static str {
        "VITEST-PW-001"
    }

    fn name(&self) -> &'static str {
        "PwWaitForTimeoutRule"
    }

    fn severity(&self) -> Severity {
        Severity::Warning
    }

    fn category(&self) -> Category {
        Category::Playwright
    }

    fn applies_to_runtime(&self, runtime: TestRuntime) -> bool {
        runtime == TestRuntime::Playwright
    }

    fn check(&self, module: &ParsedModule, ctx: &LintContext, graph: &ModuleGraph) -> Vec<Violation> {
        let mut out: Vec<Violation> = Vec::new();
        proof { lemma_violations_empty(); }
        match &module.playwright {
            Some(pw) => {
                scan(self, module, ctx.config, pw.calls.as_slice(), &mut out);
            },
            None => {},
        }
        assert(violations_view(out@) =~= self.spec_check(*module, *ctx.config, ctx.all_modules@, graph.test_seq(), graph.node_seq()));
        out
    }
}

/// Every violation of `PwWaitForTimeoutRule` carries its id, name, severity and
/// category.
pub proof fn lemma_pw_wait_for_timeout_rule_stamped(
    m: ParsedModule,
    config: Config,
    all: Seq<ParsedModule>,
    tests: Seq<ParsedModule>,
    nodes: Seq<ParsedModule>,
)
    ensures
        all_stamped(
            PwWaitForTimeoutRule.spec_check(m, config, all, tests, nodes),
            "VITEST-PW-001"@,
            "PwWaitForTimeoutRule"@,
            Severity::Warning,
            Category::Playwright,
        ),
{
    match m.playwright {
        Some(pw) => {
            lemma_scan_stamped(PwWaitForTimeoutRule, m, config, pw.calls@, "VITEST-PW-001"@, "PwWaitForTimeoutRule"@, Severity::Warning, Category::Playwright);
        },
        None => {},
    }
}

/// Flags XPath selectors: `xpath` locators, `xpath=` or `//` arguments, and `.xpath` calls on a line without such a locator.
#[derive(Debug, Clone, Copy)]
pub struct PwXPathSelectorRule;

impl ItemRule<LocatorChain> for PwXPathSelectorRule {
    open spec fn spec_item(&self, m: ParsedModule, config: Config, x: LocatorChain) -> Seq<ViolationView> {
        if xpath_chain(x) {
            seq![file_view("VITEST-PW-003"@, "PwXPathSelectorRule"@, Severity::Warning, Category::Playwright, "XPath selectors are brittle \u{2014} prefer role/text/accessible-name locators"@, m.file_path@, x.line, "Use getByRole, getByText, or getByTestId instead"@)]
        } else {
            Seq::empty()
        }
    }

    fn check_item(&self, m: &ParsedModule, config: &Config, x: &LocatorChain, out: &mut Vec<Violation>) {
        let ghost start = violations_view(out@);
        if is_xpath_chain(x) {
            let v = file_violation("VITEST-PW-003", "PwXPathSelectorRule", Severity::Warning, Category::Playwright, owned("XPath selectors are brittle \u{2014} prefer role/text/accessible-name locators"), &m.file_path, x.line, "Use getByRole, getByText, or getByTestId instead");
            push_violation(out, v);
        } else {
            proof { lemma_concat_empty(violations_view(out@)); }
        }
        assert(violations_view(out@) =~= start + self.spec_item(*m, *config, *x));
    }
}

impl ItemRule<PlaywrightCall> for PwXPathSelectorRule {
    open spec fn spec_item(&self, m: ParsedModule, config: Config, x: PlaywrightCall) -> Seq<ViolationView> {
        if contains(x.call_name@, ".xpath"@) && !xpath_line(m, x.line) {
            seq![file_view("VITEST-PW-003"@, "PwXPathSelectorRule"@, Severity::Warning, Category::Playwright, "XPath selectors are brittle \u{2014} prefer role/text/accessible-name locators"@, m.file_path@, x.line, "Use getByRole, getByText, or getByTestId instead"@)]
        } else {
            Seq::empty()
        }
    }

    fn check_item(&self, m: &ParsedModule, config: &Config, x: &PlaywrightCall, out: &mut Vec<Violation>) {
        let ghost start = violations_view(out@);
        if str_contains(x.call_name.as_str(), ".xpath") && !has_xpath_line(m, x.line) {
            let v = file_violation("VITEST-PW-003", "PwXPathSelectorRule", Severity::Warning, Category::Playwright, owned("XPath selectors are brittle \u{2014} prefer role/text/accessible-name locators"), &m.file_path, x.line, "Use getByRole, getByText, or getByTestId instead");
            push_violation(out, v);
        } else {
            proof { lemma_concat_empty(violations_view(out@)); }
        }
        assert(violations_view(out@) =~= start + self.spec_item(*m, *config, *x));
    }
}

impl Rule for PwXPathSelectorRule {
    open spec fn spec_id(&self) -> Seq<char> {
        "VITEST-PW-003"@
    }

    open spec fn spec_name(&self) -> Seq<char> {
        "PwXPathSelectorRule"@
    }

    open spec fn spec_severity(&self) -> Severity {
        Severity::Warning
    }

    open spec fn spec_category(&self) -> Category {
        Category::Playwright
    }

    open spec fn spec_applies(&self, runtime: TestRuntime) -> bool {
        runtime == TestRuntime::Playwright
    }

    open spec fn spec_check(
        &self,
        m: ParsedModule,
        config: Config,
        all: Seq<ParsedModule>,
        tests: Seq<ParsedModule>,
        nodes: Seq<ParsedModule>,
    ) -> Seq<ViolationView> {
        match m.playwright {
            Some(pw) => scan_spec(*self, m, config, pw.locator_chains@) + scan_spec(*self, m, config, pw.calls@),
            None => Seq::empty(),
        }
    }

    fn id(&self) -> &'static str {
        "VITEST-PW-003"
    }

    fn name(&self) -> &'static str {
        "PwXPathSelectorRule"
    }

    fn severity(&self) -> Severity {
        Severity::Warning
    }

    fn category(&self) -> Category {
        Category::Playwright
    }

    fn applies_to_runtime(&self, runtime: TestRuntime) -> bool {
        runtime == TestRuntime::Playwright
    }

    fn check(&self, module: &ParsedModule, ctx: &LintContext, graph: &ModuleGraph) -> Vec<Violation> {
        let mut out: Vec<Violation> = Vec::new();
        proof { lemma_violations_empty(); }
        match &module.playwright {
            Some(pw) => {
                scan(self, module, ctx.config, pw.locator_chains.as_slice(), &mut out);
                scan(self, module, ctx.config, pw.calls.as_slice(), &mut out);
            },
            None => {},
        }
        assert(violations_view(out@) =~= self.spec_check(*module, *ctx.config, ctx.all_modules@, graph.test_seq(), graph.node_seq()));
        out
    }
}

/// Every violation of `PwXPathSelectorRule` carries its id, name, severity and
/// category.
pub proof fn lemma_pw_x_path_selector_rule_stamped(
    m: ParsedModule,
    config: Config,
    all: Seq<ParsedModule>,
    tests: Seq<ParsedModule>,
    nodes: Seq<ParsedModule>,
)
    ensures
        all_stamped(
            PwXPathSelectorRule.spec_check(m, config, all, tests, nodes),
            "VITEST-PW-003"@,
            "PwXPathSelectorRule"@,
            Severity::Warning,
            Category::Playwright,
        ),
{
    match m.playwright {
        Some(pw) => {
            lemma_scan_stamped(PwXPathSelectorRule, m, config, pw.locator_chains@, "VITEST-PW-003"@, "PwXPathSelectorRule"@, Severity::Warning, Category::Playwright);
            lemma_scan_stamped(PwXPathSelectorRule, m, config, pw.calls@, "VITEST-PW-003"@, "PwXPathSelectorRule"@, Severity::Warning, Category::Playwright);
            lemma_stamped_concat(scan_spec(PwXPathSelectorRule, m, config, pw.locator_chains@), scan_spec(PwXPathSelectorRule, m, config, pw.calls@), "VITEST-PW-003"@, "PwXPathSelectorRule"@, Severity::Warning, Category::Playwright);
        },
        None => {},
    }
}

/// Flags positional `.nth()` locators, once per line.
#[derive(Debug, Clone, Copy)]
pub struct PwLocatorNthRule;

impl ItemRule<LocatorChain> for PwLocatorNthRule {
    open spec fn spec_item(&self, m: ParsedModule, config: Config, x: LocatorChain) -> Seq<ViolationView> {
        if x.method@ == "nth"@ {
            seq![file_view("VITEST-PW-004"@, "PwLocatorNthRule"@, Severity::Warning, Category::Playwright, ".nth() positional locator is fragile \u{2014} DOM order may change"@, m.file_path@, x.line, "Use a more specific locator (getByRole, getByTestId) or .filter() instead"@)]
        } else {
            Seq::empty()
        }
    }

    fn check_item(&self, m: &ParsedModule, config: &Config, x: &LocatorChain, out: &mut Vec<Violation>) {
        let ghost start = violations_view(out@);
        if str_eq(x.method.as_str(), "nth") {
            let v = file_violation("VITEST-PW-004", "PwLocatorNthRule", Severity::Warning, Category::Playwright, owned(".nth() positional locator is fragile \u{2014} DOM order may change"), &m.file_path, x.line, "Use a more specific locator (getByRole, getByTestId) or .filter() instead");
            push_violation(out, v);
        } else {
            proof { lemma_concat_empty(violations_view(out@)); }
        }
        assert(violations_view(out@) =~= start + self.spec_item(*m, *config, *x));
    }
}

/// Flags `page.$` / `page.$$` calls, which return raw element handles.
#[derive(Debug, Clone, Copy)]
pub struct PwPageDollarRule;

impl ItemRule<PlaywrightCall> for PwPageDollarRule {
    open spec fn spec_item(&self, m: ParsedModule, config: Config, x: PlaywrightCall) -> Seq<ViolationView> {
        if contains(x.call_name@, "page.$"@) && !contains(x.call_name@, "page.$."@) {
            seq![file_view("VITEST-PW-005"@, "PwPageDollarRule"@, Severity::Warning, Category::Playwright, ""@ + x.call_name@ + " returns raw ElementHandle \u{2014} prefer locator API"@, m.file_path@, x.line, "Use page.locator(...) instead for auto-retrying and auto-waiting"@)]
        } else {
            Seq::empty()
        }
    }

    fn check_item(&self, m: &ParsedModule, config: &Config, x: &PlaywrightCall, out: &mut Vec<Violation>) {
        let ghost start = violations_view(out@);
        if str_contains(x.call_name.as_str(), "page.$") && !str_contains(x.call_name.as_str(), "page.$.") {
            let v = file_violation("VITEST-PW-005", "PwPageDollarRule", Severity::Warning, Category::Playwright, cat3("", x.call_name.as_str(), " returns raw ElementHandle \u{2014} prefer locator API"), &m.file_path, x.line, "Use page.locator(...) instead for auto-retrying and auto-waiting");
            push_violation(out, v);
        } else {
            proof { lemma_concat_empty(violations_view(out@)); }
        }
        assert(violations_view(out@) =~= start + self.spec_item(*m, *config, *x));
    }
}

impl Rule for PwPageDollarRule {
    open spec fn spec_id(&self) -> Seq<char> {
        "VITEST-PW-005"@
    }

    open spec fn spec_name(&self) -> Seq<char> {
        "PwPageDollarRule"@
    }

    open spec fn spec_severity(&self) -> Severity {
        Severity::Warning
    }

    open spec fn spec_category(&self) -> Category {
        Category::Playwright
    }

    open spec fn spec_applies(&self, runtime: TestRuntime) -> bool {
        runtime == TestRuntime::Playwright
    }

    open spec fn spec_check(
        &self,
        m: ParsedModule,
        config: Config,
        all: Seq<ParsedModule>,
        tests: Seq<ParsedModule>,
        nodes: Seq<ParsedModule>,
    ) -> Seq<ViolationView> {
        match m.playwright {
            Some(pw) => scan_spec(*self, m, config, pw.calls@),
            None => Seq::empty(),
        }
    }

    fn id(&self) -> &'static str {
        "VITEST-PW-005"
    }

    fn name(&self) -> &'static str {
        "PwPageDollarRule"
    }

    fn severity(&self) -> Severity {
        Severity::Warning
    }

    fn category(&self) -> Category {
        Category::Playwright
    }

    fn applies_to_runtime(&self, runtime: TestRuntime) -> bool {
        runtime == TestRuntime::Playwright
    }

    fn check(&self, module: &ParsedModule, ctx: &LintContext, graph: &ModuleGraph) -> Vec<Violation> {
        let mut out: Vec<Violation> = Vec::new();
        proof { lemma_violations_empty(); }
        match &module.playwright {
            Some(pw) => {
                scan(self, module, ctx.config, pw.calls.as_slice(), &mut out);
            },
            None => {},
        }
        assert(violations_view(out@) =~= self.spec_check(*module, *ctx.config, ctx.all_modules@, graph.test_seq(), graph.node_seq()));
        out
    }
}

/// Every violation of `PwPageDollarRule` carries its id, name, severity and
/// category.
pub proof fn lemma_pw_page_dollar_rule_stamped(
    m: ParsedModule,
    config: Config,
    all: Seq<ParsedModule>,
    tests: Seq<ParsedModule>,
    nodes: Seq<ParsedModule>,
)
    ensures
        all_stamped(
            PwPageDollarRule.spec_check(m, config, all, tests, nodes),
            "VITEST-PW-005"@,
            "PwPageDollarRule"@,
            Severity::Warning,
            Category::Playwright,
        ),
{
    match m.playwright {
        Some(pw) => {
            lemma_scan_stamped(PwPageDollarRule, m, config, pw.calls@, "VITEST-PW-005"@, "PwPageDollarRule"@, Severity::Warning, Category::Playwright);
        },
        None => {},
    }
}

/// Flags sleeps built from `setTimeout` in a promise.
#[derive(Debug, Clone, Copy)]
pub struct PwArbitrarySleepRule;

impl ItemRule<PlaywrightCall> for PwArbitrarySleepRule {
    open spec fn spec_item(&self, m: ParsedModule, config: Config, x: PlaywrightCall) -> Seq<ViolationView> {
        if contains(x.call_name@, "setTimeout"@) {
            seq![file_view("VITEST-PW-010"@, "PwArbitrarySleepRule"@, Severity::Warning, Category::Playwright, "Arbitrary sleep (setTimeout in Promise) \u{2014} prefer Playwright auto-waiting assertions"@, m.file_path@, x.line, "Use await expect(...).toBeVisible() or page.waitForSelector() instead"@)]
        } else {
            Seq::empty()
        }
    }

    fn check_item(&self, m: &ParsedModule, config: &Config, x: &PlaywrightCall, out: &mut Vec<Violation>) {
        let ghost start = violations_view(out@);
        if str_contains(x.call_name.as_str(), "setTimeout") {
            let v = file_violation("VITEST-PW-010", "PwArbitrarySleepRule", Severity::Warning, Category::Playwright, owned("Arbitrary sleep (setTimeout in Promise) \u{2014} prefer Playwright auto-waiting assertions"), &m.file_path, x.line, "Use await expect(...).toBeVisible() or page.waitForSelector() instead");
            push_violation(out, v);
        } else {
            proof { lemma_concat_empty(violations_view(out@)); }
        }
        assert(violations_view(out@) =~= start + self.spec_item(*m, *config, *x));
    }
}

impl Rule for PwArbitrarySleepRule {
    open spec fn spec_id(&self) -> Seq<char> {
        "VITEST-PW-010"@
    }

    open spec fn spec_name(&self) -> Seq<char> {
        "PwArbitrarySleepRule"@
    }

    open spec fn spec_severity(&self) -> Severity {
        Severity::Warning
    }

    open spec fn spec_category(&self) -> Category {
        Category::Playwright
    }

    open spec fn spec_applies(&self, runtime: TestRuntime) -> bool {
        runtime == TestRuntime::Playwright
    }

    open spec fn spec_check(
        &self,
        m: ParsedModule,
        config: Config,
        all: Seq<ParsedModule>,
        tests: Seq<ParsedModule>,
        nodes: Seq<ParsedModule>,
    ) -> Seq<ViolationView> {
        match m.playwright {
            Some(pw) => scan_spec(*self, m, config, pw.calls@),
            None => Seq::empty(),
        }
    }

    fn id(&self) -> &'static str {
        "VITEST-PW-010"
    }

    fn name(&self) -> &'static str {
        "PwArbitrarySleepRule"
    }

    fn severity(&self) -> Severity {
        Severity::Warning
    }

    fn category(&self) -> Category {
        Category::Playwright
    }

    fn applies_to_runtime(&self, runtime: TestRuntime) -> bool {
        runtime == TestRuntime::Playwright
    }

    fn check(&self, module: &ParsedModule, ctx: &LintContext, graph: &ModuleGraph) -> Vec<Violation> {
        let mut out: Vec<Violation> = Vec::new();
        proof { lemma_violations_empty(); }
        match &module.playwright {
            Some(pw) => {
                scan(self, module, ctx.config, pw.calls.as_slice(), &mut out);
            },
            None => {},
        }
        assert(violations_view(out@) =~= self.spec_check(*module, *ctx.config, ctx.all_modules@, graph.test_seq(), graph.node_seq()));
        out
    }
}

/// Every violation of `PwArbitrarySleepRule` carries its id, name, severity and
/// category.
pub proof fn lemma_pw_arbitrary_sleep_rule_stamped(
    m: ParsedModule,
    config: Config,
    all: Seq<ParsedModule>,
    tests: Seq<ParsedModule>,
    nodes: Seq<ParsedModule>,
)
    ensures
        all_stamped(
            PwArbitrarySleepRule.spec_check(m, config, all, tests, nodes),
            "VITEST-PW-010"@,
            "PwArbitrarySleepRule"@,
            Severity::Warning,
            Category::Playwright,
        ),
{
    match m.playwright {
        Some(pw) => {
            lemma_scan_stamped(PwArbitrarySleepRule, m, config, pw.calls@, "VITEST-PW-010"@, "PwArbitrarySleepRule"@, Severity::Warning, Category::Playwright);
        },
        None => {},
    }
}

/// Flags locators that select by CSS id.
#[derive(Debug, Clone, Copy)]
pub struct PwCssIdSelectorRule;

impl ItemRule<LocatorChain> for PwCssIdSelectorRule {
    open spec fn spec_item(&self, m: ParsedModule, config: Config, x: LocatorChain) -> Seq<ViolationView> {
        if css_id_chain(x) {
            seq![file_view("VITEST-PW-002"@, "PwCssIdSelectorRule"@, Severity::Warning, Category::Playwright, "CSS ID selector \u{2014} IDs may not be stable across app updates"@, m.file_path@, x.line, "Use getByRole, getByText, or data-testid instead"@)]
        } else {
            Seq::empty()
        }
    }

    fn check_item(&self, m: &ParsedModule, config: &Config, x: &LocatorChain, out: &mut Vec<Violation>) {
        let ghost start = violations_view(out@);
        if is_css_id_chain(x) {
            let v = file_violation("VITEST-PW-002", "PwCssIdSelectorRule", Severity::Warning, Category::Playwright, owned("CSS ID selector \u{2014} IDs may not be stable across app updates"), &m.file_path, x.line, "Use getByRole, getByText, or data-testid instead");
            push_violation(out, v);
        } else {
            proof { lemma_concat_empty(violations_view(out@)); }
        }
        assert(violations_view(out@) =~= start + self.spec_item(*m, *config, *x));
    }
}

impl Rule for PwCssIdSelectorRule {
    open spec fn spec_id(&self) -> Seq<char> {
        "VITEST-PW-002"@
    }

    open spec fn spec_name(&self) -> Seq<char> {
        "PwCssIdSelectorRule"@
    }

    open spec fn spec_severity(&self) -> Severity {
        Severity::Warning
    }

    open spec fn spec_category(&self) -> Category {
        Category::Playwright
    }

    open spec fn spec_applies(&self, runtime: TestRuntime) -> bool {
        runtime == TestRuntime::Playwright
    }

    open spec fn spec_check(
        &self,
        m: ParsedModule,
        config: Config,
        all: Seq<ParsedModule>,
        tests: Seq<ParsedModule>,
        nodes: Seq<ParsedModule>,
    ) -> Seq<ViolationView> {
        match m.playwright {
            Some(pw) => scan_spec(*self, m, config, pw.locator_chains@),
            None => Seq::empty(),
        }
    }

    fn id(&self) -> &'static str {
        "VITEST-PW-002"
    }

    fn name(&self) -> &'static str {
        "PwCssIdSelectorRule"
    }

    fn severity(&self) -> Severity {
        Severity::Warning
    }

    fn category(&self) -> Category {
        Category::Playwright
    }

    fn applies_to_runtime(&self, runtime: TestRuntime) -> bool {
        runtime == TestRuntime::Playwright
    }

    fn check(&self, module: &ParsedModule, ctx: &LintContext, graph: &ModuleGraph) -> Vec<Violation> {
        let mut out: Vec<Violation> = Vec::new();
        proof { lemma_violations_empty(); }
        match &module.playwright {
            Some(pw) => {
                scan(self, module, ctx.config, pw.locator_chains.as_slice(), &mut out);
            },
            None => {},
        }
        assert(violations_view(out@) =~= self.spec_check(*module, *ctx.config, ctx.all_modules@, graph.test_seq(), graph.node_seq()));
        out
    }
}

/// Every violation of `PwCssIdSelectorRule` carries its id, name, severity and
/// category.
pub proof fn lemma_pw_css_id_selector_rule_stamped(
    m: ParsedModule,
    config: Config,
    all: Seq<ParsedModule>,
    tests: Seq<ParsedModule>,
    nodes: Seq<ParsedModule>,
)
    ensures
        all_stamped(
            PwCssIdSelectorRule.spec_check(m, config, all, tests, nodes),
            "VITEST-PW-002"@,
            "PwCssIdSelectorRule"@,
            Severity::Warning,
            Category::Playwright,
        ),
{
    match m.playwright {
        Some(pw) => {
            lemma_scan_stamped(PwCssIdSelectorRule, m, config, pw.locator_chains@, "VITEST-PW-002"@, "PwCssIdSelectorRule"@, Severity::Warning, Category::Playwright);
        },
        None => {},
    }
}

/// A text that starts with `[data-testid` mentions `data-testid`.
proof fn lemma_testid_prefix_mentions(a: Seq<char>)
    requires
        starts_with(a, "[data-testid"@),
    ensures
        contains(a, "data-testid"@),
{
    reveal_strlit("[data-testid");
    reveal_strlit("data-testid");
    let p = "data-testid"@;
    assert(a.subrange(0, 12) == "[data-testid"@);
    assert forall|k: int| 0 <= k < p.len() implies a.subrange(1, 12)[k] == p[k] by {
        assert(a.subrange(1, 12)[k] == a[k + 1]);
        assert(a[k + 1] == a.subrange(0, 12)[k + 1]);
    }
    assert(a.subrange(1, 12) =~= p);
    assert(occurs_at(a, p, 1));
}

/// Law: in a Playwright file, `PwCssIdSelectorRule` reports each locator
/// whose argument starts with `#`, or holds a `#` and does not mention
/// `data-testid` (such as `form#login`), once, at its line, in order, and
/// no other locator; in other files it reports nothing.
pub proof fn law_css_id_selector_reports(
    m: ParsedModule,
    config: Config,
    all: Seq<ParsedModule>,
    tests: Seq<ParsedModule>,
    nodes: Seq<ParsedModule>,
)
    ensures
        m.playwright is None ==> PwCssIdSelectorRule.spec_check(m, config, all, tests, nodes).len() == 0,
        m.playwright matches Some(pw) ==> PwCssIdSelectorRule.spec_check(m, config, all, tests, nodes)
            == filter_map(
            pw.locator_chains@,
            |c: LocatorChain|
                match c.raw_arg {
                    Some(a) => if starts_with(a@, "#"@) || (has_char(a@, '#') && !contains(
                        a@,
                        "data-testid"@,
                    )) {
                        Some(
                            file_view(
                                "VITEST-PW-002"@,
                                "PwCssIdSelectorRule"@,
                                Severity::Warning,
                                Category::Playwright,
                                "CSS ID selector \u{2014} IDs may not be stable across app updates"@,
                                m.file_path@,
                                c.line,
                                "Use getByRole, getByText, or data-testid instead"@,
                            ),
                        )
                    } else {
                        None
                    },
                    None => None,
                },
        ),
{
    match m.playwright {
        Some(pw) => {
            let f = |c: LocatorChain|
                match c.raw_arg {
                    Some(a) => if starts_with(a@, "#"@) || (has_char(a@, '#') && !contains(
                        a@,
                        "data-testid"@,
                    )) {
                        Some(
                            file_view(
                                "VITEST-PW-002"@,
                                "PwCssIdSelectorRule"@,
                                Severity::Warning,
                                Category::Playwright,
                                "CSS ID selector \u{2014} IDs may not be stable across app updates"@,
                                m.file_path@,
                                c.line,
                                "Use getByRole, getByText, or data-testid instead"@,
                            ),
                        )
                    } else {
                        None
                    },
                    None => None,
                };
            assert forall|x: LocatorChain| #[trigger] PwCssIdSelectorRule.spec_item(m, config, x) == match f(x) {
                Some(v) => seq![v],
                None => Seq::<ViolationView>::empty(),
            } by {
                match x.raw_arg {
                    Some(a) => {
                        if starts_with(a@, "[data-testid"@) {
                            lemma_testid_prefix_mentions(a@);
                        }
                    },
                    None => {},
                }
            }
            lemma_scan_filter_map(PwCssIdSelectorRule, m, config, pw.locator_chains@, f);
        },
        None => {},
    }
}

/// Flags `page.evaluate` calls that read `innerText`.
#[derive(Debug, Clone, Copy)]
pub struct PwEvaluateInnerTextRule;

impl ItemRule<usize> for PwEvaluateInnerTextRule {
    open spec fn spec_item(&self, m: ParsedModule, config: Config, x: usize) -> Seq<ViolationView> {
        if true {
            seq![file_view("VITEST-PW-006"@, "PwEvaluateInnerTextRule"@, Severity::Warning, Category::Playwright, "page.evaluate with innerText \u{2014} prefer ARIA text assertions or getByText"@, m.file_path@, x, "Use await expect(page.getByText(...)).toBeVisible() instead"@)]
        } else {
            Seq::empty()
        }
    }

    fn check_item(&self, m: &ParsedModule, config: &Config, x: &usize, out: &mut Vec<Violation>) {
        let ghost start = violations_view(out@);
        if true {
            let v = file_violation("VITEST-PW-006", "PwEvaluateInnerTextRule", Severity::Warning, Category::Playwright, owned("page.evaluate with innerText \u{2014} prefer ARIA text assertions or getByText"), &m.file_path, *x, "Use await expect(page.getByText(...)).toBeVisible() instead");
            push_violation(out, v);
        } else {
            proof { lemma_concat_empty(violations_view(out@)); }
        }
        assert(violations_view(out@) =~= start + self.spec_item(*m, *config, *x));
    }
}

impl Rule for PwEvaluateInnerTextRule {
    open spec fn spec_id(&self) -> Seq<char> {
        "VITEST-PW-006"@
    }

    open spec fn spec_name(&self) -> Seq<char> {
        "PwEvaluateInnerTextRule"@
    }

    open spec fn spec_severity(&self) -> Severity {
        Severity::Warning
    }

    open spec fn spec_category(&self) -> Category {
        Category::Playwright
    }

    open spec fn spec_applies(&self, runtime: TestRuntime) -> bool {
        runtime == TestRuntime::Playwright
    }

    open spec fn spec_check(
        &self,
        m: ParsedModule,
        config: Config,
        all: Seq<ParsedModule>,
        tests: Seq<ParsedModule>,
        nodes: Seq<ParsedModule>,
    ) -> Seq<ViolationView> {
        match m.playwright {
            Some(pw) => scan_spec(*self, m, config, pw.evaluate_inner_text@),
            None => Seq::empty(),
        }
    }

    fn id(&self) -> &'static str {
        "VITEST-PW-006"
    }

    fn name(&self) -> &'static str {
        "PwEvaluateInnerTextRule"
    }

    fn severity(&self) -> Severity {
        Severity::Warning
    }

    fn category(&self) -> Category {
        Category::Playwright
    }

    fn applies_to_runtime(&self, runtime: TestRuntime) -> bool {
        runtime == TestRuntime::Playwright
    }

    fn check(&self, module: &ParsedModule, ctx: &LintContext, graph: &ModuleGraph) -> Vec<Violation> {
        let mut out: Vec<Violation> = Vec::new();
        proof { lemma_violations_empty(); }
        match &module.playwright {
            Some(pw) => {
                scan(self, module, ctx.config, pw.evaluate_inner_text.as_slice(), &mut out);
            },
            None => {},
        }
        assert(violations_view(out@) =~= self.spec_check(*module, *ctx.config, ctx.all_modules@, graph.test_seq(), graph.node_seq()));
        out
    }
}

/// Every violation of `PwEvaluateInnerTextRule` carries its id, name, severity and
/// category.
pub proof fn lemma_pw_evaluate_inner_text_rule_stamped(
    m: ParsedModule,
    config: Config,
    all: Seq<ParsedModule>,
    tests: Seq<ParsedModule>,
    nodes: Seq<ParsedModule>,
)
    ensures
        all_stamped(
            PwEvaluateInnerTextRule.spec_check(m, config, all, tests, nodes),
            "VITEST-PW-006"@,
            "PwEvaluateInnerTextRule"@,
            Severity::Warning,
            Category::Playwright,
        ),
{
    match m.playwright {
        Some(pw) => {
            lemma_scan_stamped(PwEvaluateInnerTextRule, m, config, pw.evaluate_inner_text@, "VITEST-PW-006"@, "PwEvaluateInnerTextRule"@, Severity::Warning, Category::Playwright);
        },
        None => {},
    }
}

/// Flags locators that chain CSS classes through the DOM structure.
#[derive(Debug, Clone, Copy)]
pub struct PwHardCssClassChainRule;

impl ItemRule<LocatorChain> for PwHardCssClassChainRule {
    open spec fn spec_item(&self, m: ParsedModule, config: Config, x: LocatorChain) -> Seq<ViolationView> {
        if hard_css_chain(x) {
            seq![file_view("VITEST-PW-011"@, "PwHardCssClassChainRule"@, Severity::Warning, Category::Playwright, "Hard CSS class selector chain \u{2014} fragile to DOM structure changes"@, m.file_path@, x.line, "Use a single semantic locator (getByRole, getByTestId) or simplify the chain"@)]
        } else {
            Seq::empty()
        }
    }

    fn check_item(&self, m: &ParsedModule, config: &Config, x: &LocatorChain, out: &mut Vec<Violation>) {
        let ghost start = violations_view(out@);
        if is_hard_css_chain(x) {
            let v = file_violation("VITEST-PW-011", "PwHardCssClassChainRule", Severity::Warning, Category::Playwright, owned("Hard CSS class selector chain \u{2014} fragile to DOM structure changes"), &m.file_path, x.line, "Use a single semantic locator (getByRole, getByTestId) or simplify the chain");
            push_violation(out, v);
        } else {
            proof { lemma_concat_empty(violations_view(out@)); }
        }
        assert(violations_view(out@) =~= start + self.spec_item(*m, *config, *x));
    }
}

impl Rule for PwHardCssClassChainRule {
    open spec fn spec_id(&self) -> Seq<char> {
        "VITEST-PW-011"@
    }

    open spec fn spec_name(&self) -> Seq<char> {
        "PwHardCssClassChainRule"@
    }

    open spec fn spec_severity(&self) -> Severity {
        Severity::Warning
    }

    open spec fn spec_category(&self) -> Category {
        Category::Playwright
    }

    open spec fn spec_applies(&self, runtime: TestRuntime) -> bool {
        runtime == TestRuntime::Playwright
    }

    open spec fn spec_check(
        &self,
        m: ParsedModule,
        config: Config,
        all: Seq<ParsedModule>,
        tests: Seq<ParsedModule>,
        nodes: Seq<ParsedModule>,
    ) -> Seq<ViolationView> {
        match m.playwright {
            Some(pw) => scan_spec(*self, m, config, pw.locator_chains@),
            None => Seq::empty(),
        }
    }

    fn id(&self) -> &'static str {
        "VITEST-PW-011"
    }

    fn name(&self) -> &'static str {
        "PwHardCssClassChainRule"
    }

    fn severity(&self) -> Severity {
        Severity::Warning
    }

    fn category(&self) -> Category {
        Category::Playwright
    }

    fn applies_to_runtime(&self, runtime: TestRuntime) -> bool {
        runtime == TestRuntime::Playwright
    }

    fn check(&self, module: &ParsedModule, ctx: &LintContext, graph: &ModuleGraph) -> Vec<Violation> {
        let mut out: Vec<Violation> = Vec::new();
        proof { lemma_violations_empty(); }
        match &module.playwright {
            Some(pw) => {
                scan(self, module, ctx.config, pw.locator_chains.as_slice(), &mut out);
            },
            None => {},
        }
        assert(violations_view(out@) =~= self.spec_check(*module, *ctx.config, ctx.all_modules@, graph.test_seq(), graph.node_seq()));
        out
    }
}

/// Every violation of `PwHardCssClassChainRule` carries its id, name, severity and
/// category.
pub proof fn lemma_pw_hard_css_class_chain_rule_stamped(
    m: ParsedModule,
    config: Config,
    all: Seq<ParsedModule>,
    tests: Seq<ParsedModule>,
    nodes: Seq<ParsedModule>,
)
    ensures
        all_stamped(
            PwHardCssClassChainRule.spec_check(m, config, all, tests, nodes),
            "VITEST-PW-011"@,
            "PwHardCssClassChainRule"@,
            Severity::Warning,
            Category::Playwright,
        ),
{
    match m.playwright {
        Some(pw) => {
            lemma_scan_stamped(PwHardCssClassChainRule, m, config, pw.locator_chains@, "VITEST-PW-011"@, "PwHardCssClassChainRule"@, Severity::Warning, Category::Playwright);
        },
        None => {},
    }
}

/// Flags `getByText` locators, where `getByRole` is usually meant.
#[derive(Debug, Clone, Copy)]
pub struct PwTextAssertionOverRoleRule;

impl ItemRule<LocatorChain> for PwTextAssertionOverRoleRule {
    open spec fn spec_item(&self, m: ParsedModule, config: Config, x: LocatorChain) -> Seq<ViolationView> {
        if x.root@ == "getByText"@ && x.raw_arg.is_some() {
            seq![file_view("VITEST-PW-007"@, "PwTextAssertionOverRoleRule"@, Severity::Info, Category::Playwright, "getByText used \u{2014} prefer getByRole for interactive elements"@, m.file_path@, x.line, "Use getByRole for buttons/links/inputs; reserve getByText for non-role content"@)]
        } else {
            Seq::empty()
        }
    }

    fn check_item(&self, m: &ParsedModule, config: &Config, x: &LocatorChain, out: &mut Vec<Violation>) {
        let ghost start = violations_view(out@);
        if str_eq(x.root.as_str(), "getByText") && x.raw_arg.is_some() {
            let v = file_violation("VITEST-PW-007", "PwTextAssertionOverRoleRule", Severity::Info, Category::Playwright, owned("getByText used \u{2014} prefer getByRole for interactive elements"), &m.file_path, x.line, "Use getByRole for buttons/links/inputs; reserve getByText for non-role content");
            push_violation(out, v);
        } else {
            proof { lemma_concat_empty(violations_view(out@)); }
        }
        assert(violations_view(out@) =~= start + self.spec_item(*m, *config, *x));
    }
}

impl Rule for PwTextAssertionOverRoleRule {
    open spec fn spec_id(&self) -> Seq<char> {
        "VITEST-PW-007"@
    }

    open spec fn spec_name(&self) -> Seq<char> {
        "PwTextAssertionOverRoleRule"@
    }

    open spec fn spec_severity(&self) -> Severity {
        Severity::Info
    }

    open spec fn spec_category(&self) -> Category {
        Category::Playwright
    }

    open spec fn spec_applies(&self, runtime: TestRuntime) -> bool {
        runtime == TestRuntime::Playwright
    }

    open spec fn spec_check(
        &self,
        m: ParsedModule,
        config: Config,
        all: Seq<ParsedModule>,
        tests: Seq<ParsedModule>,
        nodes: Seq<ParsedModule>,
    ) -> Seq<ViolationView> {
        match m.playwright {
            Some(pw) => scan_spec(*self, m, config, pw.locator_chains@),
            None => Seq::empty(),
        }
    }

    fn id(&self) -> &'static str {
        "VITEST-PW-007"
    }

    fn name(&self) -> &'static str {
        "PwTextAssertionOverRoleRule"
    }

    fn severity(&self) -> Severity {
        Severity::Info
    }

    fn category(&self) -> Category {
        Category::Playwright
    }

    fn applies_to_runtime(&self, runtime: TestRuntime) -> bool {
        runtime == TestRuntime::Playwright
    }

    fn check(&self, module: &ParsedModule, ctx: &LintContext, graph: &ModuleGraph) -> Vec<Violation> {
        let mut out: Vec<Violation> = Vec::new();
        proof { lemma_violations_empty(); }
        match &module.playwright {
            Some(pw) => {
                scan(self, module, ctx.config, pw.locator_chains.as_slice(), &mut out);
            },
            None => {},
        }
        assert(violations_view(out@) =~= self.spec_check(*module, *ctx.config, ctx.all_modules@, graph.test_seq(), graph.node_seq()));
        out
    }
}

/// Every violation of `PwTextAssertionOverRoleRule` carries its id, name, severity and
/// category.
pub proof fn lemma_pw_text_assertion_over_role_rule_stamped(
    m: ParsedModule,
    config: Config,
    all: Seq<ParsedModule>,
    tests: Seq<ParsedModule>,
    nodes: Seq<ParsedModule>,
)
    ensures
        all_stamped(
            PwTextAssertionOverRoleRule.spec_check(m, config, all, tests, nodes),
            "VITEST-PW-007"@,
            "PwTextAssertionOverRoleRule"@,
            Severity::Info,
            Category::Playwright,
        ),
{
    match m.playwright {
        Some(pw) => {
            lemma_scan_stamped(PwTextAssertionOverRoleRule, m, config, pw.locator_chains@, "VITEST-PW-007"@, "PwTextAssertionOverRoleRule"@, Severity::Info, Category::Playwright);
        },
        None => {},
    }
}
/// The violation of a positional `.nth()` locator at `line`.
pub open spec fn nth_view(m: ParsedModule, line: usize) -> ViolationView {
    file_view(
        "VITEST-PW-004"@,
        "PwLocatorNthRule"@,
        Severity::Warning,
        Category::Playwright,
        ".nth() positional locator is fragile \u{2014} DOM order may change"@,
        m.file_path@,
        line,
        "Use a more specific locator (getByRole, getByTestId) or .filter() instead"@,
    )
}

/// Whether a violation of `vs` stands on `line`.
pub open spec fn on_line(vs: Seq<ViolationView>, line: usize) -> bool {
    exists|i: int| 0 <= i < vs.len() && (#[trigger] vs[i]).line == line
}

/// `prev` followed by a violation for each `.nth` call of `calls` whose line
/// holds no violation yet, the calls taken in order.
pub open spec fn nth_calls_views(m: ParsedModule, prev: Seq<ViolationView>, calls: Seq<PlaywrightCall>) -> Seq<
    ViolationView,
>
    decreases calls.len(),
{
    if calls.len() == 0 {
        prev
    } else {
        let p = nth_calls_views(m, prev, calls.drop_last());
        let c = calls.last();
        if contains(c.call_name@, ".nth"@) && !on_line(p, c.line) {
            p.push(nth_view(m, c.line))
        } else {
            p
        }
    }
}

/// Decides `on_line`.
fn line_taken(out: &Vec<Violation>, line: usize) -> (b: bool)
    ensures
        b == on_line(violations_view(out@), line),
{
    let mut i: usize = 0;
    while i < out.len()
        invariant
            i <= out@.len(),
            forall|j: int| 0 <= j < i ==> (#[trigger] violations_view(out@)[j]).line != line,
        decreases out@.len() - i,
    {
        if out[i].line == line {
            assert(violations_view(out@)[i as int].line == line);
            return true;
        }
        i = i + 1;
    }
    false
}

impl Rule for PwLocatorNthRule {
    open spec fn spec_id(&self) -> Seq<char> {
        "VITEST-PW-004"@
    }

    open spec fn spec_name(&self) -> Seq<char> {
        "PwLocatorNthRule"@
    }

    open spec fn spec_severity(&self) -> Severity {
        Severity::Warning
    }

    open spec fn spec_category(&self) -> Category {
        Category::Playwright
    }

    open spec fn spec_applies(&self, runtime: TestRuntime) -> bool {
        runtime == TestRuntime::Playwright
    }

    open spec fn spec_check(
        &self,
        m: ParsedModule,
        config: Config,
        all: Seq<ParsedModule>,
        tests: Seq<ParsedModule>,
        nodes: Seq<ParsedModule>,
    ) -> Seq<ViolationView> {
        match m.playwright {
            Some(pw) => nth_calls_views(m, scan_spec(*self, m, config, pw.locator_chains@), pw.calls@),
            None => Seq::empty(),
        }
    }

    fn id(&self) -> &'static str {
        "VITEST-PW-004"
    }

    fn name(&self) -> &'static str {
        "PwLocatorNthRule"
    }

    fn severity(&self) -> Severity {
        Severity::Warning
    }

    fn category(&self) -> Category {
        Category::Playwright
    }

    fn applies_to_runtime(&self, runtime: TestRuntime) -> bool {
        runtime == TestRuntime::Playwright
    }

    fn check(&self, module: &ParsedModule, ctx: &LintContext, graph: &ModuleGraph) -> Vec<Violation> {
        let mut out: Vec<Violation> = Vec::new();
        proof {
            lemma_violations_empty();
        }
        match &module.playwright {
            Some(pw) => {
                scan(self, module, ctx.config, pw.locator_chains.as_slice(), &mut out);
                let ghost base = violations_view(out@);
                assert(base =~= scan_spec(*self, *module, *ctx.config, pw.locator_chains@));
                let mut i: usize = 0;
                assert(nth_calls_views(*module, base, pw.calls@.take(0)) == base);
                while i < pw.calls.len()
                    invariant
                        i <= pw.calls@.len(),
                        violations_view(out@) == nth_calls_views(*module, base, pw.calls@.take(i as int)),
                    decreases pw.calls@.len() - i,
                {
                    let c = &pw.calls[i];
                    proof {
                        let t = pw.calls@.take(i + 1);
                        assert(t.drop_last() == pw.calls@.take(i as int));
                        assert(t.last() == pw.calls@[i as int]);
                    }
                    if str_contains(c.call_name.as_str(), ".nth") && !line_taken(&out, c.line) {
                        let v = file_violation(
                            "VITEST-PW-004",
                            "PwLocatorNthRule",
                            Severity::Warning,
                            Category::Playwright,
                            owned(".nth() positional locator is fragile \u{2014} DOM order may change"),
                            &module.file_path,
                            c.line,
                            "Use a more specific locator (getByRole, getByTestId) or .filter() instead",
                        );
                        push_violation(&mut out, v);
                    }
                    i = i + 1;
                }
                proof {
                    assert(pw.calls@.take(pw.calls@.len() as int) == pw.calls@);
                }
            },
            None => {},
        }
        out
    }
}


/// Whether two lower-cased file stems overlap: one contains the other.
pub open spec fn stems_overlap(a: Seq<char>, b: Seq<char>) -> bool {
    contains(a, b) || contains(b, a)
}

/// Whether `o` is another Playwright file whose lower-cased stem overlaps
/// with `s`, the lower-cased stem of `m`.
pub open spec fn overlapping(m: ParsedModule, s: Seq<char>, o: ParsedModule) -> bool {
    &&& o.runtime == TestRuntime::Playwright
    &&& components(o.file_path@) != components(m.file_path@)
    &&& match file_stem(o.file_path@) {
        Some(os) => stems_overlap(unicode_lowercase(os), s),
        None => false,
    }
}

/// How many modules of `all` overlap with `m`.
pub open spec fn overlap_count(m: ParsedModule, s: Seq<char>, all: Seq<ParsedModule>) -> nat
    decreases all.len(),
{
    if all.len() == 0 {
        0
    } else {
        overlap_count(m, s, all.drop_last()) + if overlapping(m, s, all.last()) {
            1nat
        } else {
            0nat
        }
    }
}

/// The violation of a Playwright file whose stem overlaps with `n` others.
pub open spec fn duplicate_view(m: ParsedModule, n: nat) -> ViolationView {
    file_view(
        "VITEST-PW-009"@,
        "PwDuplicateSpecFileRule"@,
        Severity::Warning,
        Category::Playwright,
        "Duplicate spec coverage: '"@ + m.file_path@ + "' overlaps with "@ + decimal(n)
            + " other Playwright file(s)"@,
        m.file_path@,
        1,
        "Consolidate overlapping spec files"@,
    )
}

/// Decides `overlapping`, given the components and lower-cased stem of `m`.
fn is_overlapping(m: &ParsedModule, mc: &Vec<String>, s: &String, o: &ParsedModule) -> (b: bool)
    requires
        crate::seqs::strs_view(mc@) == components(m.file_path@),
    ensures
        b == overlapping(*m, s@, *o),
{
    if o.runtime != TestRuntime::Playwright {
        return false;
    }
    let oc = path_components(o.file_path.as_str());
    if components_eq(&oc, mc) {
        return false;
    }
    match path_file_stem(o.file_path.as_str()) {
        Some(os) => {
            let ol = str_to_lowercase(os.as_str());
            str_contains(ol.as_str(), s.as_str()) || str_contains(s.as_str(), ol.as_str())
        },
        None => false,
    }
}

/// Flags Playwright files whose stem overlaps with that of another
/// Playwright file of the run.
#[derive(Debug, Clone, Copy)]
pub struct PwDuplicateSpecFileRule;

impl Rule for PwDuplicateSpecFileRule {
    open spec fn spec_id(&self) -> Seq<char> {
        "VITEST-PW-009"@
    }

    open spec fn spec_name(&self) -> Seq<char> {
        "PwDuplicateSpecFileRule"@
    }

    open spec fn spec_severity(&self) -> Severity {
        Severity::Warning
    }

    open spec fn spec_category(&self) -> Category {
        Category::Playwright
    }

    open spec fn spec_applies(&self, runtime: TestRuntime) -> bool {
        runtime == TestRuntime::Playwright
    }

    open spec fn spec_check(
        &self,
        m: ParsedModule,
        config: Config,
        all: Seq<ParsedModule>,
        tests: Seq<ParsedModule>,
        nodes: Seq<ParsedModule>,
    ) -> Seq<ViolationView> {
        match file_stem(m.file_path@) {
            None => Seq::empty(),
            Some(st) => {
                let n = overlap_count(m, unicode_lowercase(st), all);
                if n == 0 {
                    Seq::empty()
                } else {
                    seq![duplicate_view(m, n)]
                }
            },
        }
    }

    fn id(&self) -> &'static str {
        "VITEST-PW-009"
    }

    fn name(&self) -> &'static str {
        "PwDuplicateSpecFileRule"
    }

    fn severity(&self) -> Severity {
        Severity::Warning
    }

    fn category(&self) -> Category {
        Category::Playwright
    }

    fn applies_to_runtime(&self, runtime: TestRuntime) -> bool {
        runtime == TestRuntime::Playwright
    }

    fn check(&self, module: &ParsedModule, ctx: &LintContext, graph: &ModuleGraph) -> Vec<Violation> {
        proof {
            lemma_violations_empty();
        }
        let st = match path_file_stem(module.file_path.as_str()) {
            Some(st) => st,
            None => return Vec::new(),
        };
        let s = str_to_lowercase(st.as_str());
        let mc = path_components(module.file_path.as_str());
        let all = ctx.all_modules;
        let mut n: usize = 0;
        let mut i: usize = 0;
        while i < all.len()
            invariant
                i <= all@.len(),
                n <= i,
                n == overlap_count(*module, s@, all@.take(i as int)),
                crate::seqs::strs_view(mc@) == components(module.file_path@),
            decreases all@.len() - i,
        {
            proof {
                let t = all@.take(i + 1);
                assert(t.drop_last() == all@.take(i as int));
                assert(t.last() == all@[i as int]);
            }
            if is_overlapping(module, &mc, &s, &all[i]) {
                n = n + 1;
            }
            i = i + 1;
        }
        proof {
            assert(all@.take(all@.len() as int) == all@);
        }
        if n == 0 {
            return Vec::new();
        }
        let mut msg = owned("Duplicate spec coverage: '");
        msg.append(module.file_path.as_str());
        msg.append("' overlaps with ");
        msg.append(decimal_string(n).as_str());
        msg.append(" other Playwright file(s)");
        let v = file_violation(
            "VITEST-PW-009",
            "PwDuplicateSpecFileRule",
            Severity::Warning,
            Category::Playwright,
            msg,
            &module.file_path,
            1,
            "Consolidate overlapping spec files",
        );
        let mut out: Vec<Violation> = Vec::new();
        push_violation(&mut out, v);
        out
    }
}


/// Whether a locator root is semantic: `getByRole`, `getByText` or `getByLabel`.
pub open spec fn semantic_root(r: Seq<char>) -> bool {
    r == "getByRole"@ || r == "getByText"@ || r == "getByLabel"@
}

/// Whether `k` is the position of the first `getByTestId` chain of `cs`.
pub open spec fn first_testid(cs: Seq<LocatorChain>, k: int) -> bool {
    &&& 0 <= k < cs.len()
    &&& cs[k].root@ == "getByTestId"@
    &&& forall|j: int| 0 <= j < k ==> (#[trigger] cs[j]).root@ != "getByTestId"@
}

/// What the test-id rule reports for a list of locator chains: the first
/// `getByTestId` chain, when no chain has a semantic root.
pub open spec fn testid_views(m: ParsedModule, cs: Seq<LocatorChain>) -> Seq<ViolationView> {
    if (exists|i: int| 0 <= i < cs.len() && (#[trigger] cs[i]).root@ == "getByTestId"@) && !(exists|
        i: int,
    | 0 <= i < cs.len() && semantic_root((#[trigger] cs[i]).root@)) {
        let k = choose|k: int| first_testid(cs, k);
        seq![file_view(
            "VITEST-PW-008"@,
            "PwTestIdOverSemanticRoleRule"@,
            Severity::Info,
            Category::Playwright,
            "Only testId locators \u{2014} prefer semantic role/text locators"@,
            m.file_path@,
            cs[k].line,
            "Use getByRole for buttons/inputs; reserve testId for non-semantic elements"@,
        )]
    } else {
        Seq::empty()
    }
}

/// Decides `semantic_root`.
fn is_semantic_root(r: &str) -> (b: bool)
    ensures
        b == semantic_root(r@),
{
    str_eq(r, "getByRole") || str_eq(r, "getByText") || str_eq(r, "getByLabel")
}

/// Flags Playwright files whose only locators are test ids.
#[derive(Debug, Clone, Copy)]
pub struct PwTestIdOverSemanticRoleRule;

impl Rule for PwTestIdOverSemanticRoleRule {
    open spec fn spec_id(&self) -> Seq<char> {
        "VITEST-PW-008"@
    }

    open spec fn spec_name(&self) -> Seq<char> {
        "PwTestIdOverSemanticRoleRule"@
    }

    open spec fn spec_severity(&self) -> Severity {
        Severity::Info
    }

    open spec fn spec_category(&self) -> Category {
        Category::Playwright
    }

    open spec fn spec_applies(&self, runtime: TestRuntime) -> bool {
        runtime == TestRuntime::Playwright
    }

    open spec fn spec_check(
        &self,
        m: ParsedModule,
        config: Config,
        all: Seq<ParsedModule>,
        tests: Seq<ParsedModule>,
        nodes: Seq<ParsedModule>,
    ) -> Seq<ViolationView> {
        match m.playwright {
            Some(pw) => testid_views(m, pw.locator_chains@),
            None => Seq::empty(),
        }
    }

    fn id(&self) -> &'static str {
        "VITEST-PW-008"
    }

    fn name(&self) -> &'static str {
        "PwTestIdOverSemanticRoleRule"
    }

    fn severity(&self) -> Severity {
        Severity::Info
    }

    fn category(&self) -> Category {
        Category::Playwright
    }

    fn applies_to_runtime(&self, runtime: TestRuntime) -> bool {
        runtime == TestRuntime::Playwright
    }

    fn check(&self, module: &ParsedModule, ctx: &LintContext, graph: &ModuleGraph) -> Vec<Violation> {
        proof {
            lemma_violations_empty();
        }
        let pw = match &module.playwright {
            Some(pw) => pw,
            None => return Vec::new(),
        };
        let cs = &pw.locator_chains;
        let mut first: Option<usize> = None;
        let mut semantic = false;
        let mut i: usize = 0;
        while i < cs.len()
            invariant
                i <= cs@.len(),
                match first {
                    Some(k) => k < i && first_testid(cs@, k as int),
                    None => forall|j: int| 0 <= j < i ==> (#[trigger] cs@[j]).root@ != "getByTestId"@,
                },
                semantic == exists|j: int| 0 <= j < i && semantic_root((#[trigger] cs@[j]).root@),
            decreases cs@.len() - i,
        {
            let c = &cs[i];
            if first.is_none() && str_eq(c.root.as_str(), "getByTestId") {
                first = Some(i);
            }
            if is_semantic_root(c.root.as_str()) {
                semantic = true;
            }
            assert(semantic == exists|j: int| 0 <= j < i + 1 && semantic_root((#[trigger] cs@[j]).root@)) by {
                if semantic_root(cs@[i as int].root@) {
                    assert(0 <= i < i + 1);
                }
            }
            i = i + 1;
        }
        match first {
            Some(k) => {
                if semantic {
                    return Vec::new();
                }
                proof {
                    let c = choose|c: int| first_testid(cs@, c);
                    if c < k {
                        assert(cs@[c].root@ != "getByTestId"@);
                    }
                    if k < c {
                        assert(cs@[k as int].root@ != "getByTestId"@);
                    }
                }
                let v = file_violation(
                    "VITEST-PW-008",
                    "PwTestIdOverSemanticRoleRule",
                    Severity::Info,
                    Category::Playwright,
                    owned("Only testId locators \u{2014} prefer semantic role/text locators"),
                    &module.file_path,
                    cs[k].line,
                    "Use getByRole for buttons/inputs; reserve testId for non-semantic elements",
                );
                let mut out: Vec<Violation> = Vec::new();
                push_violation(&mut out, v);
                out
            },
            None => Vec::new(),
        }
    }
}


/// Flags Playwright tests that make calls but build no locator, so they
/// cannot use web-first assertions.
#[derive(Debug, Clone, Copy)]
pub struct PwMissingWebFirstAssertionRule;

impl Rule for PwMissingWebFirstAssertionRule {
    open spec fn spec_id(&self) -> Seq<char> {
        "VITEST-PW-012"@
    }

    open spec fn spec_name(&self) -> Seq<char> {
        "PwMissingWebFirstAssertionRule"@
    }

    open spec fn spec_severity(&self) -> Severity {
        Severity::Warning
    }

    open spec fn spec_category(&self) -> Category {
        Category::Playwright
    }

    open spec fn spec_applies(&self, runtime: TestRuntime) -> bool {
        runtime == TestRuntime::Playwright
    }

    open spec fn spec_check(
        &self,
        m: ParsedModule,
        config: Config,
        all: Seq<ParsedModule>,
        tests: Seq<ParsedModule>,
        nodes: Seq<ParsedModule>,
    ) -> Seq<ViolationView> {
        if m.test_blocks@.len() == 0 {
            Seq::empty()
        } else {
            match m.playwright {
                Some(pw) => if pw.locator_chains@.len() == 0 && pw.calls@.len() > 0 {
                    seq![file_view(
                        "VITEST-PW-012"@,
                        "PwMissingWebFirstAssertionRule"@,
                        Severity::Warning,
                        Category::Playwright,
                        "No accessor locators \u{2014} use web-first assertions"@,
                        m.file_path@,
                        pw.calls@[0].line,
                        "Use getByRole/getByText/getByTestId with expect().toBeVisible()"@,
                    )]
                } else {
                    Seq::empty()
                },
                None => Seq::empty(),
            }
        }
    }

    fn id(&self) -> &'static str {
        "VITEST-PW-012"
    }

    fn name(&self) -> &'static str {
        "PwMissingWebFirstAssertionRule"
    }

    fn severity(&self) -> Severity {
        Severity::Warning
    }

    fn category(&self) -> Category {
        Category::Playwright
    }

    fn applies_to_runtime(&self, runtime: TestRuntime) -> bool {
        runtime == TestRuntime::Playwright
    }

    fn check(&self, module: &ParsedModule, ctx: &LintContext, graph: &ModuleGraph) -> Vec<Violation> {
        proof {
            lemma_violations_empty();
        }
        if module.test_blocks.len() == 0 {
            return Vec::new();
        }
        let pw = match &module.playwright {
            Some(pw) => pw,
            None => return Vec::new(),
        };
        if pw.locator_chains.len() == 0 && pw.calls.len() > 0 {
            let v = file_violation(
                "VITEST-PW-012",
                "PwMissingWebFirstAssertionRule",
                Severity::Warning,
                Category::Playwright,
                owned("No accessor locators \u{2014} use web-first assertions"),
                &module.file_path,
                pw.calls[0].line,
                "Use getByRole/getByText/getByTestId with expect().toBeVisible()",
            );
            let mut out: Vec<Violation> = Vec::new();
            push_violation(&mut out, v);
            out
        } else {
            Vec::new()
        }
    }
}


/// Flags Playwright files with two or more tests and no axe accessibility
/// scan.
#[derive(Debug, Clone, Copy)]
pub struct PwMissingAxeScanRule;

impl Rule for PwMissingAxeScanRule {
    open spec fn spec_id(&self) -> Seq<char> {
        "VITEST-PW-100"@
    }

    open spec fn spec_name(&self) -> Seq<char> {
        "PwMissingAxeScanRule"@
    }

    open spec fn spec_severity(&self) -> Severity {
        Severity::Info
    }

    open spec fn spec_category(&self) -> Category {
        Category::Playwright
    }

    open spec fn spec_applies(&self, runtime: TestRuntime) -> bool {
        runtime == TestRuntime::Playwright
    }

    open spec fn spec_check(
        &self,
        m: ParsedModule,
        config: Config,
        all: Seq<ParsedModule>,
        tests: Seq<ParsedModule>,
        nodes: Seq<ParsedModule>,
    ) -> Seq<ViolationView> {
        match m.playwright {
            Some(pw) => if pw.uses_axe || m.test_blocks@.len() < 2 {
                Seq::empty()
            } else {
                seq![file_view(
                    "VITEST-PW-100"@,
                    "PwMissingAxeScanRule"@,
                    Severity::Info,
                    Category::Playwright,
                    "No axe accessibility scan \u{2014} consider @axe-core/playwright"@,
                    m.file_path@,
                    1,
                    "Add `import { injectAxe, checkA11y } from '@axe-core/playwright'`"@,
                )]
            },
            None => Seq::empty(),
        }
    }

    fn id(&self) -> &'static str {
        "VITEST-PW-100"
    }

    fn name(&self) -> &'static str {
        "PwMissingAxeScanRule"
    }

    fn severity(&self) -> Severity {
        Severity::Info
    }

    fn category(&self) -> Category {
        Category::Playwright
    }

    fn applies_to_runtime(&self, runtime: TestRuntime) -> bool {
        runtime == TestRuntime::Playwright
    }

    fn check(&self, module: &ParsedModule, ctx: &LintContext, graph: &ModuleGraph) -> Vec<Violation> {
        proof {
            lemma_violations_empty();
        }
        let pw = match &module.playwright {
            Some(pw) => pw,
            None => return Vec::new(),
        };
        if pw.uses_axe || module.test_blocks.len() < 2 {
            return Vec::new();
        }
        let v = file_violation(
            "VITEST-PW-100",
            "PwMissingAxeScanRule",
            Severity::Info,
            Category::Playwright,
            owned("No axe accessibility scan \u{2014} consider @axe-core/playwright"),
            &module.file_path,
            1,
            "Add `import { injectAxe, checkA11y } from '@axe-core/playwright'`",
        );
        let mut out: Vec<Violation> = Vec::new();
        push_violation(&mut out, v);
        out
    }
}


/// The `.nth` call violations added to stamped violations are stamped.
proof fn lemma_nth_calls_stamped(m: ParsedModule, prev: Seq<ViolationView>, calls: Seq<PlaywrightCall>)
    requires
        all_stamped(prev, "VITEST-PW-004"@, "PwLocatorNthRule"@, Severity::Warning, Category::Playwright),
    ensures
        all_stamped(
            nth_calls_views(m, prev, calls),
            "VITEST-PW-004"@,
            "PwLocatorNthRule"@,
            Severity::Warning,
            Category::Playwright,
        ),
    decreases calls.len(),
{
    if calls.len() > 0 {
        lemma_nth_calls_stamped(m, prev, calls.drop_last());
    }
}

/// Every violation of `PwLocatorNthRule` carries its id, name, severity and
/// category.
pub proof fn lemma_pw_locator_nth_rule_stamped(
    m: ParsedModule,
    config: Config,
    all: Seq<ParsedModule>,
    tests: Seq<ParsedModule>,
    nodes: Seq<ParsedModule>,
)
    ensures
        all_stamped(
            PwLocatorNthRule.spec_check(m, config, all, tests, nodes),
            "VITEST-PW-004"@,
            "PwLocatorNthRule"@,
            Severity::Warning,
            Category::Playwright,
        ),
{
    match m.playwright {
        Some(pw) => {
            lemma_scan_stamped(
                PwLocatorNthRule,
                m,
                config,
                pw.locator_chains@,
                "VITEST-PW-004"@,
                "PwLocatorNthRule"@,
                Severity::Warning,
                Category::Playwright,
            );
            lemma_nth_calls_stamped(
                m,
                scan_spec(PwLocatorNthRule, m, config, pw.locator_chains@),
                pw.calls@,
            );
        },
        None => {},
    }
}

/// Every violation of `PwDuplicateSpecFileRule` carries its id, name,
/// severity and category.
pub proof fn lemma_pw_duplicate_spec_file_rule_stamped(
    m: ParsedModule,
    config: Config,
    all: Seq<ParsedModule>,
    tests: Seq<ParsedModule>,
    nodes: Seq<ParsedModule>,
)
    ensures
        all_stamped(
            PwDuplicateSpecFileRule.spec_check(m, config, all, tests, nodes),
            "VITEST-PW-009"@,
            "PwDuplicateSpecFileRule"@,
            Severity::Warning,
            Category::Playwright,
        ),
{
}

/// Every violation of `PwTestIdOverSemanticRoleRule` carries its id, name,
/// severity and category.
pub proof fn lemma_pw_test_id_over_semantic_role_rule_stamped(
    m: ParsedModule,
    config: Config,
    all: Seq<ParsedModule>,
    tests: Seq<ParsedModule>,
    nodes: Seq<ParsedModule>,
)
    ensures
        all_stamped(
            PwTestIdOverSemanticRoleRule.spec_check(m, config, all, tests, nodes),
            "VITEST-PW-008"@,
            "PwTestIdOverSemanticRoleRule"@,
            Severity::Info,
            Category::Playwright,
        ),
{
}

/// Every violation of `PwMissingWebFirstAssertionRule` carries its id, name,
/// severity and category.
pub proof fn lemma_pw_missing_web_first_assertion_rule_stamped(
    m: ParsedModule,
    config: Config,
    all: Seq<ParsedModule>,
    tests: Seq<ParsedModule>,
    nodes: Seq<ParsedModule>,
)
    ensures
        all_stamped(
            PwMissingWebFirstAssertionRule.spec_check(m, config, all, tests, nodes),
            "VITEST-PW-012"@,
            "PwMissingWebFirstAssertionRule"@,
            Severity::Warning,
            Category::Playwright,
        ),
{
}

/// Every violation of `PwMissingAxeScanRule` carries its id, name, severity
/// and category.
pub proof fn lemma_pw_missing_axe_scan_rule_stamped(
    m: ParsedModule,
    config: Config,
    all: Seq<ParsedModule>,
    tests: Seq<ParsedModule>,
    nodes: Seq<ParsedModule>,
)
    ensures
        all_stamped(
            PwMissingAxeScanRule.spec_check(m, config, all, tests, nodes),
            "VITEST-PW-100"@,
            "PwMissingAxeScanRule"@,
            Severity::Info,
            Category::Playwright,
        ),
{
}


/// Law: in a Playwright file, `PwWaitForTimeoutRule` reports each Playwright call whose name contains `waitForTimeout`, once, at its line, in
/// order, and nothing else; in other files it reports nothing.
pub proof fn law_wait_for_timeout_reports(
    m: ParsedModule,
    config: Config,
    all: Seq<ParsedModule>,
    tests: Seq<ParsedModule>,
    nodes: Seq<ParsedModule>,
)
    ensures
        m.playwright is None ==> PwWaitForTimeoutRule.spec_check(m, config, all, tests, nodes).len() == 0,
        m.playwright matches Some(pw) ==> PwWaitForTimeoutRule.spec_check(m, config, all, tests, nodes) == filter_map(
            pw.calls@,
            |x: PlaywrightCall| if contains(x.call_name@, "waitForTimeout"@) { Some(file_view("VITEST-PW-001"@, "PwWaitForTimeoutRule"@, Severity::Warning, Category::Playwright, "waitForTimeout causes flaky waits \u{2014} prefer auto-retry assertions or waitForSelector"@, m.file_path@, x.line, "Replace with await page.waitForSelector(...) or an assertion-based wait"@)) } else { None },
        ),
{
    match m.playwright {
        Some(pw) => {
    let f = |x: PlaywrightCall| if contains(x.call_name@, "waitForTimeout"@) { Some(file_view("VITEST-PW-001"@, "PwWaitForTimeoutRule"@, Severity::Warning, Category::Playwright, "waitForTimeout causes flaky waits \u{2014} prefer auto-retry assertions or waitForSelector"@, m.file_path@, x.line, "Replace with await page.waitForSelector(...) or an assertion-based wait"@)) } else { None };
    assert forall|x: PlaywrightCall| #[trigger] PwWaitForTimeoutRule.spec_item(m, config, x) == match f(x) {
        Some(v) => seq![v],
        None => Seq::<ViolationView>::empty(),
    } by {}
    lemma_scan_filter_map(PwWaitForTimeoutRule, m, config, pw.calls@, f);
        },
        None => {},
    }
}


/// Law: in a Playwright file, `PwPageDollarRule` reports each Playwright call whose name contains `page.$` but not `page.$.`, once, at its line, in
/// order, and nothing else; in other files it reports nothing.
pub proof fn law_page_dollar_reports(
    m: ParsedModule,
    config: Config,
    all: Seq<ParsedModule>,
    tests: Seq<ParsedModule>,
    nodes: Seq<ParsedModule>,
)
    ensures
        m.playwright is None ==> PwPageDollarRule.spec_check(m, config, all, tests, nodes).len() == 0,
        m.playwright matches Some(pw) ==> PwPageDollarRule.spec_check(m, config, all, tests, nodes) == filter_map(
            pw.calls@,
            |x: PlaywrightCall| if contains(x.call_name@, "page.$"@) && !contains(x.call_name@, "page.$."@) { Some(file_view("VITEST-PW-005"@, "PwPageDollarRule"@, Severity::Warning, Category::Playwright, ""@ + x.call_name@ + " returns raw ElementHandle \u{2014} prefer locator API"@, m.file_path@, x.line, "Use page.locator(...) instead for auto-retrying and auto-waiting"@)) } else { None },
        ),
{
    match m.playwright {
        Some(pw) => {
    let f = |x: PlaywrightCall| if contains(x.call_name@, "page.$"@) && !contains(x.call_name@, "page.$."@) { Some(file_view("VITEST-PW-005"@, "PwPageDollarRule"@, Severity::Warning, Category::Playwright, ""@ + x.call_name@ + " returns raw ElementHandle \u{2014} prefer locator API"@, m.file_path@, x.line, "Use page.locator(...) instead for auto-retrying and auto-waiting"@)) } else { None };
    assert forall|x: PlaywrightCall| #[trigger] PwPageDollarRule.spec_item(m, config, x) == match f(x) {
        Some(v) => seq![v],
        None => Seq::<ViolationView>::empty(),
    } by {}
    lemma_scan_filter_map(PwPageDollarRule, m, config, pw.calls@, f);
        },
        None => {},
    }
}


/// Law: in a Playwright file, `PwArbitrarySleepRule` reports each Playwright call whose name contains `setTimeout`, once, at its line, in
/// order, and nothing else; in other files it reports nothing.
pub proof fn law_arbitrary_sleep_reports(
    m: ParsedModule,
    config: Config,
    all: Seq<ParsedModule>,
    tests: Seq<ParsedModule>,
    nodes: Seq<ParsedModule>,
)
    ensures
        m.playwright is None ==> PwArbitrarySleepRule.spec_check(m, config, all, tests, nodes).len() == 0,
        m.playwright matches Some(pw) ==> PwArbitrarySleepRule.spec_check(m, config, all, tests, nodes) == filter_map(
            pw.calls@,
            |x: PlaywrightCall| if contains(x.call_name@, "setTimeout"@) { Some(file_view("VITEST-PW-010"@, "PwArbitrarySleepRule"@, Severity::Warning, Category::Playwright, "Arbitrary sleep (setTimeout in Promise) \u{2014} prefer Playwright auto-waiting assertions"@, m.file_path@, x.line, "Use await expect(...).toBeVisible() or page.waitForSelector() instead"@)) } else { None },
        ),
{
    match m.playwright {
        Some(pw) => {
    let f = |x: PlaywrightCall| if contains(x.call_name@, "setTimeout"@) { Some(file_view("VITEST-PW-010"@, "PwArbitrarySleepRule"@, Severity::Warning, Category::Playwright, "Arbitrary sleep (setTimeout in Promise) \u{2014} prefer Playwright auto-waiting assertions"@, m.file_path@, x.line, "Use await expect(...).toBeVisible() or page.waitForSelector() instead"@)) } else { None };
    assert forall|x: PlaywrightCall| #[trigger] PwArbitrarySleepRule.spec_item(m, config, x) == match f(x) {
        Some(v) => seq![v],
        None => Seq::<ViolationView>::empty(),
    } by {}
    lemma_scan_filter_map(PwArbitrarySleepRule, m, config, pw.calls@, f);
        },
        None => {},
    }
}


/// Law: in a Playwright file, `PwTextAssertionOverRoleRule` reports each `getByText` locator with an argument, once, at its line, in
/// order, and nothing else; in other files it reports nothing.
pub proof fn law_text_assertion_over_role_reports(
    m: ParsedModule,
    config: Config,
    all: Seq<ParsedModule>,
    tests: Seq<ParsedModule>,
    nodes: Seq<ParsedModule>,
)
    ensures
        m.playwright is None ==> PwTextAssertionOverRoleRule.spec_check(m, config, all, tests, nodes).len() == 0,
        m.playwright matches Some(pw) ==> PwTextAssertionOverRoleRule.spec_check(m, config, all, tests, nodes) == filter_map(
            pw.locator_chains@,
            |x: LocatorChain| if x.root@ == "getByText"@ && x.raw_arg.is_some() { Some(file_view("VITEST-PW-007"@, "PwTextAssertionOverRoleRule"@, Severity::Info, Category::Playwright, "getByText used \u{2014} prefer getByRole for interactive elements"@, m.file_path@, x.line, "Use getByRole for buttons/links/inputs; reserve getByText for non-role content"@)) } else { None },
        ),
{
    match m.playwright {
        Some(pw) => {
    let f = |x: LocatorChain| if x.root@ == "getByText"@ && x.raw_arg.is_some() { Some(file_view("VITEST-PW-007"@, "PwTextAssertionOverRoleRule"@, Severity::Info, Category::Playwright, "getByText used \u{2014} prefer getByRole for interactive elements"@, m.file_path@, x.line, "Use getByRole for buttons/links/inputs; reserve getByText for non-role content"@)) } else { None };
    assert forall|x: LocatorChain| #[trigger] PwTextAssertionOverRoleRule.spec_item(m, config, x) == match f(x) {
        Some(v) => seq![v],
        None => Seq::<ViolationView>::empty(),
    } by {}
    lemma_scan_filter_map(PwTextAssertionOverRoleRule, m, config, pw.locator_chains@, f);
        },
        None => {},
    }
}


/// Law: `PwMissingAxeScanRule` reports a Playwright file once, at line 1,
/// exactly when it has at least two tests and no axe scan; otherwise, and
/// for other files, it reports nothing.
pub proof fn law_missing_axe_scan_reports(
    m: ParsedModule,
    config: Config,
    all: Seq<ParsedModule>,
    tests: Seq<ParsedModule>,
    nodes: Seq<ParsedModule>,
)
    ensures
        PwMissingAxeScanRule.spec_check(m, config, all, tests, nodes).len() == if m.playwright matches Some(
            pw,
        ) && !pw.uses_axe && m.test_blocks@.len() >= 2 {
            1int
        } else {
            0int
        },
        forall|q: int|
            0 <= q < PwMissingAxeScanRule.spec_check(m, config, all, tests, nodes).len() ==> {
                let v = #[trigger] PwMissingAxeScanRule.spec_check(m, config, all, tests, nodes)[q];
                v.rule_id == "VITEST-PW-100"@ && v.line == 1 && v.file_path == m.file_path@
            },
{
}

/// Law: `PwMissingWebFirstAssertionRule` reports a Playwright file with
/// tests once, at the line of its first Playwright call, exactly when it
/// makes Playwright calls but builds no locator; otherwise, and for other
/// files, it reports nothing.
pub proof fn law_missing_web_first_assertion_reports(
    m: ParsedModule,
    config: Config,
    all: Seq<ParsedModule>,
    tests: Seq<ParsedModule>,
    nodes: Seq<ParsedModule>,
)
    ensures
        PwMissingWebFirstAssertionRule.spec_check(m, config, all, tests, nodes).len() == if m.playwright matches Some(
            pw,
        ) && m.test_blocks@.len() > 0 && pw.locator_chains@.len() == 0 && pw.calls@.len() > 0 {
            1int
        } else {
            0int
        },
        forall|q: int|
            0 <= q < PwMissingWebFirstAssertionRule.spec_check(m, config, all, tests, nodes).len() ==> {
                let v = #[trigger] PwMissingWebFirstAssertionRule.spec_check(m, config, all, tests, nodes)[q];
                v.rule_id == "VITEST-PW-012"@ && v.file_path == m.file_path@ && (m.playwright matches Some(pw)
                    && v.line == pw.calls@[0].line)
            },
{
}

/// Law: in a Playwright file, `PwXPathSelectorRule` reports each locator
/// built with `.xpath` or whose argument starts with `xpath=` or `//`, in
/// order, then each call whose name contains `.xpath` on a line where no
/// such locator was reported, in order; once each, at its line, and nothing
/// else. In other files it reports nothing.
pub proof fn law_xpath_selector_reports(
    m: ParsedModule,
    config: Config,
    all: Seq<ParsedModule>,
    tests: Seq<ParsedModule>,
    nodes: Seq<ParsedModule>,
)
    ensures
        m.playwright is None ==> PwXPathSelectorRule.spec_check(m, config, all, tests, nodes).len() == 0,
        m.playwright matches Some(pw) ==> PwXPathSelectorRule.spec_check(m, config, all, tests, nodes)
            == filter_map(
            pw.locator_chains@,
            |x: LocatorChain| if (x.method@ == "xpath"@ || (x.raw_arg matches Some(a) && (starts_with(a@, "xpath="@) || starts_with(a@, "//"@)))) { Some(file_view("VITEST-PW-003"@, "PwXPathSelectorRule"@, Severity::Warning, Category::Playwright, "XPath selectors are brittle \u{2014} prefer role/text/accessible-name locators"@, m.file_path@, x.line, "Use getByRole, getByText, or getByTestId instead"@)) } else { None },
        ) + filter_map(
            pw.calls@,
            |x: PlaywrightCall| if contains(x.call_name@, ".xpath"@) && !(exists|i: int| 0 <= i < pw.locator_chains@.len() && #[trigger] pw.locator_chains@[i].line == x.line && (pw.locator_chains@[i].method@ == "xpath"@ || (pw.locator_chains@[i].raw_arg matches Some(a) && (starts_with(a@, "xpath="@) || starts_with(a@, "//"@))))) { Some(file_view("VITEST-PW-003"@, "PwXPathSelectorRule"@, Severity::Warning, Category::Playwright, "XPath selectors are brittle \u{2014} prefer role/text/accessible-name locators"@, m.file_path@, x.line, "Use getByRole, getByText, or getByTestId instead"@)) } else { None },
        ),
{
    match m.playwright {
        Some(pw) => {
            let f = |x: LocatorChain| if (x.method@ == "xpath"@ || (x.raw_arg matches Some(a) && (starts_with(a@, "xpath="@) || starts_with(a@, "//"@)))) { Some(file_view("VITEST-PW-003"@, "PwXPathSelectorRule"@, Severity::Warning, Category::Playwright, "XPath selectors are brittle \u{2014} prefer role/text/accessible-name locators"@, m.file_path@, x.line, "Use getByRole, getByText, or getByTestId instead"@)) } else { None };
            let g = |x: PlaywrightCall| if contains(x.call_name@, ".xpath"@) && !(exists|i: int| 0 <= i < pw.locator_chains@.len() && #[trigger] pw.locator_chains@[i].line == x.line && (pw.locator_chains@[i].method@ == "xpath"@ || (pw.locator_chains@[i].raw_arg matches Some(a) && (starts_with(a@, "xpath="@) || starts_with(a@, "//"@))))) { Some(file_view("VITEST-PW-003"@, "PwXPathSelectorRule"@, Severity::Warning, Category::Playwright, "XPath selectors are brittle \u{2014} prefer role/text/accessible-name locators"@, m.file_path@, x.line, "Use getByRole, getByText, or getByTestId instead"@)) } else { None };
            assert forall|x: LocatorChain| #[trigger] ItemRule::<LocatorChain>::spec_item(&PwXPathSelectorRule, m, config, x) == match f(x) {
                Some(v) => seq![v],
                None => Seq::<ViolationView>::empty(),
            } by {}
            assert forall|x: PlaywrightCall| #[trigger] ItemRule::<PlaywrightCall>::spec_item(&PwXPathSelectorRule, m, config, x) == match g(x) {
                Some(v) => seq![v],
                None => Seq::<ViolationView>::empty(),
            } by {}
            lemma_scan_filter_map::<LocatorChain, PwXPathSelectorRule>(PwXPathSelectorRule, m, config, pw.locator_chains@, f);
            lemma_scan_filter_map::<PlaywrightCall, PwXPathSelectorRule>(PwXPathSelectorRule, m, config, pw.calls@, g);
        },
        None => {},
    }
}


/// Law: in a Playwright file, `PwHardCssClassChainRule` reports each
/// locator whose argument holds a `.` and either a ` > ` child combinator
/// or two words, once, at its line, in order, and nothing else; in other
/// files it reports nothing.
pub proof fn law_hard_css_class_chain_reports(
    m: ParsedModule,
    config: Config,
    all: Seq<ParsedModule>,
    tests: Seq<ParsedModule>,
    nodes: Seq<ParsedModule>,
)
    ensures
        m.playwright is None ==> PwHardCssClassChainRule.spec_check(m, config, all, tests, nodes).len() == 0,
        m.playwright matches Some(pw) ==> PwHardCssClassChainRule.spec_check(m, config, all, tests, nodes)
            == filter_map(
            pw.locator_chains@,
            |x: LocatorChain| if (x.raw_arg matches Some(a) && has_char(a@, '.') && (contains(a@, " > "@) || two_words(a@))) { Some(file_view("VITEST-PW-011"@, "PwHardCssClassChainRule"@, Severity::Warning, Category::Playwright, "Hard CSS class selector chain \u{2014} fragile to DOM structure changes"@, m.file_path@, x.line, "Use a single semantic locator (getByRole, getByTestId) or simplify the chain"@)) } else { None },
        ),
{
    match m.playwright {
        Some(pw) => {
            let f = |x: LocatorChain| if (x.raw_arg matches Some(a) && has_char(a@, '.') && (contains(a@, " > "@) || two_words(a@))) { Some(file_view("VITEST-PW-011"@, "PwHardCssClassChainRule"@, Severity::Warning, Category::Playwright, "Hard CSS class selector chain \u{2014} fragile to DOM structure changes"@, m.file_path@, x.line, "Use a single semantic locator (getByRole, getByTestId) or simplify the chain"@)) } else { None };
            assert forall|x: LocatorChain| #[trigger] PwHardCssClassChainRule.spec_item(m, config, x) == match f(x) {
                Some(v) => seq![v],
                None => Seq::<ViolationView>::empty(),
            } by {}
            lemma_scan_filter_map(PwHardCssClassChainRule, m, config, pw.locator_chains@, f);
        },
        None => {},
    }
}

/// A list of locators with a `getByTestId` one has a first such one.
proof fn lemma_first_testid_exists(cs: Seq<LocatorChain>, i: int)
    requires
        0 <= i < cs.len(),
        cs[i].root@ == "getByTestId"@,
    ensures
        exists|k: int| first_testid(cs, k),
    decreases i,
{
    if exists|j: int| 0 <= j < i && (#[trigger] cs[j]).root@ == "getByTestId"@ {
        let j = choose|j: int| 0 <= j < i && (#[trigger] cs[j]).root@ == "getByTestId"@;
        lemma_first_testid_exists(cs, j);
    } else {
        assert(first_testid(cs, i));
    }
}

/// Law: `PwTestIdOverSemanticRoleRule` reports a Playwright file once
/// exactly when it has a `getByTestId` locator and no `getByRole`,
/// `getByText` or `getByLabel` one; the violation stands at the line of the
/// first `getByTestId` locator. Otherwise, and for other files, it reports
/// nothing.
pub proof fn law_test_id_over_semantic_role_reports(
    m: ParsedModule,
    config: Config,
    all: Seq<ParsedModule>,
    tests: Seq<ParsedModule>,
    nodes: Seq<ParsedModule>,
)
    ensures
        PwTestIdOverSemanticRoleRule.spec_check(m, config, all, tests, nodes).len() == if m.playwright matches Some(pw)
            && (exists|i: int| 0 <= i < pw.locator_chains@.len() && (#[trigger] pw.locator_chains@[i]).root@ == "getByTestId"@)
            && !(exists|i: int|
            0 <= i < pw.locator_chains@.len() && ({
                let r = (#[trigger] pw.locator_chains@[i]).root@;
                r == "getByRole"@ || r == "getByText"@ || r == "getByLabel"@
            })) {
            1int
        } else {
            0int
        },
        PwTestIdOverSemanticRoleRule.spec_check(m, config, all, tests, nodes).len() == 1 ==> {
            let v = PwTestIdOverSemanticRoleRule.spec_check(m, config, all, tests, nodes)[0];
            &&& v.rule_id == "VITEST-PW-008"@
            &&& v.file_path == m.file_path@
            &&& m.playwright matches Some(pw) && exists|k: int|
                0 <= k < pw.locator_chains@.len() && (#[trigger] pw.locator_chains@[k]).root@ == "getByTestId"@
                    && pw.locator_chains@[k].line == v.line && forall|j: int|
                    0 <= j < k ==> (#[trigger] pw.locator_chains@[j]).root@ != "getByTestId"@
        },
{
    match m.playwright {
        Some(pw) => {
            let cs = pw.locator_chains@;
            if exists|i: int| 0 <= i < cs.len() && (#[trigger] cs[i]).root@ == "getByTestId"@ {
                let i = choose|i: int| 0 <= i < cs.len() && (#[trigger] cs[i]).root@ == "getByTestId"@;
                lemma_first_testid_exists(cs, i);
                let k = choose|k: int| first_testid(cs, k);
                assert(cs[k].root@ == "getByTestId"@);
            }
        },
        None => {},
    }
}


/// What `nth_calls_views` adds to `prev`: `prev` stays a prefix; every
/// `.nth` call's line holds a violation; each added violation is that of an
/// `.nth` call, on a line that held none before it.
proof fn lemma_nth_calls(m: ParsedModule, prev: Seq<ViolationView>, calls: Seq<PlaywrightCall>)
    ensures
        nth_calls_views(m, prev, calls).len() >= prev.len(),
        nth_calls_views(m, prev, calls).subrange(0, prev.len() as int) == prev,
        forall|i: int|
            0 <= i < calls.len() && contains((#[trigger] calls[i]).call_name@, ".nth"@) ==> on_line(
                nth_calls_views(m, prev, calls),
                calls[i].line,
            ),
        forall|q: int|
            prev.len() <= q < nth_calls_views(m, prev, calls).len() ==> (exists|i: int|
                0 <= i < calls.len() && contains((#[trigger] calls[i]).call_name@, ".nth"@)
                    && #[trigger] nth_calls_views(m, prev, calls)[q] == nth_view(m, calls[i].line)) && forall|p: int|
                0 <= p < q ==> (#[trigger] nth_calls_views(m, prev, calls)[p]).line
                    != nth_calls_views(m, prev, calls)[q].line,
    decreases calls.len(),
{
    let n = nth_calls_views(m, prev, calls);
    if calls.len() == 0 {
        assert(n.subrange(0, prev.len() as int) =~= prev);
    } else {
        let d = calls.drop_last();
        lemma_nth_calls(m, prev, d);
        let p = nth_calls_views(m, prev, d);
        let c = calls.last();
        let k = calls.len() - 1;
        let pushed = contains(c.call_name@, ".nth"@) && !on_line(p, c.line);
        if pushed {
            assert(n == p.push(nth_view(m, c.line)));
        } else {
            assert(n == p);
        }
        assert forall|j: int| 0 <= j < p.len() implies n[j] == p[j] by {}
        assert(n.subrange(0, prev.len() as int) =~= prev) by {
            assert(p.subrange(0, prev.len() as int) == prev);
            assert forall|j: int| 0 <= j < prev.len() implies n.subrange(0, prev.len() as int)[j] == prev[j] by {
                assert(p.subrange(0, prev.len() as int)[j] == p[j]);
            }
        }
        assert forall|i: int|
            0 <= i < calls.len() && contains((#[trigger] calls[i]).call_name@, ".nth"@) implies on_line(n, calls[i].line) by {
            if i < k {
                assert(d[i] == calls[i]);
                assert(on_line(p, d[i].line));
                let w = choose|w: int| 0 <= w < p.len() && (#[trigger] p[w]).line == d[i].line;
                assert(n[w] == p[w]);
            } else {
                if pushed {
                    assert(n[p.len() as int].line == c.line);
                } else {
                    let w = choose|w: int| 0 <= w < p.len() && (#[trigger] p[w]).line == c.line;
                    assert(n[w] == p[w]);
                }
            }
        }
        assert forall|q: int| prev.len() <= q < n.len() implies (exists|i: int|
            0 <= i < calls.len() && contains((#[trigger] calls[i]).call_name@, ".nth"@) && #[trigger] n[q] == nth_view(
                m,
                calls[i].line,
            )) && forall|pp: int| 0 <= pp < q ==> (#[trigger] n[pp]).line != n[q].line by {
            if q < p.len() {
                let i = choose|i: int|
                    0 <= i < d.len() && contains((#[trigger] d[i]).call_name@, ".nth"@) && p[q] == nth_view(
                        m,
                        d[i].line,
                    );
                assert(d[i] == calls[i]);
                assert(n[q] == p[q]);
                assert forall|pp: int| 0 <= pp < q implies (#[trigger] n[pp]).line != n[q].line by {
                    assert(n[pp] == p[pp]);
                    assert(p[pp].line != p[q].line);
                }
            } else {
                assert(pushed);
                assert(n[q] == nth_view(m, calls[k].line));
                assert forall|pp: int| 0 <= pp < q implies (#[trigger] n[pp]).line != n[q].line by {
                    assert(n[pp] == p[pp]);
                    if p[pp].line == c.line {
                        assert(on_line(p, c.line));
                    }
                }
            }
        }
    }
}

/// Law: in a Playwright file, `PwLocatorNthRule` reports first each locator
/// built with `.nth()`, in order, at its line; then, for the calls whose
/// name contains `.nth`, one violation on each line that holds no violation
/// yet. So every `.nth` locator and every `.nth` call has a violation on its
/// line, each added violation belongs to such a call, and no line gets two
/// violations from calls. In other files it reports nothing.
pub proof fn law_locator_nth_reports(
    m: ParsedModule,
    config: Config,
    all: Seq<ParsedModule>,
    tests: Seq<ParsedModule>,
    nodes: Seq<ParsedModule>,
)
    ensures
        m.playwright is None ==> PwLocatorNthRule.spec_check(m, config, all, tests, nodes).len() == 0,
        m.playwright matches Some(pw) ==> {
            let res = PwLocatorNthRule.spec_check(m, config, all, tests, nodes);
            let chained = filter_map(
                pw.locator_chains@,
                |x: LocatorChain|
                    if x.method@ == "nth"@ {
                        Some(
                            file_view(
                                "VITEST-PW-004"@,
                                "PwLocatorNthRule"@,
                                Severity::Warning,
                                Category::Playwright,
                                ".nth() positional locator is fragile \u{2014} DOM order may change"@,
                                m.file_path@,
                                x.line,
                                "Use a more specific locator (getByRole, getByTestId) or .filter() instead"@,
                            ),
                        )
                    } else {
                        None
                    },
            );
            &&& chained.len() <= res.len()
            &&& res.subrange(0, chained.len() as int) == chained
            &&& forall|i: int|
                0 <= i < pw.calls@.len() && contains((#[trigger] pw.calls@[i]).call_name@, ".nth"@)
                    ==> exists|q: int| 0 <= q < res.len() && (#[trigger] res[q]).line == pw.calls@[i].line
            &&& forall|q: int|
                chained.len() <= q < res.len() ==> (exists|i: int|
                    0 <= i < pw.calls@.len() && contains((#[trigger] pw.calls@[i]).call_name@, ".nth"@)
                        && #[trigger] res[q] == file_view(
                        "VITEST-PW-004"@,
                        "PwLocatorNthRule"@,
                        Severity::Warning,
                        Category::Playwright,
                        ".nth() positional locator is fragile \u{2014} DOM order may change"@,
                        m.file_path@,
                        pw.calls@[i].line,
                        "Use a more specific locator (getByRole, getByTestId) or .filter() instead"@,
                    )) && forall|p: int| 0 <= p < q ==> (#[trigger] res[p]).line != res[q].line
        },
{
    match m.playwright {
        Some(pw) => {
            let f = |x: LocatorChain|
                if x.method@ == "nth"@ {
                    Some(
                        file_view(
                            "VITEST-PW-004"@,
                            "PwLocatorNthRule"@,
                            Severity::Warning,
                            Category::Playwright,
                            ".nth() positional locator is fragile \u{2014} DOM order may change"@,
                            m.file_path@,
                            x.line,
                            "Use a more specific locator (getByRole, getByTestId) or .filter() instead"@,
                        ),
                    )
                } else {
                    None
                };
            assert forall|x: LocatorChain| #[trigger] PwLocatorNthRule.spec_item(m, config, x) == match f(x) {
                Some(v) => seq![v],
                None => Seq::<ViolationView>::empty(),
            } by {}
            lemma_scan_filter_map(PwLocatorNthRule, m, config, pw.locator_chains@, f);
            let chained = filter_map(pw.locator_chains@, f);
            lemma_nth_calls(m, chained, pw.calls@);
            let res = nth_calls_views(m, chained, pw.calls@);
            assert forall|i: int|
                0 <= i < pw.calls@.len() && contains((#[trigger] pw.calls@[i]).call_name@, ".nth"@)
                    implies exists|q: int| 0 <= q < res.len() && (#[trigger] res[q]).line == pw.calls@[i].line by {
                assert(on_line(res, pw.calls@[i].line));
            }
        },
        None => {},
    }
}


/// Law: in a Playwright file, `PwEvaluateInnerTextRule` reports each
/// `page.evaluate` call that reads `innerText`, once, at its line, in
/// order, and nothing else; in other files it reports nothing.
pub proof fn law_evaluate_inner_text_reports(
    m: ParsedModule,
    config: Config,
    all: Seq<ParsedModule>,
    tests: Seq<ParsedModule>,
    nodes: Seq<ParsedModule>,
)
    ensures
        m.playwright is None ==> PwEvaluateInnerTextRule.spec_check(m, config, all, tests, nodes).len() == 0,
        m.playwright matches Some(pw) ==> PwEvaluateInnerTextRule.spec_check(m, config, all, tests, nodes)
            == filter_map(
            pw.evaluate_inner_text@,
            |x: usize| Some(file_view("VITEST-PW-006"@, "PwEvaluateInnerTextRule"@, Severity::Warning, Category::Playwright, "page.evaluate with innerText \u{2014} prefer ARIA text assertions or getByText"@, m.file_path@, x, "Use await expect(page.getByText(...)).toBeVisible() instead"@)),
        ),
{
    match m.playwright {
        Some(pw) => {
            let f = |x: usize| Some(file_view("VITEST-PW-006"@, "PwEvaluateInnerTextRule"@, Severity::Warning, Category::Playwright, "page.evaluate with innerText \u{2014} prefer ARIA text assertions or getByText"@, m.file_path@, x, "Use await expect(page.getByText(...)).toBeVisible() instead"@));
            assert forall|x: usize| #[trigger] PwEvaluateInnerTextRule.spec_item(m, config, x) == match f(x) {
                Some(v) => seq![v],
                None => Seq::<ViolationView>::empty(),
            } by {}
            lemma_scan_filter_map(PwEvaluateInnerTextRule, m, config, pw.evaluate_inner_text@, f);
        },
        None => {},
    }
}

} // verus!
