//! The facts the rules read about a test file, found in its syntax tree:
//! imports, `vi.mock` calls, hooks, tests with what their bodies do,
//! `describe` blocks, exports, the test runner, and Playwright calls.

use vstd::prelude::*;
use crate::models::{CallView, ChainView, DescribeBlock, DescribeView, ExportView, ModuleView, ParsedModule, PlaywrightModule, PlaywrightView, TestRuntime, LocatorChain, PlaywrightCall, HookCall, HookKind, HookView, ImportEntry, ImportView, MockScope, MockView, TestBlock, TestView, ViMockCall, copy_string, opt_view, strings_view, views};
use crate::syntax::{SyntaxNode, copied, grammar_loads, syntax_tree};
use crate::text::{ascii_lowercase, chars_of, contains, ends_with, first_index, slice_range, starts_with, str_contains, str_ends_with, str_eq, str_starts_with, string_of};

verus! {

// ---------------------------------------------------------------------------
// Children by field and by kind

/// Whether node `c` fills field `f` of its parent.
pub open spec fn has_field(c: SyntaxNode, f: Seq<char>) -> bool {
    c.field matches Some(s) && s@ == f
}

/// The position of the first node of `cs` that fills field `f` (the length
/// when none does).
pub open spec fn field_index(cs: Seq<SyntaxNode>, f: Seq<char>) -> int
    decreases cs.len(),
{
    if cs.len() == 0 {
        0
    } else if has_field(cs[0], f) {
        0
    } else {
        1 + field_index(cs.drop_first(), f)
    }
}

/// `field_index` finds the first child that fills the field.
pub proof fn lemma_field_index(cs: Seq<SyntaxNode>, f: Seq<char>)
    ensures
        0 <= field_index(cs, f) <= cs.len(),
        forall|j: int| 0 <= j < field_index(cs, f) ==> !has_field(#[trigger] cs[j], f),
        field_index(cs, f) < cs.len() ==> has_field(cs[field_index(cs, f)], f),
    decreases cs.len(),
{
    if cs.len() > 0 && !has_field(cs[0], f) {
        lemma_field_index(cs.drop_first(), f);
        assert forall|j: int| 0 <= j < field_index(cs, f) implies !has_field(#[trigger] cs[j], f) by {
            if j > 0 {
                assert(cs[j] == cs.drop_first()[j - 1]);
            }
        }
        if field_index(cs, f) < cs.len() {
            assert(cs[field_index(cs, f)] == cs.drop_first()[field_index(cs.drop_first(), f)]);
        }
    }
}

/// The child of `n` that fills field `f` (`Node::child_by_field_name`).
pub open spec fn field_child(n: SyntaxNode, f: Seq<char>) -> Option<SyntaxNode> {
    let i = field_index(n.children@, f);
    if i < n.children@.len() {
        Some(n.children@[i])
    } else {
        None
    }
}

/// The child of `n` that fills field `f`.
fn child_by_field<'a>(n: &'a SyntaxNode, f: &str) -> (r: Option<&'a SyntaxNode>)
    ensures
        match r {
            Some(c) => field_child(*n, f@) == Some(*c),
            None => field_child(*n, f@).is_none(),
        },
{
    proof {
        lemma_field_index(n.children@, f@);
    }
    let mut i: usize = 0;
    while i < n.children.len()
        invariant
            i <= n.children@.len(),
            forall|j: int| 0 <= j < i ==> !has_field(#[trigger] n.children@[j], f@),
        decreases n.children@.len() - i,
    {
        let c = &n.children[i];
        let hit = match &c.field {
            Some(s) => str_eq(s.as_str(), f),
            None => false,
        };
        if hit {
            assert(has_field(n.children@[i as int], f@));
            proof {
                lemma_field_index(n.children@, f@);
            }
            assert(field_index(n.children@, f@) == i) by {
                if field_index(n.children@, f@) < i {
                    assert(!has_field(n.children@[field_index(n.children@, f@)], f@));
                }
            }
            return Some(c);
        }
        i = i + 1;
    }
    assert(field_index(n.children@, f@) == n.children@.len()) by {
        if field_index(n.children@, f@) < n.children@.len() {
            assert(!has_field(n.children@[field_index(n.children@, f@)], f@));
        }
    }
    None
}

/// Whether some child of `n` has kind `k`.
pub open spec fn has_kind_child(n: SyntaxNode, k: Seq<char>) -> bool {
    exists|i: int| 0 <= i < n.children@.len() && (#[trigger] n.children@[i]).kind@ == k
}

/// The position of the first child of `cs` of kind `k` (the length when none is).
pub open spec fn kind_index(cs: Seq<SyntaxNode>, k: Seq<char>) -> int
    decreases cs.len(),
{
    if cs.len() == 0 {
        0
    } else if cs[0].kind@ == k {
        0
    } else {
        1 + kind_index(cs.drop_first(), k)
    }
}

/// `kind_index` finds the first child of the kind.
pub proof fn lemma_kind_index(cs: Seq<SyntaxNode>, k: Seq<char>)
    ensures
        0 <= kind_index(cs, k) <= cs.len(),
        forall|j: int| 0 <= j < kind_index(cs, k) ==> (#[trigger] cs[j]).kind@ != k,
        kind_index(cs, k) < cs.len() ==> cs[kind_index(cs, k)].kind@ == k,
    decreases cs.len(),
{
    if cs.len() > 0 && cs[0].kind@ != k {
        lemma_kind_index(cs.drop_first(), k);
        assert forall|j: int| 0 <= j < kind_index(cs, k) implies (#[trigger] cs[j]).kind@ != k by {
            if j > 0 {
                assert(cs[j] == cs.drop_first()[j - 1]);
            }
        }
        if kind_index(cs, k) < cs.len() {
            assert(cs[kind_index(cs, k)] == cs.drop_first()[kind_index(cs.drop_first(), k)]);
        }
    }
}

/// The first child of `n` of kind `k`.
pub open spec fn kind_child(n: SyntaxNode, k: Seq<char>) -> Option<SyntaxNode> {
    let i = kind_index(n.children@, k);
    if i < n.children@.len() {
        Some(n.children@[i])
    } else {
        None
    }
}

/// The first child of `n` of kind `k`.
fn child_of_kind<'a>(n: &'a SyntaxNode, k: &str) -> (r: Option<&'a SyntaxNode>)
    ensures
        match r {
            Some(c) => kind_child(*n, k@) == Some(*c),
            None => kind_child(*n, k@).is_none(),
        },
        r.is_some() == has_kind_child(*n, k@),
{
    proof {
        lemma_kind_index(n.children@, k@);
    }
    let mut i: usize = 0;
    while i < n.children.len()
        invariant
            i <= n.children@.len(),
            forall|j: int| 0 <= j < i ==> (#[trigger] n.children@[j]).kind@ != k@,
        decreases n.children@.len() - i,
    {
        let c = &n.children[i];
        if str_eq(c.kind.as_str(), k) {
            proof {
                lemma_kind_index(n.children@, k@);
            }
            assert(kind_index(n.children@, k@) == i) by {
                if kind_index(n.children@, k@) < i {
                    assert(n.children@[kind_index(n.children@, k@)].kind@ != k@);
                }
            }
            return Some(c);
        }
        i = i + 1;
    }
    assert(kind_index(n.children@, k@) == n.children@.len()) by {
        if kind_index(n.children@, k@) < n.children@.len() {
            assert(n.children@[kind_index(n.children@, k@)].kind@ != k@);
        }
    }
    None
}

// ---------------------------------------------------------------------------
// Quotes

/// Whether `c` is trimmed from a string literal: any quote when `all`, else
/// only the backtick.
pub open spec fn quote_char(c: char, all: bool) -> bool {
    if all {
        c == '"' || c == '\'' || c == '`'
    } else {
        c == '`'
    }
}

/// `s` without its leading quote characters.
pub open spec fn trim_quotes_front(s: Seq<char>, all: bool) -> Seq<char>
    decreases s.len(),
{
    if s.len() > 0 && quote_char(s[0], all) {
        trim_quotes_front(s.drop_first(), all)
    } else {
        s
    }
}

/// `s` without its trailing quote characters.
pub open spec fn trim_quotes_back(s: Seq<char>, all: bool) -> Seq<char>
    decreases s.len(),
{
    if s.len() > 0 && quote_char(s.last(), all) {
        trim_quotes_back(s.drop_last(), all)
    } else {
        s
    }
}

/// `s` without quote characters at either end (`str::trim_matches`).
pub open spec fn trim_quotes(s: Seq<char>, all: bool) -> Seq<char> {
    trim_quotes_back(trim_quotes_front(s, all), all)
}

proof fn lemma_trim_quotes_front_skip(s: Seq<char>, i: int, all: bool)
    requires
        0 <= i <= s.len(),
        forall|j: int| 0 <= j < i ==> quote_char(s[j], all),
    ensures
        trim_quotes_front(s, all) == trim_quotes_front(s.subrange(i, s.len() as int), all),
    decreases i,
{
    if i > 0 {
        assert(s.drop_first().subrange(i - 1, s.drop_first().len() as int) == s.subrange(
            i,
            s.len() as int,
        ));
        lemma_trim_quotes_front_skip(s.drop_first(), i - 1, all);
    } else {
        assert(s.subrange(0, s.len() as int) == s);
    }
}

proof fn lemma_trim_quotes_back_take(s: Seq<char>, k: int, all: bool)
    requires
        0 <= k <= s.len(),
        forall|j: int| k <= j < s.len() ==> quote_char(s[j], all),
    ensures
        trim_quotes_back(s, all) == trim_quotes_back(s.subrange(0, k), all),
    decreases s.len() - k,
{
    if k < s.len() {
        assert(s.drop_last().subrange(0, k) == s.subrange(0, k));
        lemma_trim_quotes_back_take(s.drop_last(), k, all);
    } else {
        assert(s.subrange(0, k) == s);
    }
}

/// Whether `c` is trimmed from a string literal.
fn is_quote_char(c: char, all: bool) -> (b: bool)
    ensures
        b == quote_char(c, all),
{
    if all {
        c == '"' || c == '\'' || c == '`'
    } else {
        c == '`'
    }
}

/// `s` without quote characters at either end.
fn strip_quotes(s: &str, all: bool) -> (r: String)
    ensures
        r@ == trim_quotes(s@, all),
{
    let cs = chars_of(s);
    let n = cs.len();
    let mut a: usize = 0;
    while a < n && is_quote_char(cs[a], all)
        invariant
            a <= n == cs@.len(),
            forall|j: int| 0 <= j < a ==> quote_char(cs@[j], all),
        decreases n - a,
    {
        a = a + 1;
    }
    let mut b = n;
    while b > a && is_quote_char(cs[b - 1], all)
        invariant
            a <= b <= n == cs@.len(),
            forall|j: int| b <= j < n ==> quote_char(cs@[j], all),
        decreases b,
    {
        b = b - 1;
    }
    proof {
        let w = cs@;
        lemma_trim_quotes_front_skip(w, a as int, all);
        let u = w.subrange(a as int, n as int);
        assert(trim_quotes_front(u, all) == u) by {
            if u.len() > 0 && quote_char(u[0], all) {
                assert(a == b);
                assert(u[0] == w[a as int]);
                assert(false);
            }
        }
        lemma_trim_quotes_back_take(u, b - a, all);
        assert(u.subrange(0, b - a) == w.subrange(a as int, b as int));
        let v = w.subrange(a as int, b as int);
        assert(trim_quotes_back(v, all) == v) by {
            if v.len() > 0 {
                assert(v.last() == w[b - 1]);
            }
        }
    }
    string_of(slice_range(cs.as_slice(), a, b))
}

// ---------------------------------------------------------------------------
// Strings, callees and callbacks

/// The value of a string literal or of a template literal without `${...}`
/// (the quotes trimmed); `None` for any other node.
pub open spec fn string_value(n: SyntaxNode) -> Option<Seq<char>> {
    if n.kind@ == "string"@ {
        Some(trim_quotes(n.text@, true))
    } else if n.kind@ == "template_string"@ {
        if has_kind_child(n, "template_substitution"@) {
            None
        } else {
            Some(trim_quotes(n.text@, false))
        }
    } else {
        None
    }
}

/// The value of a string literal or of a template literal without `${...}`.
fn string_value_exec(n: &SyntaxNode) -> (r: Option<String>)
    ensures
        match r {
            Some(s) => string_value(*n) == Some(s@),
            None => string_value(*n).is_none(),
        },
{
    if str_eq(n.kind.as_str(), "string") {
        Some(strip_quotes(n.text.as_str(), true))
    } else if str_eq(n.kind.as_str(), "template_string") {
        if child_of_kind(n, "template_substitution").is_some() {
            None
        } else {
            Some(strip_quotes(n.text.as_str(), false))
        }
    } else {
        None
    }
}

/// The name, skip flag and only flag of a callee: an identifier gives its
/// text; a member expression gives the text before its first `.`, whether it
/// mentions `.skip` or `.todo`, and whether it mentions `.only`.
pub open spec fn callee_info(n: SyntaxNode) -> (Seq<char>, bool, bool) {
    if n.kind@ == "identifier"@ {
        (n.text@, false, false)
    } else if n.kind@ == "member_expression"@ {
        let full = n.text@;
        (
            full.take(first_index(full, '.') as int),
            contains(full, ".skip"@) || contains(full, ".todo"@),
            contains(full, ".only"@),
        )
    } else {
        (Seq::empty(), false, false)
    }
}

/// The name, skip flag and only flag of a callee.
fn parse_callee(n: &SyntaxNode) -> (r: (String, bool, bool))
    ensures
        (r.0@, r.1, r.2) == callee_info(*n),
{
    if str_eq(n.kind.as_str(), "identifier") {
        (crate::models::copy_string(&n.text), false, false)
    } else if str_eq(n.kind.as_str(), "member_expression") {
        let full = n.text.as_str();
        let cs = chars_of(full);
        let dot = crate::text::find_char(cs.as_slice(), 0, '.');
        assert(cs@.skip(0) == cs@);
        let base = string_of(slice_range(cs.as_slice(), 0, dot));
        assert(cs@.subrange(0, dot as int) == cs@.take(dot as int));
        let is_skip = str_contains(full, ".skip") || str_contains(full, ".todo");
        let is_only = str_contains(full, ".only");
        (base, is_skip, is_only)
    } else {
        (String::new(), false, false)
    }
}

/// Whether a node is a function literal (arrow function or function
/// expression).
pub open spec fn is_function_node(n: SyntaxNode) -> bool {
    n.kind@ == "arrow_function"@ || n.kind@ == "function_expression"@
}

/// The body of a function literal: its first statement block, else its
/// `body` field; `None` for any other node.
pub open spec fn func_body(f: SyntaxNode) -> Option<SyntaxNode> {
    if !is_function_node(f) {
        None
    } else if has_kind_child(f, "statement_block"@) {
        kind_child(f, "statement_block"@)
    } else {
        field_child(f, "body"@)
    }
}

/// The body of a function literal.
fn func_body_exec(f: &SyntaxNode) -> (r: Option<&SyntaxNode>)
    ensures
        match r {
            Some(b) => func_body(*f) == Some(*b),
            None => func_body(*f).is_none(),
        },
{
    if !str_eq(f.kind.as_str(), "arrow_function") && !str_eq(f.kind.as_str(), "function_expression") {
        return None;
    }
    match child_of_kind(f, "statement_block") {
        Some(b) => Some(b),
        None => child_by_field(f, "body"),
    }
}

/// A child of `n` is smaller than `n`.
pub proof fn lemma_child_decreases(n: SyntaxNode, i: int)
    requires
        0 <= i < n.children@.len(),
    ensures
        decreases_to!(n => n.children@[i]),
{
    assert(decreases_to!(n => n.children));
    assert(decreases_to!(n.children => n.children@));
    assert(decreases_to!(n.children@ => n.children@[i]));
}

/// The child of `n` that fills field `f` is smaller than `n`.
pub proof fn lemma_field_child_decreases(n: SyntaxNode, f: Seq<char>)
    ensures
        field_child(n, f) matches Some(c) ==> decreases_to!(n => c),
{
    lemma_field_index(n.children@, f);
    if field_index(n.children@, f) < n.children@.len() {
        lemma_child_decreases(n, field_index(n.children@, f));
    }
}

// ---------------------------------------------------------------------------
// Awaits

/// Whether a node of kind `k` ends the search for an enclosing `await`:
/// statements, declarations and blocks do.
pub open spec fn await_boundary(k: Seq<char>) -> bool {
    k == "expression_statement"@ || k == "lexical_declaration"@ || k == "variable_declaration"@ || k
        == "statement_block"@
}

/// Whether the children of a node of kind `k` stand inside an `await`,
/// given whether the node itself does: an `await_expression` makes it so, a
/// boundary ends it, any other node passes its own state on.
pub open spec fn await_step(k: Seq<char>, aw: bool) -> bool {
    if k == "await_expression"@ {
        true
    } else if await_boundary(k) {
        false
    } else {
        aw
    }
}

/// `await_step` for a node.
fn await_step_exec(n: &SyntaxNode, aw: bool) -> (r: bool)
    ensures
        r == await_step(n.kind@, aw),
{
    let k = n.kind.as_str();
    if str_eq(k, "await_expression") {
        true
    } else if str_eq(k, "expression_statement") || str_eq(k, "lexical_declaration") || str_eq(
        k,
        "variable_declaration",
    ) || str_eq(k, "statement_block") {
        false
    } else {
        aw
    }
}

// ---------------------------------------------------------------------------
// Test bodies

/// What the walk over a test body counts and finds.
#[derive(Debug, Clone, Copy, PartialEq, Eq, Structural)]
pub struct Analysis {
    pub assertion_count: usize,
    pub has_conditional: bool,
    pub has_try_catch: bool,
    pub uses_settimeout: bool,
    pub uses_datemock: bool,
    pub has_return: bool,
    pub unawaited_async_assertions: usize,
    pub uses_fake_timers: bool,
    pub uses_random: bool,
    pub has_expect_without_assertion: bool,
    pub has_return_of_expect: bool,
    pub has_async_expect_wrapper: bool,
    pub weak_assertion_count: usize,
    pub has_real_timers_call: bool,
}

/// Nothing counted, nothing found.
pub open spec fn empty_analysis() -> Analysis {
    Analysis {
        assertion_count: 0,
        has_conditional: false,
        has_try_catch: false,
        uses_settimeout: false,
        uses_datemock: false,
        has_return: false,
        unawaited_async_assertions: 0,
        uses_fake_timers: false,
        uses_random: false,
        has_expect_without_assertion: false,
        has_return_of_expect: false,
        has_async_expect_wrapper: false,
        weak_assertion_count: 0,
        has_real_timers_call: false,
    }
}

/// Nothing counted, nothing found.
fn new_analysis() -> (a: Analysis)
    ensures
        a == empty_analysis(),
{
    Analysis {
        assertion_count: 0,
        has_conditional: false,
        has_try_catch: false,
        uses_settimeout: false,
        uses_datemock: false,
        has_return: false,
        unawaited_async_assertions: 0,
        uses_fake_timers: false,
        uses_random: false,
        has_expect_without_assertion: false,
        has_return_of_expect: false,
        has_async_expect_wrapper: false,
        weak_assertion_count: 0,
        has_real_timers_call: false,
    }
}

/// One more, unless the count is already at its maximum.
pub open spec fn bump(x: usize) -> usize {
    if x < usize::MAX {
        (x + 1) as usize
    } else {
        x
    }
}

/// One more, unless the count is already at its maximum.
fn bump_exec(x: usize) -> (r: usize)
    ensures
        r == bump(x),
{
    if x < usize::MAX {
        x + 1
    } else {
        x
    }
}

/// Whether the matcher of an assertion callee is weak: `toBeDefined`,
/// `toBeTruthy` or `not.toThrow`.
pub open spec fn weak_matcher(callee: Seq<char>) -> bool {
    ends_with(callee, ".toBeDefined"@) || ends_with(callee, ".toBeTruthy"@) || ends_with(
        callee,
        ".not.toThrow"@,
    )
}

/// The `expect(...)` call at the root of a callee chain such as
/// `expect(x).not.toBe`: the first call, following calls and member
/// objects, whose function is the identifier `expect`.
pub open spec fn expect_root(n: SyntaxNode) -> Option<SyntaxNode>
    decreases n,
{
    if n.kind@ == "call_expression"@ {
        let i = field_index(n.children@, "function"@);
        if 0 <= i < n.children@.len() {
            let f = n.children@[i];
            if f.kind@ == "identifier"@ && f.text@ == "expect"@ {
                Some(n)
            } else {
                proof {
                    lemma_child_decreases(n, i);
                }
                expect_root(f)
            }
        } else {
            None
        }
    } else if n.kind@ == "member_expression"@ {
        let i = field_index(n.children@, "object"@);
        if 0 <= i < n.children@.len() {
            proof {
                lemma_child_decreases(n, i);
            }
            expect_root(n.children@[i])
        } else {
            None
        }
    } else {
        None
    }
}

/// Whether `f` is an `async` function literal.
pub open spec fn async_function(f: SyntaxNode) -> bool {
    is_function_node(f) && starts_with(f.text@, "async"@)
}

/// Whether a callee chain applies its matcher to `expect(async ...)`.
pub open spec fn async_expect_wrapper(callee: SyntaxNode) -> bool {
    match expect_root(callee) {
        Some(call) => match field_child(call, "arguments"@) {
            Some(args) => args.children@.len() > 0 && async_function(args.children@[0]),
            None => false,
        },
        None => false,
    }
}

/// What an assertion call with callee `func` adds to the analysis; `aw`
/// tells whether the call stands inside an `await`.
pub open spec fn expect_effects(st: Analysis, func: SyntaxNode, aw: bool) -> Analysis {
    let text = func.text@;
    if starts_with(text, "expect"@) {
        Analysis {
            assertion_count: bump(st.assertion_count),
            unawaited_async_assertions: if (contains(text, ".resolves"@) || contains(
                text,
                ".rejects"@,
            )) && !aw {
                bump(st.unawaited_async_assertions)
            } else {
                st.unawaited_async_assertions
            },
            weak_assertion_count: if weak_matcher(text) {
                bump(st.weak_assertion_count)
            } else {
                st.weak_assertion_count
            },
            has_expect_without_assertion: st.has_expect_without_assertion || text == "expect"@,
            has_async_expect_wrapper: st.has_async_expect_wrapper || async_expect_wrapper(func),
            ..st
        }
    } else {
        st
    }
}

/// What a call of the function named `text` adds to the analysis: timers,
/// dates and randomness.
pub open spec fn name_effects(st: Analysis, text: Seq<char>) -> Analysis {
    Analysis {
        uses_settimeout: st.uses_settimeout || text == "setTimeout"@,
        uses_datemock: st.uses_datemock || starts_with(text, "Date."@),
        uses_fake_timers: st.uses_fake_timers || text == "vi.useFakeTimers"@,
        uses_random: st.uses_random || text == "Math.random"@,
        has_real_timers_call: st.has_real_timers_call || text == "vi.useRealTimers"@,
        ..st
    }
}

/// What a call with callee `func` adds to the analysis; `aw` tells whether
/// the call stands inside an `await`.
pub open spec fn call_effects(st: Analysis, func: SyntaxNode, aw: bool) -> Analysis {
    name_effects(expect_effects(st, func, aw), func.text@)
}

/// Whether a `return` statement returns an `expect(...)` chain.
pub open spec fn returns_expect(n: SyntaxNode) -> bool {
    n.children@.len() > 0 && n.children@[0].kind@ == "call_expression"@ && match field_child(
        n.children@[0],
        "function"@,
    ) {
        Some(f) => starts_with(f.text@, "expect"@),
        None => false,
    }
}

/// What a node other than a call adds to the analysis before its children
/// are walked.
pub open spec fn node_effects(st: Analysis, n: SyntaxNode) -> Analysis {
    let k = n.kind@;
    if k == "new_expression"@ {
        match field_child(n, "constructor"@) {
            Some(c) => Analysis { uses_datemock: st.uses_datemock || c.text@ == "Date"@, ..st },
            None => st,
        }
    } else if k == "if_statement"@ || k == "switch_statement"@ {
        Analysis { has_conditional: true, ..st }
    } else if k == "try_statement"@ {
        Analysis { has_try_catch: true, ..st }
    } else if k == "return_statement"@ {
        Analysis {
            has_return: true,
            has_return_of_expect: st.has_return_of_expect || returns_expect(n),
            ..st
        }
    } else {
        st
    }
}

/// The analysis after walking `n`, which stands inside an `await` when `aw`
/// holds: a call counts its callee and walks only its arguments; any other
/// node counts itself and walks all its children.
pub open spec fn walk(n: SyntaxNode, aw: bool, st: Analysis) -> Analysis
    decreases n, 1int,
{
    if n.kind@ == "call_expression"@ {
        let fi = field_index(n.children@, "function"@);
        if 0 <= fi < n.children@.len() {
            let st1 = call_effects(st, n.children@[fi], aw);
            let ai = field_index(n.children@, "arguments"@);
            if 0 <= ai < n.children@.len() {
                let args = n.children@[ai];
                proof {
                    lemma_child_decreases(n, ai);
                }
                walk_list(args.children@, await_step(args.kind@, await_step(n.kind@, aw)), st1)
            } else {
                st1
            }
        } else {
            st
        }
    } else {
        walk_list(n.children@, await_step(n.kind@, aw), node_effects(st, n))
    }
}

/// The analysis after walking the nodes of `cs` in order.
pub open spec fn walk_list(cs: Seq<SyntaxNode>, aw: bool, st: Analysis) -> Analysis
    decreases cs, 0int,
{
    if cs.len() == 0 {
        st
    } else {
        walk(cs.last(), aw, walk_list(cs.drop_last(), aw, st))
    }
}

/// Whether the matcher of an assertion callee is weak.
fn is_weak_matcher(callee: &str) -> (b: bool)
    ensures
        b == weak_matcher(callee@),
{
    str_ends_with(callee, ".toBeDefined") || str_ends_with(callee, ".toBeTruthy") || str_ends_with(
        callee,
        ".not.toThrow",
    )
}

/// The `expect(...)` call at the root of a callee chain.
fn expect_root_exec(n: &SyntaxNode) -> (r: Option<&SyntaxNode>)
    ensures
        match r {
            Some(c) => expect_root(*n) == Some(*c),
            None => expect_root(*n).is_none(),
        },
    decreases n,
{
    proof {
        lemma_field_index(n.children@, "function"@);
        lemma_field_index(n.children@, "object"@);
    }
    if str_eq(n.kind.as_str(), "call_expression") {
        match child_by_field(n, "function") {
            Some(f) => {
                proof {
                    lemma_field_child_decreases(*n, "function"@);
                }
                if str_eq(f.kind.as_str(), "identifier") && str_eq(f.text.as_str(), "expect") {
                    Some(n)
                } else {
                    expect_root_exec(f)
                }
            },
            None => None,
        }
    } else if str_eq(n.kind.as_str(), "member_expression") {
        match child_by_field(n, "object") {
            Some(o) => {
                proof {
                    lemma_field_child_decreases(*n, "object"@);
                }
                expect_root_exec(o)
            },
            None => None,
        }
    } else {
        None
    }
}

/// Whether `f` is an `async` function literal.
fn is_async_function(f: &SyntaxNode) -> (b: bool)
    ensures
        b == async_function(*f),
{
    (str_eq(f.kind.as_str(), "arrow_function") || str_eq(f.kind.as_str(), "function_expression"))
        && str_starts_with(f.text.as_str(), "async")
}

/// Whether a callee chain applies its matcher to `expect(async ...)`.
fn is_async_expect_wrapper(callee: &SyntaxNode) -> (b: bool)
    ensures
        b == async_expect_wrapper(*callee),
{
    match expect_root_exec(callee) {
        Some(call) => match child_by_field(call, "arguments") {
            Some(args) => args.children.len() > 0 && is_async_function(&args.children[0]),
            None => false,
        },
        None => false,
    }
}

/// What an assertion call with callee `func` contributes.
fn expect_effects_exec(a: Analysis, func: &SyntaxNode, aw: bool) -> (r: Analysis)
    ensures
        r == expect_effects(a, *func, aw),
{
    let text = func.text.as_str();
    if str_starts_with(text, "expect") {
        let unawaited = (str_contains(text, ".resolves") || str_contains(text, ".rejects")) && !aw;
        let weak = is_weak_matcher(text);
        let bare = str_eq(text, "expect");
        let wrapper = is_async_expect_wrapper(func);
        Analysis {
            assertion_count: bump_exec(a.assertion_count),
            unawaited_async_assertions: if unawaited {
                bump_exec(a.unawaited_async_assertions)
            } else {
                a.unawaited_async_assertions
            },
            weak_assertion_count: if weak {
                bump_exec(a.weak_assertion_count)
            } else {
                a.weak_assertion_count
            },
            has_expect_without_assertion: a.has_expect_without_assertion || bare,
            has_async_expect_wrapper: a.has_async_expect_wrapper || wrapper,
            ..a
        }
    } else {
        a
    }
}

/// What a call of the function named `text` contributes.
fn name_effects_exec(a: Analysis, text: &str) -> (r: Analysis)
    ensures
        r == name_effects(a, text@),
{
    let t = str_eq(text, "setTimeout");
    let d = str_starts_with(text, "Date.");
    let f = str_eq(text, "vi.useFakeTimers");
    let m = str_eq(text, "Math.random");
    let rt = str_eq(text, "vi.useRealTimers");
    Analysis {
        uses_settimeout: a.uses_settimeout || t,
        uses_datemock: a.uses_datemock || d,
        uses_fake_timers: a.uses_fake_timers || f,
        uses_random: a.uses_random || m,
        has_real_timers_call: a.has_real_timers_call || rt,
        ..a
    }
}

/// Adds what a call with callee `func` contributes.
fn add_call_effects(st: &mut Analysis, func: &SyntaxNode, aw: bool)
    ensures
        *final(st) == call_effects(*old(st), *func, aw),
{
    let e = expect_effects_exec(*st, func, aw);
    *st = name_effects_exec(e, func.text.as_str());
}

/// Whether a `return` statement returns an `expect(...)` chain.
fn returns_expect_exec(n: &SyntaxNode) -> (b: bool)
    ensures
        b == returns_expect(*n),
{
    if n.children.len() == 0 || !str_eq(n.children[0].kind.as_str(), "call_expression") {
        return false;
    }
    match child_by_field(&n.children[0], "function") {
        Some(f) => str_starts_with(f.text.as_str(), "expect"),
        None => false,
    }
}

/// Adds what a node other than a call contributes before its children.
fn add_node_effects(st: &mut Analysis, n: &SyntaxNode)
    ensures
        *final(st) == node_effects(*old(st), *n),
{
    let k = n.kind.as_str();
    if str_eq(k, "new_expression") {
        match child_by_field(n, "constructor") {
            Some(c) => {
                if str_eq(c.text.as_str(), "Date") {
                    st.uses_datemock = true;
                }
            },
            None => {},
        }
    } else if str_eq(k, "if_statement") || str_eq(k, "switch_statement") {
        st.has_conditional = true;
    } else if str_eq(k, "try_statement") {
        st.has_try_catch = true;
    } else if str_eq(k, "return_statement") {
        st.has_return = true;
        if returns_expect_exec(n) {
            st.has_return_of_expect = true;
        }
    }
}

/// Walks the nodes of `cs` in order.
fn walk_nodes(cs: &Vec<SyntaxNode>, aw: bool, st: &mut Analysis, parent: Ghost<SyntaxNode>)
    requires
        forall|j: int| 0 <= j < cs@.len() ==> decreases_to!(parent@ => #[trigger] cs@[j]),
    ensures
        *final(st) == walk_list(cs@, aw, *old(st)),
    decreases parent@, 0int,
{
    let ghost st0 = *st;
    let mut j: usize = 0;
    assert(cs@.take(0) =~= Seq::<SyntaxNode>::empty());
    while j < cs.len()
        invariant
            j <= cs@.len(),
            forall|q: int| 0 <= q < cs@.len() ==> decreases_to!(parent@ => #[trigger] cs@[q]),
            *st == walk_list(cs@.take(j as int), aw, st0),
        decreases cs@.len() - j,
    {
        proof {
            let t = cs@.take(j + 1);
            assert(t.drop_last() == cs@.take(j as int));
            assert(t.last() == cs@[j as int]);
            assert(decreases_to!(parent@ => cs@[j as int]));
        }
        walk_body(&cs[j], aw, st);
        j = j + 1;
    }
    assert(cs@.take(cs@.len() as int) == cs@);
}

/// Walks `n`, which stands inside an `await` when `aw` holds.
fn walk_body(n: &SyntaxNode, aw: bool, st: &mut Analysis)
    ensures
        *final(st) == walk(*n, aw, *old(st)),
    decreases *n, 1int,
{
    proof {
        lemma_field_index(n.children@, "function"@);
        lemma_field_index(n.children@, "arguments"@);
    }
    if str_eq(n.kind.as_str(), "call_expression") {
        match child_by_field(n, "function") {
            Some(func) => {
                add_call_effects(st, func, aw);
                match child_by_field(n, "arguments") {
                    Some(args) => {
                        let aw2 = await_step_exec(args, await_step_exec(n, aw));
                        proof {
                            lemma_field_child_decreases(*n, "arguments"@);
                            assert forall|j: int| 0 <= j < args.children@.len() implies decreases_to!(*n => #[trigger] args.children@[j]) by {
                                lemma_child_decreases(*args, j);
                            }
                        }
                        walk_nodes(&args.children, aw2, st, Ghost(*n));
                    },
                    None => {},
                }
            },
            None => {},
        }
    } else {
        add_node_effects(st, n);
        let aw2 = await_step_exec(n, aw);
        proof {
            assert forall|j: int| 0 <= j < n.children@.len() implies decreases_to!(*n => #[trigger] n.children@[j]) by {
                lemma_child_decreases(*n, j);
            }
        }
        walk_nodes(&n.children, aw2, st, Ghost(*n));
    }
}

// ---------------------------------------------------------------------------
// Imports

/// The named import of an `import_specifier`: its `name` field, else its
/// first non-empty identifier child.
pub open spec fn specifier_name(spec: SyntaxNode) -> Option<Seq<char>> {
    let name = match field_child(spec, "name"@) {
        Some(n) => n.text@,
        None => Seq::empty(),
    };
    if name.len() > 0 {
        Some(name)
    } else {
        first_identifier(spec.children@)
    }
}

/// The text of the first identifier of `cs` with a non-empty text.
pub open spec fn first_identifier(cs: Seq<SyntaxNode>) -> Option<Seq<char>>
    decreases cs.len(),
{
    if cs.len() == 0 {
        None
    } else if cs[0].kind@ == "identifier"@ && cs[0].text@.len() > 0 {
        Some(cs[0].text@)
    } else {
        first_identifier(cs.drop_first())
    }
}

/// The names that the specifiers of `cs` import, in order.
pub open spec fn named_list(cs: Seq<SyntaxNode>) -> Seq<Seq<char>>
    decreases cs.len(),
{
    if cs.len() == 0 {
        Seq::empty()
    } else {
        let c = cs.last();
        named_list(cs.drop_last()) + if c.kind@ == "import_specifier"@ {
            match specifier_name(c) {
                Some(n) => seq![n],
                None => Seq::empty(),
            }
        } else {
            Seq::empty()
        }
    }
}

/// The last identifier of `cs`, if any.
pub open spec fn last_identifier(cs: Seq<SyntaxNode>) -> Option<Seq<char>>
    decreases cs.len(),
{
    if cs.len() == 0 {
        None
    } else if cs.last().kind@ == "identifier"@ {
        Some(cs.last().text@)
    } else {
        last_identifier(cs.drop_last())
    }
}

/// An import entry after reading one child of its import clause: a default
/// identifier, a namespace import or named imports.
pub open spec fn clause_step(e: ImportView, c: SyntaxNode) -> ImportView {
    if c.kind@ == "identifier"@ {
        if c.text@.len() > 0 {
            ImportView { default: Some(c.text@), ..e }
        } else {
            e
        }
    } else if c.kind@ == "namespace_import"@ {
        match last_identifier(c.children@) {
            Some(n) => ImportView { namespace: Some(n), ..e },
            None => e,
        }
    } else if c.kind@ == "named_imports"@ {
        ImportView { named: e.named + named_list(c.children@), ..e }
    } else {
        e
    }
}

/// An import entry after reading the children `cs` of its import clause.
pub open spec fn clause_fold(e: ImportView, cs: Seq<SyntaxNode>) -> ImportView
    decreases cs.len(),
{
    if cs.len() == 0 {
        e
    } else {
        clause_step(clause_fold(e, cs.drop_last()), cs.last())
    }
}

/// An import entry after reading one child of the import statement: the
/// source string or the import clause.
pub open spec fn import_step(e: ImportView, c: SyntaxNode) -> ImportView {
    if c.kind@ == "string"@ {
        ImportView { source: trim_quotes(c.text@, true), ..e }
    } else if c.kind@ == "import_clause"@ {
        clause_fold(e, c.children@)
    } else {
        e
    }
}

/// An import entry after reading the children `cs` of the import statement.
pub open spec fn import_fold(e: ImportView, cs: Seq<SyntaxNode>) -> ImportView
    decreases cs.len(),
{
    if cs.len() == 0 {
        e
    } else {
        import_step(import_fold(e, cs.drop_last()), cs.last())
    }
}

/// The line (1-based) of a node.
pub open spec fn line_of(n: SyntaxNode) -> usize {
    bump(n.row)
}

/// The entry of an import statement; `None` when it names no source.
pub open spec fn import_entry(n: SyntaxNode) -> Option<ImportView> {
    let e = import_fold(
        ImportView {
            source: Seq::empty(),
            named: Seq::empty(),
            default: None,
            namespace: None,
            line: line_of(n),
        },
        n.children@,
    );
    if e.source.len() == 0 {
        None
    } else {
        Some(e)
    }
}

/// The named import of an `import_specifier`.
fn specifier_name_exec(spec: &SyntaxNode) -> (r: Option<String>)
    ensures
        opt_view(r) == specifier_name(*spec),
{
    let name = match child_by_field(spec, "name") {
        Some(n) => copy_string(&n.text),
        None => String::new(),
    };
    if !name.as_str().is_empty() {
        return Some(name);
    }
    let cs = &spec.children;
    let mut i: usize = 0;
    assert(cs@.skip(0) == cs@);
    let ghost fname = match field_child(*spec, "name"@) {
        Some(n) => n.text@,
        None => Seq::<char>::empty(),
    };
    assert(fname.len() == 0);
    while i < cs.len()
        invariant
            i <= cs@.len(),
            cs@ == spec.children@,
            fname.len() == 0,
            fname == match field_child(*spec, "name"@) {
                Some(n) => n.text@,
                None => Seq::<char>::empty(),
            },
            first_identifier(cs@) == first_identifier(cs@.skip(i as int)),
        decreases cs@.len() - i,
    {
        assert(cs@.skip(i as int)[0] == cs@[i as int]);
        if str_eq(cs[i].kind.as_str(), "identifier") && !cs[i].text.as_str().is_empty() {
            return Some(copy_string(&cs[i].text));
        }
        assert(cs@.skip(i as int).drop_first() == cs@.skip(i + 1));
        i = i + 1;
    }
    None
}

/// Reads one child of an import clause into `e`.
fn clause_step_exec(e: &mut ImportEntry, c: &SyntaxNode)
    ensures
        final(e)@ == clause_step(old(e)@, *c),
{
    if str_eq(c.kind.as_str(), "identifier") {
        if !c.text.as_str().is_empty() {
            e.default = Some(copy_string(&c.text));
        }
    } else if str_eq(c.kind.as_str(), "namespace_import") {
        let cs = &c.children;
        let mut k = cs.len();
        assert(cs@.take(k as int) == cs@);
        while k > 0 && !str_eq(cs[k - 1].kind.as_str(), "identifier")
            invariant
                k <= cs@.len(),
                last_identifier(cs@) == last_identifier(cs@.take(k as int)),
            decreases k,
        {
            assert(cs@.take(k as int).drop_last() == cs@.take(k - 1));
            k = k - 1;
        }
        if k > 0 {
            assert(cs@.take(k as int).last() == cs@[k - 1]);
            e.namespace = Some(copy_string(&cs[k - 1].text));
        } else {
            assert(cs@.take(0) =~= Seq::<SyntaxNode>::empty());
        }
    } else if str_eq(c.kind.as_str(), "named_imports") {
        let cs = &c.children;
        let ghost start = e.named@;
        let mut j: usize = 0;
        assert(named_list(cs@.take(0)) == Seq::<Seq<char>>::empty());
        assert(strings_view(start) + Seq::<Seq<char>>::empty() == strings_view(start));
        while j < cs.len()
            invariant
                j <= cs@.len(),
                strings_view(e.named@) == strings_view(start) + named_list(cs@.take(j as int)),
                e.source@ == old(e).source@,
                e.line == old(e).line,
                opt_view(e.default) == opt_view(old(e).default),
                opt_view(e.namespace) == opt_view(old(e).namespace),
                start == old(e).named@,
            decreases cs@.len() - j,
        {
            let sp = &cs[j];
            proof {
                let t = cs@.take(j + 1);
                assert(t.drop_last() == cs@.take(j as int));
                assert(t.last() == cs@[j as int]);
            }
            let ghost before = e.named@;
            if str_eq(sp.kind.as_str(), "import_specifier") {
                match specifier_name_exec(sp) {
                    Some(n) => {
                        e.named.push(n);
                        assert(strings_view(e.named@) =~= strings_view(before).push(n@));
                    },
                    None => {},
                }
            }
            assert(strings_view(e.named@) =~= strings_view(start) + named_list(cs@.take(j + 1)));
            j = j + 1;
        }
        assert(cs@.take(cs@.len() as int) == cs@);
    }
}

/// Reads the children of an import clause into `e`.
fn walk_import_clause(node: &SyntaxNode, e: &mut ImportEntry)
    ensures
        final(e)@ == clause_fold(old(e)@, node.children@),
{
    let cs = &node.children;
    let ghost e0 = e@;
    let mut i: usize = 0;
    assert(cs@.take(0) =~= Seq::<SyntaxNode>::empty());
    while i < cs.len()
        invariant
            i <= cs@.len(),
            e@ == clause_fold(e0, cs@.take(i as int)),
        decreases cs@.len() - i,
    {
        proof {
            let t = cs@.take(i + 1);
            assert(t.drop_last() == cs@.take(i as int));
            assert(t.last() == cs@[i as int]);
        }
        clause_step_exec(e, &cs[i]);
        i = i + 1;
    }
    assert(cs@.take(cs@.len() as int) == cs@);
}

/// The line (1-based) of a node.
fn line_of_exec(n: &SyntaxNode) -> (r: usize)
    ensures
        r == line_of(*n),
{
    bump_exec(n.row)
}

/// The entry of an import statement; `None` when it names no source.
fn parse_import(n: &SyntaxNode) -> (r: Option<ImportEntry>)
    ensures
        match r {
            Some(e) => import_entry(*n) == Some(e@),
            None => import_entry(*n).is_none(),
        },
{
    let mut e = ImportEntry {
        source: String::new(),
        named: Vec::new(),
        default: None,
        namespace: None,
        line: line_of_exec(n),
    };
    let ghost e0 = e@;
    assert(e0.named =~= Seq::<Seq<char>>::empty());
    assert(e0.source =~= Seq::<char>::empty());
    assert(e0 == ImportView {
        source: Seq::empty(),
        named: Seq::empty(),
        default: None,
        namespace: None,
        line: line_of(*n),
    });
    let cs = &n.children;
    let mut i: usize = 0;
    assert(cs@.take(0) =~= Seq::<SyntaxNode>::empty());
    while i < cs.len()
        invariant
            i <= cs@.len(),
            e@ == import_fold(e0, cs@.take(i as int)),
        decreases cs@.len() - i,
    {
        proof {
            let t = cs@.take(i + 1);
            assert(t.drop_last() == cs@.take(i as int));
            assert(t.last() == cs@[i as int]);
        }
        let c = &cs[i];
        if str_eq(c.kind.as_str(), "string") {
            e.source = strip_quotes(c.text.as_str(), true);
        } else if str_eq(c.kind.as_str(), "import_clause") {
            walk_import_clause(c, &mut e);
        }
        i = i + 1;
    }
    assert(cs@.take(cs@.len() as int) == cs@);
    if e.source.as_str().is_empty() {
        None
    } else {
        Some(e)
    }
}

// ---------------------------------------------------------------------------
// Calls at module level

/// The first child of `n` of kind `k` is smaller than `n`.
pub proof fn lemma_kind_child_decreases(n: SyntaxNode, k: Seq<char>)
    ensures
        kind_child(n, k) matches Some(c) ==> decreases_to!(n => c),
{
    lemma_kind_index(n.children@, k);
    if kind_index(n.children@, k) < n.children@.len() {
        lemma_child_decreases(n, kind_index(n.children@, k));
    }
}

/// The body of a function literal is smaller than the literal.
pub proof fn lemma_func_body_decreases(f: SyntaxNode)
    ensures
        func_body(f) matches Some(b) ==> decreases_to!(f => b),
{
    lemma_kind_child_decreases(f, "statement_block"@);
    lemma_field_child_decreases(f, "body"@);
}

/// The function literal passed as argument `i` of a call, and its body.
pub open spec fn arg_body(call: SyntaxNode, i: int) -> Option<SyntaxNode> {
    match field_child(call, "arguments"@) {
        Some(args) => if 0 <= i < args.children@.len() {
            func_body(args.children@[i])
        } else {
            None
        },
        None => None,
    }
}

/// The body of the callback of a call with a title and a callback
/// (`test(name, fn)`, `describe(name, fn)`).
pub open spec fn callback_body(call: SyntaxNode) -> Option<SyntaxNode> {
    arg_body(call, 1)
}

/// The body of the callback of a call with the callback first
/// (`beforeEach(fn)`).
pub open spec fn single_callback_body(call: SyntaxNode) -> Option<SyntaxNode> {
    arg_body(call, 0)
}

/// The body of an argument is smaller than the call.
pub proof fn lemma_arg_body_decreases(call: SyntaxNode, i: int)
    ensures
        arg_body(call, i) matches Some(b) ==> decreases_to!(call => b),
{
    lemma_field_child_decreases(call, "arguments"@);
    match field_child(call, "arguments"@) {
        Some(args) => {
            if 0 <= i < args.children@.len() {
                lemma_child_decreases(args, i);
                lemma_func_body_decreases(args.children@[i]);
            }
        },
        None => {},
    }
}

/// Whether the body of an argument stands inside an `await`, given whether
/// the call does.
pub open spec fn arg_body_await(call: SyntaxNode, i: int, aw: bool) -> bool {
    match field_child(call, "arguments"@) {
        Some(args) => if 0 <= i < args.children@.len() {
            await_step(args.children@[i].kind@, await_step(args.kind@, await_step(call.kind@, aw)))
        } else {
            aw
        },
        None => aw,
    }
}

/// The source of an `import("...")` call.
pub open spec fn dynamic_import_source(first: SyntaxNode) -> Option<Seq<char>> {
    if first.kind@ == "call_expression"@ {
        match field_child(first, "function"@) {
            Some(f) => if f.kind@ == "import"@ {
                match field_child(first, "arguments"@) {
                    Some(a) => if a.children@.len() > 0 {
                        string_value(a.children@[0])
                    } else {
                        None
                    },
                    None => None,
                }
            } else {
                None
            },
            None => None,
        }
    } else {
        None
    }
}

/// The entry of a `vi.mock(source, ...)` call: its source is a string, a
/// template without `${...}`, or `import("...")`.
pub open spec fn vi_mock_entry(node: SyntaxNode, scope: MockScope) -> Option<MockView> {
    match field_child(node, "arguments"@) {
        None => None,
        Some(args) => if args.children@.len() == 0 {
            None
        } else {
            let first = args.children@[0];
            let src = match string_value(first) {
                Some(v) => Some(v),
                None => dynamic_import_source(first),
            };
            match src {
                Some(v) => Some(
                    MockView { source: v, line: line_of(node), scope, factory_keys: Seq::empty() },
                ),
                None => None,
            }
        },
    }
}

/// The callees starting with `vi.` of the calls in `n`, in document order.
pub open spec fn vi_calls(n: SyntaxNode) -> Seq<Seq<char>>
    decreases n, 1int,
{
    let own = if n.kind@ == "call_expression"@ {
        match field_child(n, "function"@) {
            Some(f) => if starts_with(f.text@, "vi."@) {
                seq![f.text@]
            } else {
                Seq::empty()
            },
            None => Seq::empty(),
        }
    } else {
        Seq::empty()
    };
    own + vi_calls_list(n.children@)
}

/// The `vi.` callees of the calls in the nodes of `cs`, in order.
pub open spec fn vi_calls_list(cs: Seq<SyntaxNode>) -> Seq<Seq<char>>
    decreases cs, 0int,
{
    if cs.len() == 0 {
        Seq::empty()
    } else {
        vi_calls_list(cs.drop_last()) + vi_calls(cs.last())
    }
}

/// The test block of a `test(name, fn)` call at describe depth `depth`.
pub open spec fn test_view(
    name: Seq<char>,
    path: Seq<char>,
    line: usize,
    st: Analysis,
    is_skip: bool,
    is_only: bool,
    depth: usize,
    template_title: bool,
) -> TestView {
    TestView {
        name,
        file_path: path,
        line,
        has_assertions: st.assertion_count > 0,
        assertion_count: st.assertion_count,
        has_conditional_logic: st.has_conditional,
        has_try_catch: st.has_try_catch,
        uses_settimeout: st.uses_settimeout,
        uses_datemock: st.uses_datemock,
        has_multiple_expects: st.assertion_count > 1,
        is_skipped: is_skip,
        is_only,
        is_nested: depth > 3,
        has_return_statement: st.has_return,
        unawaited_async_assertions: st.unawaited_async_assertions,
        uses_fake_timers: st.uses_fake_timers,
        uses_random: st.uses_random,
        has_expect_call_without_assertion: st.has_expect_without_assertion,
        has_return_of_expect: st.has_return_of_expect,
        title_is_template_literal: template_title,
        has_async_expect_wrapper: st.has_async_expect_wrapper,
        uses_fit_or_xit: false,
        has_done_callback: false,
        has_conditional_expect: false,
        weak_assertion_count: st.weak_assertion_count,
        has_real_timers_call: st.has_real_timers_call,
    }
}

/// The test block of a `test(name, fn)` / `it(name, fn)` call: `None` when
/// the title is not a string; the body, if any, is walked.
pub open spec fn test_entry(
    node: SyntaxNode,
    path: Seq<char>,
    depth: usize,
    is_skip: bool,
    is_only: bool,
    aw: bool,
) -> Option<TestView> {
    match field_child(node, "arguments"@) {
        None => None,
        Some(args) => if args.children@.len() < 1 {
            None
        } else {
            let name_node = args.children@[0];
            match string_value(name_node) {
                None => None,
                Some(name) => {
                    let st = match callback_body(node) {
                        Some(b) => walk(b, arg_body_await(node, 1, aw), empty_analysis()),
                        None => empty_analysis(),
                    };
                    Some(
                        test_view(
                            name,
                            path,
                            line_of(node),
                            st,
                            is_skip,
                            is_only,
                            depth,
                            name_node.kind@ == "template_string"@,
                        ),
                    )
                },
            }
        },
    }
}

/// The title node of a call: its first argument.
pub open spec fn title_node(node: SyntaxNode) -> Option<SyntaxNode> {
    match field_child(node, "arguments"@) {
        Some(a) => if a.children@.len() > 0 {
            Some(a.children@[0])
        } else {
            None
        },
        None => None,
    }
}

/// The describe block of a `describe(name, fn)` call.
pub open spec fn describe_entry(node: SyntaxNode, path: Seq<char>, depth: usize, is_only: bool) -> DescribeView {
    let tn = title_node(node);
    DescribeView {
        name: match tn {
            Some(t) => match string_value(t) {
                Some(v) => v,
                None => Seq::empty(),
            },
            None => Seq::empty(),
        },
        file_path: path,
        line: line_of(node),
        is_only,
        depth,
        title_is_template_literal: tn matches Some(t) && t.kind@ == "template_string"@,
        title_is_empty: tn matches Some(t) && string_value(t) == Some(Seq::<char>::empty()),
        is_async: match field_child(node, "arguments"@) {
            Some(a) => a.children@.len() >= 2 && async_function(a.children@[1]),
            None => false,
        },
    }
}

/// The hook kind a callee name names.
pub open spec fn hook_kind(name: Seq<char>) -> Option<HookKind> {
    if name == "beforeEach"@ {
        Some(HookKind::BeforeEach)
    } else if name == "afterEach"@ {
        Some(HookKind::AfterEach)
    } else if name == "beforeAll"@ {
        Some(HookKind::BeforeAll)
    } else if name == "afterAll"@ {
        Some(HookKind::AfterAll)
    } else {
        None
    }
}

/// What the walk over a file collects.
pub struct Facts {
    pub imports: Seq<Seq<char>>,
    pub imports_parsed: Seq<ImportView>,
    pub vi_mocks: Seq<MockView>,
    pub hook_calls: Seq<HookView>,
    pub test_blocks: Seq<TestView>,
    pub describe_blocks: Seq<DescribeView>,
}

/// Nothing collected.
pub open spec fn no_facts() -> Facts {
    Facts {
        imports: Seq::empty(),
        imports_parsed: Seq::empty(),
        vi_mocks: Seq::empty(),
        hook_calls: Seq::empty(),
        test_blocks: Seq::empty(),
        describe_blocks: Seq::empty(),
    }
}

/// What `a` and then `b` collect.
pub open spec fn join(a: Facts, b: Facts) -> Facts {
    Facts {
        imports: a.imports + b.imports,
        imports_parsed: a.imports_parsed + b.imports_parsed,
        vi_mocks: a.vi_mocks + b.vi_mocks,
        hook_calls: a.hook_calls + b.hook_calls,
        test_blocks: a.test_blocks + b.test_blocks,
        describe_blocks: a.describe_blocks + b.describe_blocks,
    }
}

/// What an import statement contributes: its text, and its entry.
pub open spec fn import_facts(c: SyntaxNode) -> Facts {
    Facts {
        imports: seq![c.text@],
        imports_parsed: match import_entry(c) {
            Some(e) => seq![e],
            None => Seq::empty(),
        },
        ..no_facts()
    }
}

/// What the walk collects from the children of `n`; `depth` is the number of
/// enclosing `describe` blocks, `scope` the lexical place, `aw` whether `n`
/// stands inside an `await`.
pub open spec fn collect(
    n: SyntaxNode,
    path: Seq<char>,
    depth: usize,
    scope: MockScope,
    aw: bool,
) -> Facts
    decreases n, 2int,
{
    collect_list(n.children@, path, depth, scope, await_step(n.kind@, aw))
}

/// What the walk collects from the nodes of `cs`, in order.
pub open spec fn collect_list(
    cs: Seq<SyntaxNode>,
    path: Seq<char>,
    depth: usize,
    scope: MockScope,
    aw: bool,
) -> Facts
    decreases cs, 0int,
{
    if cs.len() == 0 {
        no_facts()
    } else {
        join(
            collect_list(cs.drop_last(), path, depth, scope, aw),
            child_facts(cs.last(), path, depth, scope, aw),
        )
    }
}

/// What the walk collects from one node: an import statement, a call, or
/// anything else whose children are walked.
pub open spec fn child_facts(
    c: SyntaxNode,
    path: Seq<char>,
    depth: usize,
    scope: MockScope,
    aw: bool,
) -> Facts
    decreases c, 5int,
{
    if c.kind@ == "import_statement"@ {
        import_facts(c)
    } else if c.kind@ == "call_expression"@ {
        handle_call(c, path, depth, scope, aw)
    } else {
        collect(c, path, depth, scope, aw)
    }
}

/// What a `test` / `it` call contributes: its test block, then what its
/// callback's body holds (in test scope).
pub open spec fn test_call_facts(
    node: SyntaxNode,
    path: Seq<char>,
    depth: usize,
    info: (Seq<char>, bool, bool),
    aw: bool,
) -> Facts
    decreases node, 3int,
{
    let tb = match test_entry(node, path, depth, info.1, info.2, aw) {
        Some(t) => Facts { test_blocks: seq![t], ..no_facts() },
        None => no_facts(),
    };
    match callback_body(node) {
        Some(b) => {
            proof {
                lemma_arg_body_decreases(node, 1);
            }
            join(tb, collect(b, path, depth, MockScope::Test, arg_body_await(node, 1, aw)))
        },
        None => tb,
    }
}

/// What a `describe` call contributes: its describe block, then what its
/// callback's body holds one level deeper (or, without a callback, what the
/// call's children hold).
pub open spec fn describe_call_facts(
    node: SyntaxNode,
    path: Seq<char>,
    depth: usize,
    scope: MockScope,
    info: (Seq<char>, bool, bool),
    aw: bool,
) -> Facts
    decreases node, 3int,
{
    let db = Facts { describe_blocks: seq![describe_entry(node, path, depth, info.2)], ..no_facts() };
    match callback_body(node) {
        Some(b) => {
            proof {
                lemma_arg_body_decreases(node, 1);
            }
            join(db, collect(b, path, bump(depth), scope, arg_body_await(node, 1, aw)))
        },
        None => join(db, collect(node, path, depth, scope, aw)),
    }
}

/// What a hook call contributes: what its callback's body holds (in hook
/// scope), then the hook with the `vi.` calls of the body.
pub open spec fn hook_call_facts(
    node: SyntaxNode,
    path: Seq<char>,
    depth: usize,
    kind: HookKind,
    aw: bool,
) -> Facts
    decreases node, 3int,
{
    match single_callback_body(node) {
        Some(b) => {
            proof {
                lemma_arg_body_decreases(node, 0);
            }
            join(
                collect(b, path, depth, MockScope::Hook, arg_body_await(node, 0, aw)),
                Facts {
                    hook_calls: seq![HookView { kind, line: line_of(node), vi_calls: vi_calls(b) }],
                    ..no_facts()
                },
            )
        },
        None => Facts {
            hook_calls: seq![HookView { kind, line: line_of(node), vi_calls: Seq::empty() }],
            ..no_facts()
        },
    }
}

/// What a `vi.mock` call contributes.
pub open spec fn mock_facts(node: SyntaxNode, func: SyntaxNode, scope: MockScope) -> Facts {
    if func.text@ == "vi.mock"@ {
        match vi_mock_entry(node, scope) {
            Some(mk) => Facts { vi_mocks: seq![mk], ..no_facts() },
            None => no_facts(),
        }
    } else {
        no_facts()
    }
}

/// What the walk collects from a call: `vi.mock`, a test, a describe block
/// (one level deeper), a hook, or any other call whose children are walked.
pub open spec fn handle_call(
    node: SyntaxNode,
    path: Seq<char>,
    depth: usize,
    scope: MockScope,
    aw: bool,
) -> Facts
    decreases node, 4int,
{
    let fi = field_index(node.children@, "function"@);
    if !(0 <= fi < node.children@.len()) {
        collect(node, path, depth, scope, aw)
    } else {
        let func = node.children@[fi];
        let info = callee_info(func);
        let name = info.0;
        let rest = if name == "test"@ || name == "it"@ {
            test_call_facts(node, path, depth, info, aw)
        } else if name == "describe"@ {
            describe_call_facts(node, path, depth, scope, info, aw)
        } else if hook_kind(name).is_some() {
            hook_call_facts(node, path, depth, hook_kind(name).unwrap(), aw)
        } else {
            collect(node, path, depth, scope, aw)
        };
        join(mock_facts(node, func, scope), rest)
    }
}

/// Joining is associative.
pub proof fn lemma_join_assoc(a: Facts, b: Facts, c: Facts)
    ensures
        join(join(a, b), c) == join(a, join(b, c)),
{
    assert(join(join(a, b), c).imports =~= join(a, join(b, c)).imports);
    assert(join(join(a, b), c).imports_parsed =~= join(a, join(b, c)).imports_parsed);
    assert(join(join(a, b), c).vi_mocks =~= join(a, join(b, c)).vi_mocks);
    assert(join(join(a, b), c).hook_calls =~= join(a, join(b, c)).hook_calls);
    assert(join(join(a, b), c).test_blocks =~= join(a, join(b, c)).test_blocks);
    assert(join(join(a, b), c).describe_blocks =~= join(a, join(b, c)).describe_blocks);
}

/// Nothing collected is a unit of joining.
pub proof fn lemma_join_empty(a: Facts)
    ensures
        join(a, no_facts()) == a,
        join(no_facts(), a) == a,
{
    assert(join(a, no_facts()).imports =~= a.imports);
    assert(join(a, no_facts()).imports_parsed =~= a.imports_parsed);
    assert(join(a, no_facts()).vi_mocks =~= a.vi_mocks);
    assert(join(a, no_facts()).hook_calls =~= a.hook_calls);
    assert(join(a, no_facts()).test_blocks =~= a.test_blocks);
    assert(join(a, no_facts()).describe_blocks =~= a.describe_blocks);
    assert(join(no_facts(), a).imports =~= a.imports);
    assert(join(no_facts(), a).imports_parsed =~= a.imports_parsed);
    assert(join(no_facts(), a).vi_mocks =~= a.vi_mocks);
    assert(join(no_facts(), a).hook_calls =~= a.hook_calls);
    assert(join(no_facts(), a).test_blocks =~= a.test_blocks);
    assert(join(no_facts(), a).describe_blocks =~= a.describe_blocks);
}

/// What the walk has collected so far.
pub struct Context {
    pub imports: Vec<String>,
    pub imports_parsed: Vec<ImportEntry>,
    pub vi_mocks: Vec<ViMockCall>,
    pub hook_calls: Vec<HookCall>,
    pub test_blocks: Vec<TestBlock>,
    pub describe_blocks: Vec<DescribeBlock>,
}

/// The facts a context holds.
pub open spec fn ctx_view(c: Context) -> Facts {
    Facts {
        imports: strings_view(c.imports@),
        imports_parsed: views(c.imports_parsed@),
        vi_mocks: views(c.vi_mocks@),
        hook_calls: views(c.hook_calls@),
        test_blocks: views(c.test_blocks@),
        describe_blocks: views(c.describe_blocks@),
    }
}

/// The body of argument `i` of a call.
fn arg_body_exec(call: &SyntaxNode, i: usize) -> (r: Option<&SyntaxNode>)
    ensures
        match r {
            Some(b) => arg_body(*call, i as int) == Some(*b),
            None => arg_body(*call, i as int).is_none(),
        },
{
    match child_by_field(call, "arguments") {
        Some(args) => if i < args.children.len() {
            func_body_exec(&args.children[i])
        } else {
            None
        },
        None => None,
    }
}

/// Whether the body of argument `i` stands inside an `await`.
fn arg_body_await_exec(call: &SyntaxNode, i: usize, aw: bool) -> (r: bool)
    ensures
        r == arg_body_await(*call, i as int, aw),
{
    match child_by_field(call, "arguments") {
        Some(args) => if i < args.children.len() {
            await_step_exec(&args.children[i], await_step_exec(args, await_step_exec(call, aw)))
        } else {
            aw
        },
        None => aw,
    }
}

/// The source of an `import("...")` call.
fn dynamic_import_source_exec(first: &SyntaxNode) -> (r: Option<String>)
    ensures
        opt_view(r) == dynamic_import_source(*first),
{
    if !str_eq(first.kind.as_str(), "call_expression") {
        return None;
    }
    match child_by_field(first, "function") {
        Some(f) => {
            if !str_eq(f.kind.as_str(), "import") {
                return None;
            }
            match child_by_field(first, "arguments") {
                Some(a) => if a.children.len() > 0 {
                    string_value_exec(&a.children[0])
                } else {
                    None
                },
                None => None,
            }
        },
        None => None,
    }
}

/// The entry of a `vi.mock(source, ...)` call.
fn extract_vi_mock(node: &SyntaxNode, scope: MockScope) -> (r: Option<ViMockCall>)
    ensures
        match r {
            Some(m) => vi_mock_entry(*node, scope) == Some(m@),
            None => vi_mock_entry(*node, scope).is_none(),
        },
{
    let args = match child_by_field(node, "arguments") {
        Some(a) => a,
        None => return None,
    };
    if args.children.len() == 0 {
        return None;
    }
    let first = &args.children[0];
    let src = match string_value_exec(first) {
        Some(v) => Some(v),
        None => dynamic_import_source_exec(first),
    };
    match src {
        Some(v) => {
            let m = ViMockCall { source: v, line: line_of_exec(node), scope, factory_keys: Vec::new() };
            assert(m@.factory_keys =~= Seq::<Seq<char>>::empty());
            Some(m)
        },
        None => None,
    }
}

/// Appends the `vi.` callees of the calls in `n` to `out`.
fn collect_vi_calls(n: &SyntaxNode, out: &mut Vec<String>)
    ensures
        strings_view(final(out)@) == strings_view(old(out)@) + vi_calls(*n),
    decreases *n,
{
    let ghost start = strings_view(out@);
    if str_eq(n.kind.as_str(), "call_expression") {
        match child_by_field(n, "function") {
            Some(f) => {
                if str_starts_with(f.text.as_str(), "vi.") {
                    let t = copy_string(&f.text);
                    out.push(t);
                    assert(strings_view(out@) =~= start.push(f.text@));
                }
            },
            None => {},
        }
    }
    let ghost mid = strings_view(out@);
    let cs = &n.children;
    let mut j: usize = 0;
    assert(vi_calls_list(cs@.take(0)) == Seq::<Seq<char>>::empty());
    assert(mid + Seq::<Seq<char>>::empty() == mid);
    while j < cs.len()
        invariant
            j <= cs@.len(),
            cs@ == n.children@,
            strings_view(out@) == mid + vi_calls_list(cs@.take(j as int)),
        decreases cs@.len() - j,
    {
        proof {
            let t = cs@.take(j + 1);
            assert(t.drop_last() == cs@.take(j as int));
            assert(t.last() == cs@[j as int]);
            lemma_child_decreases(*n, j as int);
        }
        let ghost before = strings_view(out@);
        collect_vi_calls(&cs[j], out);
        assert(strings_view(out@) =~= mid + vi_calls_list(cs@.take(j + 1)));
        j = j + 1;
    }
    assert(cs@.take(cs@.len() as int) == cs@);
    assert(strings_view(out@) =~= start + vi_calls(*n));
}

/// What the walk over the body of a test's callback finds.
fn test_analysis(node: &SyntaxNode, aw: bool) -> (r: Analysis)
    ensures
        r == match callback_body(*node) {
            Some(b) => walk(b, arg_body_await(*node, 1, aw), empty_analysis()),
            None => empty_analysis(),
        },
{
    let mut st = new_analysis();
    match arg_body_exec(node, 1) {
        Some(b) => {
            let a = arg_body_await_exec(node, 1, aw);
            walk_body(b, a, &mut st);
        },
        None => {},
    }
    st
}

/// Builds the test block `test_view` describes.
fn make_test_block(
    name: String,
    path: &str,
    line: usize,
    st: Analysis,
    is_skip: bool,
    is_only: bool,
    depth: usize,
    template_title: bool,
) -> (r: TestBlock)
    ensures
        r@ == test_view(name@, path@, line, st, is_skip, is_only, depth, template_title),
{
    TestBlock {
        name,
        file_path: crate::text::owned(path),
        line,
        has_assertions: st.assertion_count > 0,
        assertion_count: st.assertion_count,
        has_conditional_logic: st.has_conditional,
        has_try_catch: st.has_try_catch,
        uses_settimeout: st.uses_settimeout,
        uses_datemock: st.uses_datemock,
        has_multiple_expects: st.assertion_count > 1,
        is_skipped: is_skip,
        is_only,
        is_nested: depth > 3,
        has_return_statement: st.has_return,
        unawaited_async_assertions: st.unawaited_async_assertions,
        uses_fake_timers: st.uses_fake_timers,
        uses_random: st.uses_random,
        has_expect_call_without_assertion: st.has_expect_without_assertion,
        has_return_of_expect: st.has_return_of_expect,
        title_is_template_literal: template_title,
        has_async_expect_wrapper: st.has_async_expect_wrapper,
        uses_fit_or_xit: false,
        has_done_callback: false,
        has_conditional_expect: false,
        weak_assertion_count: st.weak_assertion_count,
        has_real_timers_call: st.has_real_timers_call,
    }
}

/// The test block of a `test(name, fn)` / `it(name, fn)` call.
fn extract_test(
    node: &SyntaxNode,
    path: &str,
    depth: usize,
    is_skip: bool,
    is_only: bool,
    aw: bool,
) -> (r: Option<TestBlock>)
    ensures
        match r {
            Some(t) => test_entry(*node, path@, depth, is_skip, is_only, aw) == Some(t@),
            None => test_entry(*node, path@, depth, is_skip, is_only, aw).is_none(),
        },
{
    let args = match child_by_field(node, "arguments") {
        Some(a) => a,
        None => return None,
    };
    if args.children.len() < 1 {
        return None;
    }
    let name_node = &args.children[0];
    let name = match string_value_exec(name_node) {
        Some(v) => v,
        None => return None,
    };
    let st = test_analysis(node, aw);
    let template_title = str_eq(name_node.kind.as_str(), "template_string");
    let line = line_of_exec(node);
    Some(make_test_block(name, path, line, st, is_skip, is_only, depth, template_title))
}

/// The title node of a call.
fn title_node_exec(node: &SyntaxNode) -> (r: Option<&SyntaxNode>)
    ensures
        match r {
            Some(t) => title_node(*node) == Some(*t),
            None => title_node(*node).is_none(),
        },
{
    match child_by_field(node, "arguments") {
        Some(a) => if a.children.len() > 0 {
            Some(&a.children[0])
        } else {
            None
        },
        None => None,
    }
}

/// The describe block of a `describe(name, fn)` call.
fn describe_block(node: &SyntaxNode, path: &str, depth: usize, is_only: bool) -> (r: DescribeBlock)
    ensures
        r@ == describe_entry(*node, path@, depth, is_only),
{
    let tn = title_node_exec(node);
    let name = match tn {
        Some(t) => match string_value_exec(t) {
            Some(v) => v,
            None => String::new(),
        },
        None => String::new(),
    };
    let template_title = match tn {
        Some(t) => str_eq(t.kind.as_str(), "template_string"),
        None => false,
    };
    let empty_title = match tn {
        Some(t) => match string_value_exec(t) {
            Some(v) => v.as_str().is_empty(),
            None => false,
        },
        None => false,
    };
    let is_async = match child_by_field(node, "arguments") {
        Some(a) => a.children.len() >= 2 && is_async_function(&a.children[1]),
        None => false,
    };
    proof {
        let e = describe_entry(*node, path@, depth, is_only);
        assert(name@ =~= e.name);
        if let Some(t) = title_node(*node) {
            if let Some(v) = string_value(t) {
                assert(empty_title == (v.len() == 0));
                if v.len() == 0 {
                    assert(v =~= Seq::<char>::empty());
                }
            }
        }
    }
    DescribeBlock {
        name,
        file_path: crate::text::owned(path),
        line: line_of_exec(node),
        is_only,
        depth,
        title_is_template_literal: template_title,
        title_is_empty: empty_title,
        is_async,
    }
}

/// The hook kind a callee name names.
fn hook_kind_exec(name: &str) -> (r: Option<HookKind>)
    ensures
        r == hook_kind(name@),
{
    if str_eq(name, "beforeEach") {
        Some(HookKind::BeforeEach)
    } else if str_eq(name, "afterEach") {
        Some(HookKind::AfterEach)
    } else if str_eq(name, "beforeAll") {
        Some(HookKind::BeforeAll)
    } else if str_eq(name, "afterAll") {
        Some(HookKind::AfterAll)
    } else {
        None
    }
}

/// Walks the children of `n`, collecting into `ctx`.
fn collect_exec(
    n: &SyntaxNode,
    path: &str,
    depth: usize,
    scope: MockScope,
    aw: bool,
    ctx: &mut Context,
)
    ensures
        ctx_view(*final(ctx)) == join(ctx_view(*old(ctx)), collect(*n, path@, depth, scope, aw)),
    decreases *n, 2int,
{
    let ghost start = ctx_view(*ctx);
    let aw2 = await_step_exec(n, aw);
    let cs = &n.children;
    let mut j: usize = 0;
    assert(collect_list(cs@.take(0), path@, depth, scope, aw2) == no_facts());
    proof {
        lemma_join_empty(start);
    }
    while j < cs.len()
        invariant
            j <= cs@.len(),
            cs@ == n.children@,
            ctx_view(*ctx) == join(start, collect_list(cs@.take(j as int), path@, depth, scope, aw2)),
        decreases cs@.len() - j,
    {
        let c = &cs[j];
        let ghost before = ctx_view(*ctx);
        proof {
            let t = cs@.take(j + 1);
            assert(t.drop_last() == cs@.take(j as int));
            assert(t.last() == cs@[j as int]);
            lemma_child_decreases(*n, j as int);
        }
        if str_eq(c.kind.as_str(), "import_statement") {
            let text = copy_string(&c.text);
            ctx.imports.push(text);
            match parse_import(c) {
                Some(e) => {
                    ctx.imports_parsed.push(e);
                },
                None => {},
            }
            proof {
                let f = import_facts(*c);
                assert(ctx_view(*ctx).imports =~= before.imports + f.imports);
                assert(ctx_view(*ctx).imports_parsed =~= before.imports_parsed + f.imports_parsed);
                assert(ctx_view(*ctx).vi_mocks =~= before.vi_mocks + f.vi_mocks);
                assert(ctx_view(*ctx).hook_calls =~= before.hook_calls + f.hook_calls);
                assert(ctx_view(*ctx).test_blocks =~= before.test_blocks + f.test_blocks);
                assert(ctx_view(*ctx).describe_blocks =~= before.describe_blocks + f.describe_blocks);
            }
        } else if str_eq(c.kind.as_str(), "call_expression") {
            handle_call_exec(c, path, depth, scope, aw2, ctx);
        } else {
            collect_exec(c, path, depth, scope, aw2, ctx);
        }
        proof {
            lemma_join_assoc(
                start,
                collect_list(cs@.take(j as int), path@, depth, scope, aw2),
                child_facts(*c, path@, depth, scope, aw2),
            );
        }
        j = j + 1;
    }
    assert(cs@.take(cs@.len() as int) == cs@);
}

/// Appends one test block to `ctx`.
fn push_test(ctx: &mut Context, t: TestBlock)
    ensures
        ctx_view(*final(ctx)) == join(ctx_view(*old(ctx)), Facts { test_blocks: seq![t@], ..no_facts() }),
{
    let ghost before = ctx_view(*ctx);
    ctx.test_blocks.push(t);
    let ghost f = Facts { test_blocks: seq![t@], ..no_facts() };
    assert(ctx_view(*ctx).imports =~= before.imports + f.imports);
    assert(ctx_view(*ctx).imports_parsed =~= before.imports_parsed + f.imports_parsed);
    assert(ctx_view(*ctx).vi_mocks =~= before.vi_mocks + f.vi_mocks);
    assert(ctx_view(*ctx).hook_calls =~= before.hook_calls + f.hook_calls);
    assert(ctx_view(*ctx).test_blocks =~= before.test_blocks + f.test_blocks);
    assert(ctx_view(*ctx).describe_blocks =~= before.describe_blocks + f.describe_blocks);
}

/// Appends one describe block to `ctx`.
fn push_describe(ctx: &mut Context, d: DescribeBlock)
    ensures
        ctx_view(*final(ctx)) == join(ctx_view(*old(ctx)), Facts { describe_blocks: seq![d@], ..no_facts() }),
{
    let ghost before = ctx_view(*ctx);
    ctx.describe_blocks.push(d);
    let ghost f = Facts { describe_blocks: seq![d@], ..no_facts() };
    assert(ctx_view(*ctx).imports =~= before.imports + f.imports);
    assert(ctx_view(*ctx).imports_parsed =~= before.imports_parsed + f.imports_parsed);
    assert(ctx_view(*ctx).vi_mocks =~= before.vi_mocks + f.vi_mocks);
    assert(ctx_view(*ctx).hook_calls =~= before.hook_calls + f.hook_calls);
    assert(ctx_view(*ctx).test_blocks =~= before.test_blocks + f.test_blocks);
    assert(ctx_view(*ctx).describe_blocks =~= before.describe_blocks + f.describe_blocks);
}

/// Appends one hook to `ctx`.
fn push_hook(ctx: &mut Context, h: HookCall)
    ensures
        ctx_view(*final(ctx)) == join(ctx_view(*old(ctx)), Facts { hook_calls: seq![h@], ..no_facts() }),
{
    let ghost before = ctx_view(*ctx);
    ctx.hook_calls.push(h);
    let ghost f = Facts { hook_calls: seq![h@], ..no_facts() };
    assert(ctx_view(*ctx).imports =~= before.imports + f.imports);
    assert(ctx_view(*ctx).imports_parsed =~= before.imports_parsed + f.imports_parsed);
    assert(ctx_view(*ctx).vi_mocks =~= before.vi_mocks + f.vi_mocks);
    assert(ctx_view(*ctx).hook_calls =~= before.hook_calls + f.hook_calls);
    assert(ctx_view(*ctx).test_blocks =~= before.test_blocks + f.test_blocks);
    assert(ctx_view(*ctx).describe_blocks =~= before.describe_blocks + f.describe_blocks);
}

/// Appends one `vi.mock` entry to `ctx`.
fn push_mock(ctx: &mut Context, m: ViMockCall)
    ensures
        ctx_view(*final(ctx)) == join(ctx_view(*old(ctx)), Facts { vi_mocks: seq![m@], ..no_facts() }),
{
    let ghost before = ctx_view(*ctx);
    ctx.vi_mocks.push(m);
    let ghost f = Facts { vi_mocks: seq![m@], ..no_facts() };
    assert(ctx_view(*ctx).imports =~= before.imports + f.imports);
    assert(ctx_view(*ctx).imports_parsed =~= before.imports_parsed + f.imports_parsed);
    assert(ctx_view(*ctx).vi_mocks =~= before.vi_mocks + f.vi_mocks);
    assert(ctx_view(*ctx).hook_calls =~= before.hook_calls + f.hook_calls);
    assert(ctx_view(*ctx).test_blocks =~= before.test_blocks + f.test_blocks);
    assert(ctx_view(*ctx).describe_blocks =~= before.describe_blocks + f.describe_blocks);
}

/// Handles a `test` / `it` call.
fn handle_test_call(
    node: &SyntaxNode,
    path: &str,
    depth: usize,
    info: &(String, bool, bool),
    aw: bool,
    ctx: &mut Context,
)
    ensures
        ctx_view(*final(ctx)) == join(
            ctx_view(*old(ctx)),
            test_call_facts(*node, path@, depth, (info.0@, info.1, info.2), aw),
        ),
    decreases *node, 3int,
{
    let ghost start = ctx_view(*ctx);
    match extract_test(node, path, depth, info.1, info.2, aw) {
        Some(t) => {
            push_test(ctx, t);
        },
        None => {
            proof {
                lemma_join_empty(start);
            }
        },
    }
    let ghost tb = match test_entry(*node, path@, depth, info.1, info.2, aw) {
        Some(t) => Facts { test_blocks: seq![t], ..no_facts() },
        None => no_facts(),
    };
    match arg_body_exec(node, 1) {
        Some(b) => {
            proof {
                lemma_arg_body_decreases(*node, 1);
            }
            let a = arg_body_await_exec(node, 1, aw);
            collect_exec(b, path, depth, MockScope::Test, a, ctx);
            proof {
                lemma_join_assoc(start, tb, collect(*b, path@, depth, MockScope::Test, a));
            }
        },
        None => {},
    }
}

/// Handles a `describe` call.
fn handle_describe_call(
    node: &SyntaxNode,
    path: &str,
    depth: usize,
    scope: MockScope,
    info: &(String, bool, bool),
    aw: bool,
    ctx: &mut Context,
)
    ensures
        ctx_view(*final(ctx)) == join(
            ctx_view(*old(ctx)),
            describe_call_facts(*node, path@, depth, scope, (info.0@, info.1, info.2), aw),
        ),
    decreases *node, 3int,
{
    let ghost start = ctx_view(*ctx);
    let d = describe_block(node, path, depth, info.2);
    push_describe(ctx, d);
    let ghost db = Facts { describe_blocks: seq![describe_entry(*node, path@, depth, info.2)], ..no_facts() };
    match arg_body_exec(node, 1) {
        Some(b) => {
            proof {
                lemma_arg_body_decreases(*node, 1);
            }
            let a = arg_body_await_exec(node, 1, aw);
            collect_exec(b, path, bump_exec(depth), scope, a, ctx);
            proof {
                lemma_join_assoc(start, db, collect(*b, path@, bump(depth), scope, a));
            }
        },
        None => {
            collect_exec(node, path, depth, scope, aw, ctx);
            proof {
                lemma_join_assoc(start, db, collect(*node, path@, depth, scope, aw));
            }
        },
    }
}

/// Handles a hook call.
fn handle_hook_call(
    node: &SyntaxNode,
    path: &str,
    depth: usize,
    kind: HookKind,
    aw: bool,
    ctx: &mut Context,
)
    ensures
        ctx_view(*final(ctx)) == join(ctx_view(*old(ctx)), hook_call_facts(*node, path@, depth, kind, aw)),
    decreases *node, 3int,
{
    let ghost start = ctx_view(*ctx);
    match arg_body_exec(node, 0) {
        Some(b) => {
            proof {
                lemma_arg_body_decreases(*node, 0);
            }
            let mut vc: Vec<String> = Vec::new();
            assert(strings_view(vc@) =~= Seq::<Seq<char>>::empty());
            collect_vi_calls(b, &mut vc);
            assert(strings_view(vc@) =~= vi_calls(*b));
            let a = arg_body_await_exec(node, 0, aw);
            collect_exec(b, path, depth, MockScope::Hook, a, ctx);
            let h = HookCall { kind, line: line_of_exec(node), vi_calls: vc };
            push_hook(ctx, h);
            proof {
                lemma_join_assoc(
                    start,
                    collect(*b, path@, depth, MockScope::Hook, a),
                    Facts { hook_calls: seq![h@], ..no_facts() },
                );
            }
        },
        None => {
            let vc: Vec<String> = Vec::new();
            assert(strings_view(vc@) =~= Seq::<Seq<char>>::empty());
            let h = HookCall { kind, line: line_of_exec(node), vi_calls: vc };
            push_hook(ctx, h);
        },
    }
}

/// Handles a call: records `vi.mock`, tests, describe blocks and hooks, and
/// walks what lies inside.
fn handle_call_exec(
    node: &SyntaxNode,
    path: &str,
    depth: usize,
    scope: MockScope,
    aw: bool,
    ctx: &mut Context,
)
    ensures
        ctx_view(*final(ctx)) == join(ctx_view(*old(ctx)), handle_call(*node, path@, depth, scope, aw)),
    decreases *node, 4int,
{
    proof {
        lemma_field_index(node.children@, "function"@);
    }
    let func = match child_by_field(node, "function") {
        Some(f) => f,
        None => {
            collect_exec(node, path, depth, scope, aw, ctx);
            return;
        },
    };
    let ghost start = ctx_view(*ctx);
    let info = parse_callee(func);
    if str_eq(func.text.as_str(), "vi.mock") {
        match extract_vi_mock(node, scope) {
            Some(m) => {
                push_mock(ctx, m);
            },
            None => {
                proof {
                    lemma_join_empty(start);
                }
            },
        }
    } else {
        proof {
            lemma_join_empty(start);
        }
    }
    let ghost mock = mock_facts(*node, *func, scope);
    let ghost sinfo = (info.0@, info.1, info.2);
    let n = info.0.as_str();
    if str_eq(n, "test") || str_eq(n, "it") {
        handle_test_call(node, path, depth, &info, aw, ctx);
        proof {
            lemma_join_assoc(start, mock, test_call_facts(*node, path@, depth, sinfo, aw));
        }
    } else if str_eq(n, "describe") {
        handle_describe_call(node, path, depth, scope, &info, aw, ctx);
        proof {
            lemma_join_assoc(start, mock, describe_call_facts(*node, path@, depth, scope, sinfo, aw));
        }
    } else {
        match hook_kind_exec(n) {
            Some(kind) => {
                handle_hook_call(node, path, depth, kind, aw, ctx);
                proof {
                    lemma_join_assoc(start, mock, hook_call_facts(*node, path@, depth, kind, aw));
                }
            },
            None => {
                collect_exec(node, path, depth, scope, aw, ctx);
                proof {
                    lemma_join_assoc(start, mock, collect(*node, path@, depth, scope, aw));
                }
            },
        }
    }
}

// ---------------------------------------------------------------------------
// Playwright

/// The value of the first argument of a call, when it is a string.
pub open spec fn first_string_arg(call: SyntaxNode) -> Option<Seq<char>> {
    match field_child(call, "arguments"@) {
        Some(a) => if a.children@.len() > 0 {
            string_value(a.children@[0])
        } else {
            None
        },
        None => None,
    }
}

/// The value of the first argument of a call, when it is a string.
fn first_string_arg_exec(call: &SyntaxNode) -> (r: Option<String>)
    ensures
        opt_view(r) == first_string_arg(*call),
{
    match child_by_field(call, "arguments") {
        Some(a) => if a.children.len() > 0 {
            string_value_exec(&a.children[0])
        } else {
            None
        },
        None => None,
    }
}

/// Whether a method starts a locator: `locator` or one of the `getBy...`
/// methods.
pub open spec fn root_method(p: Seq<char>) -> bool {
    ||| p == "locator"@
    ||| p == "getByRole"@
    ||| p == "getByText"@
    ||| p == "getByLabel"@
    ||| p == "getByPlaceholder"@
    ||| p == "getByAltText"@
    ||| p == "getByTitle"@
    ||| p == "getByTestId"@
}

/// Whether a method refines a locator: `nth`, `first`, `last`, `filter` or
/// `xpath`.
pub open spec fn refine_method(p: Seq<char>) -> bool {
    p == "nth"@ || p == "first"@ || p == "last"@ || p == "filter"@ || p == "xpath"@
}

/// Decides `root_method`.
fn is_root_method(p: &str) -> (b: bool)
    ensures
        b == root_method(p@),
{
    str_eq(p, "locator") || str_eq(p, "getByRole") || str_eq(p, "getByText") || str_eq(p, "getByLabel")
        || str_eq(p, "getByPlaceholder") || str_eq(p, "getByAltText") || str_eq(p, "getByTitle")
        || str_eq(p, "getByTestId")
}

/// Decides `refine_method`.
fn is_refine_method(p: &str) -> (b: bool)
    ensures
        b == refine_method(p@),
{
    str_eq(p, "nth") || str_eq(p, "first") || str_eq(p, "last") || str_eq(p, "filter") || str_eq(p, "xpath")
}

/// The method a call applies (the property of its member callee), and the
/// object it is applied to.
pub open spec fn method_call(n: SyntaxNode) -> Option<(Seq<char>, SyntaxNode)> {
    if n.kind@ == "call_expression"@ {
        match field_child(n, "function"@) {
            Some(f) => if f.kind@ == "member_expression"@ {
                match (field_child(f, "property"@), field_child(f, "object"@)) {
                    (Some(p), Some(o)) => Some((p.text@, o)),
                    _ => None,
                }
            } else {
                None
            },
            None => None,
        }
    } else {
        None
    }
}

/// The object of a method call is smaller than the call.
pub proof fn lemma_method_call_decreases(n: SyntaxNode)
    ensures
        method_call(n) matches Some(mc) ==> decreases_to!(n => mc.1),
{
    lemma_field_child_decreases(n, "function"@);
    if let Some(f) = field_child(n, "function"@) {
        lemma_field_child_decreases(f, "object"@);
    }
}

/// The root of a locator chain: the first locator-starting method along the
/// chain of method calls, else the text where the chain starts (`page`).
pub open spec fn chain_root(o: SyntaxNode) -> Seq<char>
    decreases o,
{
    match method_call(o) {
        Some(mc) => if root_method(mc.0) {
            mc.0
        } else {
            proof {
                lemma_method_call_decreases(o);
            }
            chain_root(mc.1)
        },
        None => o.text@,
    }
}

/// The locator chain a call builds, if it applies a locator method.
pub open spec fn chain_of(n: SyntaxNode) -> Option<ChainView> {
    match method_call(n) {
        Some(mc) => if root_method(mc.0) {
            Some(ChainView { root: mc.0, raw_arg: first_string_arg(n), method: mc.0, line: line_of(n) })
        } else if refine_method(mc.0) {
            Some(ChainView { root: chain_root(mc.1), raw_arg: None, method: mc.0, line: line_of(n) })
        } else {
            None
        },
        None => None,
    }
}

/// The method a call applies, and its object.
fn method_call_exec(n: &SyntaxNode) -> (r: Option<(String, &SyntaxNode)>)
    ensures
        match r {
            Some(mc) => method_call(*n) == Some((mc.0@, *mc.1)),
            None => method_call(*n).is_none(),
        },
{
    if !str_eq(n.kind.as_str(), "call_expression") {
        return None;
    }
    match child_by_field(n, "function") {
        Some(f) => {
            if !str_eq(f.kind.as_str(), "member_expression") {
                return None;
            }
            match child_by_field(f, "property") {
                Some(p) => match child_by_field(f, "object") {
                    Some(o) => Some((copy_string(&p.text), o)),
                    None => None,
                },
                None => None,
            }
        },
        None => None,
    }
}

/// The root of a locator chain.
fn chain_root_exec(o: &SyntaxNode) -> (r: String)
    ensures
        r@ == chain_root(*o),
    decreases *o,
{
    match method_call_exec(o) {
        Some(mc) => if is_root_method(mc.0.as_str()) {
            mc.0
        } else {
            proof {
                lemma_method_call_decreases(*o);
            }
            chain_root_exec(mc.1)
        },
        None => copy_string(&o.text),
    }
}

/// The locator chain a call builds.
fn chain_of_exec(n: &SyntaxNode) -> (r: Option<LocatorChain>)
    ensures
        match r {
            Some(c) => chain_of(*n) == Some(c@),
            None => chain_of(*n).is_none(),
        },
{
    match method_call_exec(n) {
        Some(mc) => {
            if is_root_method(mc.0.as_str()) {
                let m = copy_string(&mc.0);
                Some(LocatorChain { root: mc.0, raw_arg: first_string_arg_exec(n), method: m, line: line_of_exec(n) })
            } else if is_refine_method(mc.0.as_str()) {
                let root = chain_root_exec(mc.1);
                Some(LocatorChain { root, raw_arg: None, method: mc.0, line: line_of_exec(n) })
            } else {
                None
            }
        },
        None => None,
    }
}

/// Whether a call runs `evaluate` with an argument that reads `innerText`.
pub open spec fn evaluates_inner_text(n: SyntaxNode) -> bool {
    n.kind@ == "call_expression"@ && match field_child(n, "function"@) {
        Some(f) => ends_with(f.text@, "evaluate"@) && match field_child(n, "arguments"@) {
            Some(a) => contains(a.text@, "innerText"@),
            None => false,
        },
        None => false,
    }
}

/// Decides `evaluates_inner_text`.
fn evaluates_inner_text_exec(n: &SyntaxNode) -> (b: bool)
    ensures
        b == evaluates_inner_text(*n),
{
    if !str_eq(n.kind.as_str(), "call_expression") {
        return false;
    }
    match child_by_field(n, "function") {
        Some(f) => str_ends_with(f.text.as_str(), "evaluate") && match child_by_field(n, "arguments") {
            Some(a) => str_contains(a.text.as_str(), "innerText"),
            None => false,
        },
        None => false,
    }
}

/// What the Playwright walk finds.
#[verifier::ext_equal]
pub struct PwFacts {
    pub calls: Seq<CallView>,
    pub chains: Seq<ChainView>,
    pub evaluate_lines: Seq<usize>,
}

/// What `a` and then `b` find.
pub open spec fn pw_join(a: PwFacts, b: PwFacts) -> PwFacts {
    PwFacts {
        calls: a.calls + b.calls,
        chains: a.chains + b.chains,
        evaluate_lines: a.evaluate_lines + b.evaluate_lines,
    }
}

/// Nothing found.
pub open spec fn no_pw_facts() -> PwFacts {
    PwFacts { calls: Seq::empty(), chains: Seq::empty(), evaluate_lines: Seq::empty() }
}

/// What one node contributes: the call it makes, the locator chain it
/// builds, and its line when it evaluates `innerText`.
pub open spec fn pw_own(n: SyntaxNode) -> PwFacts {
    PwFacts {
        calls: if n.kind@ == "call_expression"@ {
            match field_child(n, "function"@) {
                Some(f) => seq![CallView { call_name: f.text@, line: line_of(n), raw_arg: first_string_arg(n) }],
                None => Seq::empty(),
            }
        } else {
            Seq::empty()
        },
        chains: match chain_of(n) {
            Some(c) => seq![c],
            None => Seq::empty(),
        },
        evaluate_lines: if evaluates_inner_text(n) {
            seq![line_of(n)]
        } else {
            Seq::empty()
        },
    }
}

/// The Playwright facts of `n` and all that lies below it, in document order.
pub open spec fn pw_walk(n: SyntaxNode) -> PwFacts
    decreases n, 1int,
{
    pw_join(pw_own(n), pw_walk_list(n.children@))
}

/// The Playwright facts of the nodes of `cs`, in order.
pub open spec fn pw_walk_list(cs: Seq<SyntaxNode>) -> PwFacts
    decreases cs, 0int,
{
    if cs.len() == 0 {
        no_pw_facts()
    } else {
        pw_join(pw_walk_list(cs.drop_last()), pw_walk(cs.last()))
    }
}

/// What the Playwright walk has found so far.
pub struct PwContext {
    pub calls: Vec<PlaywrightCall>,
    pub chains: Vec<LocatorChain>,
    pub evaluate_lines: Vec<usize>,
}

/// The facts a Playwright context holds.
pub open spec fn pw_ctx_view(c: PwContext) -> PwFacts {
    PwFacts { calls: views(c.calls@), chains: views(c.chains@), evaluate_lines: c.evaluate_lines@ }
}

/// Collects the Playwright facts of `n` and all below it into `ctx`.
fn pw_collect(n: &SyntaxNode, ctx: &mut PwContext)
    ensures
        pw_ctx_view(*final(ctx)) == pw_join(pw_ctx_view(*old(ctx)), pw_walk(*n)),
    decreases *n,
{
    let ghost start = pw_ctx_view(*ctx);
    if str_eq(n.kind.as_str(), "call_expression") {
        match child_by_field(n, "function") {
            Some(f) => {
                let c = PlaywrightCall {
                    call_name: copy_string(&f.text),
                    line: line_of_exec(n),
                    raw_arg: first_string_arg_exec(n),
                };
                ctx.calls.push(c);
            },
            None => {},
        }
    }
    match chain_of_exec(n) {
        Some(c) => {
            ctx.chains.push(c);
        },
        None => {},
    }
    if evaluates_inner_text_exec(n) {
        ctx.evaluate_lines.push(line_of_exec(n));
    }
    let ghost mid = pw_ctx_view(*ctx);
    assert(mid.calls =~= start.calls + pw_own(*n).calls);
    assert(mid.chains =~= start.chains + pw_own(*n).chains);
    assert(mid.evaluate_lines =~= start.evaluate_lines + pw_own(*n).evaluate_lines);
    let cs = &n.children;
    let mut j: usize = 0;
    assert(pw_walk_list(cs@.take(0)) == no_pw_facts());
    assert(pw_join(mid, no_pw_facts()) =~= mid);
    while j < cs.len()
        invariant
            j <= cs@.len(),
            cs@ == n.children@,
            pw_ctx_view(*ctx) == pw_join(mid, pw_walk_list(cs@.take(j as int))),
        decreases cs@.len() - j,
    {
        proof {
            let t = cs@.take(j + 1);
            assert(t.drop_last() == cs@.take(j as int));
            assert(t.last() == cs@[j as int]);
            lemma_child_decreases(*n, j as int);
        }
        let ghost before = pw_ctx_view(*ctx);
        pw_collect(&cs[j], ctx);
        assert(pw_ctx_view(*ctx) =~= pw_join(mid, pw_walk_list(cs@.take(j + 1))));
        j = j + 1;
    }
    assert(cs@.take(cs@.len() as int) == cs@);
    assert(pw_ctx_view(*ctx) =~= pw_join(start, pw_walk(*n)));
}

// ---------------------------------------------------------------------------
// The module

/// The test runner of a file, from its imports: Playwright when it imports
/// `@playwright/test`, else Vitest when it imports `vitest` or `vitest/...`,
/// else unknown.
pub open spec fn runtime_of(imports: Seq<ImportView>) -> TestRuntime {
    if exists|i: int| 0 <= i < imports.len() && (#[trigger] imports[i]).source == "@playwright/test"@ {
        TestRuntime::Playwright
    } else if exists|i: int|
        0 <= i < imports.len() && ((#[trigger] imports[i]).source == "vitest"@ || starts_with(
            imports[i].source,
            "vitest/"@,
        )) {
        TestRuntime::Vitest
    } else {
        TestRuntime::Unknown
    }
}

/// The test runner of a file, from its imports.
fn runtime_exec(imports: &Vec<ImportEntry>) -> (r: TestRuntime)
    ensures
        r == runtime_of(views(imports@)),
{
    let ghost v = views(imports@);
    let mut i: usize = 0;
    while i < imports.len()
        invariant
            i <= imports@.len(),
            v == views(imports@),
            forall|j: int| 0 <= j < i ==> (#[trigger] v[j]).source != "@playwright/test"@,
        decreases imports@.len() - i,
    {
        if str_eq(imports[i].source.as_str(), "@playwright/test") {
            assert(v[i as int].source == "@playwright/test"@);
            return TestRuntime::Playwright;
        }
        i = i + 1;
    }
    let mut k: usize = 0;
    while k < imports.len()
        invariant
            k <= imports@.len(),
            v == views(imports@),
            forall|j: int| 0 <= j < imports@.len() ==> (#[trigger] v[j]).source != "@playwright/test"@,
            forall|j: int|
                0 <= j < k ==> !((#[trigger] v[j]).source == "vitest"@ || starts_with(v[j].source, "vitest/"@)),
        decreases imports@.len() - k,
    {
        let src = imports[k].source.as_str();
        if str_eq(src, "vitest") || str_starts_with(src, "vitest/") {
            assert(v[k as int].source == "vitest"@ || starts_with(v[k as int].source, "vitest/"@));
            return TestRuntime::Vitest;
        }
        k = k + 1;
    }
    TestRuntime::Unknown
}

/// Whether a file imports `node:test`.
pub open spec fn imports_node_test(imports: Seq<ImportView>) -> bool {
    exists|i: int| 0 <= i < imports.len() && (#[trigger] imports[i]).source == "node:test"@
}

/// Whether a file imports `node:test`.
fn imports_node_test_exec(imports: &Vec<ImportEntry>) -> (b: bool)
    ensures
        b == imports_node_test(views(imports@)),
{
    let ghost v = views(imports@);
    let mut i: usize = 0;
    while i < imports.len()
        invariant
            i <= imports@.len(),
            v == views(imports@),
            forall|j: int| 0 <= j < i ==> (#[trigger] v[j]).source != "node:test"@,
        decreases imports@.len() - i,
    {
        if str_eq(imports[i].source.as_str(), "node:test") {
            assert(v[i as int].source == "node:test"@);
            return true;
        }
        i = i + 1;
    }
    false
}

/// Whether the source runs an axe accessibility scan: it mentions
/// `injectAxe`, `checkA11y` or `AxeBuilder`.
pub open spec fn axe_used(source: Seq<char>) -> bool {
    contains(source, "injectAxe"@) || contains(source, "checkA11y"@) || contains(source, "AxeBuilder"@)
}

/// The facts of a file at `path` with text `source` and syntax tree `root`:
/// what the walk from the root collects (module scope, depth 0, outside any
/// `await`), whether the text fakes timers, the runner, and, for a
/// Playwright file, its Playwright calls.
pub open spec fn module_of(path: Seq<char>, source: Seq<char>, root: SyntaxNode) -> ModuleView {
    let f = collect(root, path, 0, MockScope::Module, false);
    let rt = runtime_of(f.imports_parsed);
    ModuleView {
        file_path: path,
        imports: f.imports,
        imports_parsed: f.imports_parsed,
        vi_mocks: f.vi_mocks,
        hook_calls: f.hook_calls,
        test_blocks: f.test_blocks,
        describe_blocks: f.describe_blocks,
        has_fake_timers: contains(source, "useFakeTimers"@),
        expects_outside_tests: Seq::empty(),
        imports_node_test: imports_node_test(f.imports_parsed),
        snapshot_sizes: Seq::empty(),
        exports: Seq::empty(),
        runtime: rt,
        playwright: if rt == TestRuntime::Playwright {
            let p = pw_walk(root);
            Some(
                PlaywrightView {
                    calls: p.calls,
                    locator_chains: p.chains,
                    evaluate_inner_text: p.evaluate_lines,
                    uses_axe: axe_used(source),
                },
            )
        } else {
            None
        },
    }
}

/// Errors of parsing a file.
#[derive(Debug, Clone, PartialEq, Eq)]
pub enum ParseError {
    /// `tree-sitter` gave no tree for the file at this path.
    Failed(String),
}

/// Parses TypeScript and TSX test files into the facts the rules read.
#[derive(Debug, Clone, Copy)]
pub struct TsParser;

/// Whether a file is parsed as TSX: its extension, in any ASCII case, is
/// `tsx` or `jsx`.
pub open spec fn tsx_file(path: Seq<char>) -> bool {
    match crate::paths::extension(path) {
        Some(e) => ascii_lowercase(e) == "tsx"@ || ascii_lowercase(e) == "jsx"@,
        None => false,
    }
}

/// Whether the file at `path` is parsed as TSX.
fn is_tsx_path(path: &str) -> (b: bool)
    ensures
        b == tsx_file(path@),
{
    match crate::paths::path_extension(path) {
        Some(e) => {
            let l = crate::text::str_ascii_lowercase(e.as_str());
            str_eq(l.as_str(), "tsx") || str_eq(l.as_str(), "jsx")
        },
        None => false,
    }
}

impl TsParser {
    /// A parser.
    pub fn new() -> (r: Result<TsParser, ParseError>)
        ensures
            r.is_ok(),
    {
        Ok(TsParser)
    }

    /// The facts of the file at `path` with text `source`, given its syntax
    /// tree.
    pub fn parse_tree(&self, path: &str, source: &str, root: &SyntaxNode) -> (m: ParsedModule)
        ensures
            m@ == module_of(path@, source@, *root),
    {
        let mut ctx = Context {
            imports: Vec::new(),
            imports_parsed: Vec::new(),
            vi_mocks: Vec::new(),
            hook_calls: Vec::new(),
            test_blocks: Vec::new(),
            describe_blocks: Vec::new(),
        };
        assert(ctx_view(ctx) =~= no_facts()) by {
            assert(ctx_view(ctx).imports =~= no_facts().imports);
            assert(ctx_view(ctx).imports_parsed =~= no_facts().imports_parsed);
            assert(ctx_view(ctx).vi_mocks =~= no_facts().vi_mocks);
            assert(ctx_view(ctx).hook_calls =~= no_facts().hook_calls);
            assert(ctx_view(ctx).test_blocks =~= no_facts().test_blocks);
            assert(ctx_view(ctx).describe_blocks =~= no_facts().describe_blocks);
        }
        collect_exec(root, path, 0, MockScope::Module, false, &mut ctx);
        proof {
            lemma_join_empty(collect(*root, path@, 0, MockScope::Module, false));
        }
        let runtime = runtime_exec(&ctx.imports_parsed);
        let node_test = imports_node_test_exec(&ctx.imports_parsed);
        let playwright = match runtime {
            TestRuntime::Playwright => {
                let mut pc = PwContext { calls: Vec::new(), chains: Vec::new(), evaluate_lines: Vec::new() };
                assert(pw_ctx_view(pc) =~= no_pw_facts());
                pw_collect(root, &mut pc);
                assert(pw_join(no_pw_facts(), pw_walk(*root)) =~= pw_walk(*root));
                let uses_axe = str_contains(source, "injectAxe") || str_contains(source, "checkA11y")
                    || str_contains(source, "AxeBuilder");
                Some(
                    PlaywrightModule {
                        calls: pc.calls,
                        locator_chains: pc.chains,
                        evaluate_inner_text: pc.evaluate_lines,
                        uses_axe,
                    },
                )
            },
            _ => None,
        };
        let m = ParsedModule {
            file_path: crate::text::owned(path),
            imports: ctx.imports,
            imports_parsed: ctx.imports_parsed,
            vi_mocks: ctx.vi_mocks,
            hook_calls: ctx.hook_calls,
            test_blocks: ctx.test_blocks,
            describe_blocks: ctx.describe_blocks,
            has_fake_timers: str_contains(source, "useFakeTimers"),
            expects_outside_tests: Vec::new(),
            imports_node_test: node_test,
            snapshot_sizes: Vec::new(),
            exports: Vec::new(),
            runtime,
            playwright,
        };
        assert(m@.expects_outside_tests =~= Seq::<usize>::empty());
        assert(m@.snapshot_sizes =~= Seq::<(usize, usize)>::empty());
        assert(m@.exports =~= Seq::<ExportView>::empty());
        m
    }

    /// Parses the file at `path` with text `source`: TSX for `.tsx` and
    /// `.jsx` files, TypeScript otherwise. It succeeds exactly when
    /// `tree-sitter` loads that grammar, and the module is the analysis of the
    /// copy of the tree that `tree-sitter` builds for `source`.
    pub fn parse_file(&self, path: &str, source: &str) -> (r: Result<ParsedModule, ParseError>)
        ensures
            r.is_ok() == grammar_loads(tsx_file(path@)),
            match r {
                Ok(m) => exists|t: SyntaxNode|
                    copied(t, source@, tsx_file(path@), Seq::empty(), None, usize::MAX as nat) && m@ == module_of(
                        path@,
                        source@,
                        t,
                    ),
                Err(ParseError::Failed(p)) => p@ == path@,
            },
    {
        match syntax_tree(source, is_tsx_path(path)) {
            Some(root) => {
                let m = self.parse_tree(path, source, &root);
                Ok(m)
            },
            None => Err(ParseError::Failed(crate::text::owned(path))),
        }
    }
}


/// A test block's flags agree with its count of assertions, and it belongs
/// to the file `path`.
pub open spec fn test_block_consistent(t: TestView, path: Seq<char>) -> bool {
    &&& t.has_assertions == (t.assertion_count > 0)
    &&& t.has_multiple_expects == (t.assertion_count > 1)
    &&& t.file_path == path
}

/// Every test block is consistent and every describe block belongs to the
/// file `path`.
pub open spec fn blocks_consistent(f: Facts, path: Seq<char>) -> bool {
    &&& forall|i: int|
        0 <= i < f.test_blocks.len() ==> test_block_consistent(#[trigger] f.test_blocks[i], path)
    &&& forall|i: int| 0 <= i < f.describe_blocks.len() ==> (#[trigger] f.describe_blocks[i]).file_path == path
}

proof fn lemma_join_consistent(a: Facts, b: Facts, path: Seq<char>)
    requires
        blocks_consistent(a, path),
        blocks_consistent(b, path),
    ensures
        blocks_consistent(join(a, b), path),
{
    let j = join(a, b);
    assert forall|i: int| 0 <= i < j.test_blocks.len() implies test_block_consistent(
        #[trigger] j.test_blocks[i],
        path,
    ) by {
        if i >= a.test_blocks.len() {
            assert(j.test_blocks[i] == b.test_blocks[i - a.test_blocks.len()]);
        }
    }
    assert forall|i: int| 0 <= i < j.describe_blocks.len() implies (
    #[trigger] j.describe_blocks[i]).file_path == path by {
        if i >= a.describe_blocks.len() {
            assert(j.describe_blocks[i] == b.describe_blocks[i - a.describe_blocks.len()]);
        }
    }
}

proof fn lemma_collect_consistent(n: SyntaxNode, path: Seq<char>, depth: usize, scope: MockScope, aw: bool)
    ensures
        blocks_consistent(collect(n, path, depth, scope, aw), path),
    decreases n, 2int,
{
    lemma_collect_list_consistent(n.children@, path, depth, scope, await_step(n.kind@, aw));
}

proof fn lemma_collect_list_consistent(
    cs: Seq<SyntaxNode>,
    path: Seq<char>,
    depth: usize,
    scope: MockScope,
    aw: bool,
)
    ensures
        blocks_consistent(collect_list(cs, path, depth, scope, aw), path),
    decreases cs, 0int,
{
    if cs.len() > 0 {
        lemma_collect_list_consistent(cs.drop_last(), path, depth, scope, aw);
        lemma_child_consistent(cs.last(), path, depth, scope, aw);
        lemma_join_consistent(
            collect_list(cs.drop_last(), path, depth, scope, aw),
            child_facts(cs.last(), path, depth, scope, aw),
            path,
        );
    }
}

proof fn lemma_child_consistent(c: SyntaxNode, path: Seq<char>, depth: usize, scope: MockScope, aw: bool)
    ensures
        blocks_consistent(child_facts(c, path, depth, scope, aw), path),
    decreases c, 5int,
{
    if c.kind@ == "import_statement"@ {
    } else if c.kind@ == "call_expression"@ {
        lemma_call_consistent(c, path, depth, scope, aw);
    } else {
        lemma_collect_consistent(c, path, depth, scope, aw);
    }
}

proof fn lemma_call_consistent(node: SyntaxNode, path: Seq<char>, depth: usize, scope: MockScope, aw: bool)
    ensures
        blocks_consistent(handle_call(node, path, depth, scope, aw), path),
    decreases node, 4int,
{
    let fi = field_index(node.children@, "function"@);
    if !(0 <= fi < node.children@.len()) {
        lemma_collect_consistent(node, path, depth, scope, aw);
    } else {
        let func = node.children@[fi];
        let info = callee_info(func);
        let name = info.0;
        if name == "test"@ || name == "it"@ {
            let tb = match test_entry(node, path, depth, info.1, info.2, aw) {
                Some(t) => Facts { test_blocks: seq![t], ..no_facts() },
                None => no_facts(),
            };
            match callback_body(node) {
                Some(b) => {
                    lemma_arg_body_decreases(node, 1);
                    lemma_collect_consistent(b, path, depth, MockScope::Test, arg_body_await(node, 1, aw));
                    lemma_join_consistent(tb, collect(b, path, depth, MockScope::Test, arg_body_await(node, 1, aw)), path);
                },
                None => {},
            }
            lemma_join_consistent(mock_facts(node, func, scope), test_call_facts(node, path, depth, info, aw), path);
        } else if name == "describe"@ {
            let db = Facts { describe_blocks: seq![describe_entry(node, path, depth, info.2)], ..no_facts() };
            match callback_body(node) {
                Some(b) => {
                    lemma_arg_body_decreases(node, 1);
                    lemma_collect_consistent(b, path, bump(depth), scope, arg_body_await(node, 1, aw));
                    lemma_join_consistent(db, collect(b, path, bump(depth), scope, arg_body_await(node, 1, aw)), path);
                },
                None => {
                    lemma_collect_consistent(node, path, depth, scope, aw);
                    lemma_join_consistent(db, collect(node, path, depth, scope, aw), path);
                },
            }
            lemma_join_consistent(
                mock_facts(node, func, scope),
                describe_call_facts(node, path, depth, scope, info, aw),
                path,
            );
        } else if hook_kind(name).is_some() {
            let kind = hook_kind(name).unwrap();
            match single_callback_body(node) {
                Some(b) => {
                    lemma_arg_body_decreases(node, 0);
                    lemma_collect_consistent(b, path, depth, MockScope::Hook, arg_body_await(node, 0, aw));
                    lemma_join_consistent(
                        collect(b, path, depth, MockScope::Hook, arg_body_await(node, 0, aw)),
                        Facts {
                            hook_calls: seq![HookView { kind, line: line_of(node), vi_calls: vi_calls(b) }],
                            ..no_facts()
                        },
                        path,
                    );
                },
                None => {},
            }
            lemma_join_consistent(mock_facts(node, func, scope), hook_call_facts(node, path, depth, kind, aw), path);
        } else {
            lemma_collect_consistent(node, path, depth, scope, aw);
            lemma_join_consistent(mock_facts(node, func, scope), collect(node, path, depth, scope, aw), path);
        }
    }
}

/// Every test block collected is marked nested.
pub open spec fn tests_nested(f: Facts, path: Seq<char>) -> bool {
    forall|i: int| 0 <= i < f.test_blocks.len() ==> (#[trigger] f.test_blocks[i]).is_nested
}

proof fn lemma_join_nested(a: Facts, b: Facts, path: Seq<char>)
    requires
        tests_nested(a, path),
        tests_nested(b, path),
    ensures
        tests_nested(join(a, b), path),
{
    let j = join(a, b);
    assert forall|i: int| 0 <= i < j.test_blocks.len() implies (#[trigger] j.test_blocks[i]).is_nested by {
        if i >= a.test_blocks.len() {
            assert(j.test_blocks[i] == b.test_blocks[i - a.test_blocks.len()]);
        }
    }
}

proof fn lemma_collect_nested(n: SyntaxNode, path: Seq<char>, depth: usize, scope: MockScope, aw: bool)
    requires
        depth > 3,
    ensures
        tests_nested(collect(n, path, depth, scope, aw), path),
    decreases n, 2int,
{
    lemma_collect_list_nested(n.children@, path, depth, scope, await_step(n.kind@, aw));
}

proof fn lemma_collect_list_nested(
    cs: Seq<SyntaxNode>,
    path: Seq<char>,
    depth: usize,
    scope: MockScope,
    aw: bool,
)
    requires
        depth > 3,
    ensures
        tests_nested(collect_list(cs, path, depth, scope, aw), path),
    decreases cs, 0int,
{
    if cs.len() > 0 {
        lemma_collect_list_nested(cs.drop_last(), path, depth, scope, aw);
        lemma_child_nested(cs.last(), path, depth, scope, aw);
        lemma_join_nested(
            collect_list(cs.drop_last(), path, depth, scope, aw),
            child_facts(cs.last(), path, depth, scope, aw),
            path,
        );
    }
}

proof fn lemma_child_nested(c: SyntaxNode, path: Seq<char>, depth: usize, scope: MockScope, aw: bool)
    requires
        depth > 3,
    ensures
        tests_nested(child_facts(c, path, depth, scope, aw), path),
    decreases c, 5int,
{
    if c.kind@ == "import_statement"@ {
    } else if c.kind@ == "call_expression"@ {
        lemma_call_nested(c, path, depth, scope, aw);
    } else {
        lemma_collect_nested(c, path, depth, scope, aw);
    }
}

proof fn lemma_call_nested(node: SyntaxNode, path: Seq<char>, depth: usize, scope: MockScope, aw: bool)
    requires
        depth > 3,
    ensures
        tests_nested(handle_call(node, path, depth, scope, aw), path),
    decreases node, 4int,
{
    let fi = field_index(node.children@, "function"@);
    if !(0 <= fi < node.children@.len()) {
        lemma_collect_nested(node, path, depth, scope, aw);
    } else {
        let func = node.children@[fi];
        let info = callee_info(func);
        let name = info.0;
        if name == "test"@ || name == "it"@ {
            let tb = match test_entry(node, path, depth, info.1, info.2, aw) {
                Some(t) => Facts { test_blocks: seq![t], ..no_facts() },
                None => no_facts(),
            };
            match callback_body(node) {
                Some(b) => {
                    lemma_arg_body_decreases(node, 1);
                    lemma_collect_nested(b, path, depth, MockScope::Test, arg_body_await(node, 1, aw));
                    lemma_join_nested(tb, collect(b, path, depth, MockScope::Test, arg_body_await(node, 1, aw)), path);
                },
                None => {},
            }
            lemma_join_nested(mock_facts(node, func, scope), test_call_facts(node, path, depth, info, aw), path);
        } else if name == "describe"@ {
            let db = Facts { describe_blocks: seq![describe_entry(node, path, depth, info.2)], ..no_facts() };
            match callback_body(node) {
                Some(b) => {
                    lemma_arg_body_decreases(node, 1);
                    lemma_collect_nested(b, path, bump(depth), scope, arg_body_await(node, 1, aw));
                    lemma_join_nested(db, collect(b, path, bump(depth), scope, arg_body_await(node, 1, aw)), path);
                },
                None => {
                    lemma_collect_nested(node, path, depth, scope, aw);
                    lemma_join_nested(db, collect(node, path, depth, scope, aw), path);
                },
            }
            lemma_join_nested(
                mock_facts(node, func, scope),
                describe_call_facts(node, path, depth, scope, info, aw),
                path,
            );
        } else if hook_kind(name).is_some() {
            let kind = hook_kind(name).unwrap();
            match single_callback_body(node) {
                Some(b) => {
                    lemma_arg_body_decreases(node, 0);
                    lemma_collect_nested(b, path, depth, MockScope::Hook, arg_body_await(node, 0, aw));
                    lemma_join_nested(
                        collect(b, path, depth, MockScope::Hook, arg_body_await(node, 0, aw)),
                        Facts {
                            hook_calls: seq![HookView { kind, line: line_of(node), vi_calls: vi_calls(b) }],
                            ..no_facts()
                        },
                        path,
                    );
                },
                None => {},
            }
            lemma_join_nested(mock_facts(node, func, scope), hook_call_facts(node, path, depth, kind, aw), path);
        } else {
            lemma_collect_nested(node, path, depth, scope, aw);
            lemma_join_nested(mock_facts(node, func, scope), collect(node, path, depth, scope, aw), path);
        }
    }
}

/// Law: a test found while more than three `describe` callbacks enclose the
/// walk (describe depth above 3) is marked nested: whatever the walk collects
/// at such a depth, and so everything inside a fourth nested `describe`
/// callback, is nested.
pub proof fn law_deep_tests_nested(n: SyntaxNode, path: Seq<char>, depth: usize, scope: MockScope, aw: bool)
    requires
        depth > 3,
    ensures
        forall|i: int|
            0 <= i < collect(n, path, depth, scope, aw).test_blocks.len() ==> (
            #[trigger] collect(n, path, depth, scope, aw).test_blocks[i]).is_nested,
{
    lemma_collect_nested(n, path, depth, scope, aw);
}

/// Whether `n` is a `describe(...)` call.
pub open spec fn describe_call(n: SyntaxNode) -> bool {
    let fi = field_index(n.children@, "function"@);
    &&& n.kind@ == "call_expression"@
    &&& 0 <= fi < n.children@.len()
    &&& callee_info(n.children@[fi]).0 == "describe"@
}

/// The most `describe` calls on any path from `n` down the tree, `n`
/// included.
pub open spec fn describe_height(n: SyntaxNode) -> nat
    decreases n, 1int,
{
    (if describe_call(n) {
        1nat
    } else {
        0nat
    }) + describe_height_list(n.children@)
}

/// The largest `describe_height` of the nodes of `cs`.
pub open spec fn describe_height_list(cs: Seq<SyntaxNode>) -> nat
    decreases cs, 0int,
{
    if cs.len() == 0 {
        0
    } else {
        let a = describe_height_list(cs.drop_last());
        let b = describe_height(cs.last());
        if a < b {
            b
        } else {
            a
        }
    }
}

proof fn lemma_height_list_ge(cs: Seq<SyntaxNode>, i: int)
    requires
        0 <= i < cs.len(),
    ensures
        describe_height(cs[i]) <= describe_height_list(cs),
    decreases cs.len(),
{
    if i < cs.len() - 1 {
        lemma_height_list_ge(cs.drop_last(), i);
        assert(cs.drop_last()[i] == cs[i]);
    }
}

proof fn lemma_arg_body_height(call: SyntaxNode, i: int)
    ensures
        arg_body(call, i) matches Some(b) ==> describe_height(b) <= describe_height_list(call.children@),
{
    lemma_field_index(call.children@, "arguments"@);
    match field_child(call, "arguments"@) {
        Some(args) => {
            if 0 <= i < args.children@.len() {
                let fi = field_index(call.children@, "arguments"@);
                lemma_height_list_ge(call.children@, fi);
                lemma_height_list_ge(args.children@, i);
                let f = args.children@[i];
                lemma_kind_index(f.children@, "statement_block"@);
                lemma_field_index(f.children@, "body"@);
                let ki = kind_index(f.children@, "statement_block"@);
                let bi = field_index(f.children@, "body"@);
                if ki < f.children@.len() {
                    lemma_height_list_ge(f.children@, ki);
                }
                if bi < f.children@.len() {
                    lemma_height_list_ge(f.children@, bi);
                }
            }
        },
        None => {},
    }
}

/// No test block collected is marked nested.
pub open spec fn no_test_nested(f: Facts) -> bool {
    forall|i: int| 0 <= i < f.test_blocks.len() ==> !(#[trigger] f.test_blocks[i]).is_nested
}

proof fn lemma_join_not_nested(a: Facts, b: Facts)
    requires
        no_test_nested(a),
        no_test_nested(b),
    ensures
        no_test_nested(join(a, b)),
{
    let j = join(a, b);
    assert forall|i: int| 0 <= i < j.test_blocks.len() implies !(#[trigger] j.test_blocks[i]).is_nested by {
        if i >= a.test_blocks.len() {
            assert(j.test_blocks[i] == b.test_blocks[i - a.test_blocks.len()]);
        }
    }
}

proof fn lemma_collect_shallow(n: SyntaxNode, path: Seq<char>, depth: usize, scope: MockScope, aw: bool)
    requires
        depth + describe_height(n) <= 3,
    ensures
        no_test_nested(collect(n, path, depth, scope, aw)),
    decreases n, 2int,
{
    lemma_collect_list_shallow(n.children@, path, depth, scope, await_step(n.kind@, aw));
}

proof fn lemma_collect_list_shallow(
    cs: Seq<SyntaxNode>,
    path: Seq<char>,
    depth: usize,
    scope: MockScope,
    aw: bool,
)
    requires
        depth + describe_height_list(cs) <= 3,
    ensures
        no_test_nested(collect_list(cs, path, depth, scope, aw)),
    decreases cs, 0int,
{
    if cs.len() > 0 {
        lemma_collect_list_shallow(cs.drop_last(), path, depth, scope, aw);
        lemma_child_shallow(cs.last(), path, depth, scope, aw);
        lemma_join_not_nested(
            collect_list(cs.drop_last(), path, depth, scope, aw),
            child_facts(cs.last(), path, depth, scope, aw),
        );
    }
}

proof fn lemma_child_shallow(c: SyntaxNode, path: Seq<char>, depth: usize, scope: MockScope, aw: bool)
    requires
        depth + describe_height(c) <= 3,
    ensures
        no_test_nested(child_facts(c, path, depth, scope, aw)),
    decreases c, 5int,
{
    if c.kind@ == "import_statement"@ {
    } else if c.kind@ == "call_expression"@ {
        lemma_call_shallow(c, path, depth, scope, aw);
    } else {
        lemma_collect_shallow(c, path, depth, scope, aw);
    }
}

proof fn lemma_call_shallow(node: SyntaxNode, path: Seq<char>, depth: usize, scope: MockScope, aw: bool)
    requires
        node.kind@ == "call_expression"@,
        depth + describe_height(node) <= 3,
    ensures
        no_test_nested(handle_call(node, path, depth, scope, aw)),
    decreases node, 4int,
{
    let fi = field_index(node.children@, "function"@);
    if !(0 <= fi < node.children@.len()) {
        lemma_collect_shallow(node, path, depth, scope, aw);
    } else {
        let func = node.children@[fi];
        let info = callee_info(func);
        let name = info.0;
        let mf = mock_facts(node, func, scope);
        if name == "test"@ || name == "it"@ {
            let tb = match test_entry(node, path, depth, info.1, info.2, aw) {
                Some(t) => Facts { test_blocks: seq![t], ..no_facts() },
                None => no_facts(),
            };
            match callback_body(node) {
                Some(b) => {
                    lemma_arg_body_decreases(node, 1);
                    lemma_arg_body_height(node, 1);
                    lemma_collect_shallow(b, path, depth, MockScope::Test, arg_body_await(node, 1, aw));
                    lemma_join_not_nested(tb, collect(b, path, depth, MockScope::Test, arg_body_await(node, 1, aw)));
                },
                None => {},
            }
            lemma_join_not_nested(mf, test_call_facts(node, path, depth, info, aw));
        } else if name == "describe"@ {
            assert(describe_call(node));
            let db = Facts { describe_blocks: seq![describe_entry(node, path, depth, info.2)], ..no_facts() };
            match callback_body(node) {
                Some(b) => {
                    lemma_arg_body_decreases(node, 1);
                    lemma_arg_body_height(node, 1);
                    assert(bump(depth) == depth + 1);
                    lemma_collect_shallow(b, path, bump(depth), scope, arg_body_await(node, 1, aw));
                    lemma_join_not_nested(db, collect(b, path, bump(depth), scope, arg_body_await(node, 1, aw)));
                },
                None => {
                    lemma_collect_shallow(node, path, depth, scope, aw);
                    lemma_join_not_nested(db, collect(node, path, depth, scope, aw));
                },
            }
            lemma_join_not_nested(mf, describe_call_facts(node, path, depth, scope, info, aw));
        } else if hook_kind(name).is_some() {
            let kind = hook_kind(name).unwrap();
            match single_callback_body(node) {
                Some(b) => {
                    lemma_arg_body_decreases(node, 0);
                    lemma_arg_body_height(node, 0);
                    lemma_collect_shallow(b, path, depth, MockScope::Hook, arg_body_await(node, 0, aw));
                    lemma_join_not_nested(
                        collect(b, path, depth, MockScope::Hook, arg_body_await(node, 0, aw)),
                        Facts {
                            hook_calls: seq![HookView { kind, line: line_of(node), vi_calls: vi_calls(b) }],
                            ..no_facts()
                        },
                    );
                },
                None => {},
            }
            lemma_join_not_nested(mf, hook_call_facts(node, path, depth, kind, aw));
        } else {
            lemma_collect_shallow(node, path, depth, scope, aw);
            lemma_join_not_nested(mf, collect(node, path, depth, scope, aw));
        }
    }
}

/// Law: in a file whose syntax tree has at most three `describe` calls on
/// any path from the root, no test is marked nested.
pub proof fn law_shallow_tests_not_nested(path: Seq<char>, source: Seq<char>, root: SyntaxNode)
    requires
        describe_height(root) <= 3,
    ensures
        forall|i: int|
            0 <= i < module_of(path, source, root).test_blocks.len() ==> !(
            #[trigger] module_of(path, source, root).test_blocks[i]).is_nested,
{
    lemma_collect_shallow(root, path, 0, MockScope::Module, false);
}

/// Every test block of a parsed file reports assertions exactly when it
/// counts at least one and several expects exactly when it counts more than
/// one, and every test and describe block carries the file's path.
pub proof fn law_parsed_blocks_consistent(path: Seq<char>, source: Seq<char>, root: SyntaxNode)
    ensures
        forall|i: int|
            0 <= i < module_of(path, source, root).test_blocks.len() ==> test_block_consistent(
                #[trigger] module_of(path, source, root).test_blocks[i],
                path,
            ),
        forall|i: int|
            0 <= i < module_of(path, source, root).describe_blocks.len() ==> (
            #[trigger] module_of(path, source, root).describe_blocks[i]).file_path == path,
{
    lemma_collect_consistent(root, path, 0, MockScope::Module, false);
}

} // verus!
