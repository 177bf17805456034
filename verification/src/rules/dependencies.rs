//! Rules for test files that couple themselves to the modules they test:
//! mocks of stable modules, imported production singletons, reset escape
//! hatches and mock factories that invent exports.

use vstd::prelude::*;
use crate::config::{BannedSingleton, Config, glob_matches, matches_path, matches_path_spec, trim_dot_slash, trim_relative_prefix, without_dot_slash, without_parent_prefix};
use crate::graph::{lookup, relative_lookup};
use crate::models::{Category, ExportEntry, HookCall, HookKind, ImportEntry, MockScope, ModuleGraph, ParsedModule, Severity, TestRuntime, ViMockCall, Violation, ViolationView, violations_view};
use crate::paths::components;
use crate::rules::{lemma_scan_filter_map, lemma_scan_includes, lemma_scan_origin, ItemRule, LintContext, Rule, all_stamped, lemma_scan_stamped, lemma_stamped_concat, file_view, file_violation, lemma_concat_empty, lemma_violations_empty, not_playwright, push_violation, scan, scan_spec};
use crate::seqs::{contains_str, lemma_strs_view_push, lemma_take_full, strs_view};
use crate::text::{contains, ends_with, owned, starts_with, str_contains, str_ends_with, str_eq, str_starts_with, str_to_lowercase, unicode_lowercase};

verus! {

/// Whether a lower-cased source ends like the file of a stable module
/// (models, utilities, helpers, configuration, constants, types, schemas,
/// interfaces, enums, validators, DTOs).
pub open spec fn stable_suffix(l: Seq<char>) -> bool {
    ||| ends_with(l, ".model.ts"@)
    ||| ends_with(l, ".model.js"@)
    ||| ends_with(l, ".util.ts"@)
    ||| ends_with(l, ".utils.ts"@)
    ||| ends_with(l, ".util.js"@)
    ||| ends_with(l, ".utils.js"@)
    ||| ends_with(l, ".lib.ts"@)
    ||| ends_with(l, ".lib.js"@)
    ||| ends_with(l, ".lib"@)
    ||| ends_with(l, ".helper.ts"@)
    ||| ends_with(l, ".helpers.ts"@)
    ||| ends_with(l, ".helper.js"@)
    ||| ends_with(l, ".helpers.js"@)
    ||| ends_with(l, ".config.ts"@)
    ||| ends_with(l, ".config.js"@)
    ||| ends_with(l, ".constant.ts"@)
    ||| ends_with(l, ".constants.ts"@)
    ||| ends_with(l, ".constant.js"@)
    ||| ends_with(l, ".constants.js"@)
    ||| ends_with(l, ".types.ts"@)
    ||| ends_with(l, ".types.js"@)
    ||| ends_with(l, ".type.ts"@)
    ||| ends_with(l, ".type.js"@)
    ||| ends_with(l, ".d.ts"@)
    ||| ends_with(l, ".schema.ts"@)
    ||| ends_with(l, ".schema.js"@)
    ||| ends_with(l, ".interface.ts"@)
    ||| ends_with(l, ".interface.js"@)
    ||| ends_with(l, ".enum.ts"@)
    ||| ends_with(l, ".enum.js"@)
    ||| ends_with(l, ".validator.ts"@)
    ||| ends_with(l, ".validator.js"@)
    ||| ends_with(l, ".dto.ts"@)
    ||| ends_with(l, ".dto.js"@)
}

/// Whether a lower-cased source lies in, or names, a directory of stable
/// modules.
pub open spec fn stable_segment(l: Seq<char>) -> bool {
    ||| contains(l, "/models/"@) || ends_with(l, "/models"@)
    ||| contains(l, "/utils/"@) || ends_with(l, "/utils"@)
    ||| contains(l, "/lib/"@) || ends_with(l, "/lib"@)
    ||| contains(l, "/helpers/"@) || ends_with(l, "/helpers"@)
    ||| contains(l, "/constants/"@) || ends_with(l, "/constants"@)
    ||| contains(l, "/types/"@) || ends_with(l, "/types"@)
    ||| contains(l, "/schemas/"@) || ends_with(l, "/schemas"@)
    ||| contains(l, "/interfaces/"@) || ends_with(l, "/interfaces"@)
    ||| contains(l, "/dto/"@) || ends_with(l, "/dto"@)
    ||| contains(l, "/validators/"@) || ends_with(l, "/validators"@)
}

/// Whether a `vi.mock` source looks like a stable dependency (pure functions,
/// data models, configuration; not I/O, API or SDK libraries): a relative or
/// absolute path, not under `node:` or `node_modules`, whose lower-cased
/// form has a stable suffix or segment.
pub open spec fn stable_dep(source: Seq<char>) -> bool {
    &&& !starts_with(source, "node:"@)
    &&& !starts_with(source, "node_modules"@)
    &&& (starts_with(source, "."@) || starts_with(source, "/"@))
    &&& (stable_suffix(unicode_lowercase(source)) || stable_segment(unicode_lowercase(source)))
}

/// Decides `stable_dep`.
fn is_stable_dep(source: &str) -> (b: bool)
    ensures
        b == stable_dep(source@),
{
    if str_starts_with(source, "node:") || str_starts_with(source, "node_modules") {
        return false;
    }
    if !str_starts_with(source, ".") && !str_starts_with(source, "/") {
        return false;
    }
    let lower = str_to_lowercase(source);
    let l = lower.as_str();
    let suffix = str_ends_with(l, ".model.ts")
        || str_ends_with(l, ".model.js")
        || str_ends_with(l, ".util.ts")
        || str_ends_with(l, ".utils.ts")
        || str_ends_with(l, ".util.js")
        || str_ends_with(l, ".utils.js")
        || str_ends_with(l, ".lib.ts")
        || str_ends_with(l, ".lib.js")
        || str_ends_with(l, ".lib")
        || str_ends_with(l, ".helper.ts")
        || str_ends_with(l, ".helpers.ts")
        || str_ends_with(l, ".helper.js")
        || str_ends_with(l, ".helpers.js")
        || str_ends_with(l, ".config.ts")
        || str_ends_with(l, ".config.js")
        || str_ends_with(l, ".constant.ts")
        || str_ends_with(l, ".constants.ts")
        || str_ends_with(l, ".constant.js")
        || str_ends_with(l, ".constants.js")
        || str_ends_with(l, ".types.ts")
        || str_ends_with(l, ".types.js")
        || str_ends_with(l, ".type.ts")
        || str_ends_with(l, ".type.js")
        || str_ends_with(l, ".d.ts")
        || str_ends_with(l, ".schema.ts")
        || str_ends_with(l, ".schema.js")
        || str_ends_with(l, ".interface.ts")
        || str_ends_with(l, ".interface.js")
        || str_ends_with(l, ".enum.ts")
        || str_ends_with(l, ".enum.js")
        || str_ends_with(l, ".validator.ts")
        || str_ends_with(l, ".validator.js")
        || str_ends_with(l, ".dto.ts")
        || str_ends_with(l, ".dto.js");
    let segment = str_contains(l, "/models/") || str_ends_with(l, "/models")
        || str_contains(l, "/utils/") || str_ends_with(l, "/utils")
        || str_contains(l, "/lib/") || str_ends_with(l, "/lib")
        || str_contains(l, "/helpers/") || str_ends_with(l, "/helpers")
        || str_contains(l, "/constants/") || str_ends_with(l, "/constants")
        || str_contains(l, "/types/") || str_ends_with(l, "/types")
        || str_contains(l, "/schemas/") || str_ends_with(l, "/schemas")
        || str_contains(l, "/interfaces/") || str_ends_with(l, "/interfaces")
        || str_contains(l, "/dto/") || str_ends_with(l, "/dto")
        || str_contains(l, "/validators/") || str_ends_with(l, "/validators");
    suffix || segment
}

/// Flags `vi.mock()` calls at module scope of a banned path or of a stable
/// dependency.
#[derive(Debug, Clone, Copy)]
pub struct BannedModuleMockRule;

impl ItemRule<ViMockCall> for BannedModuleMockRule {
    open spec fn spec_item(&self, m: ParsedModule, config: Config, x: ViMockCall) -> Seq<ViolationView> {
        if x.scope == MockScope::Module && (matches_path_spec(config.deps.banned_mock_paths@, x.source@)
            || stable_dep(x.source@)) {
            seq![file_view(
                "VITEST-DEP-001"@,
                "BannedModuleMockRule"@,
                Severity::Error,
                Category::Dependencies,
                "vi.mock('"@ + x.source@ + "') mocks a stable dependency \u{2014} avoid mocking pure functions and data models"@,
                m.file_path@,
                x.line,
                "Refactor target service to accept the dependency via constructor (DI). Construct the service in tests with a fake."@,
            )]
        } else {
            Seq::empty()
        }
    }

    fn check_item(&self, m: &ParsedModule, config: &Config, x: &ViMockCall, out: &mut Vec<Violation>) {
        if x.scope == MockScope::Module && (matches_path(config.deps.banned_mock_paths.as_slice(), x.source.as_str())
            || is_stable_dep(x.source.as_str())) {
            let mut msg = owned("vi.mock('");
            msg.append(x.source.as_str());
            msg.append("') mocks a stable dependency \u{2014} avoid mocking pure functions and data models");
            let v = file_violation(
                "VITEST-DEP-001",
                "BannedModuleMockRule",
                Severity::Error,
                Category::Dependencies,
                msg,
                &m.file_path,
                x.line,
                "Refactor target service to accept the dependency via constructor (DI). Construct the service in tests with a fake.",
            );
            push_violation(out, v);
        } else {
            proof {
                lemma_concat_empty(violations_view(out@));
            }
        }
    }
}

impl Rule for BannedModuleMockRule {
    open spec fn spec_id(&self) -> Seq<char> {
        "VITEST-DEP-001"@
    }

    open spec fn spec_name(&self) -> Seq<char> {
        "BannedModuleMockRule"@
    }

    open spec fn spec_severity(&self) -> Severity {
        Severity::Error
    }

    open spec fn spec_category(&self) -> Category {
        Category::Dependencies
    }

    open spec fn spec_applies(&self, runtime: TestRuntime) -> bool {
        not_playwright(runtime)
    }

    open spec fn spec_check(
        &self,
        m: ParsedModule,
        config: Config,
        all: Seq<ParsedModule>,
        tests: Seq<ParsedModule>,
        nodes: Seq<ParsedModule>,
    ) -> Seq<ViolationView> {
        scan_spec(*self, m, config, m.vi_mocks@)
    }

    fn id(&self) -> &'static str {
        "VITEST-DEP-001"
    }

    fn name(&self) -> &'static str {
        "BannedModuleMockRule"
    }

    fn severity(&self) -> Severity {
        Severity::Error
    }

    fn category(&self) -> Category {
        Category::Dependencies
    }

    fn applies_to_runtime(&self, runtime: TestRuntime) -> bool {
        runtime != TestRuntime::Playwright
    }

    fn check(&self, module: &ParsedModule, ctx: &LintContext, graph: &ModuleGraph) -> Vec<Violation> {
        let mut out: Vec<Violation> = Vec::new();
        proof {
            lemma_violations_empty();
        }
        scan(self, module, ctx.config, module.vi_mocks.as_slice(), &mut out);
        assert(violations_view(out@) =~= scan_spec(*self, *module, *ctx.config, module.vi_mocks@));
        out
    }
}

/// `s` without its leading `./` and then without its leading `../`.
pub open spec fn stripped_relative(s: Seq<char>) -> Seq<char> {
    without_parent_prefix(without_dot_slash(s))
}

/// Strips the leading `./` and then the leading `../` segments of `s`.
fn strip_relative(s: &str) -> (r: String)
    ensures
        r@ == stripped_relative(s@),
{
    let a = trim_dot_slash(s);
    trim_relative_prefix(a.as_str())
}

/// The violation of importing the singleton `name` through `imp`.
pub open spec fn singleton_view(m: ParsedModule, imp: ImportEntry, name: Seq<char>) -> ViolationView {
    file_view(
        "VITEST-DEP-002"@,
        "ProductionSingletonImportRule"@,
        Severity::Error,
        Category::Dependencies,
        "Importing production singleton `"@ + name + "` from `"@ + imp.source@
            + "` triggers its constructor side effects in unit tests"@,
        m.file_path@,
        imp.line,
        "Construct a fresh instance with fakes (DI). Singletons belong in *.integration.test.ts only."@,
    )
}

/// The violations of the named imports of `list` that are among `names`.
pub open spec fn banned_named_views(
    m: ParsedModule,
    imp: ImportEntry,
    names: Seq<Seq<char>>,
    list: Seq<String>,
) -> Seq<ViolationView>
    decreases list.len(),
{
    if list.len() == 0 {
        Seq::empty()
    } else {
        banned_named_views(m, imp, names, list.drop_last()) + if names.contains(list.last()@) {
            seq![singleton_view(m, imp, list.last()@)]
        } else {
            Seq::empty()
        }
    }
}

/// Whether the source of `imp`, as written or stripped of its relative
/// prefix, matches the module glob of `ban`.
pub open spec fn source_banned(imp: ImportEntry, ban: BannedSingleton) -> bool {
    glob_matches(ban.from.spec_pattern(), imp.source@) || glob_matches(
        ban.from.spec_pattern(),
        stripped_relative(imp.source@),
    )
}

/// The violations that `ban` finds in `imp`: its named imports first, in
/// order, then its default import.
pub open spec fn singleton_views(m: ParsedModule, imp: ImportEntry, ban: BannedSingleton) -> Seq<
    ViolationView,
> {
    if !source_banned(imp, ban) {
        Seq::empty()
    } else {
        banned_named_views(m, imp, strs_view(ban.names@), imp.named@) + match imp.default {
            Some(d) => if strs_view(ban.names@).contains(d@) {
                seq![singleton_view(m, imp, d@)]
            } else {
                Seq::empty()
            },
            None => Seq::empty(),
        }
    }
}

/// The violations that the bans of `bans` find in `imp`, one ban after the
/// other.
pub open spec fn bans_views(m: ParsedModule, imp: ImportEntry, bans: Seq<BannedSingleton>) -> Seq<
    ViolationView,
>
    decreases bans.len(),
{
    if bans.len() == 0 {
        Seq::empty()
    } else {
        bans_views(m, imp, bans.drop_last()) + singleton_views(m, imp, bans.last())
    }
}

/// Whether `path` matches the configuration's integration-test glob.
pub open spec fn integration_file(config: Config, path: Seq<char>) -> bool {
    match config.deps.integration_test_glob {
        Some(g) => glob_matches(g.spec_pattern(), path),
        None => false,
    }
}

/// Builds `singleton_view(module, imp, name)`.
fn make_singleton_violation(name: &str, imp: &ImportEntry, module: &ParsedModule) -> (v: Violation)
    ensures
        v@ == singleton_view(*module, *imp, name@),
{
    let mut msg = owned("Importing production singleton `");
    msg.append(name);
    msg.append("` from `");
    msg.append(imp.source.as_str());
    msg.append("` triggers its constructor side effects in unit tests");
    file_violation(
        "VITEST-DEP-002",
        "ProductionSingletonImportRule",
        Severity::Error,
        Category::Dependencies,
        msg,
        &module.file_path,
        imp.line,
        "Construct a fresh instance with fakes (DI). Singletons belong in *.integration.test.ts only.",
    )
}

/// Appends the violations that `ban` finds in `imp`.
fn check_singleton_import(
    imp: &ImportEntry,
    ban: &BannedSingleton,
    module: &ParsedModule,
    out: &mut Vec<Violation>,
)
    ensures
        violations_view(final(out)@) == violations_view(old(out)@) + singleton_views(
            *module,
            *imp,
            *ban,
        ),
{
    let stripped = strip_relative(imp.source.as_str());
    if !ban.from.is_match(imp.source.as_str()) && !ban.from.is_match(stripped.as_str()) {
        proof {
            lemma_concat_empty(violations_view(out@));
        }
        return;
    }
    let ghost start = violations_view(out@);
    let ghost names = strs_view(ban.names@);
    let mut i: usize = 0;
    assert(banned_named_views(*module, *imp, names, imp.named@.take(0)) == Seq::<ViolationView>::empty());
    proof {
        lemma_concat_empty(start);
    }
    while i < imp.named.len()
        invariant
            i <= imp.named@.len(),
            names == strs_view(ban.names@),
            violations_view(out@) == start + banned_named_views(
                *module,
                *imp,
                names,
                imp.named@.take(i as int),
            ),
        decreases imp.named@.len() - i,
    {
        let ghost before = violations_view(out@);
        if contains_str(&ban.names, imp.named[i].as_str()) {
            let v = make_singleton_violation(imp.named[i].as_str(), imp, module);
            push_violation(out, v);
        } else {
            proof {
                lemma_concat_empty(violations_view(out@));
            }
        }
        proof {
            let t = imp.named@.take(i + 1);
            assert(t.drop_last() == imp.named@.take(i as int));
            assert(t.last() == imp.named@[i as int]);
            assert(violations_view(out@) =~= start + banned_named_views(*module, *imp, names, t));
        }
        i = i + 1;
    }
    proof {
        lemma_take_full(imp.named@);
    }
    let ghost mid = violations_view(out@);
    match &imp.default {
        Some(d) => {
            if contains_str(&ban.names, d.as_str()) {
                let v = make_singleton_violation(d.as_str(), imp, module);
                push_violation(out, v);
            } else {
                proof {
                    lemma_concat_empty(violations_view(out@));
                }
            }
        },
        None => {
            proof {
                lemma_concat_empty(violations_view(out@));
            }
        },
    }
    assert(violations_view(out@) =~= start + singleton_views(*module, *imp, *ban));
}

/// Flags imports of banned production singletons in unit tests; files that
/// match the integration-test glob are left alone.
#[derive(Debug, Clone, Copy)]
pub struct ProductionSingletonImportRule;

impl ItemRule<ImportEntry> for ProductionSingletonImportRule {
    open spec fn spec_item(&self, m: ParsedModule, config: Config, x: ImportEntry) -> Seq<ViolationView> {
        bans_views(m, x, config.deps.banned_singletons@)
    }

    fn check_item(&self, m: &ParsedModule, config: &Config, x: &ImportEntry, out: &mut Vec<Violation>) {
        let bans = &config.deps.banned_singletons;
        let ghost start = violations_view(out@);
        let mut i: usize = 0;
        assert(bans_views(*m, *x, bans@.take(0)) == Seq::<ViolationView>::empty());
        proof {
            lemma_concat_empty(start);
        }
        while i < bans.len()
            invariant
                i <= bans@.len(),
                violations_view(out@) == start + bans_views(*m, *x, bans@.take(i as int)),
            decreases bans@.len() - i,
        {
            check_singleton_import(x, &bans[i], m, out);
            proof {
                let t = bans@.take(i + 1);
                assert(t.drop_last() == bans@.take(i as int));
                assert(t.last() == bans@[i as int]);
                assert(violations_view(out@) =~= start + bans_views(*m, *x, t));
            }
            i = i + 1;
        }
        proof {
            lemma_take_full(bans@);
        }
    }
}

impl Rule for ProductionSingletonImportRule {
    open spec fn spec_id(&self) -> Seq<char> {
        "VITEST-DEP-002"@
    }

    open spec fn spec_name(&self) -> Seq<char> {
        "ProductionSingletonImportRule"@
    }

    open spec fn spec_severity(&self) -> Severity {
        Severity::Error
    }

    open spec fn spec_category(&self) -> Category {
        Category::Dependencies
    }

    open spec fn spec_applies(&self, runtime: TestRuntime) -> bool {
        not_playwright(runtime)
    }

    open spec fn spec_check(
        &self,
        m: ParsedModule,
        config: Config,
        all: Seq<ParsedModule>,
        tests: Seq<ParsedModule>,
        nodes: Seq<ParsedModule>,
    ) -> Seq<ViolationView> {
        if config.deps.banned_singletons@.len() == 0 || integration_file(config, m.file_path@) {
            Seq::empty()
        } else {
            scan_spec(*self, m, config, m.imports_parsed@)
        }
    }

    fn id(&self) -> &'static str {
        "VITEST-DEP-002"
    }

    fn name(&self) -> &'static str {
        "ProductionSingletonImportRule"
    }

    fn severity(&self) -> Severity {
        Severity::Error
    }

    fn category(&self) -> Category {
        Category::Dependencies
    }

    fn applies_to_runtime(&self, runtime: TestRuntime) -> bool {
        runtime != TestRuntime::Playwright
    }

    fn check(&self, module: &ParsedModule, ctx: &LintContext, graph: &ModuleGraph) -> Vec<Violation> {
        let mut out: Vec<Violation> = Vec::new();
        proof {
            lemma_violations_empty();
        }
        if ctx.config.deps.banned_singletons.len() == 0 {
            return out;
        }
        match &ctx.config.deps.integration_test_glob {
            Some(g) => {
                if g.is_match(module.file_path.as_str()) {
                    return out;
                }
            },
            None => {},
        }
        scan(self, module, ctx.config, module.imports_parsed.as_slice(), &mut out);
        assert(violations_view(out@) =~= scan_spec(*self, *module, *ctx.config, module.imports_parsed@));
        out
    }
}

/// Whether `c` is a `vi` call that hides coupling between test files:
/// `vi.resetModules`, `vi.restoreAllMocks`, `vi.unmock` or `vi.doUnmock`.
pub open spec fn escape_call(c: Seq<char>) -> bool {
    c == "vi.resetModules"@ || c == "vi.restoreAllMocks"@ || c == "vi.unmock"@ || c == "vi.doUnmock"@
}

/// The name of a hook kind as its `Debug` form prints it.
pub open spec fn hook_kind_name(k: HookKind) -> Seq<char> {
    match k {
        HookKind::BeforeEach => "BeforeEach"@,
        HookKind::AfterEach => "AfterEach"@,
        HookKind::BeforeAll => "BeforeAll"@,
        HookKind::AfterAll => "AfterAll"@,
    }
}

/// The name of a hook kind as its `Debug` form prints it.
fn kind_name(k: HookKind) -> (r: &'static str)
    ensures
        r@ == hook_kind_name(k),
{
    match k {
        HookKind::BeforeEach => "BeforeEach",
        HookKind::AfterEach => "AfterEach",
        HookKind::BeforeAll => "BeforeAll",
        HookKind::AfterAll => "AfterAll",
    }
}

/// The violation of the escape hatch `c` called in hook `h`.
pub open spec fn escape_view(m: ParsedModule, h: HookCall, c: Seq<char>) -> ViolationView {
    file_view(
        "VITEST-DEP-003"@,
        "ResetEscapeHatchRule"@,
        Severity::Warning,
        Category::Dependencies,
        c + "() in "@ + hook_kind_name(h.kind) + " masks underlying coupling between test files"@,
        m.file_path@,
        h.line,
        "Fix the coupling: stop using module-level vi.mock for shared infrastructure, and stop importing production singletons in unit tests."@,
    )
}

/// The violations of the escape hatches among `calls` of hook `h`.
pub open spec fn escape_views(m: ParsedModule, h: HookCall, calls: Seq<String>) -> Seq<ViolationView>
    decreases calls.len(),
{
    if calls.len() == 0 {
        Seq::empty()
    } else {
        escape_views(m, h, calls.drop_last()) + if escape_call(calls.last()@) {
            seq![escape_view(m, h, calls.last()@)]
        } else {
            Seq::empty()
        }
    }
}

/// Decides `escape_call`.
fn is_escape_call(c: &str) -> (b: bool)
    ensures
        b == escape_call(c@),
{
    str_eq(c, "vi.resetModules") || str_eq(c, "vi.restoreAllMocks") || str_eq(c, "vi.unmock")
        || str_eq(c, "vi.doUnmock")
}

/// Flags hooks that call `vi.resetModules`, `vi.restoreAllMocks`,
/// `vi.unmock` or `vi.doUnmock`, which hide coupling between test files.
#[derive(Debug, Clone, Copy)]
pub struct ResetEscapeHatchRule;

impl ItemRule<HookCall> for ResetEscapeHatchRule {
    open spec fn spec_item(&self, m: ParsedModule, config: Config, x: HookCall) -> Seq<ViolationView> {
        escape_views(m, x, x.vi_calls@)
    }

    fn check_item(&self, m: &ParsedModule, config: &Config, x: &HookCall, out: &mut Vec<Violation>) {
        let ghost start = violations_view(out@);
        let mut i: usize = 0;
        assert(escape_views(*m, *x, x.vi_calls@.take(0)) == Seq::<ViolationView>::empty());
        proof {
            lemma_concat_empty(start);
        }
        while i < x.vi_calls.len()
            invariant
                i <= x.vi_calls@.len(),
                violations_view(out@) == start + escape_views(*m, *x, x.vi_calls@.take(i as int)),
            decreases x.vi_calls@.len() - i,
        {
            let c = &x.vi_calls[i];
            if is_escape_call(c.as_str()) {
                let mut msg = owned(c.as_str());
                msg.append("() in ");
                msg.append(kind_name(x.kind));
                msg.append(" masks underlying coupling between test files");
                let v = file_violation(
                    "VITEST-DEP-003",
                    "ResetEscapeHatchRule",
                    Severity::Warning,
                    Category::Dependencies,
                    msg,
                    &m.file_path,
                    x.line,
                    "Fix the coupling: stop using module-level vi.mock for shared infrastructure, and stop importing production singletons in unit tests.",
                );
                push_violation(out, v);
            } else {
                proof {
                    lemma_concat_empty(violations_view(out@));
                }
            }
            proof {
                let t = x.vi_calls@.take(i + 1);
                assert(t.drop_last() == x.vi_calls@.take(i as int));
                assert(t.last() == x.vi_calls@[i as int]);
                assert(violations_view(out@) =~= start + escape_views(*m, *x, t));
            }
            i = i + 1;
        }
        proof {
            lemma_take_full(x.vi_calls@);
        }
    }
}

impl Rule for ResetEscapeHatchRule {
    open spec fn spec_id(&self) -> Seq<char> {
        "VITEST-DEP-003"@
    }

    open spec fn spec_name(&self) -> Seq<char> {
        "ResetEscapeHatchRule"@
    }

    open spec fn spec_severity(&self) -> Severity {
        Severity::Warning
    }

    open spec fn spec_category(&self) -> Category {
        Category::Dependencies
    }

    open spec fn spec_applies(&self, runtime: TestRuntime) -> bool {
        not_playwright(runtime)
    }

    open spec fn spec_check(
        &self,
        m: ParsedModule,
        config: Config,
        all: Seq<ParsedModule>,
        tests: Seq<ParsedModule>,
        nodes: Seq<ParsedModule>,
    ) -> Seq<ViolationView> {
        scan_spec(*self, m, config, m.hook_calls@)
    }

    fn id(&self) -> &'static str {
        "VITEST-DEP-003"
    }

    fn name(&self) -> &'static str {
        "ResetEscapeHatchRule"
    }

    fn severity(&self) -> Severity {
        Severity::Warning
    }

    fn category(&self) -> Category {
        Category::Dependencies
    }

    fn applies_to_runtime(&self, runtime: TestRuntime) -> bool {
        runtime != TestRuntime::Playwright
    }

    fn check(&self, module: &ParsedModule, ctx: &LintContext, graph: &ModuleGraph) -> Vec<Violation> {
        let mut out: Vec<Violation> = Vec::new();
        proof {
            lemma_violations_empty();
        }
        scan(self, module, ctx.config, module.hook_calls.as_slice(), &mut out);
        assert(violations_view(out@) =~= scan_spec(*self, *module, *ctx.config, module.hook_calls@));
        out
    }
}

/// The module a `vi.mock` source names: the graph node with that path, or,
/// for a source that starts with `.`, the module it names relative to the
/// directory of the test file.
pub open spec fn mock_source_module(nodes: Seq<ParsedModule>, m: ParsedModule, mk: ViMockCall) -> Option<
    ParsedModule,
> {
    match lookup(nodes, components(mk.source@)) {
        Some(sm) => Some(sm),
        None => if starts_with(mk.source@, "."@) {
            relative_lookup(nodes, m.file_path@, mk.source@)
        } else {
            None
        },
    }
}

/// The names that a module exports.
pub open spec fn export_names(sm: ParsedModule) -> Seq<Seq<char>> {
    sm.exports@.map_values(|e: ExportEntry| e.name@)
}

/// The violation of a mock factory key that the mocked module does not export.
pub open spec fn unknown_key_view(m: ParsedModule, mk: ViMockCall, key: Seq<char>) -> ViolationView {
    file_view(
        "VITEST-DEP-004"@,
        "MockExportValidationRule"@,
        Severity::Warning,
        Category::Dependencies,
        "vi.mock('"@ + mk.source@ + "') factory returns '"@ + key
            + "' which is not exported by the source module"@,
        m.file_path@,
        mk.line,
        "Remove the non-existent export from the mock factory or add it to the source module"@,
    )
}

/// The violations of the keys of `keys` that are neither among `names` nor
/// `__esModule`.
pub open spec fn key_views(
    m: ParsedModule,
    mk: ViMockCall,
    names: Seq<Seq<char>>,
    keys: Seq<String>,
) -> Seq<ViolationView>
    decreases keys.len(),
{
    if keys.len() == 0 {
        Seq::empty()
    } else {
        key_views(m, mk, names, keys.drop_last()) + if !names.contains(keys.last()@)
            && keys.last()@ != "__esModule"@ {
            seq![unknown_key_view(m, mk, keys.last()@)]
        } else {
            Seq::empty()
        }
    }
}

/// The violations of one `vi.mock` with a factory whose mocked module is in
/// the graph.
pub open spec fn mock_views(nodes: Seq<ParsedModule>, m: ParsedModule, mk: ViMockCall) -> Seq<
    ViolationView,
> {
    if mk.factory_keys@.len() == 0 {
        Seq::empty()
    } else {
        match mock_source_module(nodes, m, mk) {
            Some(sm) => key_views(m, mk, export_names(sm), mk.factory_keys@),
            None => Seq::empty(),
        }
    }
}

/// The violations of the mocks of `mocks`, one mock after the other.
pub open spec fn mocks_views(nodes: Seq<ParsedModule>, m: ParsedModule, mocks: Seq<ViMockCall>) -> Seq<
    ViolationView,
>
    decreases mocks.len(),
{
    if mocks.len() == 0 {
        Seq::empty()
    } else {
        mocks_views(nodes, m, mocks.drop_last()) + mock_views(nodes, m, mocks.last())
    }
}

/// Finds the module that `mock` mocks.
fn resolve_mock_source_module<'a>(
    mock: &ViMockCall,
    module: &ParsedModule,
    ctx: &LintContext,
    graph: &ModuleGraph<'a>,
) -> (r: Option<&'a ParsedModule>)
    ensures
        match r {
            Some(sm) => mock_source_module(graph.node_seq(), *module, *mock) == Some(*sm),
            None => mock_source_module(graph.node_seq(), *module, *mock).is_none(),
        },
{
    let resolved = ctx.config.resolve_module_path(mock.source.as_str());
    match graph.get_module(resolved.as_str()) {
        Some(sm) => Some(sm),
        None => {
            if str_starts_with(resolved.as_str(), ".") {
                graph.resolve_relative(module.file_path.as_str(), resolved.as_str())
            } else {
                None
            }
        },
    }
}

/// The names exported by `sm`.
fn collect_export_names(sm: &ParsedModule) -> (r: Vec<String>)
    ensures
        strs_view(r@) == export_names(*sm),
{
    let mut r: Vec<String> = Vec::new();
    let mut i: usize = 0;
    while i < sm.exports.len()
        invariant
            i <= sm.exports@.len(),
            strs_view(r@) == sm.exports@.take(i as int).map_values(|e: ExportEntry| e.name@),
        decreases sm.exports@.len() - i,
    {
        let s = sm.exports[i].name.clone();
        proof {
            lemma_strs_view_push(r@, s);
        }
        r.push(s);
        assert(sm.exports@.take(i + 1).map_values(|e: ExportEntry| e.name@) =~= sm.exports@.take(
            i as int,
        ).map_values(|e: ExportEntry| e.name@).push(sm.exports@[i as int].name@));
        i = i + 1;
    }
    proof {
        lemma_take_full(sm.exports@);
    }
    r
}

/// Appends the violations of the factory keys of `mock` that `source_module`
/// does not export.
fn validate_factory_keys(
    mock: &ViMockCall,
    source_module: &ParsedModule,
    module: &ParsedModule,
    out: &mut Vec<Violation>,
)
    ensures
        violations_view(final(out)@) == violations_view(old(out)@) + key_views(
            *module,
            *mock,
            export_names(*source_module),
            mock.factory_keys@,
        ),
{
    let names = collect_export_names(source_module);
    let ghost start = violations_view(out@);
    let ghost en = export_names(*source_module);
    let mut i: usize = 0;
    assert(key_views(*module, *mock, en, mock.factory_keys@.take(0)) == Seq::<ViolationView>::empty());
    proof {
        lemma_concat_empty(start);
    }
    while i < mock.factory_keys.len()
        invariant
            i <= mock.factory_keys@.len(),
            strs_view(names@) == en,
            violations_view(out@) == start + key_views(
                *module,
                *mock,
                en,
                mock.factory_keys@.take(i as int),
            ),
        decreases mock.factory_keys@.len() - i,
    {
        let key = &mock.factory_keys[i];
        if !contains_str(&names, key.as_str()) && !str_eq(key.as_str(), "__esModule") {
            let mut msg = owned("vi.mock('");
            msg.append(mock.source.as_str());
            msg.append("') factory returns '");
            msg.append(key.as_str());
            msg.append("' which is not exported by the source module");
            let v = file_violation(
                "VITEST-DEP-004",
                "MockExportValidationRule",
                Severity::Warning,
                Category::Dependencies,
                msg,
                &module.file_path,
                mock.line,
                "Remove the non-existent export from the mock factory or add it to the source module",
            );
            push_violation(out, v);
        } else {
            proof {
                lemma_concat_empty(violations_view(out@));
            }
        }
        proof {
            let t = mock.factory_keys@.take(i + 1);
            assert(t.drop_last() == mock.factory_keys@.take(i as int));
            assert(t.last() == mock.factory_keys@[i as int]);
            assert(violations_view(out@) =~= start + key_views(*module, *mock, en, t));
        }
        i = i + 1;
    }
    proof {
        lemma_take_full(mock.factory_keys@);
    }
}

/// Flags `vi.mock` factories that return keys the mocked module does not
/// export.
#[derive(Debug, Clone, Copy)]
pub struct MockExportValidationRule;

impl Rule for MockExportValidationRule {
    open spec fn spec_id(&self) -> Seq<char> {
        "VITEST-DEP-004"@
    }

    open spec fn spec_name(&self) -> Seq<char> {
        "MockExportValidationRule"@
    }

    open spec fn spec_severity(&self) -> Severity {
        Severity::Warning
    }

    open spec fn spec_category(&self) -> Category {
        Category::Dependencies
    }

    open spec fn spec_applies(&self, runtime: TestRuntime) -> bool {
        not_playwright(runtime)
    }

    open spec fn spec_check(
        &self,
        m: ParsedModule,
        config: Config,
        all: Seq<ParsedModule>,
        tests: Seq<ParsedModule>,
        nodes: Seq<ParsedModule>,
    ) -> Seq<ViolationView> {
        mocks_views(nodes, m, m.vi_mocks@)
    }

    fn id(&self) -> &'static str {
        "VITEST-DEP-004"
    }

    fn name(&self) -> &'static str {
        "MockExportValidationRule"
    }

    fn severity(&self) -> Severity {
        Severity::Warning
    }

    fn category(&self) -> Category {
        Category::Dependencies
    }

    fn applies_to_runtime(&self, runtime: TestRuntime) -> bool {
        runtime != TestRuntime::Playwright
    }

    fn check(&self, module: &ParsedModule, ctx: &LintContext, graph: &ModuleGraph) -> Vec<Violation> {
        let mut out: Vec<Violation> = Vec::new();
        proof {
            lemma_violations_empty();
        }
        let ghost nodes = graph.node_seq();
        let mut i: usize = 0;
        assert(mocks_views(nodes, *module, module.vi_mocks@.take(0)) == Seq::<ViolationView>::empty());
        while i < module.vi_mocks.len()
            invariant
                i <= module.vi_mocks@.len(),
                nodes == graph.node_seq(),
                violations_view(out@) == mocks_views(nodes, *module, module.vi_mocks@.take(i as int)),
            decreases module.vi_mocks@.len() - i,
        {
            let mock = &module.vi_mocks[i];
            let ghost before = violations_view(out@);
            if mock.factory_keys.len() == 0 {
                proof {
                    lemma_concat_empty(before);
                }
            } else {
                match resolve_mock_source_module(mock, module, ctx, graph) {
                    Some(sm) => {
                        validate_factory_keys(mock, sm, module, &mut out);
                    },
                    None => {
                        proof {
                            lemma_concat_empty(before);
                        }
                    },
                }
            }
            proof {
                let t = module.vi_mocks@.take(i + 1);
                assert(t.drop_last() == module.vi_mocks@.take(i as int));
                assert(t.last() == module.vi_mocks@[i as int]);
                assert(violations_view(out@) =~= mocks_views(nodes, *module, t));
            }
            i = i + 1;
        }
        proof {
            lemma_take_full(module.vi_mocks@);
        }
        out
    }
}

/// The singleton violations of named imports are stamped.
proof fn lemma_banned_named_stamped(m: ParsedModule, imp: ImportEntry, names: Seq<Seq<char>>, list: Seq<String>)
    ensures
        all_stamped(
            banned_named_views(m, imp, names, list),
            "VITEST-DEP-002"@,
            "ProductionSingletonImportRule"@,
            Severity::Error,
            Category::Dependencies,
        ),
    decreases list.len(),
{
    if list.len() > 0 {
        lemma_banned_named_stamped(m, imp, names, list.drop_last());
        let tail = if names.contains(list.last()@) {
            seq![singleton_view(m, imp, list.last()@)]
        } else {
            Seq::empty()
        };
        lemma_stamped_concat(
            banned_named_views(m, imp, names, list.drop_last()),
            tail,
            "VITEST-DEP-002"@,
            "ProductionSingletonImportRule"@,
            Severity::Error,
            Category::Dependencies,
        );
    }
}

/// The singleton violations of the bans of `bans` are stamped.
proof fn lemma_bans_stamped(m: ParsedModule, imp: ImportEntry, bans: Seq<BannedSingleton>)
    ensures
        all_stamped(
            bans_views(m, imp, bans),
            "VITEST-DEP-002"@,
            "ProductionSingletonImportRule"@,
            Severity::Error,
            Category::Dependencies,
        ),
    decreases bans.len(),
{
    if bans.len() > 0 {
        lemma_bans_stamped(m, imp, bans.drop_last());
        let ban = bans.last();
        if source_banned(imp, ban) {
            lemma_banned_named_stamped(m, imp, strs_view(ban.names@), imp.named@);
            let d = match imp.default {
                Some(d) => if strs_view(ban.names@).contains(d@) {
                    seq![singleton_view(m, imp, d@)]
                } else {
                    Seq::empty()
                },
                None => Seq::empty(),
            };
            lemma_stamped_concat(
                banned_named_views(m, imp, strs_view(ban.names@), imp.named@),
                d,
                "VITEST-DEP-002"@,
                "ProductionSingletonImportRule"@,
                Severity::Error,
                Category::Dependencies,
            );
        }
        lemma_stamped_concat(
            bans_views(m, imp, bans.drop_last()),
            singleton_views(m, imp, ban),
            "VITEST-DEP-002"@,
            "ProductionSingletonImportRule"@,
            Severity::Error,
            Category::Dependencies,
        );
    }
}

/// The escape-hatch violations of a hook are stamped.
proof fn lemma_escape_stamped(m: ParsedModule, h: HookCall, calls: Seq<String>)
    ensures
        all_stamped(
            escape_views(m, h, calls),
            "VITEST-DEP-003"@,
            "ResetEscapeHatchRule"@,
            Severity::Warning,
            Category::Dependencies,
        ),
    decreases calls.len(),
{
    if calls.len() > 0 {
        lemma_escape_stamped(m, h, calls.drop_last());
        let tail = if escape_call(calls.last()@) {
            seq![escape_view(m, h, calls.last()@)]
        } else {
            Seq::empty()
        };
        lemma_stamped_concat(
            escape_views(m, h, calls.drop_last()),
            tail,
            "VITEST-DEP-003"@,
            "ResetEscapeHatchRule"@,
            Severity::Warning,
            Category::Dependencies,
        );
    }
}

/// The violations of unknown factory keys are stamped.
proof fn lemma_keys_stamped(m: ParsedModule, mk: ViMockCall, names: Seq<Seq<char>>, keys: Seq<String>)
    ensures
        all_stamped(
            key_views(m, mk, names, keys),
            "VITEST-DEP-004"@,
            "MockExportValidationRule"@,
            Severity::Warning,
            Category::Dependencies,
        ),
    decreases keys.len(),
{
    if keys.len() > 0 {
        lemma_keys_stamped(m, mk, names, keys.drop_last());
        let tail = if !names.contains(keys.last()@) && keys.last()@ != "__esModule"@ {
            seq![unknown_key_view(m, mk, keys.last()@)]
        } else {
            Seq::empty()
        };
        lemma_stamped_concat(
            key_views(m, mk, names, keys.drop_last()),
            tail,
            "VITEST-DEP-004"@,
            "MockExportValidationRule"@,
            Severity::Warning,
            Category::Dependencies,
        );
    }
}

/// The violations of the mocks of `mocks` are stamped.
proof fn lemma_mocks_stamped(nodes: Seq<ParsedModule>, m: ParsedModule, mocks: Seq<ViMockCall>)
    ensures
        all_stamped(
            mocks_views(nodes, m, mocks),
            "VITEST-DEP-004"@,
            "MockExportValidationRule"@,
            Severity::Warning,
            Category::Dependencies,
        ),
    decreases mocks.len(),
{
    if mocks.len() > 0 {
        lemma_mocks_stamped(nodes, m, mocks.drop_last());
        let mk = mocks.last();
        if mk.factory_keys@.len() > 0 {
            match mock_source_module(nodes, m, mk) {
                Some(sm) => lemma_keys_stamped(m, mk, export_names(sm), mk.factory_keys@),
                None => {},
            }
        }
        lemma_stamped_concat(
            mocks_views(nodes, m, mocks.drop_last()),
            mock_views(nodes, m, mk),
            "VITEST-DEP-004"@,
            "MockExportValidationRule"@,
            Severity::Warning,
            Category::Dependencies,
        );
    }
}

/// Every violation of `BannedModuleMockRule` carries its id, name, severity
/// and category.
pub proof fn lemma_banned_module_mock_rule_stamped(
    m: ParsedModule,
    config: Config,
    all: Seq<ParsedModule>,
    tests: Seq<ParsedModule>,
    nodes: Seq<ParsedModule>,
)
    ensures
        all_stamped(
            BannedModuleMockRule.spec_check(m, config, all, tests, nodes),
            "VITEST-DEP-001"@,
            "BannedModuleMockRule"@,
            Severity::Error,
            Category::Dependencies,
        ),
{
    lemma_scan_stamped(
        BannedModuleMockRule,
        m,
        config,
        m.vi_mocks@,
        "VITEST-DEP-001"@,
        "BannedModuleMockRule"@,
        Severity::Error,
        Category::Dependencies,
    );
}

/// Every violation of `ProductionSingletonImportRule` carries its id, name,
/// severity and category.
pub proof fn lemma_production_singleton_import_rule_stamped(
    m: ParsedModule,
    config: Config,
    all: Seq<ParsedModule>,
    tests: Seq<ParsedModule>,
    nodes: Seq<ParsedModule>,
)
    ensures
        all_stamped(
            ProductionSingletonImportRule.spec_check(m, config, all, tests, nodes),
            "VITEST-DEP-002"@,
            "ProductionSingletonImportRule"@,
            Severity::Error,
            Category::Dependencies,
        ),
{
    assert forall|i: int| 0 <= i < m.imports_parsed@.len() implies all_stamped(
        ProductionSingletonImportRule.spec_item(m, config, #[trigger] m.imports_parsed@[i]),
        "VITEST-DEP-002"@,
        "ProductionSingletonImportRule"@,
        Severity::Error,
        Category::Dependencies,
    ) by {
        lemma_bans_stamped(m, m.imports_parsed@[i], config.deps.banned_singletons@);
    }
    lemma_scan_stamped(
        ProductionSingletonImportRule,
        m,
        config,
        m.imports_parsed@,
        "VITEST-DEP-002"@,
        "ProductionSingletonImportRule"@,
        Severity::Error,
        Category::Dependencies,
    );
}

/// Every violation of `ResetEscapeHatchRule` carries its id, name, severity
/// and category.
pub proof fn lemma_reset_escape_hatch_rule_stamped(
    m: ParsedModule,
    config: Config,
    all: Seq<ParsedModule>,
    tests: Seq<ParsedModule>,
    nodes: Seq<ParsedModule>,
)
    ensures
        all_stamped(
            ResetEscapeHatchRule.spec_check(m, config, all, tests, nodes),
            "VITEST-DEP-003"@,
            "ResetEscapeHatchRule"@,
            Severity::Warning,
            Category::Dependencies,
        ),
{
    assert forall|i: int| 0 <= i < m.hook_calls@.len() implies all_stamped(
        ResetEscapeHatchRule.spec_item(m, config, #[trigger] m.hook_calls@[i]),
        "VITEST-DEP-003"@,
        "ResetEscapeHatchRule"@,
        Severity::Warning,
        Category::Dependencies,
    ) by {
        lemma_escape_stamped(m, m.hook_calls@[i], m.hook_calls@[i].vi_calls@);
    }
    lemma_scan_stamped(
        ResetEscapeHatchRule,
        m,
        config,
        m.hook_calls@,
        "VITEST-DEP-003"@,
        "ResetEscapeHatchRule"@,
        Severity::Warning,
        Category::Dependencies,
    );
}

/// The escape hatch `calls[j]` of hook `h` is among the violations of the
/// hook's calls.
proof fn lemma_escape_views_include(m: ParsedModule, h: HookCall, calls: Seq<String>, j: int)
    requires
        0 <= j < calls.len(),
        escape_call(calls[j]@),
    ensures
        exists|q: int|
            0 <= q < escape_views(m, h, calls).len() && #[trigger] escape_views(m, h, calls)[q]
                == escape_view(m, h, calls[j]@),
    decreases calls.len(),
{
    let prev = escape_views(m, h, calls.drop_last());
    let whole = escape_views(m, h, calls);
    if j == calls.len() - 1 {
        assert(whole[prev.len() as int] == escape_view(m, h, calls[j]@));
    } else {
        lemma_escape_views_include(m, h, calls.drop_last(), j);
        let q = choose|q: int|
            0 <= q < prev.len() && #[trigger] prev[q] == escape_view(m, h, calls.drop_last()[j]@);
        assert(whole[q] == prev[q]);
    }
}

/// Each violation among those of a hook's calls is that of one of its
/// escape hatches.
proof fn lemma_escape_views_origin(m: ParsedModule, h: HookCall, calls: Seq<String>, q: int)
    requires
        0 <= q < escape_views(m, h, calls).len(),
    ensures
        exists|j: int|
            0 <= j < calls.len() && escape_call(calls[j]@) && escape_views(m, h, calls)[q]
                == escape_view(m, h, #[trigger] calls[j]@),
    decreases calls.len(),
{
    let prev = escape_views(m, h, calls.drop_last());
    let whole = escape_views(m, h, calls);
    if q < prev.len() {
        lemma_escape_views_origin(m, h, calls.drop_last(), q);
        let j = choose|j: int|
            0 <= j < calls.drop_last().len() && escape_call(calls.drop_last()[j]@) && prev[q]
                == escape_view(m, h, #[trigger] calls.drop_last()[j]@);
        assert(whole[q] == prev[q]);
        assert(calls.drop_last()[j] == calls[j]);
    } else {
        let j = calls.len() - 1;
        assert(whole[q] == escape_view(m, h, calls[j]@));
    }
}

/// Law: `ResetEscapeHatchRule` reports, for every hook of any kind
/// (`beforeEach`, `afterEach`, `beforeAll`, `afterAll`), each call in it of
/// `vi.resetModules`, `vi.restoreAllMocks`, `vi.unmock` or `vi.doUnmock`, at
/// the hook's line; and each violation it reports is such a call.
pub proof fn law_escape_hatch_reports(
    m: ParsedModule,
    config: Config,
    all: Seq<ParsedModule>,
    tests: Seq<ParsedModule>,
    nodes: Seq<ParsedModule>,
)
    ensures
        forall|i: int, j: int|
            0 <= i < m.hook_calls@.len() && 0 <= j < m.hook_calls@[i].vi_calls@.len() && ({
                let c = #[trigger] m.hook_calls@[i].vi_calls@[j]@;
                c == "vi.resetModules"@ || c == "vi.restoreAllMocks"@ || c == "vi.unmock"@ || c
                    == "vi.doUnmock"@
            }) ==> exists|q: int|
                0 <= q < ResetEscapeHatchRule.spec_check(m, config, all, tests, nodes).len()
                    && #[trigger] ResetEscapeHatchRule.spec_check(m, config, all, tests, nodes)[q]
                    == escape_view(m, m.hook_calls@[i], m.hook_calls@[i].vi_calls@[j]@),
        forall|q: int|
            0 <= q < ResetEscapeHatchRule.spec_check(m, config, all, tests, nodes).len() ==> exists|
                i: int,
                j: int,
            |
                0 <= i < m.hook_calls@.len() && 0 <= j < m.hook_calls@[i].vi_calls@.len() && ({
                    let c = #[trigger] m.hook_calls@[i].vi_calls@[j]@;
                    c == "vi.resetModules"@ || c == "vi.restoreAllMocks"@ || c == "vi.unmock"@
                        || c == "vi.doUnmock"@
                }) && #[trigger] ResetEscapeHatchRule.spec_check(m, config, all, tests, nodes)[q]
                    == escape_view(m, m.hook_calls@[i], m.hook_calls@[i].vi_calls@[j]@),
{
    let res = ResetEscapeHatchRule.spec_check(m, config, all, tests, nodes);
    let hooks = m.hook_calls@;
    assert forall|i: int, j: int|
        0 <= i < hooks.len() && 0 <= j < hooks[i].vi_calls@.len() && ({
            let c = #[trigger] hooks[i].vi_calls@[j]@;
            c == "vi.resetModules"@ || c == "vi.restoreAllMocks"@ || c == "vi.unmock"@ || c
                == "vi.doUnmock"@
        }) implies exists|q: int|
        0 <= q < res.len() && #[trigger] res[q] == escape_view(m, hooks[i], hooks[i].vi_calls@[j]@) by {
        let h = hooks[i];
        lemma_escape_views_include(m, h, h.vi_calls@, j);
        let k = choose|k: int|
            0 <= k < escape_views(m, h, h.vi_calls@).len() && #[trigger] escape_views(m, h, h.vi_calls@)[k]
                == escape_view(m, h, h.vi_calls@[j]@);
        assert(ResetEscapeHatchRule.spec_item(m, config, hooks[i]) == escape_views(m, h, h.vi_calls@));
        lemma_scan_includes(ResetEscapeHatchRule, m, config, hooks, i, k);
    }
    assert forall|q: int| 0 <= q < res.len() implies exists|i: int, j: int|
        0 <= i < hooks.len() && 0 <= j < hooks[i].vi_calls@.len() && ({
            let c = #[trigger] hooks[i].vi_calls@[j]@;
            c == "vi.resetModules"@ || c == "vi.restoreAllMocks"@ || c == "vi.unmock"@ || c
                == "vi.doUnmock"@
        }) && #[trigger] res[q] == escape_view(m, hooks[i], hooks[i].vi_calls@[j]@) by {
        lemma_scan_origin(ResetEscapeHatchRule, m, config, hooks, q);
        let (i, k) = choose|i: int, k: int|
            0 <= i < hooks.len() && 0 <= k < ResetEscapeHatchRule.spec_item(m, config, hooks[i]).len()
                && res[q] == #[trigger] ResetEscapeHatchRule.spec_item(m, config, hooks[i])[k];
        let h = hooks[i];
        assert(ResetEscapeHatchRule.spec_item(m, config, h) == escape_views(m, h, h.vi_calls@));
        lemma_escape_views_origin(m, h, h.vi_calls@, k);
        let j = choose|j: int|
            0 <= j < h.vi_calls@.len() && escape_call(h.vi_calls@[j]@) && escape_views(m, h, h.vi_calls@)[k]
                == escape_view(m, h, #[trigger] h.vi_calls@[j]@);
        assert(res[q] == escape_view(m, hooks[i], hooks[i].vi_calls@[j]@));
    }
}

/// Every violation of `MockExportValidationRule` carries its id, name,
/// severity and category.
pub proof fn lemma_mock_export_validation_rule_stamped(
    m: ParsedModule,
    config: Config,
    all: Seq<ParsedModule>,
    tests: Seq<ParsedModule>,
    nodes: Seq<ParsedModule>,
)
    ensures
        all_stamped(
            MockExportValidationRule.spec_check(m, config, all, tests, nodes),
            "VITEST-DEP-004"@,
            "MockExportValidationRule"@,
            Severity::Warning,
            Category::Dependencies,
        ),
{
    lemma_mocks_stamped(nodes, m, m.vi_mocks@);
}

/// Without a banlist of production singletons, as without a configuration
/// file, the production-singleton rule reports nothing.
pub proof fn law_no_banlist_no_singleton_violations(
    m: ParsedModule,
    config: Config,
    all: Seq<ParsedModule>,
    tests: Seq<ParsedModule>,
    nodes: Seq<ParsedModule>,
)
    requires
        config.deps.banned_singletons@.len() == 0,
    ensures
        ProductionSingletonImportRule.spec_check(m, config, all, tests, nodes) == Seq::<
            ViolationView,
        >::empty(),
{
}


/// Law: `BannedModuleMockRule` reports each module-level `vi.mock` (never a
/// hoisted or per-test one) whose source is a configured banned path, or a
/// relative or absolute path outside `node:` and `node_modules` whose
/// lower-cased form names a stable module; once, at its line, in order, and
/// nothing else.
pub proof fn law_banned_module_mock_reports(
    m: ParsedModule,
    config: Config,
    all: Seq<ParsedModule>,
    tests: Seq<ParsedModule>,
    nodes: Seq<ParsedModule>,
)
    ensures
        BannedModuleMockRule.spec_check(m, config, all, tests, nodes) == crate::seqs::filter_map(
            m.vi_mocks@,
            |x: ViMockCall| if x.scope == MockScope::Module && (matches_path_spec(config.deps.banned_mock_paths@, x.source@) || (
                    !starts_with(x.source@, "node:"@) && !starts_with(x.source@, "node_modules"@) && (starts_with(
                        x.source@,
                        "."@,
                    ) || starts_with(x.source@, "/"@)) && (stable_suffix(unicode_lowercase(x.source@))
                        || stable_segment(unicode_lowercase(x.source@))))) { Some(file_view(
                "VITEST-DEP-001"@,
                "BannedModuleMockRule"@,
                Severity::Error,
                Category::Dependencies,
                "vi.mock('"@ + x.source@ + "') mocks a stable dependency \u{2014} avoid mocking pure functions and data models"@,
                m.file_path@,
                x.line,
                "Refactor target service to accept the dependency via constructor (DI). Construct the service in tests with a fake."@,
            )) } else { None },
        ),
{
    let f = |x: ViMockCall| if x.scope == MockScope::Module && (matches_path_spec(config.deps.banned_mock_paths@, x.source@) || (
                    !starts_with(x.source@, "node:"@) && !starts_with(x.source@, "node_modules"@) && (starts_with(
                        x.source@,
                        "."@,
                    ) || starts_with(x.source@, "/"@)) && (stable_suffix(unicode_lowercase(x.source@))
                        || stable_segment(unicode_lowercase(x.source@))))) { Some(file_view(
                "VITEST-DEP-001"@,
                "BannedModuleMockRule"@,
                Severity::Error,
                Category::Dependencies,
                "vi.mock('"@ + x.source@ + "') mocks a stable dependency \u{2014} avoid mocking pure functions and data models"@,
                m.file_path@,
                x.line,
                "Refactor target service to accept the dependency via constructor (DI). Construct the service in tests with a fake."@,
            )) } else { None };
    assert forall|x: ViMockCall| #[trigger] BannedModuleMockRule.spec_item(m, config, x) == match f(x) {
        Some(v) => seq![v],
        None => Seq::<ViolationView>::empty(),
    } by {}
    lemma_scan_filter_map(BannedModuleMockRule, m, config, m.vi_mocks@, f);
}


/// Law: in a file that the integration-test glob matches, production
/// singletons are the contract, so the production-singleton rule reports
/// nothing there.
pub proof fn law_integration_file_no_singleton_violations(
    m: ParsedModule,
    config: Config,
    all: Seq<ParsedModule>,
    tests: Seq<ParsedModule>,
    nodes: Seq<ParsedModule>,
)
    ensures
        (config.deps.integration_test_glob matches Some(g) && glob_matches(g.spec_pattern(), m.file_path@))
            ==> ProductionSingletonImportRule.spec_check(m, config, all, tests, nodes).len() == 0,
{
}

} // verus!
