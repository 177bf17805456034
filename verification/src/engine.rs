//! The lint run: which files are test files, and every registered rule on
//! every module of a group, with the group's configuration deciding which
//! rules are off and which severities are overridden, and suppression
//! comments removing what they cover.

use vstd::prelude::*;
use crate::config::{Config, select_lookup};
use crate::models::{ModuleGraph, ParsedModule, Severity, Violation, ViolationView, copy_violation, violations_view};
use crate::rules::{AnyRule, LintContext, Rule, all_rules, law_rule_stamps, lemma_concat_empty, lemma_violations_empty, push_violation, registered_rules};
use crate::seqs::strs_view;
use crate::suppression::{SuppressionMap, suppressed_in};
use crate::order::{law_sorted_report, report_sorted, sort_violations, sorted_views};
use crate::parser::{ParseError, TsParser, module_of, tsx_file};
use crate::paths::{parent_components, parent_of};
use crate::syntax::{SyntaxNode, copied, grammar_loads};
use crate::text::{ascii_lowercase, decimal, decimal_string, ends_with, owned, str_ascii_lowercase, str_ends_with, str_eq};

verus! {

/// Whether a file name is a test file: its ASCII-lower-cased form ends in
/// `.test.` or `.spec.` followed by `ts`, `tsx`, `js` or `jsx`.
pub open spec fn test_file_name(name: Seq<char>) -> bool {
    let l = ascii_lowercase(name);
    ||| ends_with(l, ".test.ts"@)
    ||| ends_with(l, ".spec.ts"@)
    ||| ends_with(l, ".test.tsx"@)
    ||| ends_with(l, ".spec.tsx"@)
    ||| ends_with(l, ".test.js"@)
    ||| ends_with(l, ".spec.js"@)
    ||| ends_with(l, ".test.jsx"@)
    ||| ends_with(l, ".spec.jsx"@)
}

/// Whether `name` is the name of a test file.
pub fn is_test_file(name: &str) -> (b: bool)
    ensures
        b == test_file_name(name@),
{
    let lower = str_ascii_lowercase(name);
    let l = lower.as_str();
    str_ends_with(l, ".test.ts") || str_ends_with(l, ".spec.ts") || str_ends_with(l, ".test.tsx")
        || str_ends_with(l, ".spec.tsx") || str_ends_with(l, ".test.js") || str_ends_with(
        l,
        ".spec.js",
    ) || str_ends_with(l, ".test.jsx") || str_ends_with(l, ".spec.jsx")
}

/// The severity that the configured value `o` gives a violation of severity
/// `sev`: `error`, `warning` or `info` in any ASCII case, else `sev` itself.
pub open spec fn overridden_severity(o: Seq<char>, sev: Severity) -> Severity {
    let l = ascii_lowercase(o);
    if l == "error"@ {
        Severity::Error
    } else if l == "warning"@ {
        Severity::Warning
    } else if l == "info"@ {
        Severity::Info
    } else {
        sev
    }
}

/// A violation with the configured override of its rule applied.
pub open spec fn with_override(v: ViolationView, over: Option<Seq<char>>) -> ViolationView {
    match over {
        Some(o) => ViolationView { severity: overridden_severity(o, v.severity), ..v },
        None => v,
    }
}

/// Whether the configuration turns the rule `id` off.
pub open spec fn rule_disabled(config: Config, id: Seq<char>) -> bool {
    select_lookup(config.rules.select@, id) matches Some(v) && ascii_lowercase(v) == ascii_lowercase(
        "off"@,
    )
}

/// The violations of `vs` with the override applied, without those that the
/// comments of `source` suppress, in order.
pub open spec fn kept(vs: Seq<ViolationView>, over: Option<Seq<char>>, source: Seq<char>) -> Seq<
    ViolationView,
>
    decreases vs.len(),
{
    if vs.len() == 0 {
        Seq::empty()
    } else {
        let w = with_override(vs.last(), over);
        kept(vs.drop_last(), over, source) + if suppressed_in(source, w.line as int, w.rule_id) {
            Seq::<ViolationView>::empty()
        } else {
            seq![w]
        }
    }
}

/// What rule `r` reports for module `m` of the group, with source `source`.
pub open spec fn rule_module_views(
    r: AnyRule,
    config: Config,
    group: Seq<ParsedModule>,
    tests: Seq<ParsedModule>,
    nodes: Seq<ParsedModule>,
    m: ParsedModule,
    source: Seq<char>,
) -> Seq<ViolationView> {
    if !r.spec_applies(m.runtime) {
        Seq::empty()
    } else {
        kept(
            r.spec_check(m, config, group, tests, nodes),
            select_lookup(config.rules.select@, r.spec_id()),
            source,
        )
    }
}

/// What rule `r` reports for the first `k` modules of the group, module
/// after module.
pub open spec fn rule_views(
    r: AnyRule,
    config: Config,
    group: Seq<ParsedModule>,
    sources: Seq<Seq<char>>,
    tests: Seq<ParsedModule>,
    nodes: Seq<ParsedModule>,
    k: int,
) -> Seq<ViolationView>
    decreases k,
{
    if k <= 0 {
        Seq::empty()
    } else {
        rule_views(r, config, group, sources, tests, nodes, k - 1) + rule_module_views(
            r,
            config,
            group,
            tests,
            nodes,
            group[k - 1],
            sources[k - 1],
        )
    }
}

/// What the rules of `rules` report for a group, rule after rule; a rule that
/// the configuration turns off reports nothing.
pub open spec fn group_views(
    rules: Seq<AnyRule>,
    config: Config,
    group: Seq<ParsedModule>,
    sources: Seq<Seq<char>>,
    tests: Seq<ParsedModule>,
    nodes: Seq<ParsedModule>,
) -> Seq<ViolationView>
    decreases rules.len(),
{
    if rules.len() == 0 {
        Seq::empty()
    } else {
        let r = rules.last();
        group_views(rules.drop_last(), config, group, sources, tests, nodes) + if rule_disabled(
            config,
            r.spec_id(),
        ) {
            Seq::<ViolationView>::empty()
        } else {
            rule_views(r, config, group, sources, tests, nodes, group.len() as int)
        }
    }
}

/// The severity that the configured value `o` gives a violation of severity
/// `sev`.
fn override_severity(o: &str, sev: Severity) -> (r: Severity)
    ensures
        r == overridden_severity(o@, sev),
{
    let l = str_ascii_lowercase(o);
    if str_eq(l.as_str(), "error") {
        Severity::Error
    } else if str_eq(l.as_str(), "warning") {
        Severity::Warning
    } else if str_eq(l.as_str(), "info") {
        Severity::Info
    } else {
        sev
    }
}

/// The view of an optional string slice.
pub open spec fn opt_str_view(o: Option<&str>) -> Option<Seq<char>> {
    match o {
        Some(s) => Some(s@),
        None => None,
    }
}

/// Appends to `out` the violations of `vs` with the override applied, except
/// those that `sup` suppresses.
fn keep_unsuppressed(
    vs: &Vec<Violation>,
    over: Option<&str>,
    sup: &SuppressionMap,
    source: Ghost<Seq<char>>,
    out: &mut Vec<Violation>,
)
    requires
        forall|l: int, rule: Seq<char>| sup.spec_suppressed(l, rule) == suppressed_in(source@, l, rule),
    ensures
        violations_view(final(out)@) == violations_view(old(out)@) + kept(
            violations_view(vs@),
            opt_str_view(over),
            source@,
        ),
{
    let ghost start = violations_view(out@);
    let ghost vv = violations_view(vs@);
    let mut i: usize = 0;
    assert(vv.take(0) =~= Seq::<ViolationView>::empty());
    proof {
        lemma_concat_empty(start);
    }
    while i < vs.len()
        invariant
            i <= vs@.len(),
            vv == violations_view(vs@),
            forall|l: int, rule: Seq<char>| sup.spec_suppressed(l, rule) == suppressed_in(source@, l, rule),
            violations_view(out@) == start + kept(vv.take(i as int), opt_str_view(over), source@),
        decreases vs@.len() - i,
    {
        let mut w = copy_violation(&vs[i]);
        match over {
            Some(o) => {
                w.severity = override_severity(o, w.severity);
            },
            None => {},
        }
        assert(w@ == with_override(vv[i as int], opt_str_view(over)));
        proof {
            let t = vv.take(i + 1);
            assert(t.drop_last() == vv.take(i as int));
            assert(t.last() == vv[i as int]);
        }
        if sup.is_suppressed(w.line, w.rule_id.as_str()) {
            proof {
                lemma_concat_empty(violations_view(out@));
            }
        } else {
            push_violation(out, w);
        }
        proof {
            assert(violations_view(out@) =~= start + kept(vv.take(i + 1), opt_str_view(over), source@));
        }
        i = i + 1;
    }
    assert(vv.take(vs@.len() as int) == vv);
}

/// Runs every registered rule on every module of a group: `group` are the
/// group's modules, `sources` their texts, `config` the configuration that
/// governs them and `graph` the import graph of the run.
pub fn lint_group(
    config: &Config,
    group: &[ParsedModule],
    sources: &[String],
    graph: &ModuleGraph,
) -> (r: Vec<Violation>)
    requires
        group@.len() == sources@.len(),
    ensures
        violations_view(r@) == group_views(
            registered_rules(),
            *config,
            group@,
            strs_view(sources@),
            graph.test_seq(),
            graph.node_seq(),
        ),
{
    let rules = all_rules();
    let ctx = LintContext { config, all_modules: group };
    let ghost srcs = strs_view(sources@);
    let mut sups: Vec<SuppressionMap> = Vec::new();
    let mut s: usize = 0;
    while s < sources.len()
        invariant
            s <= sources@.len(),
            sups@.len() == s,
            srcs == strs_view(sources@),
            forall|j: int, l: int, rule: Seq<char>|
                0 <= j < s ==> #[trigger] sups@[j].spec_suppressed(l, rule) == suppressed_in(
                    srcs[j],
                    l,
                    rule,
                ),
        decreases sources@.len() - s,
    {
        let sup = SuppressionMap::parse(sources[s].as_str());
        sups.push(sup);
        s = s + 1;
    }
    let ghost tests = graph.test_seq();
    let ghost nodes = graph.node_seq();
    let mut out: Vec<Violation> = Vec::new();
    proof {
        lemma_violations_empty();
    }
    let mut ri: usize = 0;
    assert(rules@.take(0) =~= Seq::<AnyRule>::empty());
    while ri < rules.len()
        invariant
            ri <= rules@.len(),
            rules@ == registered_rules(),
            group@.len() == sources@.len(),
            sups@.len() == sources@.len(),
            srcs == strs_view(sources@),
            ctx.config == config,
            ctx.all_modules@ == group@,
            tests == graph.test_seq(),
            nodes == graph.node_seq(),
            forall|j: int, l: int, rule: Seq<char>|
                0 <= j < sups@.len() ==> #[trigger] sups@[j].spec_suppressed(l, rule)
                    == suppressed_in(srcs[j], l, rule),
            violations_view(out@) == group_views(rules@.take(ri as int), *config, group@, srcs, tests, nodes),
        decreases rules@.len() - ri,
    {
        let rule = rules[ri];
        let ghost before = violations_view(out@);
        proof {
            let t = rules@.take(ri + 1);
            assert(t.drop_last() == rules@.take(ri as int));
            assert(t.last() == rules@[ri as int]);
        }
        if config.rules.is_disabled(rule.id()) {
            proof {
                lemma_concat_empty(before);
            }
        } else {
            let over = config.rules.severity_override(rule.id());
            let mut mi: usize = 0;
            proof {
                lemma_concat_empty(before);
            }
            while mi < group.len()
                invariant
                    mi <= group@.len(),
                    group@.len() == sources@.len(),
                    sups@.len() == sources@.len(),
                    srcs == strs_view(sources@),
                    ctx.config == config,
                    ctx.all_modules@ == group@,
                    tests == graph.test_seq(),
                    nodes == graph.node_seq(),
                    opt_str_view(over) == select_lookup(config.rules.select@, rule.spec_id()),
                    forall|j: int, l: int, rule: Seq<char>|
                        0 <= j < sups@.len() ==> #[trigger] sups@[j].spec_suppressed(l, rule)
                            == suppressed_in(srcs[j], l, rule),
                    violations_view(out@) == before + rule_views(
                        rule,
                        *config,
                        group@,
                        srcs,
                        tests,
                        nodes,
                        mi as int,
                    ),
                decreases group@.len() - mi,
            {
                let m = &group[mi];
                let ghost mid = violations_view(out@);
                if rule.applies_to_runtime(m.runtime) {
                    let vs = rule.check(m, &ctx, graph);
                    assert(sups@[mi as int].spec_suppressed(0, Seq::<char>::empty()) == suppressed_in(
                        srcs[mi as int],
                        0,
                        Seq::<char>::empty(),
                    ));
                    keep_unsuppressed(&vs, over, &sups[mi], Ghost(srcs[mi as int]), &mut out);
                } else {
                    proof {
                        lemma_concat_empty(mid);
                    }
                }
                proof {
                    assert(violations_view(out@) =~= before + rule_views(
                        rule,
                        *config,
                        group@,
                        srcs,
                        tests,
                        nodes,
                        mi + 1,
                    ));
                }
                mi = mi + 1;
            }
        }
        proof {
            assert(violations_view(out@) =~= group_views(
                rules@.take(ri + 1),
                *config,
                group@,
                srcs,
                tests,
                nodes,
            ));
        }
        ri = ri + 1;
    }
    assert(rules@.take(rules@.len() as int) == rules@);
    out
}

/// The modules that one configuration governs, with their source texts.
pub struct LintGroup {
    pub config: Config,
    pub modules: Vec<ParsedModule>,
    pub sources: Vec<String>,
}

/// What the rules report for each group, one group after the other.
pub open spec fn groups_views(groups: Seq<LintGroup>, tests: Seq<ParsedModule>, nodes: Seq<ParsedModule>) -> Seq<
    ViolationView,
>
    decreases groups.len(),
{
    if groups.len() == 0 {
        Seq::empty()
    } else {
        let g = groups.last();
        groups_views(groups.drop_last(), tests, nodes) + group_views(
            registered_rules(),
            g.config,
            g.modules@,
            strs_view(g.sources@),
            tests,
            nodes,
        )
    }
}

/// Whether every group has one source text per module.
pub open spec fn groups_aligned(groups: Seq<LintGroup>) -> bool {
    forall|i: int| 0 <= i < groups.len() ==> (#[trigger] groups[i]).modules@.len() == groups[i].sources@.len()
}

/// Lints every group and sorts what is found by file path, then line.
pub fn lint_groups(groups: &[LintGroup], graph: &ModuleGraph) -> (r: Vec<Violation>)
    requires
        groups_aligned(groups@),
    ensures
        violations_view(r@) == sorted_views(groups_views(groups@, graph.test_seq(), graph.node_seq())),
{
    let mut all: Vec<Violation> = Vec::new();
    proof {
        lemma_violations_empty();
    }
    let mut gi: usize = 0;
    assert(groups@.take(0) =~= Seq::<LintGroup>::empty());
    while gi < groups.len()
        invariant
            gi <= groups@.len(),
            groups_aligned(groups@),
            violations_view(all@) == groups_views(groups@.take(gi as int), graph.test_seq(), graph.node_seq()),
        decreases groups@.len() - gi,
    {
        let g = &groups[gi];
        assert(groups@[gi as int].modules@.len() == groups@[gi as int].sources@.len());
        let mut found = lint_group(&g.config, g.modules.as_slice(), g.sources.as_slice(), graph);
        let ghost before = all@;
        let ghost added = found@;
        all.append(&mut found);
        proof {
            let t = groups@.take(gi + 1);
            assert(t.drop_last() == groups@.take(gi as int));
            assert(t.last() == groups@[gi as int]);
            assert(violations_view(all@) =~= violations_view(before) + violations_view(added));
        }
        gi = gi + 1;
    }
    assert(groups@.take(groups@.len() as int) == groups@);
    sort_violations(&all)
}

/// How many violations of `vs` have severity `s`.
pub open spec fn severity_count(vs: Seq<ViolationView>, s: Severity) -> nat
    decreases vs.len(),
{
    if vs.len() == 0 {
        0
    } else {
        severity_count(vs.drop_last(), s) + if vs.last().severity == s {
            1nat
        } else {
            0nat
        }
    }
}

/// The summary's counts of errors, warnings and infos add up to the number
/// of violations.
pub proof fn law_severity_counts_partition(vs: Seq<ViolationView>)
    ensures
        severity_count(vs, Severity::Error) + severity_count(vs, Severity::Warning) + severity_count(
            vs,
            Severity::Info,
        ) == vs.len(),
    decreases vs.len(),
{
    if vs.len() > 0 {
        law_severity_counts_partition(vs.drop_last());
    }
}

/// How many violations of `vs` have severity `s`.
pub fn count_severity(vs: &[Violation], s: Severity) -> (n: usize)
    ensures
        n == severity_count(violations_view(vs@), s),
{
    let ghost vv = violations_view(vs@);
    let mut n: usize = 0;
    let mut i: usize = 0;
    while i < vs.len()
        invariant
            i <= vs@.len(),
            vv == violations_view(vs@),
            n <= i,
            n == severity_count(vv.take(i as int), s),
        decreases vs@.len() - i,
    {
        proof {
            let t = vv.take(i + 1);
            assert(t.drop_last() == vv.take(i as int));
            assert(t.last() == vv[i as int]);
        }
        if vs[i].severity == s {
            n = n + 1;
        }
        i = i + 1;
    }
    assert(vv.take(vs@.len() as int) == vv);
    n
}

/// Whether some violation of `vs` is an error: the run then fails.
pub fn has_errors(vs: &[Violation]) -> (b: bool)
    ensures
        b == exists|i: int| 0 <= i < vs@.len() && (#[trigger] vs@[i]).severity == Severity::Error,
{
    let mut i: usize = 0;
    while i < vs.len()
        invariant
            i <= vs@.len(),
            forall|j: int| 0 <= j < i ==> (#[trigger] vs@[j]).severity != Severity::Error,
        decreases vs@.len() - i,
    {
        if vs[i].severity == Severity::Error {
            return true;
        }
        i = i + 1;
    }
    false
}

/// The closing line of the text report.
pub open spec fn summary_text(vs: Seq<ViolationView>) -> Seq<char> {
    "Found "@ + decimal(vs.len()) + " violation(s): "@ + decimal(severity_count(vs, Severity::Error))
        + " error(s), "@ + decimal(severity_count(vs, Severity::Warning)) + " warning(s), "@
        + decimal(severity_count(vs, Severity::Info)) + " info"@
}

/// The closing line of the text report: how many violations, errors,
/// warnings and infos.
pub fn summary_line(vs: &[Violation]) -> (s: String)
    ensures
        s@ == summary_text(violations_view(vs@)),
{
    let mut s = owned("Found ");
    s.append(decimal_string(vs.len()).as_str());
    s.append(" violation(s): ");
    s.append(decimal_string(count_severity(vs, Severity::Error)).as_str());
    s.append(" error(s), ");
    s.append(decimal_string(count_severity(vs, Severity::Warning)).as_str());
    s.append(" warning(s), ");
    s.append(decimal_string(count_severity(vs, Severity::Info)).as_str());
    s.append(" info");
    s
}

/// The linter: the parser of test files and the registered rules.
pub struct LintEngine {
    parser: TsParser,
}

impl LintEngine {
    /// A linter.
    pub fn new() -> (r: Result<LintEngine, ParseError>)
        ensures
            r.is_ok(),
    {
        match TsParser::new() {
            Ok(parser) => Ok(LintEngine { parser }),
            Err(e) => Err(e),
        }
    }

    /// Parses one test file.
    pub fn parse(&self, path: &str, source: &str) -> (r: Result<ParsedModule, ParseError>)
        ensures
            r.is_ok() == grammar_loads(tsx_file(path@)),
            match r {
                Ok(m) => exists|t: SyntaxNode|
                    copied(t, source@, tsx_file(path@), Seq::empty(), None, usize::MAX as nat) && m@ == module_of(
                        path@,
                        source@,
                        t,
                    ),
                Err(ParseError::Failed(p)) => p@ == path@,
            },
    {
        self.parser.parse_file(path, source)
    }

    /// Lints every group and sorts what is found by file path, then line.
    pub fn lint(&self, groups: &[LintGroup], graph: &ModuleGraph) -> (r: Vec<Violation>)
        requires
            groups_aligned(groups@),
        ensures
            violations_view(r@) == sorted_views(groups_views(groups@, graph.test_seq(), graph.node_seq())),
    {
        lint_groups(groups, graph)
    }
}

/// The directories searched for a configuration file, nearest first: `dir`
/// and each of its ancestors.
pub open spec fn search_dirs(dir: Seq<Seq<char>>) -> Seq<Seq<Seq<char>>>
    decreases dir.len(),
{
    match parent_components(dir) {
        Some(p) => if p.len() < dir.len() {
            seq![dir] + search_dirs(p)
        } else {
            seq![dir]
        },
        None => seq![dir],
    }
}

/// The directories searched for a configuration file, nearest first.
pub fn config_search_dirs(dir: &Vec<String>) -> (r: Vec<Vec<String>>)
    ensures
        r@.map_values(|d: Vec<String>| strs_view(d@)) == search_dirs(strs_view(dir@)),
    decreases dir@.len(),
{
    let mut r: Vec<Vec<String>> = Vec::new();
    r.push(crate::models::copy_strings(dir));
    match parent_of(dir) {
        Some(p) => {
            if p.len() < dir.len() {
                let rest = config_search_dirs(&p);
                let ghost r0 = r@;
                let mut rest = rest;
                let ghost rv = rest@;
                r.append(&mut rest);
                assert(r@.map_values(|d: Vec<String>| strs_view(d@)) =~= seq![strs_view(dir@)]
                    + rv.map_values(|d: Vec<String>| strs_view(d@)));
            } else {
                assert(r@.map_values(|d: Vec<String>| strs_view(d@)) =~= seq![strs_view(dir@)]);
            }
        },
        None => {
            assert(r@.map_values(|d: Vec<String>| strs_view(d@)) =~= seq![strs_view(dir@)]);
        },
    }
    r
}

/// The modules that share a configuration root: the root's components and
/// the indices of the modules, in order.
pub struct RootGroup {
    pub root: Vec<String>,
    pub members: Vec<usize>,
}

/// A group as plain values.
pub open spec fn root_group_view(g: RootGroup) -> (Seq<Seq<char>>, Seq<usize>) {
    (strs_view(g.root@), g.members@)
}

/// The position of the last group with root `k`, or `-1`.
pub open spec fn root_position(gs: Seq<(Seq<Seq<char>>, Seq<usize>)>, k: Seq<Seq<char>>) -> int
    decreases gs.len(),
{
    if gs.len() == 0 {
        -1
    } else if gs.last().0 == k {
        gs.len() - 1
    } else {
        root_position(gs.drop_last(), k)
    }
}

/// The modules grouped by configuration root: groups in the order in which
/// their roots first occur, each with the indices of its modules in order.
pub open spec fn grouped_roots(roots: Seq<Seq<Seq<char>>>) -> Seq<(Seq<Seq<char>>, Seq<usize>)>
    decreases roots.len(),
{
    if roots.len() == 0 {
        Seq::empty()
    } else {
        let gs = grouped_roots(roots.drop_last());
        let k = roots.last();
        let i = (roots.len() - 1) as usize;
        let p = root_position(gs, k);
        if p >= 0 {
            gs.update(p, (k, gs[p].1.push(i)))
        } else {
            gs.push((k, seq![i]))
        }
    }
}

proof fn lemma_root_position(gs: Seq<(Seq<Seq<char>>, Seq<usize>)>, k: Seq<Seq<char>>)
    ensures
        -1 <= root_position(gs, k) < gs.len(),
        root_position(gs, k) >= 0 ==> gs[root_position(gs, k)].0 == k,
        root_position(gs, k) < 0 ==> forall|q: int| 0 <= q < gs.len() ==> (#[trigger] gs[q]).0 != k,
    decreases gs.len(),
{
    if gs.len() > 0 && gs.last().0 != k {
        lemma_root_position(gs.drop_last(), k);
        assert forall|q: int| 0 <= q < gs.len() - 1 implies (#[trigger] gs[q]) == gs.drop_last()[q] by {}
    }
}

/// Groups the modules by their configuration roots, in the order in which
/// the roots first occur.
pub fn group_by_root(roots: &Vec<Vec<String>>) -> (r: Vec<RootGroup>)
    ensures
        r@.map_values(|g: RootGroup| root_group_view(g)) == grouped_roots(
            roots@.map_values(|v: Vec<String>| strs_view(v@)),
        ),
{
    let ghost rv = roots@.map_values(|v: Vec<String>| strs_view(v@));
    let mut groups: Vec<RootGroup> = Vec::new();
    let mut i: usize = 0;
    assert(groups@.map_values(|g: RootGroup| root_group_view(g)) =~= grouped_roots(rv.take(0)));
    while i < roots.len()
        invariant
            i <= roots@.len(),
            rv == roots@.map_values(|v: Vec<String>| strs_view(v@)),
            groups@.map_values(|g: RootGroup| root_group_view(g)) == grouped_roots(rv.take(i as int)),
        decreases roots@.len() - i,
    {
        let ghost gv = groups@.map_values(|g: RootGroup| root_group_view(g));
        let ghost k = rv[i as int];
        assert(rv.take(i + 1).drop_last() == rv.take(i as int));
        assert(rv.take(i + 1).last() == k);
        let mut j = groups.len();
        assert(gv.take(j as int) == gv);
        while j > 0 && !crate::paths::components_eq(&groups[j - 1].root, &roots[i])
            invariant
                j <= groups@.len(),
                gv == groups@.map_values(|g: RootGroup| root_group_view(g)),
                i < roots@.len(),
                k == strs_view(roots@[i as int]@),
                root_position(gv, k) == root_position(gv.take(j as int), k),
            decreases j,
        {
            assert(gv.take(j as int).last() == gv[j - 1]);
            assert(gv.take(j as int).drop_last() == gv.take(j - 1));
            j = j - 1;
        }
        if j > 0 {
            assert(gv.take(j as int).last() == gv[j - 1]);
            let p = j - 1;
            let mut members: Vec<usize> = Vec::new();
            let mut q: usize = 0;
            while q < groups[p].members.len()
                invariant
                    p < groups@.len(),
                    q <= groups@[p as int].members@.len(),
                    members@ == groups@[p as int].members@.take(q as int),
                decreases groups@[p as int].members@.len() - q,
            {
                members.push(groups[p].members[q]);
                assert(groups@[p as int].members@.take(q + 1) == groups@[p as int].members@.take(
                    q as int,
                ).push(groups@[p as int].members@[q as int]));
                q = q + 1;
            }
            assert(groups@[p as int].members@.take(q as int) == groups@[p as int].members@);
            members.push(i);
            let g = RootGroup { root: crate::models::copy_strings(&roots[i]), members };
            groups.set(p, g);
            assert(groups@.map_values(|g: RootGroup| root_group_view(g)) =~= gv.update(
                p as int,
                (k, gv[p as int].1.push(i)),
            ));
        } else {
            assert(gv.take(0) =~= Seq::<(Seq<Seq<char>>, Seq<usize>)>::empty());
            let mut members: Vec<usize> = Vec::new();
            members.push(i);
            let g = RootGroup { root: crate::models::copy_strings(&roots[i]), members };
            groups.push(g);
            assert(groups@.map_values(|g: RootGroup| root_group_view(g)) =~= gv.push((k, seq![i])));
        }
        i = i + 1;
    }
    assert(rv.take(roots@.len() as int) == rv);
    groups
}

/// Every module falls in exactly one group, the one of its root, and no two
/// groups share a root (for as many modules as indices can count).
pub proof fn law_grouped_roots(roots: Seq<Seq<Seq<char>>>)
    requires
        roots.len() <= usize::MAX,
    ensures
        forall|a: int, b: int|
            0 <= a < b < grouped_roots(roots).len() ==> (#[trigger] grouped_roots(roots)[a]).0
                != (#[trigger] grouped_roots(roots)[b]).0,
        forall|i: int|
            0 <= i < roots.len() ==> {
                let p = root_position(grouped_roots(roots), #[trigger] roots[i]);
                &&& p >= 0
                &&& grouped_roots(roots)[p].1.contains(i as usize)
            },
        forall|a: int, x: usize|
            0 <= a < grouped_roots(roots).len() && #[trigger] grouped_roots(roots)[a].1.contains(x) ==> x
                < roots.len() && roots[x as int] == grouped_roots(roots)[a].0,
    decreases roots.len(),
{
    if roots.len() > 0 {
        let d = roots.drop_last();
        law_grouped_roots(d);
        let gs = grouped_roots(d);
        let k = roots.last();
        let n = (roots.len() - 1) as usize;
        let r = grouped_roots(roots);
        lemma_root_position(gs, k);
        let p = root_position(gs, k);
        assert forall|a: int, b: int| 0 <= a < b < r.len() implies (#[trigger] r[a]).0 != (#[trigger] r[b]).0 by {
            if p < 0 && b == gs.len() {
                assert(r[b].0 == k);
                assert(r[a] == gs[a]);
            } else {
                assert(r[a].0 == gs[a].0);
                assert(r[b].0 == gs[b].0);
            }
        }
        lemma_root_position(r, k);
        assert forall|i: int| 0 <= i < roots.len() implies {
            let q = root_position(r, #[trigger] roots[i]);
            &&& q >= 0
            &&& r[q].1.contains(i as usize)
        } by {
            lemma_root_position(r, roots[i]);
            if i == roots.len() - 1 {
                let q = root_position(r, roots[i]);
                if p >= 0 {
                    assert(r[p].0 == k);
                    assert(r[p].1.last() == n);
                    assert(r[p].1[r[p].1.len() - 1] == n);
                } else {
                    assert(r[gs.len() as int].0 == k);
                    assert(r[gs.len() as int].1[0] == n);
                }
                if q != p && p >= 0 {
                    assert(r[q].0 == roots[i]);
                }
                assert(q >= 0);
                if p >= 0 {
                    assert(q == p) by {
                        if q != p {
                            assert(r[q].0 == r[p].0);
                        }
                    }
                } else {
                    assert(q == gs.len()) by {
                        if q != gs.len() as int {
                            assert(r[q].0 == r[gs.len() as int].0);
                        }
                    }
                }
            } else {
                assert(d[i] == roots[i]);
                lemma_root_position(gs, d[i]);
                let q0 = root_position(gs, d[i]);
                assert(gs[q0].1.contains(i as usize));
                let q = root_position(r, roots[i]);
                assert(r[q0].0 == gs[q0].0);
                assert(r[q0].1.contains(i as usize)) by {
                    if q0 == p {
                        let w = choose|w: int| 0 <= w < gs[q0].1.len() && gs[q0].1[w] == i as usize;
                        assert(r[q0].1[w] == i as usize);
                    }
                }
                assert(q >= 0);
                assert(q == q0) by {
                    if q != q0 {
                        assert(r[q].0 == r[q0].0);
                    }
                }
            }
        }
        assert forall|a: int, x: usize| 0 <= a < r.len() && #[trigger] r[a].1.contains(x) implies x
            < roots.len() && roots[x as int] == r[a].0 by {
            let w = choose|w: int| 0 <= w < r[a].1.len() && r[a].1[w] == x;
            if a == p {
                assert(r[a] == (k, gs[p].1.push(n)));
                if w == r[a].1.len() - 1 {
                    assert(x == n);
                    assert(roots[n as int] == k);
                } else {
                    assert(gs[a].1[w] == x);
                    assert(gs[a].1.contains(x));
                    assert(x < d.len() && d[x as int] == gs[a].0);
                    assert(d[x as int] == roots[x as int]);
                }
            } else if p < 0 && a == gs.len() {
                assert(r[a] == (k, seq![n]));
                assert(w == 0);
                assert(x == n);
                assert(roots[n as int] == k);
            } else {
                assert(a < gs.len());
                assert(r[a] == gs[a]);
                assert(gs[a].1.contains(x));
                assert(x < d.len() && d[x as int] == gs[a].0);
                assert(d[x as int] == roots[x as int]);
            }
        }
    }
}

/// Law: a configured override names the severity that a rule's violations
/// are reported with, in any ASCII case: `error` gives `Error`, `warning`
/// gives `Warning`, `info` gives `Info`; any other text, or no override,
/// leaves the rule's severity; nothing but the severity changes.
pub proof fn law_override_severity(config: Config, r: AnyRule, v: ViolationView, o: Seq<char>)
    ensures
        ascii_lowercase(o) == "error"@ ==> with_override(v, Some(o)) == (ViolationView {
            severity: Severity::Error,
            ..v
        }),
        ascii_lowercase(o) == "warning"@ ==> with_override(v, Some(o)) == (ViolationView {
            severity: Severity::Warning,
            ..v
        }),
        ascii_lowercase(o) == "info"@ ==> with_override(v, Some(o)) == (ViolationView {
            severity: Severity::Info,
            ..v
        }),
        ascii_lowercase(o) != "error"@ && ascii_lowercase(o) != "warning"@ && ascii_lowercase(o)
            != "info"@ ==> with_override(v, Some(o)) == v,
        with_override(v, None) == v,
        select_lookup(config.rules.select@, r.spec_id()) == Some(o) ==> configured_severity(config, r)
            == (if ascii_lowercase(o) == "error"@ {
            Severity::Error
        } else if ascii_lowercase(o) == "warning"@ {
            Severity::Warning
        } else if ascii_lowercase(o) == "info"@ {
            Severity::Info
        } else {
            r.spec_severity()
        }),
        select_lookup(config.rules.select@, r.spec_id()) is None ==> configured_severity(config, r)
            == r.spec_severity(),
{
    reveal_strlit("error");
    reveal_strlit("warning");
    reveal_strlit("info");
    assert("warning"@.len() != "error"@.len());
    assert("info"@.len() != "error"@.len());
    assert("info"@.len() != "warning"@.len());
}

/// Law: a rule is turned off exactly when its configured value reads `off`
/// in any ASCII case (`off`, `OFF`, `Off`, ...).
pub proof fn law_rule_off(config: Config, id: Seq<char>)
    ensures
        rule_disabled(config, id) <==> (select_lookup(config.rules.select@, id) matches Some(v)
            && ascii_lowercase(v) == "off"@),
{
    reveal_strlit("off");
    assert(ascii_lowercase("off"@) =~= "off"@);
}

/// The severity that the configuration gives violations of rule `r`: the
/// override when it names one, else the rule's default.
pub open spec fn configured_severity(config: Config, r: AnyRule) -> Severity {
    match select_lookup(config.rules.select@, r.spec_id()) {
        Some(o) => overridden_severity(o, r.spec_severity()),
        None => r.spec_severity(),
    }
}

/// Whether `w` is a violation that rule `r` may report under `config`: it
/// carries the rule's id, name and category, the configured severity, and
/// the rule is not turned off.
pub open spec fn reported_by(w: ViolationView, r: AnyRule, config: Config) -> bool {
    &&& !rule_disabled(config, r.spec_id())
    &&& w.rule_id == r.spec_id()
    &&& w.rule_name == r.spec_name()
    &&& w.category == r.spec_category()
    &&& w.severity == configured_severity(config, r)
}

/// Law: what survives the override and suppression step is not suppressed
/// by the comments of its source, and is a violation of the input with the
/// override applied.
pub proof fn law_kept(vs: Seq<ViolationView>, over: Option<Seq<char>>, source: Seq<char>)
    ensures
        forall|i: int|
            0 <= i < kept(vs, over, source).len() ==> !suppressed_in(
                source,
                (#[trigger] kept(vs, over, source)[i]).line as int,
                kept(vs, over, source)[i].rule_id,
            ),
        forall|i: int|
            0 <= i < kept(vs, over, source).len() ==> exists|j: int|
                0 <= j < vs.len() && #[trigger] kept(vs, over, source)[i] == with_override(vs[j], over),
    decreases vs.len(),
{
    if vs.len() > 0 {
        law_kept(vs.drop_last(), over, source);
        let k0 = kept(vs.drop_last(), over, source);
        let w = with_override(vs.last(), over);
        let tail = if suppressed_in(source, w.line as int, w.rule_id) {
            Seq::<ViolationView>::empty()
        } else {
            seq![w]
        };
        let k = kept(vs, over, source);
        assert(k == k0 + tail);
        assert forall|i: int| 0 <= i < k.len() implies exists|j: int|
            0 <= j < vs.len() && #[trigger] k[i] == with_override(vs[j], over) by {
            if i < k0.len() {
                assert(k[i] == k0[i]);
                let j = choose|j: int| 0 <= j < vs.drop_last().len() && k0[i] == with_override(vs.drop_last()[j], over);
                assert(vs.drop_last()[j] == vs[j]);
            } else {
                assert(k[i] == w);
                assert(k[i] == with_override(vs[vs.len() - 1], over));
            }
        }
        assert forall|i: int| 0 <= i < k.len() implies !suppressed_in(source, (#[trigger] k[i]).line as int, k[i].rule_id) by {
            if i < k0.len() {
                assert(k[i] == k0[i]);
            }
        }
    }
}

/// The violations that one rule reports for the first `k` modules all come
/// from that rule, as configured.
proof fn lemma_rule_views_reported(
    r: AnyRule,
    config: Config,
    group: Seq<ParsedModule>,
    sources: Seq<Seq<char>>,
    tests: Seq<ParsedModule>,
    nodes: Seq<ParsedModule>,
    k: int,
)
    requires
        !rule_disabled(config, r.spec_id()),
        k <= group.len(),
    ensures
        forall|i: int|
            0 <= i < rule_views(r, config, group, sources, tests, nodes, k).len() ==> reported_by(
                #[trigger] rule_views(r, config, group, sources, tests, nodes, k)[i],
                r,
                config,
            ),
    decreases k,
{
    if k > 0 {
        lemma_rule_views_reported(r, config, group, sources, tests, nodes, k - 1);
        let prev = rule_views(r, config, group, sources, tests, nodes, k - 1);
        let m = group[k - 1];
        let cur = rule_module_views(r, config, group, tests, nodes, m, sources[k - 1]);
        let all = rule_views(r, config, group, sources, tests, nodes, k);
        assert(all == prev + cur);
        if r.spec_applies(m.runtime) {
            let vs = r.spec_check(m, config, group, tests, nodes);
            let over = select_lookup(config.rules.select@, r.spec_id());
            law_rule_stamps(r, m, config, group, tests, nodes);
            law_kept(vs, over, sources[k - 1]);
            assert forall|i: int| 0 <= i < cur.len() implies reported_by(#[trigger] cur[i], r, config) by {
                let j = choose|j: int| 0 <= j < vs.len() && cur[i] == with_override(vs[j], over);
                assert(vs[j].rule_id == r.spec_id());
            }
        }
        assert forall|i: int| 0 <= i < all.len() implies reported_by(#[trigger] all[i], r, config) by {
            if i < prev.len() {
                assert(all[i] == prev[i]);
            } else {
                assert(all[i] == cur[i - prev.len()]);
            }
        }
    }
}

/// Law: every violation a group reports comes from one of the rules, which
/// the configuration does not turn off; it carries that rule's id, name and
/// category, and the severity the configuration gives the rule.
pub proof fn law_group_reports(
    rules: Seq<AnyRule>,
    config: Config,
    group: Seq<ParsedModule>,
    sources: Seq<Seq<char>>,
    tests: Seq<ParsedModule>,
    nodes: Seq<ParsedModule>,
)
    ensures
        forall|i: int|
            0 <= i < group_views(rules, config, group, sources, tests, nodes).len() ==> exists|k: int|
                0 <= k < rules.len() && reported_by(
                    #[trigger] group_views(rules, config, group, sources, tests, nodes)[i],
                    rules[k],
                    config,
                ),
    decreases rules.len(),
{
    if rules.len() > 0 {
        law_group_reports(rules.drop_last(), config, group, sources, tests, nodes);
        let r = rules.last();
        let prev = group_views(rules.drop_last(), config, group, sources, tests, nodes);
        let cur = if rule_disabled(config, r.spec_id()) {
            Seq::<ViolationView>::empty()
        } else {
            rule_views(r, config, group, sources, tests, nodes, group.len() as int)
        };
        let all = group_views(rules, config, group, sources, tests, nodes);
        assert(all == prev + cur);
        if !rule_disabled(config, r.spec_id()) {
            lemma_rule_views_reported(r, config, group, sources, tests, nodes, group.len() as int);
        }
        assert forall|i: int| 0 <= i < all.len() implies exists|k: int|
            0 <= k < rules.len() && reported_by(#[trigger] all[i], rules[k], config) by {
            if i < prev.len() {
                assert(all[i] == prev[i]);
                let k = choose|k: int| 0 <= k < rules.drop_last().len() && reported_by(prev[i], rules.drop_last()[k], config);
                assert(rules.drop_last()[k] == rules[k]);
            } else {
                assert(all[i] == cur[i - prev.len()]);
                assert(reported_by(all[i], rules[rules.len() - 1], config));
            }
        }
    }
}

/// Law: a rule reports nothing for a file of a runtime it does not apply to
/// (Playwright rules on other files, Vitest rules on Playwright files).
pub proof fn law_runtime_gate(
    r: AnyRule,
    config: Config,
    group: Seq<ParsedModule>,
    tests: Seq<ParsedModule>,
    nodes: Seq<ParsedModule>,
    m: ParsedModule,
    source: Seq<char>,
)
    requires
        !r.spec_applies(m.runtime),
    ensures
        rule_module_views(r, config, group, tests, nodes, m, source) == Seq::<ViolationView>::empty(),
{
}

/// Each violation that the groups report is one that a single group reports.
proof fn lemma_groups_views_member(
    groups: Seq<LintGroup>,
    tests: Seq<ParsedModule>,
    nodes: Seq<ParsedModule>,
    i: int,
)
    requires
        0 <= i < groups_views(groups, tests, nodes).len(),
    ensures
        exists|g: int, j: int|
            0 <= g < groups.len() && 0 <= j < group_views(
                registered_rules(),
                groups[g].config,
                groups[g].modules@,
                strs_view(groups[g].sources@),
                tests,
                nodes,
            ).len() && groups_views(groups, tests, nodes)[i] == #[trigger] group_views(
                registered_rules(),
                groups[g].config,
                groups[g].modules@,
                strs_view(groups[g].sources@),
                tests,
                nodes,
            )[j],
    decreases groups.len(),
{
    let d = groups.drop_last();
    let prev = groups_views(d, tests, nodes);
    let l = groups.last();
    let cur = group_views(registered_rules(), l.config, l.modules@, strs_view(l.sources@), tests, nodes);
    assert(groups_views(groups, tests, nodes) == prev + cur);
    if i < prev.len() {
        lemma_groups_views_member(d, tests, nodes, i);
        let (g, j) = choose|g: int, j: int|
            0 <= g < d.len() && 0 <= j < group_views(
                registered_rules(),
                d[g].config,
                d[g].modules@,
                strs_view(d[g].sources@),
                tests,
                nodes,
            ).len() && prev[i] == #[trigger] group_views(
                registered_rules(),
                d[g].config,
                d[g].modules@,
                strs_view(d[g].sources@),
                tests,
                nodes,
            )[j];
        assert(d[g] == groups[g]);
        assert(groups_views(groups, tests, nodes)[i] == prev[i]);
    } else {
        let g = groups.len() - 1;
        let j = i - prev.len();
        assert(groups[g] == l);
        assert(groups_views(groups, tests, nodes)[i] == cur[j]);
    }
}

/// Whether `w` is among what rule `r`, which `config` does not turn off,
/// reports for module `m` of the group, whose source is `source`.
pub open spec fn found_by(
    w: ViolationView,
    r: AnyRule,
    config: Config,
    group: Seq<ParsedModule>,
    tests: Seq<ParsedModule>,
    nodes: Seq<ParsedModule>,
    m: ParsedModule,
    source: Seq<char>,
) -> bool {
    &&& !rule_disabled(config, r.spec_id())
    &&& rule_module_views(r, config, group, tests, nodes, m, source).contains(w)
}

/// What a rule reports for a file carries the rule's id, name and category
/// and the configured severity, and is not suppressed by the file's
/// comments.
proof fn lemma_found_props(
    w: ViolationView,
    r: AnyRule,
    config: Config,
    group: Seq<ParsedModule>,
    tests: Seq<ParsedModule>,
    nodes: Seq<ParsedModule>,
    m: ParsedModule,
    source: Seq<char>,
)
    requires
        found_by(w, r, config, group, tests, nodes, m, source),
    ensures
        reported_by(w, r, config),
        !suppressed_in(source, w.line as int, w.rule_id),
{
    let vs = r.spec_check(m, config, group, tests, nodes);
    let over = select_lookup(config.rules.select@, r.spec_id());
    let kv = kept(vs, over, source);
    assert(r.spec_applies(m.runtime));
    assert(rule_module_views(r, config, group, tests, nodes, m, source) == kv);
    law_rule_stamps(r, m, config, group, tests, nodes);
    law_kept(vs, over, source);
    let i = choose|i: int| 0 <= i < kv.len() && kv[i] == w;
    let j = choose|j: int| 0 <= j < vs.len() && kv[i] == with_override(vs[j], over);
    assert(vs[j].rule_id == r.spec_id());
}

/// Each violation that one rule reports for the first `k` modules is found
/// by the rule in one of them.
proof fn lemma_rule_views_found(
    r: AnyRule,
    config: Config,
    group: Seq<ParsedModule>,
    sources: Seq<Seq<char>>,
    tests: Seq<ParsedModule>,
    nodes: Seq<ParsedModule>,
    k: int,
    i: int,
)
    requires
        !rule_disabled(config, r.spec_id()),
        0 <= i < rule_views(r, config, group, sources, tests, nodes, k).len(),
    ensures
        exists|j: int|
            0 <= j < k && #[trigger] found_by(
                rule_views(r, config, group, sources, tests, nodes, k)[i],
                r,
                config,
                group,
                tests,
                nodes,
                group[j],
                sources[j],
            ),
    decreases k,
{
    let prev = rule_views(r, config, group, sources, tests, nodes, k - 1);
    let cur = rule_module_views(r, config, group, tests, nodes, group[k - 1], sources[k - 1]);
    let all = rule_views(r, config, group, sources, tests, nodes, k);
    assert(all == prev + cur);
    if i < prev.len() {
        lemma_rule_views_found(r, config, group, sources, tests, nodes, k - 1, i);
        let j = choose|j: int|
            0 <= j < k - 1 && #[trigger] found_by(prev[i], r, config, group, tests, nodes, group[j], sources[j]);
        assert(all[i] == prev[i]);
        assert(found_by(all[i], r, config, group, tests, nodes, group[j], sources[j]));
    } else {
        assert(all[i] == cur[i - prev.len()]);
        assert(cur.contains(all[i]));
        assert(found_by(all[i], r, config, group, tests, nodes, group[k - 1], sources[k - 1]));
    }
}

/// Each violation that a group reports is found by one of the rules in one
/// of the group's modules.
proof fn lemma_group_views_found(
    rules: Seq<AnyRule>,
    config: Config,
    group: Seq<ParsedModule>,
    sources: Seq<Seq<char>>,
    tests: Seq<ParsedModule>,
    nodes: Seq<ParsedModule>,
    i: int,
)
    requires
        0 <= i < group_views(rules, config, group, sources, tests, nodes).len(),
    ensures
        exists|q: int, j: int|
            0 <= q < rules.len() && 0 <= j < group.len() && #[trigger] found_by(
                group_views(rules, config, group, sources, tests, nodes)[i],
                rules[q],
                config,
                group,
                tests,
                nodes,
                group[j],
                sources[j],
            ),
    decreases rules.len(),
{
    let r = rules.last();
    let prev = group_views(rules.drop_last(), config, group, sources, tests, nodes);
    let cur = if rule_disabled(config, r.spec_id()) {
        Seq::<ViolationView>::empty()
    } else {
        rule_views(r, config, group, sources, tests, nodes, group.len() as int)
    };
    let all = group_views(rules, config, group, sources, tests, nodes);
    assert(all == prev + cur);
    if i < prev.len() {
        lemma_group_views_found(rules.drop_last(), config, group, sources, tests, nodes, i);
        let (q, j) = choose|q: int, j: int|
            0 <= q < rules.len() - 1 && 0 <= j < group.len() && #[trigger] found_by(
                prev[i],
                rules.drop_last()[q],
                config,
                group,
                tests,
                nodes,
                group[j],
                sources[j],
            );
        assert(all[i] == prev[i]);
        assert(rules.drop_last()[q] == rules[q]);
        assert(found_by(all[i], rules[q], config, group, tests, nodes, group[j], sources[j]));
    } else {
        assert(all[i] == cur[i - prev.len()]);
        lemma_rule_views_found(r, config, group, sources, tests, nodes, group.len() as int, i - prev.len());
        let j = choose|j: int|
            0 <= j < group.len() && #[trigger] found_by(
                cur[i - prev.len()],
                r,
                config,
                group,
                tests,
                nodes,
                group[j],
                sources[j],
            );
        assert(rules[rules.len() - 1] == r);
        assert(found_by(all[i], rules[rules.len() - 1], config, group, tests, nodes, group[j], sources[j]));
    }
}

/// Whether `w` is what a registered rule finds in a file of one of the
/// groups, under that group's configuration, which does not turn the rule
/// off: it carries the rule's id, name and category and the severity that
/// the configuration gives the rule, and the file's comments do not
/// suppress it.
pub open spec fn reported_in(
    w: ViolationView,
    groups: Seq<LintGroup>,
    tests: Seq<ParsedModule>,
    nodes: Seq<ParsedModule>,
) -> bool {
    exists|g: int, k: int, j: int|
        0 <= g < groups.len() && 0 <= k < registered_rules().len() && 0 <= j
            < groups[g].modules@.len() && #[trigger] found_by(
            w,
            registered_rules()[k],
            groups[g].config,
            groups[g].modules@,
            tests,
            nodes,
            groups[g].modules@[j],
            strs_view(groups[g].sources@)[j],
        ) && reported_by(w, registered_rules()[k], groups[g].config) && !suppressed_in(
            strs_view(groups[g].sources@)[j],
            w.line as int,
            w.rule_id,
        )
}

/// Law: the linter's report is sorted by file path, then line; and each of
/// its violations is what a registered rule finds in a file of one of the
/// groups, under that group's configuration, which does not turn the rule
/// off; it carries the rule's id, name and category and the severity that
/// the configuration gives the rule, and that file's comments do not
/// suppress it.
pub proof fn law_report(groups: Seq<LintGroup>, tests: Seq<ParsedModule>, nodes: Seq<ParsedModule>)
    requires
        groups_aligned(groups),
    ensures
        report_sorted(sorted_views(groups_views(groups, tests, nodes))),
        forall|i: int|
            0 <= i < sorted_views(groups_views(groups, tests, nodes)).len() ==> reported_in(
                #[trigger] sorted_views(groups_views(groups, tests, nodes))[i],
                groups,
                tests,
                nodes,
            ),
{
    let gv = groups_views(groups, tests, nodes);
    let sv = sorted_views(gv);
    law_sorted_report(gv);
    assert forall|i: int| 0 <= i < sv.len() implies reported_in(#[trigger] sv[i], groups, tests, nodes) by {
        let x = sv[i];
        assert(sv.to_multiset().count(x) > 0) by {
            broadcast use vstd::seq_lib::group_seq_properties;
            assert(sv.contains(x));
        }
        assert(gv.contains(x)) by {
            broadcast use vstd::seq_lib::group_seq_properties;
        }
        let p = choose|p: int| 0 <= p < gv.len() && gv[p] == x;
        lemma_groups_views_member(groups, tests, nodes, p);
        let (g, jj) = choose|g: int, j: int|
            0 <= g < groups.len() && 0 <= j < group_views(
                registered_rules(),
                groups[g].config,
                groups[g].modules@,
                strs_view(groups[g].sources@),
                tests,
                nodes,
            ).len() && gv[p] == #[trigger] group_views(
                registered_rules(),
                groups[g].config,
                groups[g].modules@,
                strs_view(groups[g].sources@),
                tests,
                nodes,
            )[j];
        let grp = groups[g];
        let srcs = strs_view(grp.sources@);
        assert(grp.modules@.len() == srcs.len());
        lemma_group_views_found(registered_rules(), grp.config, grp.modules@, srcs, tests, nodes, jj);
        let (k, j) = choose|q: int, j: int|
            0 <= q < registered_rules().len() && 0 <= j < grp.modules@.len() && #[trigger] found_by(
                group_views(registered_rules(), grp.config, grp.modules@, srcs, tests, nodes)[jj],
                registered_rules()[q],
                grp.config,
                grp.modules@,
                tests,
                nodes,
                grp.modules@[j],
                srcs[j],
            );
        lemma_found_props(
            x,
            registered_rules()[k],
            grp.config,
            grp.modules@,
            tests,
            nodes,
            grp.modules@[j],
            srcs[j],
        );
        assert(found_by(
            x,
            registered_rules()[k],
            groups[g].config,
            groups[g].modules@,
            tests,
            nodes,
            groups[g].modules@[j],
            strs_view(groups[g].sources@)[j],
        ));
    }
}

} // verus!
