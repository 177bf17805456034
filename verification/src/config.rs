//! Configuration: per-rule severity overrides, banned mock paths, banned
//! production singletons and the integration-test glob, with the glob
//! patterns compiled by `globset`.

use vstd::prelude::*;
use globset::{Glob, GlobSet, GlobSetBuilder};
use crate::seqs::strs_view;
use crate::text::{ascii_lowercase, chars_of, owned, seq_starts_with, slice_range, starts_with, string_of, str_eq, str_eq_ignore_ascii_case};

verus! {

#[verifier::external_type_specification]
#[verifier::external_body]
pub struct ExGlobSet(GlobSet);

#[verifier::external_type_specification]
#[verifier::external_body]
pub struct ExGlobError(globset::Error);

/// Whether `globset` compiles `pattern`: `Glob::new` accepts it and
/// `GlobSetBuilder::build` builds the set of that one glob (its regular
/// expression within `globset`'s nesting and size limits). Glob syntax
/// options are `globset`'s defaults, which fix backslash escaping per target
/// platform.
pub uninterp spec fn glob_accepts(pattern: Seq<char>) -> bool;

/// Whether the set of the one glob `pattern` matches `path`
/// (`GlobSet::is_match`), with `globset`'s default options.
pub uninterp spec fn glob_matches(pattern: Seq<char>, path: Seq<char>) -> bool;

/// The longest pattern (in characters) that is handed to `globset`; a literal
/// part of a longer one could pass the state limit of the `aho-corasick`
/// automaton that `globset` builds, where it unwraps the result.
pub const GLOB_PATTERN_LIMIT: usize = 0x1000_0000;

/// Whether the pattern is compiled: it is within the length limit and
/// `globset` compiles it.
pub open spec fn glob_compiles(pattern: Seq<char>) -> bool {
    pattern.len() < GLOB_PATTERN_LIMIT && glob_accepts(pattern)
}

/// Calls `globset::Glob::new(pattern)` and, on success, builds a
/// `GlobSet` of that one glob with `GlobSetBuilder::add` and `build`; a
/// regular expression that `globset` cannot build comes back as `Err`. The
/// contract claims that success depends on the pattern alone.
#[verifier::external_body]
fn glob_new(pattern: &str) -> (r: Result<GlobSet, globset::Error>)
    requires
        pattern@.len() < GLOB_PATTERN_LIMIT,
    ensures
        r.is_ok() == glob_accepts(pattern@),
{
    match Glob::new(pattern) {
        Ok(g) => GlobSetBuilder::new().add(g).build(),
        Err(e) => Err(e),
    }
}

/// Calls `GlobSet::is_match` on the set that `GlobPattern::new` built from
/// `g.pattern`; the contract claims that the answer depends on the pattern
/// and the path alone.
#[verifier::external_body]
fn glob_is_match(g: &GlobPattern, path: &str) -> (b: bool)
    ensures
        b == glob_matches(g.pattern@, path@),
{
    g.matcher.is_match(path)
}

/// A compiled glob together with the pattern it was compiled from.
#[derive(Debug)]
pub struct GlobPattern {
    pattern: String,
    matcher: GlobSet,
}

/// Errors in the configuration.
#[derive(Debug, Clone, PartialEq, Eq)]
pub enum ConfigError {
    /// A glob pattern that `globset` does not accept.
    InvalidGlob(String),
}

impl GlobPattern {
    /// The pattern text.
    pub closed spec fn spec_pattern(&self) -> Seq<char> {
        self.pattern@
    }

    /// Compiles `pattern`; a pattern of `GLOB_PATTERN_LIMIT` characters or
    /// more is rejected.
    pub fn new(pattern: &str) -> (r: Result<GlobPattern, ConfigError>)
        ensures
            match r {
                Ok(g) => glob_compiles(pattern@) && g.spec_pattern() == pattern@,
                Err(ConfigError::InvalidGlob(p)) => !glob_compiles(pattern@) && p@ == pattern@,
            },
    {
        let n = crate::text::chars_of(pattern).len();
        if n >= GLOB_PATTERN_LIMIT {
            return Err(ConfigError::InvalidGlob(owned(pattern)));
        }
        match glob_new(pattern) {
            Ok(m) => Ok(GlobPattern { pattern: owned(pattern), matcher: m }),
            Err(_) => Err(ConfigError::InvalidGlob(owned(pattern))),
        }
    }

    /// The pattern text.
    pub fn pattern(&self) -> (r: &str)
        ensures
            r@ == self.spec_pattern(),
    {
        self.pattern.as_str()
    }

    /// Whether the pattern matches `path`.
    pub fn is_match(&self, path: &str) -> (b: bool)
        ensures
            b == glob_matches(self.spec_pattern(), path@),
    {
        glob_is_match(self, path)
    }
}

/// The value that the last entry for `key` in `select` gives it.
pub open spec fn select_lookup(select: Seq<(String, String)>, key: Seq<char>) -> Option<Seq<char>>
    decreases select.len(),
{
    if select.len() == 0 {
        None
    } else if select.last().0@ == key {
        Some(select.last().1@)
    } else {
        select_lookup(select.drop_last(), key)
    }
}

/// Per-rule severity overrides and enable/disable settings.
#[derive(Debug, Default)]
pub struct RulesConfig {
    /// Per-rule severity overrides, rule id and value ("off" | "info" |
    /// "warning" | "error"); a later entry for an id replaces an earlier one.
    pub select: Vec<(String, String)>,
}

impl RulesConfig {
    /// The value configured for `rule_id`.
    fn lookup(&self, rule_id: &str) -> (r: Option<&String>)
        ensures
            match r {
                Some(v) => select_lookup(self.select@, rule_id@) == Some(v@),
                None => select_lookup(self.select@, rule_id@).is_none(),
            },
    {
        let mut k = self.select.len();
        assert(self.select@.take(k as int) == self.select@);
        while k > 0
            invariant
                k <= self.select@.len(),
                select_lookup(self.select@, rule_id@) == select_lookup(
                    self.select@.take(k as int),
                    rule_id@,
                ),
            decreases k,
        {
            assert(self.select@.take(k as int).drop_last() == self.select@.take(k - 1));
            if str_eq(self.select[k - 1].0.as_str(), rule_id) {
                return Some(&self.select[k - 1].1);
            }
            k = k - 1;
        }
        None
    }

    /// Returns `true` if the given rule is turned off.
    pub fn is_disabled(&self, rule_id: &str) -> (b: bool)
        ensures
            b == (select_lookup(self.select@, rule_id@) matches Some(v) && ascii_lowercase(v)
                == ascii_lowercase("off"@)),
    {
        match self.lookup(rule_id) {
            Some(v) => str_eq_ignore_ascii_case(v.as_str(), "off"),
            None => false,
        }
    }

    /// Returns an overridden severity string for the rule, if any.
    pub fn severity_override(&self, rule_id: &str) -> (r: Option<&str>)
        ensures
            match r {
                Some(v) => select_lookup(self.select@, rule_id@) == Some(v@),
                None => select_lookup(self.select@, rule_id@).is_none(),
            },
    {
        match self.lookup(rule_id) {
            Some(v) => Some(v.as_str()),
            None => None,
        }
    }
}

/// Dependency-injection settings: globs of modules that must not be mocked,
/// banned production singletons, and the glob of integration-test files.
#[derive(Debug, Default)]
pub struct DepsConfig {
    pub banned_mock_paths: Vec<GlobPattern>,
    pub banned_singletons: Vec<BannedSingleton>,
    pub integration_test_glob: Option<GlobPattern>,
}

/// Names that unit tests must not import from modules matching `from`.
#[derive(Debug)]
pub struct BannedSingleton {
    pub from: GlobPattern,
    pub names: Vec<String>,
}

/// Parsed configuration from `.vitest-linter.toml` and `package.json`.
#[derive(Debug)]
pub struct Config {
    pub deps: DepsConfig,
    pub rules: RulesConfig,
}

/// A banned singleton as the configuration file states it.
#[derive(Debug, Clone, Default)]
pub struct RawBannedSingleton {
    pub from: String,
    pub names: Vec<String>,
}

/// The `[deps]` table as the configuration file states it.
#[derive(Debug, Clone, Default)]
pub struct RawDepsConfig {
    pub banned_mock_paths: Vec<String>,
    pub banned_singletons: Vec<RawBannedSingleton>,
    pub integration_test_glob: Option<String>,
}

/// The `[rules]` table as the configuration file states it.
#[derive(Debug, Clone, Default)]
pub struct RawRulesConfig {
    pub select: Vec<(String, String)>,
}

/// The configuration file's contents, before the globs are compiled.
#[derive(Debug, Clone, Default)]
pub struct RawConfig {
    pub deps: RawDepsConfig,
    pub rules: RawRulesConfig,
}

/// The integration-test glob used when the configuration names none.
pub open spec fn default_integration_glob() -> Seq<char> {
    "**/*.integration.test.{ts,tsx,js,jsx}"@
}

/// The glob patterns of `raw`, in the order they are compiled.
pub open spec fn raw_patterns(raw: RawConfig) -> Seq<Seq<char>> {
    strs_view(raw.deps.banned_mock_paths@) + raw.deps.banned_singletons@.map_values(
        |b: RawBannedSingleton| b.from@,
    ) + seq![
        match raw.deps.integration_test_glob {
            Some(g) => g@,
            None => default_integration_glob(),
        },
    ]
}

/// The first pattern that `globset` rejects.
pub open spec fn first_rejected(ps: Seq<Seq<char>>) -> Option<Seq<char>>
    decreases ps.len(),
{
    if ps.len() == 0 {
        None
    } else if !glob_compiles(ps[0]) {
        Some(ps[0])
    } else {
        first_rejected(ps.drop_first())
    }
}

/// The patterns of compiled globs.
pub open spec fn patterns_of(gs: Seq<GlobPattern>) -> Seq<Seq<char>> {
    gs.map_values(|g: GlobPattern| g.spec_pattern())
}

proof fn lemma_first_rejected_append(a: Seq<Seq<char>>, b: Seq<Seq<char>>)
    ensures
        first_rejected(a + b) == match first_rejected(a) {
            Some(p) => Some(p),
            None => first_rejected(b),
        },
    decreases a.len(),
{
    if a.len() > 0 {
        assert((a + b).drop_first() == a.drop_first() + b);
        assert((a + b)[0] == a[0]);
        lemma_first_rejected_append(a.drop_first(), b);
    } else {
        assert(a + b == b);
    }
}

proof fn lemma_first_rejected_push(a: Seq<Seq<char>>, p: Seq<char>)
    ensures
        first_rejected(a.push(p)) == match first_rejected(a) {
            Some(q) => Some(q),
            None => if glob_compiles(p) { None } else { Some(p) },
        },
{
    lemma_first_rejected_append(a, seq![p]);
    assert(a.push(p) == a + seq![p]);
    lemma_first_rejected_single(p);
}

proof fn lemma_first_rejected_single(p: Seq<char>)
    ensures
        first_rejected(seq![p]) == if glob_compiles(p) { None } else { Some(p) },
{
    let sp = seq![p];
    assert(sp[0] == p);
    assert(sp.drop_first() =~= Seq::<Seq<char>>::empty());
    assert(first_rejected(sp.drop_first()) == None::<Seq<char>>);
}

/// Compiles each pattern of `pats`.
fn compile_all(pats: &Vec<String>) -> (r: Result<Vec<GlobPattern>, ConfigError>)
    ensures
        match r {
            Ok(gs) => first_rejected(strs_view(pats@)).is_none() && patterns_of(gs@) == strs_view(pats@),
            Err(ConfigError::InvalidGlob(p)) => first_rejected(strs_view(pats@)) == Some(p@),
        },
{
    let mut out: Vec<GlobPattern> = Vec::new();
    let mut i: usize = 0;
    assert(strs_view(pats@).take(0) =~= Seq::<Seq<char>>::empty());
    assert(patterns_of(out@) =~= Seq::<Seq<char>>::empty());
    while i < pats.len()
        invariant
            i <= pats@.len(),
            first_rejected(strs_view(pats@).take(i as int)).is_none(),
            patterns_of(out@) == strs_view(pats@).take(i as int),
        decreases pats@.len() - i,
    {
        assert(strs_view(pats@).take(i + 1) == strs_view(pats@).take(i as int).push(pats@[i as int]@));
        proof {
            lemma_first_rejected_push(strs_view(pats@).take(i as int), pats@[i as int]@);
        }
        let ghost before = out@;
        match GlobPattern::new(pats[i].as_str()) {
            Ok(g) => {
                out.push(g);
                assert(patterns_of(out@) =~= patterns_of(before).push(g.spec_pattern()));
            },
            Err(e) => {
                proof {
                    lemma_first_rejected_append(
                        strs_view(pats@).take(i + 1),
                        strs_view(pats@).skip(i + 1),
                    );
                    assert(strs_view(pats@).take(i + 1) + strs_view(pats@).skip(i + 1) =~= strs_view(pats@));
                }
                return Err(e);
            },
        }
        i = i + 1;
    }
    assert(strs_view(pats@).take(i as int) == strs_view(pats@));
    Ok(out)
}

impl Config {
    /// Builds the configuration from the file's contents: compiles every
    /// glob, in the order of `raw_patterns`, and fails on the first that
    /// `globset` rejects; without an integration-test glob the default one
    /// is used.
    pub fn from_raw(raw: RawConfig) -> (r: Result<Config, ConfigError>)
        ensures
            match r {
                Ok(c) => {
                    &&& first_rejected(raw_patterns(raw)).is_none()
                    &&& patterns_of(c.deps.banned_mock_paths@) == strs_view(
                        raw.deps.banned_mock_paths@,
                    )
                    &&& c.deps.banned_singletons@.len() == raw.deps.banned_singletons@.len()
                    &&& forall|i: int|
                        0 <= i < c.deps.banned_singletons@.len() ==> (#[trigger] c.deps.banned_singletons@[i]).from.spec_pattern()
                            == raw.deps.banned_singletons@[i].from@
                            && c.deps.banned_singletons@[i].names@ == raw.deps.banned_singletons@[i].names@
                    &&& c.deps.integration_test_glob matches Some(g) && g.spec_pattern()
                        == raw_patterns(raw).last()
                    &&& c.rules.select@ == raw.rules.select@
                },
                Err(ConfigError::InvalidGlob(p)) => first_rejected(raw_patterns(raw)) == Some(p@),
            },
    {
        let ghost ps1 = strs_view(raw.deps.banned_mock_paths@);
        let ghost ps2 = raw.deps.banned_singletons@.map_values(|b: RawBannedSingleton| b.from@);
        let ghost last = raw_patterns(raw).last();
        assert(raw_patterns(raw) == ps1 + ps2 + seq![last]);
        proof {
            lemma_first_rejected_append(ps1 + ps2, seq![last]);
            lemma_first_rejected_append(ps1, ps2);
            assert(seq![last].drop_first() =~= Seq::<Seq<char>>::empty());
        }
        let banned_mock_paths = match compile_all(&raw.deps.banned_mock_paths) {
            Ok(gs) => gs,
            Err(e) => {
                return Err(e);
            },
        };
        let mut banned_singletons: Vec<BannedSingleton> = Vec::new();
        let mut i: usize = 0;
        assert(ps2.take(0) =~= Seq::<Seq<char>>::empty());
        while i < raw.deps.banned_singletons.len()
            invariant
                i <= raw.deps.banned_singletons@.len(),
                ps2 == raw.deps.banned_singletons@.map_values(|b: RawBannedSingleton| b.from@),
                first_rejected(ps2.take(i as int)).is_none(),
                first_rejected(ps1).is_none(),
                ps1 == strs_view(raw.deps.banned_mock_paths@),
                raw_patterns(raw) == ps1 + ps2 + seq![last],
                banned_singletons@.len() == i,
                forall|j: int|
                    0 <= j < i ==> (#[trigger] banned_singletons@[j]).from.spec_pattern()
                        == raw.deps.banned_singletons@[j].from@ && banned_singletons@[j].names@
                        == raw.deps.banned_singletons@[j].names@,
            decreases raw.deps.banned_singletons@.len() - i,
        {
            let entry = &raw.deps.banned_singletons[i];
            assert(ps2.take(i + 1) == ps2.take(i as int).push(entry.from@));
            proof {
                lemma_first_rejected_push(ps2.take(i as int), entry.from@);
            }
            match GlobPattern::new(entry.from.as_str()) {
                Ok(g) => {
                    let names = crate::models::copy_strings(&entry.names);
                    let ghost before = banned_singletons@;
                    banned_singletons.push(BannedSingleton { from: g, names });
                    assert forall|j: int| 0 <= j < i + 1 implies (#[trigger] banned_singletons@[j]).from.spec_pattern()
                        == raw.deps.banned_singletons@[j].from@ && banned_singletons@[j].names@
                        == raw.deps.banned_singletons@[j].names@ by {
                        if j < i {
                            assert(banned_singletons@[j] == before[j]);
                        }
                    }
                },
                Err(e) => {
                    proof {
                        lemma_first_rejected_append(ps2.take(i + 1), ps2.skip(i + 1));
                        assert(ps2.take(i + 1) + ps2.skip(i + 1) =~= ps2);
                        lemma_first_rejected_append(ps1 + ps2, seq![last]);
                        lemma_first_rejected_append(ps1, ps2);
                    }
                    return Err(e);
                },
            }
            i = i + 1;
        }
        assert(ps2.take(i as int) == ps2);
        proof {
            lemma_first_rejected_single(last);
        }
        let integ = match &raw.deps.integration_test_glob {
            Some(p) => GlobPattern::new(p.as_str()),
            None => GlobPattern::new("**/*.integration.test.{ts,tsx,js,jsx}"),
        };
        proof {
            match integ {
                Ok(ref g) => assert(g.spec_pattern() == last),
                Err(ConfigError::InvalidGlob(ref p)) => assert(p@ == last),
            }
            assert(first_rejected(ps1 + ps2).is_none());
        }
        let integration_test_glob = match integ {
            Ok(g) => g,
            Err(e) => {
                return Err(e);
            },
        };
        Ok(Config {
            deps: DepsConfig {
                banned_mock_paths,
                banned_singletons,
                integration_test_glob: Some(integration_test_glob),
            },
            rules: RulesConfig { select: raw.rules.select },
        })
    }

    /// Resolve a module import path; the path is returned as it is.
    pub fn resolve_module_path(&self, import_path: &str) -> (r: String)
        ensures
            r@ == import_path@,
    {
        owned(import_path)
    }
}

/// The entries of a `package.json` `select` table whose value is a string,
/// in order.
pub open spec fn string_entries(entries: Seq<(String, Option<String>)>) -> Seq<(String, String)>
    decreases entries.len(),
{
    if entries.len() == 0 {
        Seq::empty()
    } else {
        let r = string_entries(entries.drop_last());
        match entries.last().1 {
            Some(v) => r.push((entries.last().0, v)),
            None => r,
        }
    }
}

impl Config {
    /// Merges the `select` table of the `vitest-linter` key of `package.json`
    /// into the overrides: every entry whose value is a string is added after
    /// those already there, so that it replaces them; the rest of the
    /// configuration is unchanged.
    pub fn merge_package_select(&mut self, entries: &Vec<(String, Option<String>)>)
        ensures
            final(self).rules.select@ == old(self).rules.select@ + string_entries(entries@),
            final(self).deps == old(self).deps,
    {
        let mut i: usize = 0;
        let ghost start = self.rules.select@;
        assert(entries@.take(0) =~= Seq::<(String, Option<String>)>::empty());
        assert(start + string_entries(entries@.take(0)) =~= start);
        while i < entries.len()
            invariant
                i <= entries@.len(),
                self.rules.select@ == start + string_entries(entries@.take(i as int)),
                self.deps == old(self).deps,
            decreases entries@.len() - i,
        {
            assert(entries@.take(i + 1).drop_last() == entries@.take(i as int));
            match &entries[i].1 {
                Some(v) => {
                    let key = entries[i].0.clone();
                    let val = v.clone();
                    self.rules.select.push((key, val));
                    assert(self.rules.select@ =~= start + string_entries(entries@.take(i + 1)));
                },
                None => {},
            }
            i = i + 1;
        }
        assert(entries@.take(i as int) == entries@);
    }
}

/// What the last entry for a key gives it, over two tables one after the
/// other: the second table's entry where it has one, else the first's.
proof fn lemma_select_lookup_concat(a: Seq<(String, String)>, b: Seq<(String, String)>, key: Seq<char>)
    ensures
        select_lookup(a + b, key) == match select_lookup(b, key) {
            Some(v) => Some(v),
            None => select_lookup(a, key),
        },
    decreases b.len(),
{
    if b.len() == 0 {
        assert(a + b =~= a);
    } else {
        assert((a + b).drop_last() =~= a + b.drop_last());
        assert((a + b).last() == b.last());
        lemma_select_lookup_concat(a, b.drop_last(), key);
    }
}

/// An override from `package.json` wins over the configuration file: after
/// the merge, a rule's override is the one that the last string entry for it
/// in `package.json` gives, and the file's own where `package.json` has none.
pub proof fn law_package_select_wins(
    file_select: Seq<(String, String)>,
    entries: Seq<(String, Option<String>)>,
    rule_id: Seq<char>,
)
    ensures
        select_lookup(file_select + string_entries(entries), rule_id) == match select_lookup(
            string_entries(entries),
            rule_id,
        ) {
            Some(v) => Some(v),
            None => select_lookup(file_select, rule_id),
        },
{
    lemma_select_lookup_concat(file_select, string_entries(entries), rule_id);
}

impl Default for Config {
    /// The configuration without a file: no banlists, no overrides, and the
    /// default integration-test glob.
    fn default() -> (c: Self)
        ensures
            c.deps.banned_mock_paths@.len() == 0,
            c.deps.banned_singletons@.len() == 0,
            c.rules.select@.len() == 0,
            match c.deps.integration_test_glob {
                Some(g) => glob_compiles(default_integration_glob()) && g.spec_pattern()
                    == default_integration_glob(),
                None => !glob_compiles(default_integration_glob()),
            },
    {
        let integration_test_glob = match GlobPattern::new("**/*.integration.test.{ts,tsx,js,jsx}") {
            Ok(g) => Some(g),
            Err(_) => None,
        };
        Config {
            deps: DepsConfig {
                banned_mock_paths: Vec::new(),
                banned_singletons: Vec::new(),
                integration_test_glob,
            },
            rules: RulesConfig { select: Vec::new() },
        }
    }
}

/// `s` with every leading occurrence of the non-empty `p` removed.
pub open spec fn strip_all(s: Seq<char>, p: Seq<char>) -> Seq<char>
    decreases s.len(),
{
    if p.len() > 0 && starts_with(s, p) {
        strip_all(s.skip(p.len() as int), p)
    } else {
        s
    }
}

/// `s` with every leading `./` removed (`str::trim_start_matches("./")`).
pub open spec fn without_dot_slash(s: Seq<char>) -> Seq<char> {
    strip_all(s, "./"@)
}

/// `s` with every leading `../` removed.
pub open spec fn without_parent_prefix(s: Seq<char>) -> Seq<char> {
    strip_all(s, "../"@)
}

/// Removes every leading occurrence of `p` from `s`.
fn strip_all_exec(s: &[char], p: &[char]) -> (r: Vec<char>)
    ensures
        r@ == strip_all(s@, p@),
{
    let mut at: usize = 0;
    assert(s@.skip(0) == s@);
    while p.len() > 0 && at <= s.len() && seq_starts_with(slice_range(s, at, s.len()), p)
        invariant
            at <= s.len(),
            strip_all(s@, p@) == strip_all(s@.skip(at as int), p@),
        decreases s.len() - at,
    {
        assert(s@.subrange(at as int, s.len() as int) == s@.skip(at as int));
        assert(s@.skip(at as int).skip(p.len() as int) == s@.skip(at + p.len()));
        at = at + p.len();
    }
    proof {
        if at <= s.len() {
            assert(s@.subrange(at as int, s.len() as int) == s@.skip(at as int));
        }
    }
    let mut r: Vec<char> = Vec::new();
    let mut i = at;
    while i < s.len()
        invariant
            at <= i <= s.len(),
            r@ == s@.subrange(at as int, i as int),
        decreases s.len() - i,
    {
        r.push(s[i]);
        assert(s@.subrange(at as int, i + 1) == s@.subrange(at as int, i as int).push(s@[i as int]));
        i = i + 1;
    }
    assert(s@.subrange(at as int, s.len() as int) == s@.skip(at as int));
    r
}

/// Strips every leading `../` from `s`.
pub fn trim_relative_prefix(s: &str) -> (r: String)
    ensures
        r@ == without_parent_prefix(s@),
{
    let cs = chars_of(s);
    let p = chars_of("../");
    let r = strip_all_exec(cs.as_slice(), p.as_slice());
    string_of(r.as_slice())
}

/// Strips every leading `./` from `s`.
pub fn trim_dot_slash(s: &str) -> (r: String)
    ensures
        r@ == without_dot_slash(s@),
{
    let cs = chars_of(s);
    let p = chars_of("./");
    let r = strip_all_exec(cs.as_slice(), p.as_slice());
    string_of(r.as_slice())
}

/// Whether a glob of `matchers` matches the source, the source without
/// leading `./`, or that without leading `../` as well.
pub open spec fn matches_path_spec(matchers: Seq<GlobPattern>, source: Seq<char>) -> bool {
    let normalized = without_dot_slash(source);
    let stripped = without_parent_prefix(normalized);
    exists|i: int|
        0 <= i < matchers.len() && {
            let p = (#[trigger] matchers[i]).spec_pattern();
            glob_matches(p, source) || glob_matches(p, normalized) || glob_matches(p, stripped)
        }
}

/// Match a `vi.mock(<source>)` source string against the banlist. The check
/// matches both the literal pattern and a normalized form without leading `./`
/// or `../` segments to keep config simple for callers.
pub fn matches_path(matchers: &[GlobPattern], source: &str) -> (b: bool)
    ensures
        b == matches_path_spec(matchers@, source@),
{
    if matchers.len() == 0 {
        return false;
    }
    let normalized = trim_dot_slash(source);
    let stripped = trim_relative_prefix(normalized.as_str());
    let mut i: usize = 0;
    while i < matchers.len()
        invariant
            i <= matchers@.len(),
            normalized@ == without_dot_slash(source@),
            stripped@ == without_parent_prefix(normalized@),
            forall|j: int|
                0 <= j < i ==> {
                    let p = (#[trigger] matchers@[j]).spec_pattern();
                    !(glob_matches(p, source@) || glob_matches(p, normalized@) || glob_matches(
                        p,
                        stripped@,
                    ))
                },
        decreases matchers@.len() - i,
    {
        let g = &matchers[i];
        if g.is_match(source) || g.is_match(normalized.as_str()) || g.is_match(stripped.as_str()) {
            return true;
        }
        i = i + 1;
    }
    false
}

} // verus!
