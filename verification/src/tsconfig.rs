//! `tsconfig.json` path aliases: the files that an aliased import may name,
//! in the order in which they are tried.

use vstd::prelude::*;
use crate::config::{glob_compiles, glob_matches, GlobPattern};
use crate::graph::keys_view;
use crate::paths::{components, join_components, join_path, path_components, set_extension, with_extension};
use crate::seqs::{filter_map, lemma_filter_map_step, strs_view};
use crate::text::{chars_of, owned, push_char, seq_starts_with, slice_range, starts_with, string_of};

verus! {

/// Whether `s` ends with `/*`.
pub open spec fn ends_with_star(s: Seq<char>) -> bool {
    s.len() >= 2 && s[s.len() - 2] == '/' && s[s.len() - 1] == '*'
}

/// `s` with every `/*` replaced by `/**`, scanning from the left
/// (`str::replace`).
pub open spec fn alias_glob(s: Seq<char>) -> Seq<char>
    decreases s.len(),
{
    if s.len() == 0 {
        s
    } else if s.len() >= 2 && s[0] == '/' && s[1] == '*' {
        seq!['/', '*', '*'] + alias_glob(s.skip(2))
    } else {
        seq![s[0]] + alias_glob(s.skip(1))
    }
}

/// The alias without a trailing `/*`.
pub open spec fn alias_prefix(alias: Seq<char>) -> Seq<char> {
    if ends_with_star(alias) {
        alias.take(alias.len() - 2)
    } else {
        alias
    }
}

/// What `import` holds after the alias prefix and a `/`; all of `import`
/// where it does not begin so.
pub open spec fn matched_part(import: Seq<char>, prefix: Seq<char>) -> Seq<char> {
    let rest = import.skip(prefix.len() as int);
    if starts_with(import, prefix) && rest.len() > 0 && rest[0] == '/' {
        rest.skip(1)
    } else {
        import
    }
}

/// A target with its trailing `/*` replaced by `/` and the matched part;
/// a target without one is taken as it is.
pub open spec fn resolved_target(target: Seq<char>, m: Seq<char>) -> Seq<char> {
    if ends_with_star(target) {
        target.take(target.len() - 2).push('/') + m
    } else {
        target
    }
}

/// The files that the path `p` may name, in the order in which they are
/// tried: `p` with each script extension, then each index file inside `p`.
pub open spec fn file_candidates(p: Seq<Seq<char>>) -> Seq<Seq<Seq<char>>> {
    seq![
        with_extension(p, "ts"@),
        with_extension(p, "tsx"@),
        with_extension(p, "js"@),
        with_extension(p, "jsx"@),
        join_components(p, "index.ts"@),
        join_components(p, "index.tsx"@),
        join_components(p, "index.js"@),
        join_components(p, "index.jsx"@),
    ]
}

/// The candidates of each target, resolved against `base` with the matched
/// part `m`, one target after the other.
pub open spec fn target_candidates(
    base: Seq<Seq<char>>,
    targets: Seq<Seq<char>>,
    m: Seq<char>,
) -> Seq<Seq<Seq<char>>>
    decreases targets.len(),
{
    if targets.len() == 0 {
        Seq::empty()
    } else {
        target_candidates(base, targets.drop_last(), m) + file_candidates(
            join_components(base, resolved_target(targets.last(), m)),
        )
    }
}

/// One alias of `compilerOptions.paths`: its glob, its targets and its
/// prefix.
pub struct AliasView {
    pub pattern: Seq<char>,
    pub targets: Seq<Seq<char>>,
    pub prefix: Seq<char>,
}

/// The candidates of every alias whose glob matches `import`, one alias
/// after the other.
pub open spec fn alias_candidates(
    base: Seq<Seq<char>>,
    aliases: Seq<AliasView>,
    import: Seq<char>,
) -> Seq<Seq<Seq<char>>>
    decreases aliases.len(),
{
    if aliases.len() == 0 {
        Seq::empty()
    } else {
        let a = aliases.last();
        alias_candidates(base, aliases.drop_last(), import) + if glob_matches(a.pattern, import) {
            target_candidates(base, a.targets, matched_part(import, a.prefix))
        } else {
            Seq::empty()
        }
    }
}

/// The targets that are strings, in order.
pub open spec fn string_targets(ts: Seq<Option<String>>) -> Seq<Seq<char>> {
    filter_map(ts, |o: Option<String>| match o {
        Some(s) => Some(s@),
        None => None,
    })
}

/// The alias that an entry of `compilerOptions.paths` gives: one whose
/// targets form an array and whose glob `globset` accepts.
pub open spec fn alias_entry(e: (String, Option<Vec<Option<String>>>)) -> Option<AliasView> {
    match e.1 {
        Some(ts) => if glob_compiles(alias_glob(e.0@)) {
            Some(
                AliasView {
                    pattern: alias_glob(e.0@),
                    targets: string_targets(ts@),
                    prefix: alias_prefix(e.0@),
                },
            )
        } else {
            None
        },
        None => None,
    }
}

/// An alias of `compilerOptions.paths`.
#[derive(Debug)]
pub struct PathAlias {
    matcher: GlobPattern,
    targets: Vec<String>,
    prefix: String,
}

impl PathAlias {
    /// The alias as plain values.
    pub closed spec fn alias_view(&self) -> AliasView {
        AliasView {
            pattern: self.matcher.spec_pattern(),
            targets: strs_view(self.targets@),
            prefix: self.prefix@,
        }
    }
}

/// Parsed TypeScript configuration for path alias resolution.
#[derive(Debug)]
pub struct TsConfig {
    base_url: Vec<String>,
    paths: Vec<PathAlias>,
}

impl TsConfig {
    /// The components of the directory that the targets are relative to.
    pub closed spec fn base(&self) -> Seq<Seq<char>> {
        strs_view(self.base_url@)
    }

    /// The aliases, in order.
    pub closed spec fn aliases(&self) -> Seq<AliasView> {
        self.paths@.map_values(|a: PathAlias| a.alias_view())
    }

    /// Builds the configuration from the project root, `compilerOptions.baseUrl`
    /// (where it is a string) and the entries of `compilerOptions.paths`:
    /// each alias with its targets where they form an array, each target
    /// where it is a string. The base is the root joined with `baseUrl`, or
    /// the root; each `/*` of an alias becomes `/**` in its glob, and an
    /// alias whose glob `globset` rejects is left out.
    pub fn from_parts(
        project_root: &str,
        base_url: Option<&str>,
        entries: &Vec<(String, Option<Vec<Option<String>>>)>,
    ) -> (c: TsConfig)
        ensures
            c.base() == match base_url {
                Some(b) => join_components(components(project_root@), b@),
                None => components(project_root@),
            },
            c.aliases() == filter_map(
                entries@,
                |e: (String, Option<Vec<Option<String>>>)| alias_entry(e),
            ),
    {
        let root = path_components(project_root);
        let base = match base_url {
            Some(b) => join_path(&root, b),
            None => root,
        };
        let mut paths: Vec<PathAlias> = Vec::new();
        let mut i: usize = 0;
        assert(paths@.map_values(|a: PathAlias| a.alias_view()) =~= filter_map(
            entries@.take(0),
            |e: (String, Option<Vec<Option<String>>>)| alias_entry(e),
        ));
        while i < entries.len()
            invariant
                i <= entries@.len(),
                paths@.map_values(|a: PathAlias| a.alias_view()) == filter_map(
                    entries@.take(i as int),
                    |e: (String, Option<Vec<Option<String>>>)| alias_entry(e),
                ),
            decreases entries@.len() - i,
        {
            proof {
                lemma_filter_map_step(
                    entries@,
                    |e: (String, Option<Vec<Option<String>>>)| alias_entry(e),
                    i as int,
                );
            }
            let entry = &entries[i];
            match &entry.1 {
                Some(ts) => {
                    let glob = glob_of_alias(entry.0.as_str());
                    match GlobPattern::new(glob.as_str()) {
                        Ok(matcher) => {
                            let targets = keep_string_targets(ts);
                            let prefix = prefix_of_alias(entry.0.as_str());
                            let alias = PathAlias { matcher, targets, prefix };
                            let ghost before = paths@;
                            paths.push(alias);
                            assert(paths@.map_values(|a: PathAlias| a.alias_view()) =~= before.map_values(
                                |a: PathAlias| a.alias_view(),
                            ).push(alias.alias_view()));
                        },
                        Err(_) => {},
                    }
                },
                None => {},
            }
            i = i + 1;
        }
        proof {
            crate::seqs::lemma_take_full(entries@);
        }
        TsConfig { base_url: base, paths }
    }

    /// The files that `import_path` may name through the aliases, in the
    /// order in which they are tried: for each alias whose glob matches it,
    /// for each target, the target resolved against the base with each
    /// script extension, then each index file inside it. The first of them
    /// that exists is what the import resolves to.
    pub fn resolve_candidates(&self, import_path: &str) -> (r: Vec<Vec<String>>)
        ensures
            keys_view(r@) == alias_candidates(self.base(), self.aliases(), import_path@),
    {
        let mut out: Vec<Vec<String>> = Vec::new();
        let mut i: usize = 0;
        assert(self.aliases().take(0) =~= Seq::<AliasView>::empty());
        assert(keys_view(out@) =~= Seq::<Seq<Seq<char>>>::empty());
        while i < self.paths.len()
            invariant
                i <= self.paths@.len(),
                self.aliases().len() == self.paths@.len(),
                keys_view(out@) == alias_candidates(
                    self.base(),
                    self.aliases().take(i as int),
                    import_path@,
                ),
            decreases self.paths@.len() - i,
        {
            let alias = &self.paths[i];
            assert(self.aliases().take(i + 1).drop_last() == self.aliases().take(i as int));
            assert(self.aliases().take(i + 1).last() == alias.alias_view());
            let ghost before = keys_view(out@);
            if alias.matcher.is_match(import_path) {
                let m = matched_part_of(import_path, alias.prefix.as_str());
                push_target_candidates(&self.base_url, &alias.targets, m.as_str(), &mut out);
            } else {
                assert(before + Seq::<Seq<Seq<char>>>::empty() =~= before);
            }
            i = i + 1;
        }
        assert(self.aliases().take(i as int) == self.aliases());
        out
    }
}

/// The alias's glob: every `/*` replaced by `/**`.
fn glob_of_alias(alias: &str) -> (r: String)
    ensures
        r@ == alias_glob(alias@),
{
    let cs = chars_of(alias);
    let mut r = String::new();
    let mut i: usize = 0;
    assert(cs@.skip(0) == cs@);
    while i < cs.len()
        invariant
            i <= cs@.len(),
            alias_glob(cs@) == r@ + alias_glob(cs@.skip(i as int)),
        decreases cs@.len() - i,
    {
        let ghost rest = cs@.skip(i as int);
        if i + 1 < cs.len() && cs[i] == '/' && cs[i + 1] == '*' {
            assert(rest.skip(2) == cs@.skip(i + 2));
            push_char(&mut r, '/');
            push_char(&mut r, '*');
            push_char(&mut r, '*');
            i = i + 2;
        } else {
            assert(rest.skip(1) == cs@.skip(i + 1));
            push_char(&mut r, cs[i]);
            i = i + 1;
        }
    }
    assert(cs@.skip(i as int) =~= Seq::<char>::empty());
    r
}

/// The alias without a trailing `/*`.
fn prefix_of_alias(alias: &str) -> (r: String)
    ensures
        r@ == alias_prefix(alias@),
{
    let cs = chars_of(alias);
    let n = cs.len();
    if n >= 2 && cs[n - 2] == '/' && cs[n - 1] == '*' {
        string_of(slice_range(cs.as_slice(), 0, n - 2))
    } else {
        owned(alias)
    }
}

/// What `import` holds after `prefix` and a `/`, or all of `import`.
fn matched_part_of(import: &str, prefix: &str) -> (r: String)
    ensures
        r@ == matched_part(import@, prefix@),
{
    let cs = chars_of(import);
    let ps = chars_of(prefix);
    if seq_starts_with(cs.as_slice(), ps.as_slice()) && cs.len() > ps.len() && cs[ps.len()] == '/' {
        assert(cs@.skip(ps@.len() as int).skip(1) =~= cs@.subrange(ps.len() + 1, cs@.len() as int));
        string_of(slice_range(cs.as_slice(), ps.len() + 1, cs.len()))
    } else {
        owned(import)
    }
}

/// A target with its trailing `/*` replaced by `/` and `m`.
fn resolve_target(target: &str, m: &str) -> (r: String)
    ensures
        r@ == resolved_target(target@, m@),
{
    let cs = chars_of(target);
    let n = cs.len();
    if n >= 2 && cs[n - 2] == '/' && cs[n - 1] == '*' {
        let mut r = string_of(slice_range(cs.as_slice(), 0, n - 2));
        push_char(&mut r, '/');
        r.append(m);
        r
    } else {
        owned(target)
    }
}

/// The targets that are strings, in order.
fn keep_string_targets(ts: &Vec<Option<String>>) -> (r: Vec<String>)
    ensures
        strs_view(r@) == string_targets(ts@),
{
    let mut r: Vec<String> = Vec::new();
    let mut i: usize = 0;
    assert(strs_view(r@) =~= string_targets(ts@.take(0)));
    while i < ts.len()
        invariant
            i <= ts@.len(),
            strs_view(r@) == string_targets(ts@.take(i as int)),
        decreases ts@.len() - i,
    {
        proof {
            lemma_filter_map_step(
                ts@,
                |o: Option<String>| match o {
                    Some(s) => Some(s@),
                    None => None,
                },
                i as int,
            );
        }
        match &ts[i] {
            Some(s) => {
                let t = owned(s.as_str());
                let ghost before = r@;
                r.push(t);
                assert(strs_view(r@) =~= strs_view(before).push(t@));
            },
            None => {},
        }
        i = i + 1;
    }
    proof {
        crate::seqs::lemma_take_full(ts@);
    }
    r
}

/// Appends the candidates of the path `p`.
fn push_file_candidates(p: &Vec<String>, out: &mut Vec<Vec<String>>)
    ensures
        keys_view(final(out)@) == keys_view(old(out)@) + file_candidates(strs_view(p@)),
{
    let ghost start = keys_view(out@);
    let ghost pv = strs_view(p@);
    out.push(set_extension(p, "ts"));
    out.push(set_extension(p, "tsx"));
    out.push(set_extension(p, "js"));
    out.push(set_extension(p, "jsx"));
    out.push(join_path(p, "index.ts"));
    out.push(join_path(p, "index.tsx"));
    out.push(join_path(p, "index.js"));
    out.push(join_path(p, "index.jsx"));
    assert(keys_view(out@) =~= start + file_candidates(pv));
}

/// Appends the candidates of each target, resolved against `base` with `m`.
fn push_target_candidates(
    base: &Vec<String>,
    targets: &Vec<String>,
    m: &str,
    out: &mut Vec<Vec<String>>,
)
    ensures
        keys_view(final(out)@) == keys_view(old(out)@) + target_candidates(
            strs_view(base@),
            strs_view(targets@),
            m@,
        ),
{
    let ghost start = keys_view(out@);
    let ghost tv = strs_view(targets@);
    let mut i: usize = 0;
    assert(tv.take(0) =~= Seq::<Seq<char>>::empty());
    assert(start + target_candidates(strs_view(base@), tv.take(0), m@) =~= start);
    while i < targets.len()
        invariant
            i <= targets@.len(),
            tv == strs_view(targets@),
            keys_view(out@) == start + target_candidates(strs_view(base@), tv.take(i as int), m@),
        decreases targets@.len() - i,
    {
        assert(tv.take(i + 1).drop_last() == tv.take(i as int));
        assert(tv.take(i + 1).last() == targets@[i as int]@);
        let t = resolve_target(targets[i].as_str(), m);
        let full = join_path(base, t.as_str());
        let ghost mid = keys_view(out@);
        push_file_candidates(&full, out);
        assert(keys_view(out@) =~= start + target_candidates(strs_view(base@), tv.take(i + 1), m@));
        i = i + 1;
    }
    assert(tv.take(i as int) == tv);
}

} // verus!
