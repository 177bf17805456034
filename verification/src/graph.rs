//! The import graph between the modules of one lint run.

use vstd::prelude::*;
use crate::models::{ImportEntry, ParsedModule};
use crate::paths::{
    components, components_eq, join_components, join_path, parent_components, parent_of,
    path_components, set_extension, with_extension,
};
use crate::seqs::{filter_map, strs_view};

verus! {

/// The key of a module in the graph: the components of its path.
pub open spec fn key_of(m: ParsedModule) -> Seq<Seq<char>> {
    components(m.file_path@)
}

/// Whether some node of `g` has key `k`.
pub open spec fn has_key(g: Seq<ParsedModule>, k: Seq<Seq<char>>) -> bool {
    exists|i: int| 0 <= i < g.len() && key_of(#[trigger] g[i]) == k
}

/// The first position of a node of `g` with key `k` (`g.len()` when none).
pub open spec fn key_index(g: Seq<ParsedModule>, k: Seq<Seq<char>>) -> int
    decreases g.len(),
{
    if g.len() == 0 {
        0
    } else if key_of(g[0]) == k {
        0
    } else {
        1 + key_index(g.drop_first(), k)
    }
}

/// `key_index` finds the first node with the key, when there is one.
pub proof fn lemma_key_index_props(g: Seq<ParsedModule>, k: Seq<Seq<char>>)
    ensures
        0 <= key_index(g, k) <= g.len(),
        forall|j: int| 0 <= j < key_index(g, k) ==> key_of(#[trigger] g[j]) != k,
        has_key(g, k) <==> key_index(g, k) < g.len(),
        key_index(g, k) < g.len() ==> key_of(g[key_index(g, k)]) == k,
    decreases g.len(),
{
    if g.len() > 0 {
        lemma_key_index_props(g.drop_first(), k);
        if key_of(g[0]) != k {
            assert forall|j: int| 0 <= j < key_index(g, k) implies key_of(#[trigger] g[j]) != k by {
                if j > 0 {
                    assert(g[j] == g.drop_first()[j - 1]);
                }
            }
            if has_key(g, k) {
                let i = choose|i: int| 0 <= i < g.len() && key_of(#[trigger] g[i]) == k;
                assert(g.drop_first()[i - 1] == g[i]);
            }
            if key_index(g, k) < g.len() {
                assert(g[key_index(g, k)] == g.drop_first()[key_index(g.drop_first(), k)]);
            }
        }
    }
}

/// The node of `g` with key `k`, if any.
pub open spec fn lookup(g: Seq<ParsedModule>, k: Seq<Seq<char>>) -> Option<ParsedModule> {
    if has_key(g, k) {
        Some(g[key_index(g, k)])
    } else {
        None
    }
}

/// The nodes after inserting `ms` in order into an empty map keyed by path:
/// a later module replaces an earlier one with the same key.
pub open spec fn graph_nodes(ms: Seq<ParsedModule>) -> Seq<ParsedModule>
    decreases ms.len(),
{
    if ms.len() == 0 {
        Seq::empty()
    } else {
        let g = graph_nodes(ms.drop_last());
        let m = ms.last();
        if has_key(g, key_of(m)) {
            g.update(key_index(g, key_of(m)), m)
        } else {
            g.push(m)
        }
    }
}

/// The extensions tried, in order, when an import is resolved.
pub open spec fn resolve_exts() -> Seq<Seq<char>> {
    seq!["ts"@, "tsx"@, "js"@, "jsx"@]
}

/// The first of `base` with an extension of `exts` that names a node of `g`.
pub open spec fn first_with_ext(
    g: Seq<ParsedModule>,
    base: Seq<Seq<char>>,
    exts: Seq<Seq<char>>,
) -> Option<Seq<Seq<char>>>
    decreases exts.len(),
{
    if exts.len() == 0 {
        None
    } else {
        let c = with_extension(base, exts[0]);
        if has_key(g, c) {
            Some(c)
        } else {
            first_with_ext(g, base, exts.drop_first())
        }
    }
}

/// The node key that a relative or absolute import of `m` resolves to.
pub open spec fn resolve_import(
    g: Seq<ParsedModule>,
    m: ParsedModule,
    imp: ImportEntry,
) -> Option<Seq<Seq<char>>> {
    let src = imp.source@;
    if src.len() > 0 && (src[0] == '.' || src[0] == '/') {
        match parent_components(key_of(m)) {
            Some(p) => first_with_ext(g, join_components(p, src), resolve_exts()),
            None => None,
        }
    } else {
        None
    }
}

/// The resolved imports of `m`, in order.
pub open spec fn module_deps(g: Seq<ParsedModule>, m: ParsedModule) -> Seq<Seq<Seq<char>>> {
    filter_map(m.imports_parsed@, |imp: ImportEntry| resolve_import(g, m, imp))
}

/// The resolved imports of every test module with key `k`, in order.
pub open spec fn deps_for_key(
    tests: Seq<ParsedModule>,
    g: Seq<ParsedModule>,
    k: Seq<Seq<char>>,
) -> Seq<Seq<Seq<char>>>
    decreases tests.len(),
{
    if tests.len() == 0 {
        Seq::empty()
    } else {
        let d = deps_for_key(tests.drop_last(), g, k);
        if key_of(tests.last()) == k {
            d + module_deps(g, tests.last())
        } else {
            d
        }
    }
}

/// The module that `src`, read relative to the directory of `from`, names
/// in `g` with the first of the extensions `ts`, `tsx`, `js`, `jsx` that
/// names a node.
pub open spec fn relative_lookup(g: Seq<ParsedModule>, from: Seq<char>, src: Seq<char>) -> Option<ParsedModule> {
    match parent_components(components(from)) {
        Some(p) => match first_with_ext(g, join_components(p, src), resolve_exts()) {
            Some(k) => lookup(g, k),
            None => None,
        },
        None => None,
    }
}

/// The modules of one run keyed by path, with the edges from each test
/// module to the modules its relative imports name.
pub struct ModuleGraph<'a> {
    keys: Vec<Vec<String>>,
    nodes: Vec<&'a ParsedModule>,
    deps: Vec<Vec<Vec<String>>>,
    tests: Ghost<Seq<ParsedModule>>,
}

/// The values behind a sequence of references.
pub open spec fn derefs<'a>(s: Seq<&'a ParsedModule>) -> Seq<ParsedModule> {
    s.map_values(|r: &'a ParsedModule| *r)
}

/// The views of a sequence of component lists.
pub open spec fn keys_view(s: Seq<Vec<String>>) -> Seq<Seq<Seq<char>>> {
    s.map_values(|v: Vec<String>| strs_view(v@))
}

/// The graph's nodes are keyed uniquely by their paths.
pub open spec fn unique_keys(g: Seq<ParsedModule>) -> bool {
    forall|i: int, j: int| 0 <= i < j < g.len() ==> key_of(g[i]) != key_of(g[j])
}

impl<'a> ModuleGraph<'a> {
    /// The modules of the graph.
    pub closed spec fn node_seq(&self) -> Seq<ParsedModule> {
        derefs(self.nodes@)
    }

    /// The test modules the graph was built from.
    pub closed spec fn test_seq(&self) -> Seq<ParsedModule> {
        self.tests@
    }

    #[verifier::type_invariant]
    spec fn wf(&self) -> bool {
        &&& self.keys@.len() == self.nodes@.len()
        &&& self.deps@.len() == self.nodes@.len()
        &&& unique_keys(derefs(self.nodes@))
        &&& forall|i: int|
            0 <= i < self.nodes@.len() ==> #[trigger] keys_view(self.keys@)[i] == key_of(
                *self.nodes@[i],
            )
        &&& forall|i: int|
            0 <= i < self.nodes@.len() ==> #[trigger] keys_view(self.deps@[i]@) == deps_for_key(
                self.tests@,
                derefs(self.nodes@),
                key_of(*self.nodes@[i]),
            )
        &&& forall|t: int|
            0 <= t < self.tests@.len() ==> has_key(derefs(self.nodes@), key_of(#[trigger] self.tests@[t]))
    }
}

proof fn lemma_key_index(g: Seq<ParsedModule>, k: Seq<Seq<char>>, i: int)
    requires
        unique_keys(g),
        0 <= i < g.len(),
        key_of(g[i]) == k,
    ensures
        has_key(g, k),
        key_index(g, k) == i,
{
    lemma_key_index_props(g, k);
    let c = key_index(g, k);
    if c < i {
        assert(key_of(g[c]) == key_of(g[i]));
    }
}

/// Inserts `m` into the nodes keyed by path, replacing a node with the same key.
fn insert_node<'a>(keys: &mut Vec<Vec<String>>, nodes: &mut Vec<&'a ParsedModule>, m: &'a ParsedModule)
    requires
        old(keys)@.len() == old(nodes)@.len(),
        unique_keys(derefs(old(nodes)@)),
        forall|j: int| 0 <= j < old(nodes)@.len() ==> #[trigger] keys_view(old(keys)@)[j] == key_of(
            derefs(old(nodes)@)[j],
        ),
    ensures
        final(keys)@.len() == final(nodes)@.len(),
        unique_keys(derefs(final(nodes)@)),
        forall|j: int| 0 <= j < final(nodes)@.len() ==> #[trigger] keys_view(final(keys)@)[j] == key_of(
            derefs(final(nodes)@)[j],
        ),
        derefs(final(nodes)@) == (if has_key(derefs(old(nodes)@), key_of(*m)) {
            derefs(old(nodes)@).update(key_index(derefs(old(nodes)@), key_of(*m)), *m)
        } else {
            derefs(old(nodes)@).push(*m)
        }),
{
    let k = path_components(m.file_path.as_str());
    let ghost g0 = derefs(nodes@);
    match find_key(keys, &k, Ghost(g0)) {
        Some(j) => {
            proof {
                lemma_key_index_props(g0, strs_view(k@));
            }
            let ghost kv = keys_view(keys@);
            nodes.set(j, m);
            keys.set(j, k);
            proof {
                assert(derefs(nodes@) =~= g0.update(j as int, *m));
                assert forall|a: int, b: int|
                    0 <= a < b < derefs(nodes@).len() implies key_of(derefs(nodes@)[a])
                    != key_of(derefs(nodes@)[b]) by {
                    assert(key_of(derefs(nodes@)[j as int]) == key_of(g0[j as int]));
                    if a != j as int {
                        assert(derefs(nodes@)[a] == g0[a]);
                    }
                    if b != j as int {
                        assert(derefs(nodes@)[b] == g0[b]);
                    }
                }
                assert forall|q: int| 0 <= q < nodes@.len() implies #[trigger] keys_view(
                    keys@,
                )[q] == key_of(derefs(nodes@)[q]) by {
                    if q != j {
                        assert(keys_view(keys@)[q] == kv[q]);
                    }
                }
            }
        },
        None => {
            let ghost kv = keys_view(keys@);
            nodes.push(m);
            keys.push(k);
            proof {
                assert(derefs(nodes@) =~= g0.push(*m));
                assert forall|q: int| 0 <= q < nodes@.len() implies #[trigger] keys_view(
                    keys@,
                )[q] == key_of(derefs(nodes@)[q]) by {
                    if q < g0.len() {
                        assert(keys_view(keys@)[q] == kv[q]);
                    }
                }
                assert forall|a: int, b: int|
                    0 <= a < b < derefs(nodes@).len() implies key_of(derefs(nodes@)[a])
                    != key_of(derefs(nodes@)[b]) by {
                    if b == g0.len() {
                        assert(key_of(g0[a]) != key_of(*m));
                    } else {
                        assert(derefs(nodes@)[a] == g0[a]);
                        assert(derefs(nodes@)[b] == g0[b]);
                    }
                }
            }
        },
    }
}

/// The position of the node with key `k`, if any.
fn find_key(keys: &Vec<Vec<String>>, k: &Vec<String>, g: Ghost<Seq<ParsedModule>>) -> (r: Option<usize>)
    requires
        keys@.len() == g@.len(),
        unique_keys(g@),
        forall|i: int| 0 <= i < g@.len() ==> #[trigger] keys_view(keys@)[i] == key_of(g@[i]),
    ensures
        match r {
            Some(i) => i < g@.len() && has_key(g@, strs_view(k@)) && key_index(g@, strs_view(k@))
                == i,
            None => !has_key(g@, strs_view(k@)),
        },
{
    let mut i: usize = 0;
    while i < keys.len()
        invariant
            keys@.len() == g@.len(),
            i <= keys@.len(),
            unique_keys(g@),
            forall|j: int| 0 <= j < g@.len() ==> #[trigger] keys_view(keys@)[j] == key_of(g@[j]),
            forall|j: int| 0 <= j < i ==> key_of(#[trigger] g@[j]) != strs_view(k@),
        decreases keys.len() - i,
    {
        if components_eq(&keys[i], k) {
            assert(keys_view(keys@)[i as int] == strs_view(keys@[i as int]@));
            proof {
                lemma_key_index(g@, strs_view(k@), i as int);
            }
            return Some(i);
        }
        assert(keys_view(keys@)[i as int] == strs_view(keys@[i as int]@));
        i = i + 1;
    }
    proof {
        if has_key(g@, strs_view(k@)) {
            let q = choose|q: int| 0 <= q < g@.len() && key_of(#[trigger] g@[q]) == strs_view(k@);
        }
    }
    None
}

impl<'a> ModuleGraph<'a> {
    /// Build a module graph from test modules and source modules.
    pub fn new(test_modules: &'a [ParsedModule], source_modules: &'a [ParsedModule]) -> (g: Self)
        ensures
            g.test_seq() == test_modules@,
            g.node_seq() == graph_nodes(test_modules@ + source_modules@),
    {
        let ghost all = test_modules@ + source_modules@;
        let mut keys: Vec<Vec<String>> = Vec::new();
        let mut nodes: Vec<&'a ParsedModule> = Vec::new();
        assert(test_modules@.take(0) =~= Seq::<ParsedModule>::empty());
        assert(derefs(nodes@) =~= Seq::<ParsedModule>::empty());
        let mut i: usize = 0;
        while i < test_modules.len()
            invariant
                i <= test_modules@.len(),
                keys@.len() == nodes@.len(),
                derefs(nodes@) == graph_nodes(test_modules@.take(i as int)),
                unique_keys(derefs(nodes@)),
                forall|j: int| 0 <= j < nodes@.len() ==> #[trigger] keys_view(keys@)[j] == key_of(
                    derefs(nodes@)[j],
                ),
            decreases test_modules@.len() - i,
        {
            assert(test_modules@.take(i + 1).drop_last() == test_modules@.take(i as int));
            insert_node(&mut keys, &mut nodes, &test_modules[i]);
            i = i + 1;
        }
        assert(test_modules@.take(i as int) == test_modules@);
        assert(all.take(test_modules@.len() as int) == test_modules@);
        let mut s: usize = 0;
        while s < source_modules.len()
            invariant
                all == test_modules@ + source_modules@,
                s <= source_modules@.len(),
                keys@.len() == nodes@.len(),
                derefs(nodes@) == graph_nodes(all.take(test_modules@.len() + s)),
                unique_keys(derefs(nodes@)),
                forall|j: int| 0 <= j < nodes@.len() ==> #[trigger] keys_view(keys@)[j] == key_of(
                    derefs(nodes@)[j],
                ),
            decreases source_modules@.len() - s,
        {
            assert(all.take(test_modules@.len() + s + 1).drop_last() == all.take(
                test_modules@.len() + s,
            ));
            assert(all.take(test_modules@.len() + s + 1).last() == source_modules@[s as int]);
            insert_node(&mut keys, &mut nodes, &source_modules[s]);
            s = s + 1;
        }
        assert(all.take(test_modules@.len() + s) == all);
        let ghost g = derefs(nodes@);
        proof {
            assert forall|t: int| 0 <= t < test_modules@.len() implies has_key(
                g,
                key_of(#[trigger] test_modules@[t]),
            ) by {
                lemma_graph_nodes_has(all, t);
            }
        }
        let mut deps: Vec<Vec<Vec<String>>> = Vec::new();
        let mut e: usize = 0;
        while e < nodes.len()
            invariant
                g == derefs(nodes@),
                e <= nodes@.len(),
                deps@.len() == e,
                keys@.len() == nodes@.len(),
                forall|j: int| 0 <= j < nodes@.len() ==> #[trigger] keys_view(keys@)[j] == key_of(
                    g[j],
                ),
                unique_keys(g),
                forall|q: int|
                    0 <= q < e ==> #[trigger] keys_view(deps@[q]@) == deps_for_key(
                        test_modules@,
                        g,
                        key_of(g[q]),
                    ),
            decreases nodes@.len() - e,
        {
            let d = deps_of_key(test_modules, &keys, &keys[e], Ghost(g));
            assert(keys_view(keys@)[e as int] == strs_view(keys@[e as int]@));
            let ghost dd = deps@;
            deps.push(d);
            proof {
                assert forall|q: int| 0 <= q < e + 1 implies #[trigger] keys_view(deps@[q]@)
                    == deps_for_key(test_modules@, g, key_of(g[q])) by {
                    if q < e {
                        assert(deps@[q] == dd[q]);
                    }
                }
            }
            e = e + 1;
        }
        ModuleGraph { keys, nodes, deps, tests: Ghost(test_modules@) }
    }

    /// Get a module by its file path.
    pub fn get_module(&self, path: &str) -> (r: Option<&'a ParsedModule>)
        ensures
            match r {
                Some(m) => lookup(self.node_seq(), components(path@)) == Some(*m),
                None => lookup(self.node_seq(), components(path@)).is_none(),
            },
    {
        proof {
            use_type_invariant(self);
        }
        let k = path_components(path);
        self.get_by_key(&k)
    }

    /// The module that `src`, read relative to the directory of `from`,
    /// names with the first of the extensions `ts`, `tsx`, `js`, `jsx` that
    /// gives a module of the graph.
    pub fn resolve_relative(&self, from: &str, src: &str) -> (r: Option<&'a ParsedModule>)
        ensures
            match r {
                Some(m) => relative_lookup(self.node_seq(), from@, src@) == Some(*m),
                None => relative_lookup(self.node_seq(), from@, src@).is_none(),
            },
    {
        proof {
            use_type_invariant(self);
        }
        let fk = path_components(from);
        match parent_of(&fk) {
            None => None,
            Some(p) => {
                let base = join_path(&p, src);
                match first_with_ext_exec(&base, &self.keys, Ghost(self.node_seq())) {
                    Some(c) => self.get_by_key(&c),
                    None => None,
                }
            },
        }
    }

    /// The module with key `k`.
    fn get_by_key(&self, k: &Vec<String>) -> (r: Option<&'a ParsedModule>)
        ensures
            match r {
                Some(m) => lookup(self.node_seq(), strs_view(k@)) == Some(*m),
                None => lookup(self.node_seq(), strs_view(k@)).is_none(),
            },
    {
        proof {
            use_type_invariant(self);
        }
        match find_key(&self.keys, k, Ghost(self.node_seq())) {
            Some(i) => Some(self.nodes[i]),
            None => None,
        }
    }

    /// Get the dependencies of a module.
    pub fn get_dependencies(&self, path: &str) -> (r: Vec<&'a ParsedModule>)
        ensures
            derefs(r@) == filter_map(
                deps_for_key(self.test_seq(), self.node_seq(), components(path@)),
                |d: Seq<Seq<char>>| lookup(self.node_seq(), d),
            ),
    {
        proof {
            use_type_invariant(self);
        }
        let k = path_components(path);
        let ghost g = self.node_seq();
        match find_key(&self.keys, &k, Ghost(g)) {
            None => {
                proof {
                    lemma_deps_absent(self.test_seq(), g, strs_view(k@));
                }
                let r: Vec<&'a ParsedModule> = Vec::new();
                assert(derefs(r@) =~= Seq::<ParsedModule>::empty());
                r
            },
            Some(i) => {
                let deps = &self.deps[i];
                proof {
                    lemma_key_index_props(g, strs_view(k@));
                    assert(keys_view(self.deps@[i as int]@) == deps_for_key(
                        self.tests@,
                        derefs(self.nodes@),
                        key_of(*self.nodes@[i as int]),
                    ));
                    assert(derefs(self.nodes@)[i as int] == *self.nodes@[i as int]);
                }
                assert(keys_view(deps@) == deps_for_key(self.test_seq(), g, strs_view(k@)));
                let mut r: Vec<&'a ParsedModule> = Vec::new();
                let mut j: usize = 0;
                assert(derefs(r@) =~= Seq::<ParsedModule>::empty());
                while j < deps.len()
                    invariant
                        j <= deps@.len(),
                        g == self.node_seq(),
                        derefs(r@) == filter_map(
                            keys_view(deps@).take(j as int),
                            |d: Seq<Seq<char>>| lookup(g, d),
                        ),
                    decreases deps@.len() - j,
                {
                    let ghost before = r@;
                    proof {
                        crate::seqs::lemma_filter_map_step(
                            keys_view(deps@),
                            |d: Seq<Seq<char>>| lookup(g, d),
                            j as int,
                        );
                        assert(keys_view(deps@)[j as int] == strs_view(deps@[j as int]@));
                    }
                    match self.get_by_key(&deps[j]) {
                        Some(m) => {
                            r.push(m);
                            assert(derefs(r@) =~= derefs(before).push(*m));
                        },
                        None => {},
                    }
                    j = j + 1;
                }
                assert(keys_view(deps@).take(deps@.len() as int) == keys_view(deps@));
                r
            },
        }
    }
}

impl<'a> Default for ModuleGraph<'a> {
    /// The empty graph.
    fn default() -> (g: Self)
        ensures
            g.test_seq() == Seq::<ParsedModule>::empty(),
            g.node_seq() == Seq::<ParsedModule>::empty(),
    {
        let g = ModuleGraph { keys: Vec::new(), nodes: Vec::new(), deps: Vec::new(), tests: Ghost(Seq::empty()) };
        assert(derefs(g.nodes@) =~= Seq::<ParsedModule>::empty());
        g
    }
}

/// Every inserted module's key is a key of the graph.
proof fn lemma_graph_nodes_has(ms: Seq<ParsedModule>, t: int)
    requires
        0 <= t < ms.len(),
    ensures
        has_key(graph_nodes(ms), key_of(ms[t])),
    decreases ms.len(),
{
    let g = graph_nodes(ms.drop_last());
    let m = ms.last();
    let k = key_of(ms[t]);
    lemma_key_index_props(g, key_of(m));
    let u = key_index(g, key_of(m));
    if t == ms.len() - 1 {
        if has_key(g, key_of(m)) {
            assert(key_of(graph_nodes(ms)[u]) == k);
        } else {
            assert(key_of(graph_nodes(ms)[g.len() as int]) == k);
        }
    } else {
        lemma_graph_nodes_has(ms.drop_last(), t);
        assert(ms.drop_last()[t] == ms[t]);
        let i = choose|i: int| 0 <= i < g.len() && key_of(#[trigger] g[i]) == k;
        if has_key(g, key_of(m)) && i == u {
            assert(key_of(graph_nodes(ms)[u]) == key_of(m));
            assert(key_of(m) == k);
            assert(key_of(graph_nodes(ms)[u]) == k);
        } else {
            assert(graph_nodes(ms)[i] == g[i]);
            assert(key_of(graph_nodes(ms)[i]) == k);
        }
    }
}

/// A key that no test module has has no dependencies.
proof fn lemma_deps_absent(tests: Seq<ParsedModule>, g: Seq<ParsedModule>, k: Seq<Seq<char>>)
    requires
        forall|t: int| 0 <= t < tests.len() ==> has_key(g, key_of(#[trigger] tests[t])),
        !has_key(g, k),
    ensures
        deps_for_key(tests, g, k) == Seq::<Seq<Seq<char>>>::empty(),
    decreases tests.len(),
{
    if tests.len() > 0 {
        assert forall|t: int| 0 <= t < tests.drop_last().len() implies has_key(
            g,
            key_of(#[trigger] tests.drop_last()[t]),
        ) by {
            assert(tests.drop_last()[t] == tests[t]);
        }
        lemma_deps_absent(tests.drop_last(), g, k);
        assert(has_key(g, key_of(tests[tests.len() - 1])));
    }
}

/// The dependencies of every test module with key `k`.
fn deps_of_key(
    tests: &[ParsedModule],
    keys: &Vec<Vec<String>>,
    k: &Vec<String>,
    g: Ghost<Seq<ParsedModule>>,
) -> (r: Vec<Vec<String>>)
    requires
        keys@.len() == g@.len(),
        unique_keys(g@),
        forall|i: int| 0 <= i < g@.len() ==> #[trigger] keys_view(keys@)[i] == key_of(g@[i]),
    ensures
        keys_view(r@) == deps_for_key(tests@, g@, strs_view(k@)),
{
    let mut r: Vec<Vec<String>> = Vec::new();
    let mut t: usize = 0;
    assert(keys_view(r@) =~= Seq::<Seq<Seq<char>>>::empty());
    while t < tests.len()
        invariant
            t <= tests@.len(),
            keys@.len() == g@.len(),
            unique_keys(g@),
            forall|i: int| 0 <= i < g@.len() ==> #[trigger] keys_view(keys@)[i] == key_of(g@[i]),
            keys_view(r@) == deps_for_key(tests@.take(t as int), g@, strs_view(k@)),
        decreases tests@.len() - t,
    {
        let m = &tests[t];
        assert(tests@.take(t + 1).drop_last() == tests@.take(t as int));
        assert(tests@.take(t + 1).last() == *m);
        let mk = path_components(m.file_path.as_str());
        if components_eq(&mk, k) {
            let more = module_deps_exec(m, keys, g);
            let ghost before = keys_view(r@);
            let mut q: usize = 0;
            while q < more.len()
                invariant
                    q <= more@.len(),
                    keys_view(r@) == before + keys_view(more@).take(q as int),
                decreases more@.len() - q,
            {
                let x = crate::models::copy_strings(&more[q]);
                let ghost b = r@;
                r.push(x);
                assert(keys_view(r@) =~= keys_view(b).push(strs_view(x@)));
                assert(keys_view(more@).take(q + 1) =~= keys_view(more@).take(q as int).push(
                    strs_view(more@[q as int]@),
                ));
                q = q + 1;
            }
            assert(keys_view(more@).take(more@.len() as int) == keys_view(more@));
        }
        t = t + 1;
    }
    assert(tests@.take(tests@.len() as int) == tests@);
    r
}

/// The resolved relative imports of `m`.
fn module_deps_exec(m: &ParsedModule, keys: &Vec<Vec<String>>, g: Ghost<Seq<ParsedModule>>) -> (r: Vec<Vec<String>>)
    requires
        keys@.len() == g@.len(),
        unique_keys(g@),
        forall|i: int| 0 <= i < g@.len() ==> #[trigger] keys_view(keys@)[i] == key_of(g@[i]),
    ensures
        keys_view(r@) == module_deps(g@, *m),
{
    let mut r: Vec<Vec<String>> = Vec::new();
    let mut i: usize = 0;
    let mk = path_components(m.file_path.as_str());
    let parent = parent_of(&mk);
    assert(keys_view(r@) =~= Seq::<Seq<Seq<char>>>::empty());
    while i < m.imports_parsed.len()
        invariant
            i <= m.imports_parsed@.len(),
            keys@.len() == g@.len(),
            unique_keys(g@),
            forall|q: int| 0 <= q < g@.len() ==> #[trigger] keys_view(keys@)[q] == key_of(g@[q]),
            strs_view(mk@) == key_of(*m),
            match parent {
                Some(p) => parent_components(key_of(*m)) == Some(strs_view(p@)),
                None => parent_components(key_of(*m)).is_none(),
            },
            keys_view(r@) == filter_map(
                m.imports_parsed@.take(i as int),
                |imp: ImportEntry| resolve_import(g@, *m, imp),
            ),
        decreases m.imports_parsed@.len() - i,
    {
        proof {
            crate::seqs::lemma_filter_map_step(
                m.imports_parsed@,
                |imp: ImportEntry| resolve_import(g@, *m, imp),
                i as int,
            );
        }
        let imp = &m.imports_parsed[i];
        let cs = crate::text::chars_of(imp.source.as_str());
        assert(*imp == m.imports_parsed@[i as int]);
        assert(cs@ == m.imports_parsed@[i as int].source@);
        let ghost before = keys_view(r@);
        assert(*imp == m.imports_parsed@[i as int]);
        assert(cs@ == m.imports_parsed@[i as int].source@);
        if cs.len() > 0 && (cs[0] == '.' || cs[0] == '/') {
            match &parent {
                Some(p) => {
                    let base = join_path(p, imp.source.as_str());
                    let found = first_with_ext_exec(&base, keys, g);
                    match found {
                        Some(c) => {
                            let ghost b = r@;
                            r.push(c);
                            assert(keys_view(r@) =~= keys_view(b).push(strs_view(c@)));
                            assert(resolve_import(g@, *m, m.imports_parsed@[i as int]) == Some(strs_view(c@)));
                        },
                        None => {
                            assert(resolve_import(g@, *m, m.imports_parsed@[i as int]).is_none());
                        },
                    }
                },
                None => {
                    assert(resolve_import(g@, *m, m.imports_parsed@[i as int]).is_none());
                },
            }
        } else {
            assert(resolve_import(g@, *m, m.imports_parsed@[i as int]).is_none());
        }
        i = i + 1;
    }
    assert(m.imports_parsed@.take(m.imports_parsed@.len() as int) == m.imports_parsed@);
    r
}

/// The first of `base` with extension `ts`, `tsx`, `js` or `jsx` that names a node.
fn first_with_ext_exec(base: &Vec<String>, keys: &Vec<Vec<String>>, g: Ghost<Seq<ParsedModule>>) -> (r: Option<Vec<String>>)
    requires
        keys@.len() == g@.len(),
        unique_keys(g@),
        forall|i: int| 0 <= i < g@.len() ==> #[trigger] keys_view(keys@)[i] == key_of(g@[i]),
    ensures
        match r {
            Some(c) => first_with_ext(g@, strs_view(base@), resolve_exts()) == Some(strs_view(c@)),
            None => first_with_ext(g@, strs_view(base@), resolve_exts()).is_none(),
        },
{
    let ghost b = strs_view(base@);
    let ghost e = resolve_exts();
    assert(e.drop_first() =~= seq!["tsx"@, "js"@, "jsx"@]);
    assert(e.drop_first().drop_first() =~= seq!["js"@, "jsx"@]);
    assert(e.drop_first().drop_first().drop_first() =~= seq!["jsx"@]);
    assert(e.drop_first().drop_first().drop_first().drop_first() =~= Seq::<Seq<char>>::empty());
    proof {
        reveal_with_fuel(first_with_ext, 5);
    }
    let c = set_extension(base, "ts");
    if find_key(keys, &c, g).is_some() {
        return Some(c);
    }
    let c = set_extension(base, "tsx");
    if find_key(keys, &c, g).is_some() {
        return Some(c);
    }
    let c = set_extension(base, "js");
    if find_key(keys, &c, g).is_some() {
        return Some(c);
    }
    let c = set_extension(base, "jsx");
    if find_key(keys, &c, g).is_some() {
        return Some(c);
    }
    None
}

/// The nodes of a graph are keyed uniquely.
pub proof fn lemma_graph_nodes_unique(ms: Seq<ParsedModule>)
    ensures
        unique_keys(graph_nodes(ms)),
    decreases ms.len(),
{
    if ms.len() > 0 {
        let g = graph_nodes(ms.drop_last());
        let m = ms.last();
        lemma_graph_nodes_unique(ms.drop_last());
        lemma_key_index_props(g, key_of(m));
        if has_key(g, key_of(m)) {
            let p = key_index(g, key_of(m));
            let g2 = g.update(p, m);
            assert forall|a: int, b: int| 0 <= a < b < g2.len() implies key_of(g2[a]) != key_of(g2[b]) by {
                assert(key_of(g2[a]) == key_of(g[a]));
                assert(key_of(g2[b]) == key_of(g[b]));
            }
        } else {
            let g2 = g.push(m);
            assert forall|a: int, b: int| 0 <= a < b < g2.len() implies key_of(g2[a]) != key_of(g2[b]) by {
                if b == g.len() {
                    assert(g2[a] == g[a]);
                    if key_of(g[a]) == key_of(m) {
                        assert(has_key(g, key_of(m)));
                    }
                } else {
                    assert(g2[a] == g[a] && g2[b] == g[b]);
                }
            }
        }
    }
}

/// Law: the module a graph gives for a path is the last of the modules it
/// was built from with that path (a later module with the same path replaces
/// an earlier one).
pub proof fn law_graph_last_wins(ms: Seq<ParsedModule>, i: int)
    requires
        0 <= i < ms.len(),
        forall|j: int| i < j < ms.len() ==> key_of(#[trigger] ms[j]) != key_of(ms[i]),
    ensures
        lookup(graph_nodes(ms), key_of(ms[i])) == Some(ms[i]),
    decreases ms.len(),
{
    let k = key_of(ms[i]);
    let g = graph_nodes(ms.drop_last());
    let m = ms.last();
    lemma_graph_nodes_unique(ms.drop_last());
    lemma_graph_nodes_unique(ms);
    lemma_key_index_props(g, key_of(m));
    let g2 = graph_nodes(ms);
    if i == ms.len() - 1 {
        if has_key(g, key_of(m)) {
            let p = key_index(g, key_of(m));
            assert(g2[p] == m);
            lemma_key_index(g2, k, p);
        } else {
            assert(g2[g.len() as int] == m);
            lemma_key_index(g2, k, g.len() as int);
        }
    } else {
        assert(ms.drop_last()[i] == ms[i]);
        assert forall|j: int| i < j < ms.drop_last().len() implies key_of(#[trigger] ms.drop_last()[j])
            != key_of(ms.drop_last()[i]) by {
            assert(ms.drop_last()[j] == ms[j]);
        }
        law_graph_last_wins(ms.drop_last(), i);
        lemma_key_index_props(g, k);
        let q = key_index(g, k);
        assert(g[q] == ms[i]);
        assert(key_of(m) != k);
        if has_key(g, key_of(m)) {
            let p = key_index(g, key_of(m));
            assert(p != q);
            assert(g2[q] == g[q]);
            lemma_key_index(g2, k, q);
        } else {
            assert(g2[q] == g[q]);
            lemma_key_index(g2, k, q);
        }
    }
}

/// Law: a graph gives no module for a path that none of the modules it was
/// built from has.
pub proof fn law_graph_absent(ms: Seq<ParsedModule>, k: Seq<Seq<char>>)
    requires
        forall|i: int| 0 <= i < ms.len() ==> key_of(#[trigger] ms[i]) != k,
    ensures
        lookup(graph_nodes(ms), k).is_none(),
    decreases ms.len(),
{
    if ms.len() > 0 {
        assert forall|i: int| 0 <= i < ms.drop_last().len() implies key_of(#[trigger] ms.drop_last()[i]) != k by {
            assert(ms.drop_last()[i] == ms[i]);
        }
        law_graph_absent(ms.drop_last(), k);
        let g = graph_nodes(ms.drop_last());
        let m = ms.last();
        assert(key_of(m) != k);
        let g2 = graph_nodes(ms);
        if has_key(g2, k) {
            let c = choose|c: int| 0 <= c < g2.len() && key_of(#[trigger] g2[c]) == k;
            lemma_key_index_props(g, key_of(m));
            if has_key(g, key_of(m)) {
                let p = key_index(g, key_of(m));
                if c != p {
                    assert(g2[c] == g[c]);
                    assert(has_key(g, k));
                }
            } else {
                if c < g.len() {
                    assert(g2[c] == g[c]);
                    assert(has_key(g, k));
                }
            }
        }
    }
}

proof fn lemma_first_with_ext_key(g: Seq<ParsedModule>, base: Seq<Seq<char>>, exts: Seq<Seq<char>>)
    ensures
        first_with_ext(g, base, exts) matches Some(c) ==> has_key(g, c),
    decreases exts.len(),
{
    if exts.len() > 0 {
        lemma_first_with_ext_key(g, base, exts.drop_first());
    }
}

proof fn lemma_deps_keys(tests: Seq<ParsedModule>, g: Seq<ParsedModule>, k: Seq<Seq<char>>)
    ensures
        forall|i: int| 0 <= i < deps_for_key(tests, g, k).len() ==> has_key(g, #[trigger] deps_for_key(tests, g, k)[i]),
    decreases tests.len(),
{
    if tests.len() > 0 {
        lemma_deps_keys(tests.drop_last(), g, k);
        let d = deps_for_key(tests.drop_last(), g, k);
        let m = tests.last();
        let md = module_deps(g, m);
        assert forall|i: int| 0 <= i < md.len() implies has_key(g, #[trigger] md[i]) by {
            crate::seqs::lemma_filter_map_member(
                m.imports_parsed@,
                |imp: ImportEntry| resolve_import(g, m, imp),
                i,
            );
            let j = choose|j: int| 0 <= j < m.imports_parsed@.len() && resolve_import(g, m, #[trigger] m.imports_parsed@[j]) == Some(md[i]);
            let imp = m.imports_parsed@[j];
            match parent_components(key_of(m)) {
                Some(p) => lemma_first_with_ext_key(g, join_components(p, imp.source@), resolve_exts()),
                None => {},
            }
        }
        let all = deps_for_key(tests, g, k);
        assert forall|i: int| 0 <= i < all.len() implies has_key(g, #[trigger] all[i]) by {
            if key_of(m) == k {
                if i < d.len() {
                    assert(all[i] == d[i]);
                } else {
                    assert(all[i] == md[i - d.len()]);
                }
            }
        }
    }
}

/// Whether an import names a relative or absolute path.
pub open spec fn relative_import(imp: ImportEntry) -> bool {
    imp.source@.len() > 0 && (imp.source@[0] == '.' || imp.source@[0] == '/')
}

/// The relative and absolute imports of a module, in order.
pub open spec fn relative_imports(m: ParsedModule) -> Seq<ImportEntry> {
    filter_map(m.imports_parsed@, |imp: ImportEntry| if relative_import(imp) { Some(imp) } else { None })
}

/// Law: the edges of a module all land on modules of the graph, so that its
/// dependencies are exactly as many as its edges (none is dropped); and a
/// test module has at most one edge per relative or absolute import.
pub proof fn law_graph_edges(tests: Seq<ParsedModule>, sources: Seq<ParsedModule>, k: Seq<Seq<char>>)
    ensures
        forall|i: int|
            0 <= i < deps_for_key(tests, graph_nodes(tests + sources), k).len() ==> has_key(
                graph_nodes(tests + sources),
                #[trigger] deps_for_key(tests, graph_nodes(tests + sources), k)[i],
            ),
        filter_map(
            deps_for_key(tests, graph_nodes(tests + sources), k),
            |d: Seq<Seq<char>>| lookup(graph_nodes(tests + sources), d),
        ).len() == deps_for_key(tests, graph_nodes(tests + sources), k).len(),
        forall|t: int|
            0 <= t < tests.len() ==> module_deps(graph_nodes(tests + sources), #[trigger] tests[t]).len()
                <= relative_imports(tests[t]).len(),
{
    let g = graph_nodes(tests + sources);
    let ds = deps_for_key(tests, g, k);
    lemma_deps_keys(tests, g, k);
    assert forall|j: int| 0 <= j < ds.len() implies lookup(g, #[trigger] ds[j]).is_some() by {
        assert(has_key(g, ds[j]));
    }
    crate::seqs::lemma_filter_map_total(ds, |d: Seq<Seq<char>>| lookup(g, d));
    assert forall|t: int| 0 <= t < tests.len() implies module_deps(g, #[trigger] tests[t]).len()
        <= relative_imports(tests[t]).len() by {
        let m = tests[t];
        assert forall|j: int|
            0 <= j < m.imports_parsed@.len() && (#[trigger] resolve_import(g, m, m.imports_parsed@[j])).is_some() implies relative_import(
            m.imports_parsed@[j],
        ) by {}
        crate::seqs::lemma_filter_map_le(
            m.imports_parsed@,
            |imp: ImportEntry| resolve_import(g, m, imp),
            |imp: ImportEntry| if relative_import(imp) { Some(imp) } else { None },
        );
    }
}

} // verus!
