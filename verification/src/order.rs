//! The order of the report: violations sorted by file path, compared the way
//! `std::path::Path` orders paths (component by component), then by line; a
//! stable sort, so violations with equal keys keep their order.

use vstd::prelude::*;
use crate::models::{Violation, ViolationView, copy_violation, violations_view};
use crate::paths::{components, path_components};
use crate::seqs::strs_view;
use crate::text::chars_of;

verus! {

/// The rank of a path component in `std::path::Component`'s order: the root
/// `/`, then `.`, then `..`, then names.
pub open spec fn component_rank(c: Seq<char>) -> int {
    if c == seq!['/'] {
        0
    } else if c == seq!['.'] {
        1
    } else if c == seq!['.', '.'] {
        2
    } else {
        3
    }
}

/// Three-way comparison of two strings, character by character (`-1`, `0`
/// or `1`); a proper prefix comes first.
pub open spec fn chars_order(a: Seq<char>, b: Seq<char>) -> int
    decreases a.len(),
{
    if a.len() == 0 {
        if b.len() == 0 {
            0
        } else {
            -1
        }
    } else if b.len() == 0 {
        1
    } else if a[0] < b[0] {
        -1
    } else if a[0] > b[0] {
        1
    } else {
        chars_order(a.drop_first(), b.drop_first())
    }
}

/// Three-way comparison of two path components.
pub open spec fn component_order(a: Seq<char>, b: Seq<char>) -> int {
    if component_rank(a) < component_rank(b) {
        -1
    } else if component_rank(a) > component_rank(b) {
        1
    } else if component_rank(a) < 3 {
        0
    } else {
        chars_order(a, b)
    }
}

/// Three-way lexicographic comparison of two component lists.
pub open spec fn paths_order(a: Seq<Seq<char>>, b: Seq<Seq<char>>) -> int
    decreases a.len(),
{
    if a.len() == 0 {
        if b.len() == 0 {
            0
        } else {
            -1
        }
    } else if b.len() == 0 {
        1
    } else if component_order(a[0], b[0]) != 0 {
        component_order(a[0], b[0])
    } else {
        paths_order(a.drop_first(), b.drop_first())
    }
}

/// Whether `a` may come before `b` in the report: its path is smaller, or
/// the paths are equal and its line is not larger.
pub open spec fn key_le(a: ViolationView, b: ViolationView) -> bool {
    let c = paths_order(components(a.file_path), components(b.file_path));
    c < 0 || (c == 0 && a.line <= b.line)
}

/// `s` with `v` inserted after the last of its trailing violations that may
/// come before `v`.
pub open spec fn insert_by_key(s: Seq<ViolationView>, v: ViolationView) -> Seq<ViolationView>
    decreases s.len(),
{
    if s.len() == 0 || key_le(s.last(), v) {
        s.push(v)
    } else {
        insert_by_key(s.drop_last(), v).push(s.last())
    }
}

/// The stable sort of `s` by `key_le`: each violation inserted, in order,
/// into the sorted violations before it.
pub open spec fn sorted_views(s: Seq<ViolationView>) -> Seq<ViolationView>
    decreases s.len(),
{
    if s.len() == 0 {
        s
    } else {
        insert_by_key(sorted_views(s.drop_last()), s.last())
    }
}

/// Three-way comparison of two strings.
fn chars_order_exec(a: &[char], b: &[char]) -> (r: i8)
    ensures
        r as int == chars_order(a@, b@),
{
    let mut i: usize = 0;
    assert(a@.skip(0) == a@);
    assert(b@.skip(0) == b@);
    while i < a.len() && i < b.len() && a[i] == b[i]
        invariant
            i <= a.len(),
            i <= b.len(),
            chars_order(a@, b@) == chars_order(a@.skip(i as int), b@.skip(i as int)),
        decreases a.len() - i,
    {
        assert(a@.skip(i as int).drop_first() == a@.skip(i + 1));
        assert(b@.skip(i as int).drop_first() == b@.skip(i + 1));
        i = i + 1;
    }
    let ghost sa = a@.skip(i as int);
    let ghost sb = b@.skip(i as int);
    if i == a.len() {
        if i == b.len() {
            0
        } else {
            -1
        }
    } else if i == b.len() {
        1
    } else {
        assert(sa[0] == a@[i as int]);
        assert(sb[0] == b@[i as int]);
        if a[i] < b[i] {
            -1
        } else {
            1
        }
    }
}

/// The rank of a path component.
fn component_rank_exec(c: &[char]) -> (r: i8)
    ensures
        r as int == component_rank(c@),
{
    if c.len() == 1 && c[0] == '/' {
        assert(c@ =~= seq!['/']);
        0
    } else if c.len() == 1 && c[0] == '.' {
        assert(c@ =~= seq!['.']);
        1
    } else if c.len() == 2 && c[0] == '.' && c[1] == '.' {
        assert(c@ =~= seq!['.', '.']);
        2
    } else {
        assert(c@ != seq!['/']) by {
            if c@ == seq!['/'] {
                assert(c.len() == 1 && c[0] == '/');
            }
        }
        assert(c@ != seq!['.']) by {
            if c@ == seq!['.'] {
                assert(c.len() == 1 && c[0] == '.');
            }
        }
        assert(c@ != seq!['.', '.']) by {
            if c@ == seq!['.', '.'] {
                assert(c.len() == 2 && c[0] == '.' && c[1] == '.');
            }
        }
        3
    }
}

/// Three-way comparison of two component lists.
fn paths_order_exec(a: &Vec<String>, b: &Vec<String>) -> (r: i8)
    ensures
        r as int == paths_order(strs_view(a@), strs_view(b@)),
{
    let ghost va = strs_view(a@);
    let ghost vb = strs_view(b@);
    let mut i: usize = 0;
    assert(va.skip(0) == va);
    assert(vb.skip(0) == vb);
    while i < a.len() && i < b.len()
        invariant
            i <= a.len(),
            i <= b.len(),
            va == strs_view(a@),
            vb == strs_view(b@),
            paths_order(va, vb) == paths_order(va.skip(i as int), vb.skip(i as int)),
        decreases a.len() - i,
    {
        let ca = chars_of(a[i].as_str());
        let cb = chars_of(b[i].as_str());
        let ra = component_rank_exec(ca.as_slice());
        let rb = component_rank_exec(cb.as_slice());
        assert(va.skip(i as int)[0] == va[i as int]);
        assert(vb.skip(i as int)[0] == vb[i as int]);
        let c: i8 = if ra < rb {
            -1
        } else if ra > rb {
            1
        } else if ra < 3 {
            0
        } else {
            chars_order_exec(ca.as_slice(), cb.as_slice())
        };
        if c != 0 {
            return c;
        }
        assert(va.skip(i as int).drop_first() == va.skip(i + 1));
        assert(vb.skip(i as int).drop_first() == vb.skip(i + 1));
        i = i + 1;
    }
    if i == a.len() {
        if i == b.len() {
            0
        } else {
            -1
        }
    } else {
        1
    }
}

/// Inserting before the trailing violations that may not come before `v`.
proof fn lemma_insert_at(s: Seq<ViolationView>, v: ViolationView, j: int)
    requires
        0 <= j <= s.len(),
        j == 0 || key_le(s[j - 1], v),
        forall|q: int| j <= q < s.len() ==> !key_le(#[trigger] s[q], v),
    ensures
        insert_by_key(s, v) == s.take(j).push(v) + s.skip(j),
    decreases s.len(),
{
    if s.len() == 0 {
        assert(s.take(j).push(v) + s.skip(j) =~= s.push(v));
    } else if key_le(s.last(), v) {
        assert(j == s.len());
        assert(s.take(j).push(v) + s.skip(j) =~= s.push(v));
    } else {
        let d = s.drop_last();
        assert(j < s.len());
        assert forall|q: int| j <= q < d.len() implies !key_le(#[trigger] d[q], v) by {
            assert(d[q] == s[q]);
        }
        if j > 0 {
            assert(d[j - 1] == s[j - 1]);
        }
        lemma_insert_at(d, v, j);
        assert(d.take(j).push(v) + d.skip(j) + seq![s.last()] =~= s.take(j).push(v) + s.skip(j));
    }
}

/// Whether `a` may come before `b`, given their path components.
fn key_le_exec(ka: &Vec<String>, la: usize, kb: &Vec<String>, lb: usize) -> (r: bool)
    ensures
        r == {
            let c = paths_order(strs_view(ka@), strs_view(kb@));
            c < 0 || (c == 0 && la <= lb)
        },
{
    let c = paths_order_exec(ka, kb);
    c < 0 || (c == 0 && la <= lb)
}

/// Sorts violations by file path, then line, keeping the order of
/// violations with equal keys.
pub fn sort_violations(vs: &Vec<Violation>) -> (r: Vec<Violation>)
    ensures
        violations_view(r@) == sorted_views(violations_view(vs@)),
{
    let ghost vv = violations_view(vs@);
    let mut out: Vec<Violation> = Vec::new();
    let mut keys: Vec<Vec<String>> = Vec::new();
    proof {
        assert(violations_view(out@) =~= sorted_views(vv.take(0)));
    }
    let mut i: usize = 0;
    while i < vs.len()
        invariant
            i <= vs@.len(),
            vv == violations_view(vs@),
            keys@.len() == out@.len(),
            forall|q: int|
                0 <= q < keys@.len() ==> strs_view((#[trigger] keys@[q])@) == components(
                    out@[q].file_path@,
                ),
            violations_view(out@) == sorted_views(vv.take(i as int)),
        decreases vs@.len() - i,
    {
        let v = copy_violation(&vs[i]);
        assert(v@ == vv[i as int]);
        let k = path_components(v.file_path.as_str());
        let ghost s = violations_view(out@);
        let mut j = out.len();
        while j > 0 && !key_le_exec(&keys[j - 1], out[j - 1].line, &k, v.line)
            invariant
                j <= out@.len(),
                keys@.len() == out@.len(),
                s == violations_view(out@),
                strs_view(k@) == components(v@.file_path),
                forall|q: int|
                    0 <= q < keys@.len() ==> strs_view((#[trigger] keys@[q])@) == components(
                        out@[q].file_path@,
                    ),
                forall|q: int| j <= q < s.len() ==> !key_le(#[trigger] s[q], v@),
            decreases j,
        {
            assert(s[j - 1] == out@[j - 1]@);
            j = j - 1;
        }
        proof {
            if j > 0 {
                assert(s[j - 1] == out@[j - 1]@);
            }
            lemma_insert_at(s, v@, j as int);
            let t = vv.take(i + 1);
            assert(t.drop_last() == vv.take(i as int));
            assert(t.last() == vv[i as int]);
        }
        let ghost old_out = out@;
        let ghost old_keys = keys@;
        out.insert(j, v);
        keys.insert(j, k);
        proof {
            assert(violations_view(out@) =~= s.take(j as int).push(v@) + s.skip(j as int)) by {
                assert forall|q: int| 0 <= q < out@.len() implies violations_view(out@)[q] == (
                s.take(j as int).push(v@) + s.skip(j as int))[q] by {
                    if q < j {
                        assert(out@[q] == old_out[q]);
                    } else if q > j {
                        assert(out@[q] == old_out[q - 1]);
                    }
                }
            }
            assert forall|q: int| 0 <= q < keys@.len() implies strs_view((#[trigger] keys@[q])@)
                == components(out@[q].file_path@) by {
                if q < j {
                    assert(keys@[q] == old_keys[q]);
                    assert(out@[q] == old_out[q]);
                } else if q > j {
                    assert(keys@[q] == old_keys[q - 1]);
                    assert(out@[q] == old_out[q - 1]);
                }
            }
        }
        i = i + 1;
    }
    assert(vv.take(vs@.len() as int) == vv);
    out
}

/// `chars_order` is antisymmetric, and zero only on equal strings.
pub proof fn lemma_chars_order_antisym(a: Seq<char>, b: Seq<char>)
    ensures
        chars_order(a, b) == -chars_order(b, a),
        -1 <= chars_order(a, b) <= 1,
        chars_order(a, b) == 0 ==> a == b,
    decreases a.len(),
{
    if a.len() > 0 && b.len() > 0 && a[0] == b[0] {
        lemma_chars_order_antisym(a.drop_first(), b.drop_first());
        if chars_order(a, b) == 0 {
            assert(a =~= seq![a[0]] + a.drop_first());
            assert(b =~= seq![b[0]] + b.drop_first());
        }
    }
    if a.len() == 0 && b.len() == 0 {
        assert(a =~= b);
    }
}

/// `chars_order` is transitive.
pub proof fn lemma_chars_order_trans(a: Seq<char>, b: Seq<char>, c: Seq<char>)
    requires
        chars_order(a, b) <= 0,
        chars_order(b, c) <= 0,
    ensures
        chars_order(a, c) <= 0,
    decreases a.len(),
{
    if a.len() > 0 && b.len() > 0 && c.len() > 0 {
        if a[0] == b[0] && b[0] == c[0] {
            lemma_chars_order_trans(a.drop_first(), b.drop_first(), c.drop_first());
        }
    }
}

/// `component_order` is antisymmetric, and zero only on equal components.
pub proof fn lemma_component_order_antisym(a: Seq<char>, b: Seq<char>)
    ensures
        component_order(a, b) == -component_order(b, a),
        -1 <= component_order(a, b) <= 1,
        component_order(a, b) == 0 ==> a == b,
{
    lemma_chars_order_antisym(a, b);
}

/// `component_order` is transitive.
pub proof fn lemma_component_order_trans(a: Seq<char>, b: Seq<char>, c: Seq<char>)
    requires
        component_order(a, b) <= 0,
        component_order(b, c) <= 0,
    ensures
        component_order(a, c) <= 0,
{
    if component_rank(a) == 3 && component_rank(b) == 3 && component_rank(c) == 3 {
        lemma_chars_order_trans(a, b, c);
    }
}

/// `paths_order` is antisymmetric, and zero only on equal paths.
pub proof fn lemma_paths_order_antisym(a: Seq<Seq<char>>, b: Seq<Seq<char>>)
    ensures
        paths_order(a, b) == -paths_order(b, a),
        -1 <= paths_order(a, b) <= 1,
        paths_order(a, b) == 0 ==> a == b,
    decreases a.len(),
{
    if a.len() > 0 && b.len() > 0 {
        lemma_component_order_antisym(a[0], b[0]);
        if component_order(a[0], b[0]) == 0 {
            lemma_paths_order_antisym(a.drop_first(), b.drop_first());
            if paths_order(a, b) == 0 {
                assert(a =~= seq![a[0]] + a.drop_first());
                assert(b =~= seq![b[0]] + b.drop_first());
            }
        }
    }
    if a.len() == 0 && b.len() == 0 {
        assert(a =~= b);
    }
}

/// `paths_order` is transitive.
pub proof fn lemma_paths_order_trans(a: Seq<Seq<char>>, b: Seq<Seq<char>>, c: Seq<Seq<char>>)
    requires
        paths_order(a, b) <= 0,
        paths_order(b, c) <= 0,
    ensures
        paths_order(a, c) <= 0,
    decreases a.len(),
{
    if a.len() > 0 && b.len() > 0 && c.len() > 0 {
        lemma_component_order_antisym(a[0], b[0]);
        lemma_component_order_antisym(b[0], c[0]);
        lemma_component_order_antisym(a[0], c[0]);
        lemma_component_order_trans(a[0], b[0], c[0]);
        if component_order(a[0], b[0]) == 0 && component_order(b[0], c[0]) == 0 {
            lemma_paths_order_trans(a.drop_first(), b.drop_first(), c.drop_first());
        } else if component_order(a[0], c[0]) == 0 {
            assert(a[0] == c[0]);
            lemma_component_order_trans(c[0], a[0], b[0]);
        }
    }
}

/// `key_le` is total.
pub proof fn lemma_key_le_total(a: ViolationView, b: ViolationView)
    ensures
        key_le(a, b) || key_le(b, a),
{
    lemma_paths_order_antisym(components(a.file_path), components(b.file_path));
}

/// `key_le` is transitive.
pub proof fn lemma_key_le_trans(a: ViolationView, b: ViolationView, c: ViolationView)
    requires
        key_le(a, b),
        key_le(b, c),
    ensures
        key_le(a, c),
{
    let (pa, pb, pc) = (components(a.file_path), components(b.file_path), components(c.file_path));
    lemma_paths_order_trans(pa, pb, pc);
    lemma_paths_order_antisym(pa, pb);
    lemma_paths_order_antisym(pb, pc);
    lemma_paths_order_antisym(pa, pc);
    if paths_order(pa, pc) == 0 {
        if paths_order(pa, pb) < 0 {
            lemma_paths_order_trans(pc, pa, pb);
        }
    }
}

/// Whether a report is sorted: each violation may come before every later one.
pub open spec fn report_sorted(s: Seq<ViolationView>) -> bool {
    forall|i: int, j: int| 0 <= i < j < s.len() ==> key_le(#[trigger] s[i], #[trigger] s[j])
}

/// Inserting into a sorted report keeps it sorted and adds exactly `v`.
proof fn lemma_insert_sorted(s: Seq<ViolationView>, v: ViolationView)
    requires
        report_sorted(s),
    ensures
        report_sorted(insert_by_key(s, v)),
        insert_by_key(s, v).to_multiset() == s.to_multiset().insert(v),
    decreases s.len(),
{
    if s.len() == 0 || key_le(s.last(), v) {
        assert forall|i: int, j: int| 0 <= i < j < s.push(v).len() implies key_le(
            #[trigger] s.push(v)[i],
            #[trigger] s.push(v)[j],
        ) by {
            if j == s.len() {
                if i < s.len() - 1 {
                    lemma_key_le_trans(s[i], s.last(), v);
                }
            }
        }
        broadcast use vstd::seq_lib::group_seq_properties;
    } else {
        let d = s.drop_last();
        assert(report_sorted(d)) by {
            assert forall|i: int, j: int| 0 <= i < j < d.len() implies key_le(#[trigger] d[i], #[trigger] d[j]) by {
                assert(d[i] == s[i] && d[j] == s[j]);
            }
        }
        lemma_insert_sorted(d, v);
        let r = insert_by_key(d, v);
        lemma_key_le_total(s.last(), v);
        assert forall|x: ViolationView| r.contains(x) implies key_le(x, s.last()) by {
            broadcast use vstd::seq_lib::group_seq_properties;
            assert(r.to_multiset().count(x) > 0);
            if x != v {
                assert(d.to_multiset().count(x) > 0);
                let k = choose|k: int| 0 <= k < d.len() && d[k] == x;
                assert(s[k] == x);
            }
        }
        assert forall|i: int, j: int| 0 <= i < j < r.push(s.last()).len() implies key_le(
            #[trigger] r.push(s.last())[i],
            #[trigger] r.push(s.last())[j],
        ) by {
            if j == r.len() {
                assert(r.contains(r[i]));
            } else {
                assert(r.push(s.last())[i] == r[i] && r.push(s.last())[j] == r[j]);
            }
        }
        broadcast use vstd::seq_lib::group_seq_properties;
        assert(s =~= d.push(s.last()));
    }
}

/// Law: the report is sorted by file path (component by component), then
/// line, and holds exactly the violations it was given.
pub proof fn law_sorted_report(s: Seq<ViolationView>)
    ensures
        report_sorted(sorted_views(s)),
        sorted_views(s).to_multiset() == s.to_multiset(),
    decreases s.len(),
{
    if s.len() == 0 {
        broadcast use vstd::seq_lib::group_seq_properties;
    } else {
        law_sorted_report(s.drop_last());
        lemma_insert_sorted(sorted_views(s.drop_last()), s.last());
        broadcast use vstd::seq_lib::group_seq_properties;
        assert(s =~= s.drop_last().push(s.last()));
    }
}

/// `s` with the path `p` inserted after the last path that comes before it,
/// unless a path equal to it is already there.
pub open spec fn insert_path(s: Seq<Seq<char>>, p: Seq<char>) -> Seq<Seq<char>>
    decreases s.len(),
{
    if s.len() == 0 {
        seq![p]
    } else {
        let c = paths_order(components(s.last()), components(p));
        if c < 0 {
            s.push(p)
        } else if c == 0 {
            s
        } else {
            insert_path(s.drop_last(), p).push(s.last())
        }
    }
}

/// The paths of `s` in path order, each path once, kept as the first of `s`
/// that names it (a stable sort, then dropping each path equal to the one
/// before it).
pub open spec fn unique_sorted_paths(s: Seq<Seq<char>>) -> Seq<Seq<char>>
    decreases s.len(),
{
    if s.len() == 0 {
        s
    } else {
        insert_path(unique_sorted_paths(s.drop_last()), s.last())
    }
}

/// Inserting `p` at `j`, behind paths that come before it and before paths
/// that come after it; or nothing, where the path before `j` equals it.
proof fn lemma_insert_path_at(s: Seq<Seq<char>>, p: Seq<char>, j: int)
    requires
        0 <= j <= s.len(),
        forall|q: int| j <= q < s.len() ==> paths_order(components(#[trigger] s[q]), components(p)) > 0,
    ensures
        (j > 0 && paths_order(components(s[j - 1]), components(p)) == 0) ==> insert_path(s, p) == s,
        (j == 0 || paths_order(components(s[j - 1]), components(p)) < 0) ==> insert_path(s, p)
            == s.take(j).push(p) + s.skip(j),
    decreases s.len(),
{
    if s.len() == 0 {
        assert(s.take(j).push(p) + s.skip(j) =~= seq![p]);
    } else if j == s.len() {
        assert(s.take(j).push(p) + s.skip(j) =~= s.push(p));
        assert(s[j - 1] == s.last());
    } else {
        let d = s.drop_last();
        assert(paths_order(components(s[s.len() - 1]), components(p)) > 0);
        assert forall|q: int| j <= q < d.len() implies paths_order(
            components(#[trigger] d[q]),
            components(p),
        ) > 0 by {
            assert(d[q] == s[q]);
        }
        if j > 0 {
            assert(d[j - 1] == s[j - 1]);
        }
        lemma_insert_path_at(d, p, j);
        assert(d.push(s.last()) =~= s);
        assert(d.take(j).push(p) + d.skip(j) + seq![s.last()] =~= s.take(j).push(p) + s.skip(j));
    }
}

/// The candidate files in path order, each path once: a stable sort of the
/// candidates by path, then each path equal to the one before it dropped.
pub fn discovered_files(candidates: &Vec<String>) -> (r: Vec<String>)
    ensures
        strs_view(r@) == unique_sorted_paths(strs_view(candidates@)),
{
    let ghost cv = strs_view(candidates@);
    let mut out: Vec<String> = Vec::new();
    let mut keys: Vec<Vec<String>> = Vec::new();
    assert(strs_view(out@) =~= unique_sorted_paths(cv.take(0)));
    let mut i: usize = 0;
    while i < candidates.len()
        invariant
            i <= candidates@.len(),
            cv == strs_view(candidates@),
            keys@.len() == out@.len(),
            forall|q: int|
                0 <= q < keys@.len() ==> strs_view((#[trigger] keys@[q])@) == components(out@[q]@),
            strs_view(out@) == unique_sorted_paths(cv.take(i as int)),
        decreases candidates@.len() - i,
    {
        let c = &candidates[i];
        let k = path_components(c.as_str());
        let ghost s = strs_view(out@);
        let mut j = out.len();
        while j > 0 && paths_order_exec(&keys[j - 1], &k) > 0
            invariant
                j <= out@.len(),
                keys@.len() == out@.len(),
                s == strs_view(out@),
                strs_view(k@) == components(c@),
                forall|q: int|
                    0 <= q < keys@.len() ==> strs_view((#[trigger] keys@[q])@) == components(
                        out@[q]@,
                    ),
                forall|q: int| j <= q < s.len() ==> paths_order(components(#[trigger] s[q]), components(c@)) > 0,
            decreases j,
        {
            assert(s[j - 1] == out@[j - 1]@);
            j = j - 1;
        }
        let same = j > 0 && paths_order_exec(&keys[j - 1], &k) == 0;
        proof {
            if j > 0 {
                assert(s[j - 1] == out@[j - 1]@);
            }
            lemma_insert_path_at(s, c@, j as int);
            let t = cv.take(i + 1);
            assert(t.drop_last() == cv.take(i as int));
            assert(t.last() == c@);
        }
        if !same {
            let name = c.clone();
            let ghost old_out = out@;
            let ghost old_keys = keys@;
            out.insert(j, name);
            keys.insert(j, k);
            proof {
                assert(strs_view(out@) =~= s.take(j as int).push(c@) + s.skip(j as int)) by {
                    assert forall|q: int| 0 <= q < out@.len() implies strs_view(out@)[q] == (
                    s.take(j as int).push(c@) + s.skip(j as int))[q] by {
                        if q < j {
                            assert(out@[q] == old_out[q]);
                        } else if q > j {
                            assert(out@[q] == old_out[q - 1]);
                        }
                    }
                }
                assert forall|q: int| 0 <= q < keys@.len() implies strs_view((#[trigger] keys@[q])@)
                    == components(out@[q]@) by {
                    if q < j {
                        assert(keys@[q] == old_keys[q]);
                        assert(out@[q] == old_out[q]);
                    } else if q > j {
                        assert(keys@[q] == old_keys[q - 1]);
                        assert(out@[q] == old_out[q - 1]);
                    }
                }
            }
        }
        i = i + 1;
    }
    assert(cv.take(candidates@.len() as int) == cv);
    out
}

/// Whether the paths of `s` come in strictly increasing path order (so that
/// no path occurs twice).
pub open spec fn strictly_sorted_paths(s: Seq<Seq<char>>) -> bool {
    forall|i: int, j: int|
        0 <= i < j < s.len() ==> paths_order(components(#[trigger] s[i]), components(#[trigger] s[j])) < 0
}

/// Whether some string of `s` names the same path as `p`.
pub open spec fn names_path(s: Seq<Seq<char>>, p: Seq<char>) -> bool {
    exists|k: int| 0 <= k < s.len() && components(#[trigger] s[k]) == components(p)
}

proof fn lemma_insert_path_props(s: Seq<Seq<char>>, p: Seq<char>)
    requires
        strictly_sorted_paths(s),
    ensures
        strictly_sorted_paths(insert_path(s, p)),
        names_path(insert_path(s, p), p),
        forall|x: Seq<char>| names_path(s, x) ==> names_path(insert_path(s, p), x),
        forall|x: Seq<char>| insert_path(s, p).contains(x) ==> s.contains(x) || x == p,
    decreases s.len(),
{
    let r = insert_path(s, p);
    if s.len() == 0 {
        assert(r[0] == p);
        assert forall|x: Seq<char>| r.contains(x) implies s.contains(x) || x == p by {
            let k = choose|k: int| 0 <= k < r.len() && r[k] == x;
            assert(k == 0);
        }
    } else {
        let c = paths_order(components(s.last()), components(p));
        lemma_paths_order_antisym(components(s.last()), components(p));
        if c < 0 {
            assert forall|i: int, j: int| 0 <= i < j < r.len() implies paths_order(
                components(#[trigger] r[i]),
                components(#[trigger] r[j]),
            ) < 0 by {
                if j == s.len() {
                    if i < s.len() - 1 {
                        lemma_paths_order_trans(components(s[i]), components(s.last()), components(p));
                        lemma_paths_order_antisym(components(s[i]), components(p));
                        lemma_paths_order_antisym(components(s.last()), components(p));
                        if paths_order(components(s[i]), components(p)) == 0 {
                            assert(components(s[i]) == components(p));
                        }
                    }
                } else {
                    assert(r[i] == s[i] && r[j] == s[j]);
                }
            }
            assert(r[s.len() as int] == p);
            assert forall|x: Seq<char>| names_path(s, x) implies names_path(r, x) by {
                let k = choose|k: int| 0 <= k < s.len() && components(#[trigger] s[k]) == components(x);
                assert(r[k] == s[k]);
            }
            assert forall|x: Seq<char>| r.contains(x) implies s.contains(x) || x == p by {
                let k = choose|k: int| 0 <= k < r.len() && r[k] == x;
                if k < s.len() {
                    assert(r[k] == s[k]);
                }
            }
        } else if c == 0 {
            assert(components(s.last()) == components(p));
            assert(s[s.len() - 1] == s.last());
        } else {
            let d = s.drop_last();
            let l = s.last();
            assert(strictly_sorted_paths(d)) by {
                assert forall|i: int, j: int| 0 <= i < j < d.len() implies paths_order(
                    components(#[trigger] d[i]),
                    components(#[trigger] d[j]),
                ) < 0 by {
                    assert(d[i] == s[i] && d[j] == s[j]);
                }
            }
            lemma_insert_path_props(d, p);
            let rd = insert_path(d, p);
            assert(r == rd.push(l));
            assert forall|x: Seq<char>| rd.contains(x) implies paths_order(components(x), components(l)) < 0 by {
                if x == p {
                } else {
                    assert(d.contains(x));
                    let k = choose|k: int| 0 <= k < d.len() && d[k] == x;
                    assert(s[k] == x);
                    assert(s[s.len() - 1] == l);
                }
            }
            assert forall|i: int, j: int| 0 <= i < j < r.len() implies paths_order(
                components(#[trigger] r[i]),
                components(#[trigger] r[j]),
            ) < 0 by {
                if j == rd.len() {
                    assert(rd.contains(rd[i]));
                    assert(r[i] == rd[i]);
                } else {
                    assert(r[i] == rd[i] && r[j] == rd[j]);
                }
            }
            let kp = choose|k: int| 0 <= k < rd.len() && components(#[trigger] rd[k]) == components(p);
            assert(r[kp] == rd[kp]);
            assert forall|x: Seq<char>| names_path(s, x) implies names_path(r, x) by {
                let k = choose|k: int| 0 <= k < s.len() && components(#[trigger] s[k]) == components(x);
                if k == s.len() - 1 {
                    assert(r[rd.len() as int] == l);
                } else {
                    assert(d[k] == s[k]);
                    assert(names_path(d, x));
                    let k2 = choose|k2: int| 0 <= k2 < rd.len() && components(#[trigger] rd[k2]) == components(x);
                    assert(r[k2] == rd[k2]);
                }
            }
            assert forall|x: Seq<char>| r.contains(x) implies s.contains(x) || x == p by {
                let k = choose|k: int| 0 <= k < r.len() && r[k] == x;
                if k == rd.len() {
                    assert(s[s.len() - 1] == l);
                } else {
                    assert(rd[k] == x);
                    assert(rd.contains(x));
                    if x != p {
                        assert(d.contains(x));
                        let k2 = choose|k2: int| 0 <= k2 < d.len() && d[k2] == x;
                        assert(s[k2] == x);
                    }
                }
            }
        }
    }
}

/// The discovered files come in strictly increasing path order, so that no
/// path occurs twice; each is one of the candidates; and every candidate's
/// path is among them.
pub proof fn law_discovered_files(s: Seq<Seq<char>>)
    ensures
        strictly_sorted_paths(unique_sorted_paths(s)),
        forall|x: Seq<char>| unique_sorted_paths(s).contains(x) ==> s.contains(x),
        forall|i: int| 0 <= i < s.len() ==> names_path(unique_sorted_paths(s), #[trigger] s[i]),
    decreases s.len(),
{
    if s.len() > 0 {
        let d = s.drop_last();
        law_discovered_files(d);
        lemma_insert_path_props(unique_sorted_paths(d), s.last());
        assert forall|x: Seq<char>| unique_sorted_paths(s).contains(x) implies s.contains(x) by {
            if x == s.last() {
                assert(s[s.len() - 1] == x);
            } else {
                assert(unique_sorted_paths(d).contains(x));
                assert(d.contains(x));
                let k = choose|k: int| 0 <= k < d.len() && d[k] == x;
                assert(s[k] == x);
            }
        }
        assert forall|i: int| 0 <= i < s.len() implies names_path(unique_sorted_paths(s), #[trigger] s[i]) by {
            if i < s.len() - 1 {
                assert(d[i] == s[i]);
            }
        }
    }
}

} // verus!
