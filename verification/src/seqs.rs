//! Helpers over sequences of strings and generic sequence folds.

use vstd::prelude::*;
use crate::text::str_eq;

verus! {

/// The views of a sequence of strings.
pub open spec fn strs_view(v: Seq<String>) -> Seq<Seq<char>> {
    v.map_values(|s: String| s@)
}

/// The view of a pushed sequence of strings.
pub proof fn lemma_strs_view_push(v: Seq<String>, s: String)
    ensures
        strs_view(v.push(s)) == strs_view(v).push(s@),
{
    assert(strs_view(v.push(s)) =~= strs_view(v).push(s@));
}

/// Keeps the values that `f` maps to `Some`, in order.
pub open spec fn filter_map<A, B>(s: Seq<A>, f: spec_fn(A) -> Option<B>) -> Seq<B>
    decreases s.len(),
{
    if s.len() == 0 {
        Seq::empty()
    } else {
        let r = filter_map(s.drop_last(), f);
        match f(s.last()) {
            Some(b) => r.push(b),
            None => r,
        }
    }
}

/// Extends `filter_map` over a prefix by one more element.
pub proof fn lemma_filter_map_step<A, B>(s: Seq<A>, f: spec_fn(A) -> Option<B>, i: int)
    requires
        0 <= i < s.len(),
    ensures
        filter_map(s.take(i + 1), f) == match f(s[i]) {
            Some(b) => filter_map(s.take(i), f).push(b),
            None => filter_map(s.take(i), f),
        },
{
    assert(s.take(i + 1).drop_last() == s.take(i));
    assert(s.take(i + 1).last() == s[i]);
}

/// `filter_map` over the whole of a sequence is `filter_map` over its full prefix.
pub proof fn lemma_take_full<A>(s: Seq<A>)
    ensures
        s.take(s.len() as int) == s,
{
    assert(s.take(s.len() as int) =~= s);
}

/// Whether `v` holds a string equal to `s`.
pub fn contains_str(v: &Vec<String>, s: &str) -> (b: bool)
    ensures
        b == strs_view(v@).contains(s@),
{
    let mut i: usize = 0;
    while i < v.len()
        invariant
            i <= v.len(),
            forall|j: int| 0 <= j < i ==> v@[j]@ != s@,
        decreases v.len() - i,
    {
        if str_eq(v[i].as_str(), s) {
            assert(strs_view(v@)[i as int] == s@);
            return true;
        }
        i = i + 1;
    }
    proof {
        if strs_view(v@).contains(s@) {
            let k = choose|k: int| 0 <= k < strs_view(v@).len() && strs_view(v@)[k] == s@;
            assert(v@[k]@ == s@);
        }
    }
    false
}

/// Each value that `filter_map` keeps is what `f` gives for an element.
pub proof fn lemma_filter_map_member<A, B>(s: Seq<A>, f: spec_fn(A) -> Option<B>, i: int)
    requires
        0 <= i < filter_map(s, f).len(),
    ensures
        exists|j: int| 0 <= j < s.len() && f(#[trigger] s[j]) == Some(filter_map(s, f)[i]),
    decreases s.len(),
{
    let r = filter_map(s.drop_last(), f);
    if i < r.len() {
        lemma_filter_map_member(s.drop_last(), f, i);
        let j = choose|j: int| 0 <= j < s.drop_last().len() && f(#[trigger] s.drop_last()[j]) == Some(r[i]);
        assert(s[j] == s.drop_last()[j]);
    } else {
        assert(s[s.len() - 1] == s.last());
    }
}

/// Where `f` gives a value for every element, `filter_map` keeps them all.
pub proof fn lemma_filter_map_total<A, B>(s: Seq<A>, f: spec_fn(A) -> Option<B>)
    requires
        forall|j: int| 0 <= j < s.len() ==> (#[trigger] f(s[j])).is_some(),
    ensures
        filter_map(s, f).len() == s.len(),
    decreases s.len(),
{
    if s.len() > 0 {
        assert forall|j: int| 0 <= j < s.drop_last().len() implies (#[trigger] f(s.drop_last()[j])).is_some() by {
            assert(s.drop_last()[j] == s[j]);
        }
        lemma_filter_map_total(s.drop_last(), f);
        assert(f(s[s.len() - 1]).is_some());
    }
}

/// `filter_map` with `f` keeps at most as many values as with `g` where `g`
/// gives a value wherever `f` does.
pub proof fn lemma_filter_map_le<A, B, C>(s: Seq<A>, f: spec_fn(A) -> Option<B>, g: spec_fn(A) -> Option<C>)
    requires
        forall|j: int| 0 <= j < s.len() && (#[trigger] f(s[j])).is_some() ==> g(s[j]).is_some(),
    ensures
        filter_map(s, f).len() <= filter_map(s, g).len(),
    decreases s.len(),
{
    if s.len() > 0 {
        assert forall|j: int| 0 <= j < s.drop_last().len() && (#[trigger] f(s.drop_last()[j])).is_some() implies g(
            s.drop_last()[j],
        ).is_some() by {
            assert(s.drop_last()[j] == s[j]);
        }
        lemma_filter_map_le(s.drop_last(), f, g);
        assert(s[s.len() - 1] == s.last());
    }
}

} // verus!
