//! File paths as sequences of components, compared the way `std::path::Path`
//! compares them: repeated separators and `.` segments after the first are
//! ignored, a leading `/` or `.` is a component of its own.

use vstd::prelude::*;
use crate::seqs::{lemma_strs_view_push, strs_view};
use crate::text::{chars_of, find_char, first_index, slice_range, string_of, str_eq};

verus! {

/// Whether a piece between separators is kept as a component.
pub open spec fn keep_segment(seg: Seq<char>) -> bool {
    seg.len() > 0 && seg != seq!['.']
}

/// The non-empty, non-`.` pieces of `s` between `/` separators.
pub open spec fn kept_segments(s: Seq<char>) -> Seq<Seq<char>>
    decreases s.len(),
{
    let i = first_index(s, '/');
    let head = s.take(i as int);
    let rest = if i < s.len() {
        kept_segments(s.skip((i + 1) as int))
    } else {
        Seq::empty()
    };
    if keep_segment(head) {
        seq![head] + rest
    } else {
        rest
    }
}

/// Whether `p` is absolute.
pub open spec fn is_absolute(p: Seq<char>) -> bool {
    p.len() > 0 && p[0] == '/'
}

/// The components of `p`: `/` first for an absolute path, `.` first for a
/// relative path whose first piece is `.`, then the kept segments.
pub open spec fn components(p: Seq<char>) -> Seq<Seq<char>> {
    if is_absolute(p) {
        seq![seq!['/']] + kept_segments(p)
    } else if p.take(first_index(p, '/') as int) == seq!['.'] {
        seq![seq!['.']] + kept_segments(p)
    } else {
        kept_segments(p)
    }
}

/// The components of the parent directory (`Path::parent`).
pub open spec fn parent_components(c: Seq<Seq<char>>) -> Option<Seq<Seq<char>>> {
    if c.len() == 0 || (c.len() == 1 && c[0] == seq!['/']) {
        None
    } else {
        Some(c.drop_last())
    }
}

/// The components of `base` joined with the path `src` (`Path::join`).
pub open spec fn join_components(base: Seq<Seq<char>>, src: Seq<char>) -> Seq<Seq<char>> {
    if is_absolute(src) || base.len() == 0 {
        components(src)
    } else {
        base + kept_segments(src)
    }
}

/// Whether a component names a file or directory (not `/`, `.` or `..`).
pub open spec fn is_normal(c: Seq<char>) -> bool {
    c != seq!['/'] && c != seq!['.'] && c != seq!['.', '.']
}

/// The position of the last `.` in `s`, or `-1`.
pub open spec fn last_dot(s: Seq<char>) -> int
    decreases s.len(),
{
    if s.len() == 0 {
        -1
    } else if s.last() == '.' {
        s.len() - 1
    } else {
        last_dot(s.drop_last())
    }
}

/// The file stem of a name (`Path::file_stem`).
pub open spec fn stem(name: Seq<char>) -> Seq<char> {
    if last_dot(name) > 0 {
        name.take(last_dot(name))
    } else {
        name
    }
}

/// The components with the extension of the last one set to `ext`
/// (`Path::with_extension`).
pub open spec fn with_extension(c: Seq<Seq<char>>, ext: Seq<char>) -> Seq<Seq<char>> {
    if c.len() > 0 && is_normal(c.last()) {
        c.update(c.len() - 1, stem(c.last()).push('.') + ext)
    } else {
        c
    }
}

proof fn lemma_skip_take(s: Seq<char>, p: int, i: int)
    requires
        0 <= p <= i <= s.len(),
    ensures
        s.skip(p).take(i - p) == s.subrange(p, i),
{
    assert(s.skip(p).take(i - p) =~= s.subrange(p, i));
}

/// The kept segments of `s[from..to]`, extending `acc`.
fn kept_segments_exec(s: &[char], from: usize, acc: &mut Vec<String>)
    requires
        from <= s.len(),
    ensures
        strs_view(final(acc)@) == strs_view(old(acc)@) + kept_segments(s@.skip(from as int)),
{
    let ghost start = strs_view(acc@);
    let mut p = from;
    let mut fin = false;
    while !fin
        invariant
            from <= p <= s.len(),
            fin ==> strs_view(acc@) == start + kept_segments(s@.skip(from as int)),
            !fin ==> strs_view(acc@) + kept_segments(s@.skip(p as int)) == start + kept_segments(
                s@.skip(from as int),
            ),
        decreases (s.len() - p) + if fin { 0int } else { 1int },
    {
        let i = find_char(s, p, '/');
        let ghost rest = s@.skip(p as int);
        let ghost head = s@.subrange(p as int, i as int);
        proof {
            lemma_skip_take(s@, p as int, i as int);
        }
        let seg = slice_range(s, p, i);
        let keep = seg.len() > 0 && !(seg.len() == 1 && seg[0] == '.');
        proof {
            assert(seg@ == head);
            if seg.len() == 1 && seg[0] == '.' {
                assert(head =~= seq!['.']);
            }
            if head == seq!['.'] {
                assert(seg.len() == 1 && seg[0] == '.');
            }
            assert(keep == keep_segment(head));
        }
        let ghost before = acc@;
        if keep {
            let st = string_of(seg);
            acc.push(st);
            proof {
                lemma_strs_view_push(before, st);
            }
        }
        if i < s.len() {
            proof {
                assert(rest.skip((i - p + 1) as int) == s@.skip(i + 1));
                assert(kept_segments(rest) == (if keep { seq![head] } else { Seq::empty() })
                    + kept_segments(s@.skip(i + 1)));
                assert(strs_view(acc@) + kept_segments(s@.skip(i + 1)) =~= strs_view(before)
                    + kept_segments(rest));
            }
            p = i + 1;
        } else {
            proof {
                assert(kept_segments(rest) == (if keep { seq![head] } else { Seq::empty() }));
                assert(strs_view(acc@) =~= strs_view(before) + kept_segments(rest));
            }
            fin = true;
        }
    }
}

/// The components of the path `p`.
pub fn path_components(p: &str) -> (res: Vec<String>)
    ensures
        strs_view(res@) == components(p@),
{
    let cs = chars_of(p);
    let mut res: Vec<String> = Vec::new();
    assert(strs_view(res@) =~= Seq::<Seq<char>>::empty());
    assert(cs@.skip(0) == cs@);
    if cs.len() > 0 && cs[0] == '/' {
        let root = string_of(slice_range(cs.as_slice(), 0, 1));
        assert(cs@.subrange(0, 1) =~= seq!['/']);
        res.push(root);
        proof {
            lemma_strs_view_push(Seq::empty(), root);
        }
    } else {
        let i = find_char(cs.as_slice(), 0, '/');
        if i == 1 && cs[0] == '.' {
            let cur = string_of(slice_range(cs.as_slice(), 0, 1));
            assert(cs@.subrange(0, 1) =~= seq!['.']);
            assert(cs@.take(1) =~= seq!['.']);
            res.push(cur);
            proof {
                lemma_strs_view_push(Seq::empty(), cur);
            }
        } else {
            proof {
                if cs@.take(i as int) == seq!['.'] {
                    assert(cs@.take(i as int).len() == 1);
                    assert(cs@.take(i as int)[0] == '.');
                }
            }
        }
    }
    kept_segments_exec(cs.as_slice(), 0, &mut res);
    res
}

/// Whether two component lists are equal.
pub fn components_eq(a: &Vec<String>, b: &Vec<String>) -> (r: bool)
    ensures
        r == (strs_view(a@) == strs_view(b@)),
{
    if a.len() != b.len() {
        assert(strs_view(a@).len() != strs_view(b@).len());
        return false;
    }
    let mut i: usize = 0;
    while i < a.len()
        invariant
            a.len() == b.len(),
            i <= a.len(),
            forall|j: int| 0 <= j < i ==> a@[j]@ == b@[j]@,
        decreases a.len() - i,
    {
        if !str_eq(a[i].as_str(), b[i].as_str()) {
            assert(strs_view(a@)[i as int] != strs_view(b@)[i as int]);
            return false;
        }
        i = i + 1;
    }
    assert(strs_view(a@) =~= strs_view(b@));
    true
}

/// The components of the parent directory.
pub fn parent_of(c: &Vec<String>) -> (r: Option<Vec<String>>)
    ensures
        match r {
            Some(p) => parent_components(strs_view(c@)) == Some(strs_view(p@)),
            None => parent_components(strs_view(c@)).is_none(),
        },
{
    if c.len() == 0 {
        return None;
    }
    if c.len() == 1 && str_eq(c[0].as_str(), "/") {
        proof {
            reveal_strlit("/");
        }
        assert(strs_view(c@)[0] =~= seq!['/']);
        return None;
    }
    proof {
        reveal_strlit("/");
        assert("/"@ =~= seq!['/']);
        if c.len() == 1 {
            assert(strs_view(c@)[0] != seq!['/']);
        }
    }
    let mut r: Vec<String> = Vec::new();
    let mut i: usize = 0;
    while i + 1 < c.len()
        invariant
            c.len() >= 1,
            i + 1 <= c.len(),
            strs_view(r@) == strs_view(c@).take(i as int),
        decreases c.len() - i,
    {
        let ghost before = r@;
        let item = c[i].clone();
        r.push(item);
        proof {
            lemma_strs_view_push(before, item);
            assert(strs_view(c@).take(i + 1) == strs_view(c@).take(i as int).push(c@[i as int]@));
        }
        i = i + 1;
    }
    assert(strs_view(c@).drop_last() == strs_view(c@).take(i as int));
    Some(r)
}

/// The components of `base` joined with the path `src`.
pub fn join_path(base: &Vec<String>, src: &str) -> (r: Vec<String>)
    ensures
        strs_view(r@) == join_components(strs_view(base@), src@),
{
    let cs = chars_of(src);
    if (cs.len() > 0 && cs[0] == '/') || base.len() == 0 {
        return path_components(src);
    }
    let mut r = crate::models::copy_strings(base);
    assert(cs@.skip(0) == cs@);
    kept_segments_exec(cs.as_slice(), 0, &mut r);
    r
}

/// The position of the last `.` in `s`, or `None`.
fn last_dot_exec(s: &[char]) -> (r: Option<usize>)
    ensures
        match r {
            Some(i) => i < s@.len() && last_dot(s@) == i,
            None => last_dot(s@) == -1,
        },
{
    let mut k = s.len();
    assert(s@.take(k as int) == s@);
    while k > 0 && s[k - 1] != '.'
        invariant
            k <= s.len(),
            last_dot(s@) == last_dot(s@.take(k as int)),
        decreases k,
    {
        assert(s@.take(k as int).drop_last() == s@.take(k - 1));
        k = k - 1;
    }
    if k == 0 {
        assert(s@.take(0) =~= Seq::<char>::empty());
        None
    } else {
        Some(k - 1)
    }
}

/// Whether a component names a file or directory (`is_normal`).
fn normal_component(last: &[char]) -> (b: bool)
    ensures
        b == is_normal(last@),
{
    let normal = !(last.len() == 1 && (last[0] == '/' || last[0] == '.')) && !(last.len() == 2
        && last[0] == '.' && last[1] == '.');
    proof {
        let l = last@;
        if l == seq!['/'] || l == seq!['.'] {
            assert(last.len() == 1);
        }
        if l == seq!['.', '.'] {
            assert(last.len() == 2 && last[0] == '.' && last[1] == '.');
        }
        if last.len() == 1 && last[0] == '/' {
            assert(l =~= seq!['/']);
        }
        if last.len() == 1 && last[0] == '.' {
            assert(l =~= seq!['.']);
        }
        if last.len() == 2 && last[0] == '.' && last[1] == '.' {
            assert(l =~= seq!['.', '.']);
        }
    }
    normal
}

/// The file stem of a path (`Path::file_stem`): the stem of its last
/// component, when that names a file or directory.
pub open spec fn file_stem(p: Seq<char>) -> Option<Seq<char>> {
    let c = components(p);
    if c.len() > 0 && is_normal(c.last()) {
        Some(stem(c.last()))
    } else {
        None
    }
}

/// The file stem of a path (`Path::file_stem`).
pub fn path_file_stem(p: &str) -> (r: Option<String>)
    ensures
        match r {
            Some(s) => file_stem(p@) == Some(s@),
            None => file_stem(p@).is_none(),
        },
{
    let c = path_components(p);
    if c.len() == 0 {
        return None;
    }
    let last = chars_of(c[c.len() - 1].as_str());
    assert(last@ == components(p@).last());
    if !normal_component(last.as_slice()) {
        return None;
    }
    let dot = last_dot_exec(last.as_slice());
    let stem_end = match dot {
        Some(d) => if d > 0 { d } else { last.len() },
        None => last.len(),
    };
    let name = string_of(slice_range(last.as_slice(), 0, stem_end));
    assert(last@.subrange(0, last@.len() as int) == last@);
    Some(name)
}

/// The components with the extension of the last one set to `ext`.
pub fn set_extension(c: &Vec<String>, ext: &str) -> (r: Vec<String>)
    ensures
        strs_view(r@) == with_extension(strs_view(c@), ext@),
{
    let mut r = crate::models::copy_strings(c);
    if c.len() == 0 {
        return r;
    }
    let last = chars_of(c[c.len() - 1].as_str());
    let normal = normal_component(last.as_slice());
    if !normal {
        return r;
    }
    let dot = last_dot_exec(last.as_slice());
    let stem_end = match dot {
        Some(d) => if d > 0 { d } else { last.len() },
        None => last.len(),
    };
    let mut name = string_of(slice_range(last.as_slice(), 0, stem_end));
    proof {
        assert(last@.subrange(0, last@.len() as int) == last@);
        assert(name@ == stem(last@));
    }
    crate::text::push_char(&mut name, '.');
    name.append(ext);
    let ghost before = r@;
    r.set(c.len() - 1, name);
    proof {
        assert(strs_view(r@) =~= strs_view(before).update(c.len() - 1, stem(last@).push('.') + ext@));
    }
    r
}

/// The extension of a path (`Path::extension`): what follows the last `.`
/// of its last component, when that names a file and the `.` is not its
/// first character.
pub open spec fn extension(p: Seq<char>) -> Option<Seq<char>> {
    let c = components(p);
    if c.len() > 0 && is_normal(c.last()) && last_dot(c.last()) > 0 {
        Some(c.last().skip(last_dot(c.last()) + 1))
    } else {
        None
    }
}

/// The extension of a path (`Path::extension`).
pub fn path_extension(p: &str) -> (r: Option<String>)
    ensures
        match r {
            Some(s) => extension(p@) == Some(s@),
            None => extension(p@).is_none(),
        },
{
    let c = path_components(p);
    if c.len() == 0 {
        return None;
    }
    let last = chars_of(c[c.len() - 1].as_str());
    assert(last@ == components(p@).last());
    if !normal_component(last.as_slice()) {
        return None;
    }
    match last_dot_exec(last.as_slice()) {
        Some(d) => {
            if d == 0 {
                return None;
            }
            let n = last.len();
            assert(d < n);
            let ext = string_of(slice_range(last.as_slice(), d + 1, n));
            assert(last@.subrange(d + 1, last@.len() as int) == last@.skip(d + 1));
            Some(ext)
        },
        None => None,
    }
}

} // verus!
