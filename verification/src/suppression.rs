//! Inline suppression comments: `// vitest-linter-disable-next-line [ids]`,
//! `// vitest-linter-disable [ids]` and `// vitest-linter-enable [ids]`.

use vstd::prelude::*;
use crate::seqs::{contains_str, strs_view};
use crate::text::{find_char, first_index, chars_of, seq_starts_with, slice_range, starts_with, string_of, trim, trim_bounds};

verus! {

/// `s` without one trailing carriage return.
pub open spec fn strip_cr(s: Seq<char>) -> Seq<char> {
    if s.len() > 0 && s.last() == '\r' {
        s.drop_last()
    } else {
        s
    }
}

/// The lines of `s` as `str::lines` yields them: split at `\n`, a `\r`
/// before the `\n` dropped, no empty line after a final `\n`.
pub open spec fn lines_of(s: Seq<char>) -> Seq<Seq<char>>
    decreases s.len(),
{
    if s.len() == 0 {
        Seq::empty()
    } else {
        let i = first_index(s, '\n');
        if i < s.len() {
            seq![strip_cr(s.take(i as int))] + lines_of(s.skip((i + 1) as int))
        } else {
            seq![s]
        }
    }
}

/// The rule ids of a comma-separated list: each piece trimmed, empty pieces dropped.
pub open spec fn rule_ids(s: Seq<char>) -> Seq<Seq<char>>
    decreases s.len(),
{
    let i = first_index(s, ',');
    let head = trim(s.take(i as int));
    let rest = if i < s.len() {
        rule_ids(s.skip((i + 1) as int))
    } else {
        Seq::empty()
    };
    if head.len() > 0 {
        seq![head] + rest
    } else {
        rest
    }
}

/// What a line of source asks of the suppression map.
pub enum Directive {
    NextLine(Seq<Seq<char>>),
    Enable(Seq<Seq<char>>),
    Disable(Seq<Seq<char>>),
    Plain,
}

/// The text of a `//` comment line, trimmed; `None` for other lines.
pub open spec fn comment_text(line: Seq<char>) -> Option<Seq<char>> {
    let t = trim(line);
    if t.len() >= 2 && t[0] == '/' && t[1] == '/' {
        Some(trim(t.skip(2)))
    } else {
        None
    }
}

/// The directive a line holds.
pub open spec fn directive(line: Seq<char>) -> Directive {
    match comment_text(line) {
        None => Directive::Plain,
        Some(c) => if starts_with(c, "vitest-linter-disable-next-line"@) {
            Directive::NextLine(rule_ids(trim(c.skip("vitest-linter-disable-next-line"@.len() as int))))
        } else if starts_with(c, "vitest-linter-enable"@) {
            Directive::Enable(rule_ids(trim(c.skip("vitest-linter-enable"@.len() as int))))
        } else if starts_with(c, "vitest-linter-disable"@) {
            Directive::Disable(rule_ids(trim(c.skip("vitest-linter-disable"@.len() as int))))
        } else {
            Directive::Plain
        },
    }
}

/// The ranges open after a line: all rules, and the rules opened by id.
pub struct RangeState {
    pub all: bool,
    pub active: Seq<Seq<char>>,
}

/// `s` without the elements that occur in `r`.
pub open spec fn without(s: Seq<Seq<char>>, r: Seq<Seq<char>>) -> Seq<Seq<char>>
    decreases s.len(),
{
    if s.len() == 0 {
        s
    } else {
        let w = without(s.drop_last(), r);
        if r.contains(s.last()) {
            w
        } else {
            w.push(s.last())
        }
    }
}

/// `s` extended by the elements of `r` that it does not hold yet, in order.
pub open spec fn add_all(s: Seq<Seq<char>>, r: Seq<Seq<char>>) -> Seq<Seq<char>>
    decreases r.len(),
{
    if r.len() == 0 {
        s
    } else {
        let a = add_all(s, r.drop_last());
        if a.contains(r.last()) {
            a
        } else {
            a.push(r.last())
        }
    }
}

/// The effect of one directive on the open ranges.
pub open spec fn step(st: RangeState, d: Directive) -> RangeState {
    match d {
        Directive::Enable(r) => if r.len() == 0 {
            RangeState { all: false, active: Seq::empty() }
        } else {
            RangeState { all: st.all, active: without(st.active, r) }
        },
        Directive::Disable(r) => if r.len() == 0 {
            RangeState { all: true, active: st.active }
        } else {
            RangeState { all: st.all, active: add_all(st.active, r) }
        },
        _ => st,
    }
}

/// The open ranges after the first `k` lines.
pub open spec fn state_after(lines: Seq<Seq<char>>, k: nat) -> RangeState
    decreases k,
{
    if k == 0 || k > lines.len() {
        RangeState { all: false, active: Seq::empty() }
    } else {
        step(state_after(lines, (k - 1) as nat), directive(lines[k - 1]))
    }
}

/// The rules that a `disable-next-line` comment names for line `l` (1-based).
pub open spec fn next_line_rules(lines: Seq<Seq<char>>, l: int) -> Option<Seq<Seq<char>>> {
    if 2 <= l <= lines.len() + 1 {
        match directive(lines[l - 2]) {
            Directive::NextLine(r) => Some(r),
            _ => None,
        }
    } else {
        None
    }
}

/// The rules suppressed on line `l` (1-based) by open ranges; the empty id
/// stands for all rules.
pub open spec fn range_rules(lines: Seq<Seq<char>>, l: int) -> Option<Seq<Seq<char>>> {
    if 1 <= l <= lines.len() {
        let st = state_after(lines, l as nat);
        if st.all || st.active.len() > 0 {
            Some(
                if st.all {
                    seq![Seq::<char>::empty()] + st.active
                } else {
                    st.active
                },
            )
        } else {
            None
        }
    } else {
        None
    }
}

/// Whether a set of suppressed ids covers `rule`: an empty set or the empty
/// id covers every rule.
pub open spec fn covers(rules: Seq<Seq<char>>, rule: Seq<char>) -> bool {
    rules.len() == 0 || rules.contains(Seq::<char>::empty()) || rules.contains(rule)
}

/// Whether the comments of `source` suppress `rule` on line `l`.
pub open spec fn suppressed_in(source: Seq<char>, l: int, rule: Seq<char>) -> bool {
    let lines = lines_of(source);
    ||| (next_line_rules(lines, l) matches Some(r) && covers(r, rule))
    ||| (range_rules(lines, l) matches Some(r) && covers(r, rule))
}

/// Suppressions by line: `next_line[i]` holds the ids that a comment on line
/// `i + 1` suppresses on line `i + 2`, and `range[i]` the ids that open ranges
/// suppress on line `i + 1` (lines are 1-based).
#[derive(Debug, Clone, Default)]
pub struct SuppressionMap {
    next_line: Vec<Option<Vec<String>>>,
    range: Vec<Option<Vec<String>>>,
}

/// The view of an optional list of strings.
pub open spec fn opt_strs_view(o: Option<Vec<String>>) -> Option<Seq<Seq<char>>> {
    match o {
        Some(v) => Some(strs_view(v@)),
        None => None,
    }
}

impl SuppressionMap {
    /// The ids suppressed on line `l` by a `disable-next-line` comment.
    pub closed spec fn next_line_at(&self, l: int) -> Option<Seq<Seq<char>>> {
        if 2 <= l < self.next_line@.len() + 2 {
            opt_strs_view(self.next_line@[l - 2])
        } else {
            None
        }
    }

    /// The ids suppressed on line `l` by open ranges.
    pub closed spec fn range_at(&self, l: int) -> Option<Seq<Seq<char>>> {
        if 1 <= l < self.range@.len() + 1 {
            opt_strs_view(self.range@[l - 1])
        } else {
            None
        }
    }

    /// Whether `rule` is suppressed on line `l`.
    pub open spec fn spec_suppressed(&self, l: int, rule: Seq<char>) -> bool {
        ||| (self.next_line_at(l) matches Some(r) && covers(r, rule))
        ||| (self.range_at(l) matches Some(r) && covers(r, rule))
    }

    /// Parse all comments in `source` and build a suppression map.
    pub fn parse(source: &str) -> (map: Self)
        ensures
            forall|l: int| map.next_line_at(l) == next_line_rules(lines_of(source@), l),
            forall|l: int| map.range_at(l) == range_rules(lines_of(source@), l),
    {
        let cs = chars_of(source);
        let lines = split_lines(cs.as_slice());
        let n = lines.len();
        let ghost ls = lines_of(cs@);
        let mut next_line: Vec<Option<Vec<String>>> = Vec::new();
        let mut range: Vec<Option<Vec<String>>> = Vec::new();
        let mut all = false;
        let mut active: Vec<String> = Vec::new();
        let mut idx: usize = 0;
        assert(strs_view(active@) =~= Seq::<Seq<char>>::empty());
        while idx < n
            invariant
                cs@ == source@,
                ls == lines_of(cs@),
                n == lines@.len(),
                ranges_within(cs@, lines@),
                ranges_text(cs@, lines@) == ls,
                idx <= n,
                next_line@.len() == idx,
                range@.len() == idx,
                state_after(ls, idx as nat) == (RangeState { all, active: strs_view(active@) }),
                forall|j: int|
                    0 <= j < idx ==> opt_strs_view(#[trigger] next_line@[j]) == next_line_rules(
                        ls,
                        j + 2,
                    ),
                forall|j: int|
                    0 <= j < idx ==> opt_strs_view(#[trigger] range@[j]) == range_rules(ls, j + 1),
            decreases n - idx,
        {
            let (a, b) = lines[idx];
            proof {
                assert(lines@[idx as int].0 <= lines@[idx as int].1 <= cs@.len());
                assert(ls[idx as int] == cs@.subrange(a as int, b as int));
            }
            let d = classify(cs.as_slice(), a, b);
            let line_num = idx + 1;
            let ghost old_next = next_line@;
            let ghost old_range = range@;
            let ghost dv = line_directive_view(d);
            let ghost st0 = state_after(ls, idx as nat);
            match d {
                LineDirective::NextLine(rules) => {
                    next_line.push(Some(rules));
                },
                LineDirective::Enable(rules) => {
                    next_line.push(None);
                    if rules.len() == 0 {
                        all = false;
                        active = Vec::new();
                        assert(strs_view(active@) =~= Seq::<Seq<char>>::empty());
                    } else {
                        active = remove_ids(&active, &rules);
                    }
                },
                LineDirective::Disable(rules) => {
                    next_line.push(None);
                    if rules.len() == 0 {
                        all = true;
                    } else {
                        active = add_ids(active, &rules);
                    }
                },
                LineDirective::Plain => {
                    next_line.push(None);
                },
            }
            proof {
                assert(dv == directive(ls[idx as int]));
                assert(step(st0, dv) == (RangeState { all, active: strs_view(active@) }));
                assert(state_after(ls, line_num as nat) == step(
                    state_after(ls, idx as nat),
                    directive(ls[idx as int]),
                ));
                assert(state_after(ls, line_num as nat) == (RangeState {
                    all,
                    active: strs_view(active@),
                }));
                assert forall|j: int| 0 <= j < line_num implies opt_strs_view(
                    #[trigger] next_line@[j],
                ) == next_line_rules(ls, j + 2) by {
                    if j < idx {
                        assert(next_line@[j] == old_next[j]);
                    }
                }
            }
            if all || active.len() > 0 {
                let mut suppressed: Vec<String> = Vec::new();
                if all {
                    suppressed.push(String::new());
                }
                let ghost pre = strs_view(suppressed@);
                proof {
                    assert(pre == if all {
                        seq![Seq::<char>::empty()]
                    } else {
                        Seq::<Seq<char>>::empty()
                    });
                }
                let mut q: usize = 0;
                while q < active.len()
                    invariant
                        q <= active.len(),
                        strs_view(suppressed@) == pre + strs_view(active@).take(q as int),
                    decreases active.len() - q,
                {
                    let ghost before = suppressed@;
                    let item = active[q].clone();
                    suppressed.push(item);
                    proof {
                        crate::seqs::lemma_strs_view_push(before, item);
                        assert(strs_view(active@).take(q + 1) == strs_view(active@).take(
                            q as int,
                        ).push(active@[q as int]@));
                    }
                    q = q + 1;
                }
                assert(strs_view(active@).take(active.len() as int) == strs_view(active@));
                range.push(Some(suppressed));
            } else {
                range.push(None);
            }
            proof {
                assert forall|j: int| 0 <= j < line_num implies opt_strs_view(
                    #[trigger] range@[j],
                ) == range_rules(ls, j + 1) by {
                    if j < idx {
                        assert(range@[j] == old_range[j]);
                    }
                }
            }
            idx = idx + 1;
        }
        SuppressionMap { next_line, range }
    }

    /// Check if a violation at `line` for `rule_id` is suppressed.
    pub fn is_suppressed(&self, line: usize, rule_id: &str) -> (b: bool)
        ensures
            b == self.spec_suppressed(line as int, rule_id@),
    {
        if line >= 2 && line - 2 < self.next_line.len() {
            if let Some(rules) = &self.next_line[line - 2] {
                if covers_exec(rules, rule_id) {
                    return true;
                }
            }
        }
        if line >= 1 && line - 1 < self.range.len() {
            if let Some(rules) = &self.range[line - 1] {
                if covers_exec(rules, rule_id) {
                    return true;
                }
            }
        }
        false
    }
}

/// What `classify` found on one line, with the rule ids as strings.
enum LineDirective {
    NextLine(Vec<String>),
    Enable(Vec<String>),
    Disable(Vec<String>),
    Plain,
}

/// The mathematical directive of a classified line.
spec fn line_directive_view(d: LineDirective) -> Directive {
    match d {
        LineDirective::NextLine(r) => Directive::NextLine(strs_view(r@)),
        LineDirective::Enable(r) => Directive::Enable(strs_view(r@)),
        LineDirective::Disable(r) => Directive::Disable(strs_view(r@)),
        LineDirective::Plain => Directive::Plain,
    }
}

/// Whether `rules` covers `rule`.
fn covers_exec(rules: &Vec<String>, rule: &str) -> (b: bool)
    ensures
        b == covers(strs_view(rules@), rule@),
{
    if rules.len() == 0 {
        return true;
    }
    let mut i: usize = 0;
    while i < rules.len()
        invariant
            i <= rules.len(),
            forall|j: int| 0 <= j < i ==> rules@[j]@.len() != 0,
        decreases rules.len() - i,
    {
        if rules[i].as_str().is_empty() {
            assert(strs_view(rules@)[i as int] == Seq::<char>::empty());
            return true;
        }
        i = i + 1;
    }
    proof {
        if strs_view(rules@).contains(Seq::<char>::empty()) {
            let k = choose|k: int|
                0 <= k < strs_view(rules@).len() && strs_view(rules@)[k] == Seq::<char>::empty();
            assert(rules@[k]@.len() == 0);
        }
    }
    contains_str(rules, rule)
}

/// The texts of the ranges `rs` of `s`.
pub open spec fn ranges_text(s: Seq<char>, rs: Seq<(usize, usize)>) -> Seq<Seq<char>> {
    rs.map_values(|r: (usize, usize)| s.subrange(r.0 as int, r.1 as int))
}

/// All ranges lie within `s`.
pub open spec fn ranges_within(s: Seq<char>, rs: Seq<(usize, usize)>) -> bool {
    forall|j: int| 0 <= j < rs.len() ==> #[trigger] rs[j].0 <= rs[j].1 <= s.len()
}

/// The ranges of the lines of `s`, as `lines_of` splits it.
fn split_lines(s: &[char]) -> (res: Vec<(usize, usize)>)
    ensures
        ranges_within(s@, res@),
        ranges_text(s@, res@) == lines_of(s@),
{
    let mut res: Vec<(usize, usize)> = Vec::new();
    let mut p: usize = 0;
    assert(s@.skip(0) == s@);
    assert(ranges_text(s@, res@) == Seq::<Seq<char>>::empty());
    assert(Seq::<Seq<char>>::empty() + lines_of(s@) == lines_of(s@));
    while p < s.len()
        invariant
            p <= s.len(),
            ranges_within(s@, res@),
            ranges_text(s@, res@) + lines_of(s@.skip(p as int)) == lines_of(s@),
        decreases s.len() - p,
    {
        let i = find_char(s, p, '\n');
        let ghost rest = s@.skip(p as int);
        let ghost old_res = res@;
        if i < s.len() {
            let mut end = i;
            if end > p && s[end - 1] == '\r' {
                end = end - 1;
            }
            proof {
                assert(rest.take(i - p) == s@.subrange(p as int, i as int));
                assert(rest.skip(i - p + 1) == s@.skip(i + 1));
                assert(strip_cr(rest.take(i - p)) == s@.subrange(p as int, end as int));
                assert(lines_of(rest) == seq![s@.subrange(p as int, end as int)] + lines_of(
                    s@.skip(i + 1),
                ));
            }
            assert(p <= end && end <= s.len());
            res.push((p, end));
            proof {
                assert forall|j: int| 0 <= j < res@.len() implies #[trigger] res@[j].0 <= res@[j].1
                    <= s@.len() by {
                    if j < old_res.len() {
                        assert(res@[j] == old_res[j]);
                    } else {
                        assert(res@[j] == (p, end));
                    }
                }
                assert(ranges_text(s@, res@) == ranges_text(s@, old_res).push(
                    s@.subrange(p as int, end as int),
                ));
                assert(ranges_text(s@, res@) + lines_of(s@.skip(i + 1)) =~= ranges_text(s@, old_res)
                    + lines_of(rest));
            }
            p = i + 1;
        } else {
            proof {
                assert(rest == s@.subrange(p as int, s.len() as int));
                assert(lines_of(rest) == seq![rest]);
                assert(s@.skip(s.len() as int) == Seq::<char>::empty());
                assert(lines_of(s@.skip(s.len() as int)) == Seq::<Seq<char>>::empty());
            }
            res.push((p, s.len()));
            proof {
                assert forall|j: int| 0 <= j < res@.len() implies #[trigger] res@[j].0 <= res@[j].1
                    <= s@.len() by {
                    if j < old_res.len() {
                        assert(res@[j] == old_res[j]);
                    } else {
                        assert(res@[j] == (p, s.len()));
                    }
                }
                assert(ranges_text(s@, res@) == ranges_text(s@, old_res).push(rest));
                assert(ranges_text(s@, res@) + lines_of(s@.skip(s.len() as int)) =~= ranges_text(
                    s@,
                    old_res,
                ) + lines_of(rest));
            }
            p = s.len();
        }
    }
    assert(s@.skip(p as int) == Seq::<char>::empty());
    assert(ranges_text(s@, res@) + Seq::<Seq<char>>::empty() == ranges_text(s@, res@));
    res
}

/// The rule ids of the comma-separated list `s[from..to]`.
fn parse_rule_ids(s: &[char], from: usize, to: usize) -> (res: Vec<String>)
    requires
        from <= to <= s.len(),
    ensures
        strs_view(res@) == rule_ids(s@.subrange(from as int, to as int)),
{
    let ghost whole = s@.subrange(from as int, to as int);
    let mut res: Vec<String> = Vec::new();
    let mut p = from;
    let mut fin = false;
    assert(whole == s@.subrange(p as int, to as int));
    while !fin
        invariant
            from <= p <= to <= s.len(),
            whole == s@.subrange(from as int, to as int),
            fin ==> strs_view(res@) == rule_ids(whole),
            !fin ==> strs_view(res@) + rule_ids(s@.subrange(p as int, to as int)) == rule_ids(
                whole,
            ),
        decreases (to - p) + if fin { 0int } else { 1int },
    {
        let sub = slice_range(s, 0, to);
        let i = find_char(sub, p, ',');
        let ghost piece = s@.subrange(p as int, to as int);
        proof {
            assert(sub@.skip(p as int) == piece);
        }
        let (a, b) = trim_bounds(s, p, i);
        proof {
            assert(piece.take(i - p) == s@.subrange(p as int, i as int));
        }
        let ghost old_res = strs_view(res@);
        if b > a {
            res.push(string_of(slice_range(s, a, b)));
        }
        proof {
            assert(strs_view(res@) == old_res + if b > a {
                seq![s@.subrange(a as int, b as int)]
            } else {
                Seq::empty()
            });
        }
        if i < to {
            proof {
                assert(piece.skip(i - p + 1) == s@.subrange(i + 1, to as int));
                assert(rule_ids(piece) == (if b > a {
                    seq![s@.subrange(a as int, b as int)]
                } else {
                    Seq::empty()
                }) + rule_ids(s@.subrange(i + 1, to as int)));
                assert(strs_view(res@) + rule_ids(s@.subrange(i + 1, to as int)) == old_res
                    + rule_ids(piece));
            }
            p = i + 1;
        } else {
            proof {
                assert(rule_ids(piece) == (if b > a {
                    seq![s@.subrange(a as int, b as int)]
                } else {
                    Seq::empty()
                }));
                assert(strs_view(res@) == old_res + rule_ids(piece));
            }
            fin = true;
        }
    }
    res
}

/// The directive of the line `s[from..to]`.
fn classify(s: &[char], from: usize, to: usize) -> (d: LineDirective)
    requires
        from <= to <= s.len(),
    ensures
        line_directive_view(d) == directive(s@.subrange(from as int, to as int)),
{
    let ghost line = s@.subrange(from as int, to as int);
    let (a, b) = trim_bounds(s, from, to);
    if !(b - a >= 2 && s[a] == '/' && s[a + 1] == '/') {
        return LineDirective::Plain;
    }
    let (c0, c1) = trim_bounds(s, a + 2, b);
    proof {
        assert(trim(line).skip(2) == s@.subrange(a + 2, b as int));
        assert(comment_text(line) == Some(s@.subrange(c0 as int, c1 as int)));
    }
    let comment = slice_range(s, c0, c1);
    let dnl = chars_of("vitest-linter-disable-next-line");
    let en = chars_of("vitest-linter-enable");
    let dis = chars_of("vitest-linter-disable");
    if seq_starts_with(comment, dnl.as_slice()) {
        let (r0, r1) = trim_bounds(s, c0 + dnl.len(), c1);
        proof {
            assert(comment@.skip(dnl@.len() as int) == s@.subrange(c0 + dnl.len(), c1 as int));
        }
        LineDirective::NextLine(parse_rule_ids(s, r0, r1))
    } else if seq_starts_with(comment, en.as_slice()) {
        let (r0, r1) = trim_bounds(s, c0 + en.len(), c1);
        proof {
            assert(comment@.skip(en@.len() as int) == s@.subrange(c0 + en.len(), c1 as int));
        }
        LineDirective::Enable(parse_rule_ids(s, r0, r1))
    } else if seq_starts_with(comment, dis.as_slice()) {
        let (r0, r1) = trim_bounds(s, c0 + dis.len(), c1);
        proof {
            assert(comment@.skip(dis@.len() as int) == s@.subrange(c0 + dis.len(), c1 as int));
        }
        LineDirective::Disable(parse_rule_ids(s, r0, r1))
    } else {
        LineDirective::Plain
    }
}

/// The active ids without those in `rules`.
fn remove_ids(active: &Vec<String>, rules: &Vec<String>) -> (res: Vec<String>)
    ensures
        strs_view(res@) == without(strs_view(active@), strs_view(rules@)),
{
    let mut res: Vec<String> = Vec::new();
    let mut i: usize = 0;
    while i < active.len()
        invariant
            i <= active.len(),
            strs_view(res@) == without(strs_view(active@).take(i as int), strs_view(rules@)),
        decreases active.len() - i,
    {
        let ghost pre = strs_view(active@).take(i as int);
        assert(strs_view(active@).take(i + 1).drop_last() == pre);
        if !contains_str(rules, active[i].as_str()) {
            res.push(active[i].clone());
        }
        i = i + 1;
    }
    assert(strs_view(active@).take(active.len() as int) == strs_view(active@));
    res
}

/// The active ids extended by those in `rules` not yet active.
fn add_ids(active: Vec<String>, rules: &Vec<String>) -> (res: Vec<String>)
    ensures
        strs_view(res@) == add_all(strs_view(active@), strs_view(rules@)),
{
    let ghost start = strs_view(active@);
    let mut res = active;
    let mut i: usize = 0;
    while i < rules.len()
        invariant
            i <= rules.len(),
            strs_view(res@) == add_all(start, strs_view(rules@).take(i as int)),
        decreases rules.len() - i,
    {
        assert(strs_view(rules@).take(i + 1).drop_last() == strs_view(rules@).take(i as int));
        if !contains_str(&res, rules[i].as_str()) {
            res.push(rules[i].clone());
        }
        i = i + 1;
    }
    assert(strs_view(rules@).take(rules.len() as int) == strs_view(rules@));
    res
}

/// `add_all` keeps what `s` holds and adds what `r` holds.
proof fn lemma_add_all_contains(s: Seq<Seq<char>>, r: Seq<Seq<char>>, x: Seq<char>)
    ensures
        (s.contains(x) || r.contains(x)) ==> add_all(s, r).contains(x),
    decreases r.len(),
{
    if r.len() > 0 {
        lemma_add_all_contains(s, r.drop_last(), x);
        let a = add_all(s, r.drop_last());
        if r.contains(x) && !r.drop_last().contains(x) {
            let k = choose|k: int| 0 <= k < r.len() && r[k] == x;
            if k < r.len() - 1 {
                assert(r.drop_last()[k] == x);
            }
            assert(r.last() == x);
        }
        if !a.contains(r.last()) {
            if a.contains(x) {
                let k = choose|k: int| 0 <= k < a.len() && a[k] == x;
                assert(a.push(r.last())[k] == x);
            }
            assert(a.push(r.last())[a.len() as int] == r.last());
        }
    }
}

/// `without(s, r)` holds nothing that `r` holds.
proof fn lemma_without_excludes(s: Seq<Seq<char>>, r: Seq<Seq<char>>, x: Seq<char>)
    requires
        r.contains(x),
    ensures
        !without(s, r).contains(x),
    decreases s.len(),
{
    if s.len() > 0 {
        lemma_without_excludes(s.drop_last(), r, x);
        let w = without(s.drop_last(), r);
        if !r.contains(s.last()) {
            if w.push(s.last()).contains(x) {
                let k = choose|k: int| 0 <= k < w.push(s.last()).len() && w.push(s.last())[k] == x;
                if k < w.len() {
                    assert(w[k] == x);
                }
            }
        }
    }
}

/// Law: a `disable-next-line` comment suppresses the rules it names (every
/// rule when it names none) on the line after it.
pub proof fn law_next_line_suppresses(source: Seq<char>, l: int, rule: Seq<char>)
    requires
        2 <= l <= lines_of(source).len() + 1,
        directive(lines_of(source)[l - 2]) matches Directive::NextLine(r) && covers(r, rule),
    ensures
        suppressed_in(source, l, rule),
{
}

/// Without directive comments, the open ranges stay empty.
proof fn lemma_plain_state(lines: Seq<Seq<char>>, k: nat)
    requires
        forall|j: int| 0 <= j < lines.len() ==> directive(#[trigger] lines[j]) is Plain,
    ensures
        state_after(lines, k) == (RangeState { all: false, active: Seq::empty() }),
    decreases k,
{
    if k > 0 && k <= lines.len() {
        lemma_plain_state(lines, (k - 1) as nat);
        assert(directive(lines[k - 1]) is Plain);
    }
}

/// Law: in a source without suppression comments no rule is suppressed on
/// any line.
pub proof fn law_no_directives_no_suppression(source: Seq<char>, l: int, rule: Seq<char>)
    requires
        forall|j: int| 0 <= j < lines_of(source).len() ==> directive(#[trigger] lines_of(source)[j]) is Plain,
    ensures
        !suppressed_in(source, l, rule),
{
    let lines = lines_of(source);
    if 2 <= l <= lines.len() + 1 {
        assert(directive(lines[l - 2]) is Plain);
    }
    if 1 <= l <= lines.len() {
        lemma_plain_state(lines, l as nat);
    }
}

/// A range that covers `rule` stays open across lines without `enable`
/// comments.
proof fn lemma_range_stays_open(lines: Seq<Seq<char>>, a: int, k: int, rule: Seq<char>)
    requires
        1 <= a <= k <= lines.len(),
        state_after(lines, a as nat).all || state_after(lines, a as nat).active.contains(rule),
        forall|j: int| a <= j < k ==> !(directive(#[trigger] lines[j]) is Enable),
    ensures
        state_after(lines, k as nat).all || state_after(lines, k as nat).active.contains(rule),
    decreases k - a,
{
    if k > a {
        lemma_range_stays_open(lines, a, k - 1, rule);
        let st = state_after(lines, (k - 1) as nat);
        let d = directive(lines[k - 1]);
        assert(!(d is Enable));
        match d {
            Directive::Disable(r) => {
                lemma_add_all_contains(st.active, r, rule);
            },
            _ => {},
        }
    }
}

/// Law: a `disable` comment opens a range that suppresses the rules it names
/// (every rule when it names none), on its own line and on each later line
/// up to the next `enable` comment.
pub proof fn law_disable_range(source: Seq<char>, a: int, l: int, rule: Seq<char>)
    requires
        1 <= a <= l <= lines_of(source).len(),
        directive(lines_of(source)[a - 1]) matches Directive::Disable(r) && (r.len() == 0
            || r.contains(rule)),
        forall|j: int| a <= j < l ==> !(directive(#[trigger] lines_of(source)[j]) is Enable),
    ensures
        suppressed_in(source, l, rule),
{
    let lines = lines_of(source);
    let st0 = state_after(lines, (a - 1) as nat);
    match directive(lines[a - 1]) {
        Directive::Disable(r) => {
            if r.len() > 0 {
                lemma_add_all_contains(st0.active, r, rule);
            }
        },
        _ => {},
    }
    lemma_range_stays_open(lines, a, l, rule);
    let st = state_after(lines, l as nat);
    if st.all {
        assert((seq![Seq::<char>::empty()] + st.active)[0] == Seq::<char>::empty());
    }
}

/// Law: an `enable` comment that names no rule closes every range: on its
/// line no rule is suppressed by a range.
pub proof fn law_enable_all_closes(source: Seq<char>, b: int)
    requires
        1 <= b <= lines_of(source).len(),
        directive(lines_of(source)[b - 1]) matches Directive::Enable(r) && r.len() == 0,
    ensures
        range_rules(lines_of(source), b).is_none(),
{
}

/// Law: an `enable` comment that names a rule ends that rule's range: on its
/// line only an open disable-all range still covers the rule.
pub proof fn law_enable_ends_range(source: Seq<char>, b: int, rule: Seq<char>)
    requires
        1 <= b <= lines_of(source).len(),
        directive(lines_of(source)[b - 1]) matches Directive::Enable(r) && r.contains(rule),
    ensures
        !state_after(lines_of(source), b as nat).active.contains(rule),
{
    let lines = lines_of(source);
    match directive(lines[b - 1]) {
        Directive::Enable(r) => {
            if r.len() > 0 {
                lemma_without_excludes(state_after(lines, (b - 1) as nat).active, r, rule);
            }
        },
        _ => {},
    }
}

/// Lines that are neither `disable` nor `enable` comments leave the open
/// ranges as they are.
proof fn lemma_state_unchanged(lines: Seq<Seq<char>>, from: nat, to: nat)
    requires
        from <= to <= lines.len(),
        forall|j: int| from <= j < to ==> {
            let d = #[trigger] directive(lines[j]);
            d is Plain || d is NextLine
        },
    ensures
        state_after(lines, to) == state_after(lines, from),
    decreases to - from,
{
    if to > from {
        lemma_state_unchanged(lines, from, (to - 1) as nat);
        let d = directive(lines[to - 1]);
        assert(d is Plain || d is NextLine);
        if to - 1 == 0 {
            assert(state_after(lines, 0) == (RangeState { all: false, active: Seq::empty() }));
        }
    }
}

/// `without(s, r)` holds only what `s` holds and `r` does not.
proof fn lemma_without_sub(s: Seq<Seq<char>>, r: Seq<Seq<char>>, x: Seq<char>)
    ensures
        without(s, r).contains(x) ==> s.contains(x) && !r.contains(x),
    decreases s.len(),
{
    if s.len() > 0 {
        lemma_without_sub(s.drop_last(), r, x);
        let w = without(s.drop_last(), r);
        if without(s, r).contains(x) {
            let k = choose|k: int| 0 <= k < without(s, r).len() && without(s, r)[k] == x;
            if !r.contains(s.last()) && k == w.len() {
                assert(s[s.len() - 1] == x);
            } else {
                assert(w[k] == x);
                assert(w.contains(x));
                let k2 = choose|k2: int| 0 <= k2 < s.drop_last().len() && s.drop_last()[k2] == x;
                assert(s[k2] == x);
            }
        }
    }
}

/// `add_all(s, r)` holds only what `s` or `r` holds.
proof fn lemma_add_all_sub(s: Seq<Seq<char>>, r: Seq<Seq<char>>, x: Seq<char>)
    ensures
        add_all(s, r).contains(x) ==> s.contains(x) || r.contains(x),
    decreases r.len(),
{
    if r.len() > 0 {
        lemma_add_all_sub(s, r.drop_last(), x);
        let a = add_all(s, r.drop_last());
        if add_all(s, r).contains(x) {
            let k = choose|k: int| 0 <= k < add_all(s, r).len() && add_all(s, r)[k] == x;
            if !a.contains(r.last()) && k == a.len() {
                assert(r[r.len() - 1] == x);
            } else {
                assert(a[k] == x);
                assert(a.contains(x));
                if r.drop_last().contains(x) {
                    let k2 = choose|k2: int| 0 <= k2 < r.drop_last().len() && r.drop_last()[k2] == x;
                    assert(r[k2] == x);
                }
            }
        }
    }
}

/// Closing the ranges that a `disable` naming `r` opened, with an `enable`
/// naming the same rules, leaves no range open.
proof fn lemma_disable_enable_closes(r: Seq<Seq<char>>)
    ensures
        without(add_all(Seq::empty(), r), r).len() == 0,
{
    let w = without(add_all(Seq::empty(), r), r);
    if w.len() > 0 {
        let x = w[0];
        assert(w.contains(x));
        lemma_without_sub(add_all(Seq::empty(), r), r, x);
        lemma_add_all_sub(Seq::empty(), r, x);
    }
}

/// Every rule id of a list is non-empty.
proof fn lemma_rule_ids_nonempty(s: Seq<char>)
    ensures
        !rule_ids(s).contains(Seq::<char>::empty()),
    decreases s.len(),
{
    let i = first_index(s, ',');
    let head = trim(s.take(i as int));
    let rest = if i < s.len() {
        rule_ids(s.skip((i + 1) as int))
    } else {
        Seq::empty()
    };
    if i < s.len() {
        lemma_rule_ids_nonempty(s.skip((i + 1) as int));
    }
    if rule_ids(s).contains(Seq::<char>::empty()) {
        let k = choose|k: int| 0 <= k < rule_ids(s).len() && rule_ids(s)[k] == Seq::<char>::empty();
        if head.len() > 0 {
            if k > 0 {
                assert(rest[k - 1] == rule_ids(s)[k]);
                assert(rest.contains(Seq::<char>::empty()));
            }
        } else {
            assert(rest.contains(Seq::<char>::empty()));
        }
    }
}

/// The rule ids that a comment names are non-empty.
proof fn lemma_directive_ids(line: Seq<char>)
    ensures
        match directive(line) {
            Directive::NextLine(r) => !r.contains(Seq::<char>::empty()),
            Directive::Enable(r) => !r.contains(Seq::<char>::empty()),
            Directive::Disable(r) => !r.contains(Seq::<char>::empty()),
            Directive::Plain => true,
        },
{
    match comment_text(line) {
        None => {},
        Some(c) => {
            lemma_rule_ids_nonempty(trim(c.skip("vitest-linter-disable-next-line"@.len() as int)));
            lemma_rule_ids_nonempty(trim(c.skip("vitest-linter-enable"@.len() as int)));
            lemma_rule_ids_nonempty(trim(c.skip("vitest-linter-disable"@.len() as int)));
        },
    }
}

/// Whether the rules a comment names cover `rule`: it names none (all
/// rules), or names `rule`.
pub open spec fn names_rule(r: Seq<Seq<char>>, rule: Seq<char>) -> bool {
    r.len() == 0 || r.contains(rule)
}

/// Law: a `disable-next-line` comment that is the only suppression comment of
/// a source suppresses a rule on a line exactly when the line is the one
/// after the comment and the comment names the rule or names none.
pub proof fn law_next_line_exact(source: Seq<char>, a: int, l: int, rule: Seq<char>)
    requires
        1 <= a <= lines_of(source).len(),
        directive(lines_of(source)[a - 1]) is NextLine,
        forall|j: int| 0 <= j < lines_of(source).len() && j != a - 1 ==> directive(#[trigger] lines_of(source)[j]) is Plain,
    ensures
        suppressed_in(source, l, rule) <==> (l == a + 1 && names_rule(
            directive(lines_of(source)[a - 1])->NextLine_0,
            rule,
        )),
{
    let lines = lines_of(source);
    lemma_directive_ids(lines[a - 1]);
    if 1 <= l <= lines.len() {
        lemma_state_unchanged(lines, 0, l as nat);
    }
    if 2 <= l <= lines.len() + 1 && l != a + 1 {
        assert(directive(lines[l - 2]) is Plain);
    }
}

/// Law: in a source whose only suppression comments are a `disable` and a
/// later `enable` that names the same rules (or, both, none), a rule is
/// suppressed on a line exactly when the comments name it (or name none) and
/// the line is the `disable` line or lies after it and before the `enable`
/// line.
pub proof fn law_disable_enable_exact(source: Seq<char>, a: int, b: int, l: int, rule: Seq<char>)
    requires
        1 <= a < b <= lines_of(source).len(),
        directive(lines_of(source)[a - 1]) matches Directive::Disable(r) && directive(
            lines_of(source)[b - 1],
        ) == Directive::Enable(r),
        forall|j: int|
            0 <= j < lines_of(source).len() && j != a - 1 && j != b - 1 ==> directive(
                #[trigger] lines_of(source)[j],
            ) is Plain,
    ensures
        suppressed_in(source, l, rule) <==> (names_rule(directive(lines_of(source)[a - 1])->Disable_0, rule)
            && a <= l < b),
{
    let lines = lines_of(source);
    let r = directive(lines[a - 1])->Disable_0;
    lemma_directive_ids(lines[a - 1]);
    let empty = RangeState { all: false, active: Seq::<Seq<char>>::empty() };
    lemma_state_unchanged(lines, 0, (a - 1) as nat);
    assert(state_after(lines, 0) == empty);
    lemma_add_all_contains(Seq::empty(), r, rule);
    lemma_add_all_sub(Seq::empty(), r, rule);
    lemma_add_all_sub(Seq::empty(), r, Seq::<char>::empty());
    lemma_disable_enable_closes(r);
    lemma_state_unchanged(lines, a as nat, (b - 1) as nat);
    assert(state_after(lines, b as nat).active.len() == 0);
    assert(!state_after(lines, b as nat).all);
    assert(next_line_rules(lines, l).is_none()) by {
        if 2 <= l <= lines.len() + 1 {
            assert(directive(lines[l - 2]) is Plain || l - 2 == a - 1 || l - 2 == b - 1);
        }
    }
    if 1 <= l <= lines.len() {
        if l < a {
            lemma_state_unchanged(lines, 0, l as nat);
            assert(range_rules(lines, l).is_none());
        } else if l < b {
            lemma_state_unchanged(lines, a as nat, l as nat);
            let st = state_after(lines, l as nat);
            if r.len() == 0 {
                assert(st.all);
                let rs = seq![Seq::<char>::empty()] + st.active;
                assert(rs[0] == Seq::<char>::empty());
                assert(range_rules(lines, l) == Some(rs));
                assert(covers(rs, rule));
            } else {
                assert(!st.all);
                assert(st.active == add_all(Seq::empty(), r));
                lemma_add_all_contains(Seq::empty(), r, r[0]);
                assert(r.contains(r[0]));
                assert(st.active.contains(r[0]));
                assert(st.active.len() > 0);
                assert(range_rules(lines, l) == Some(st.active));
                assert(covers(st.active, rule) == r.contains(rule));
            }
        } else {
            lemma_state_unchanged(lines, b as nat, l as nat);
            assert(state_after(lines, l as nat).active.len() == 0);
            assert(!state_after(lines, l as nat).all);
            assert(range_rules(lines, l).is_none());
        }
    } else {
        assert(range_rules(lines, l).is_none());
    }
}

/// Law: in a source whose only suppression comment is a `disable`, a rule is
/// suppressed on a line exactly when the comment names it (or names none)
/// and the line is the `disable` line or a later line of the source.
pub proof fn law_unclosed_disable_exact(source: Seq<char>, a: int, l: int, rule: Seq<char>)
    requires
        1 <= a <= lines_of(source).len(),
        directive(lines_of(source)[a - 1]) is Disable,
        forall|j: int| 0 <= j < lines_of(source).len() && j != a - 1 ==> directive(#[trigger] lines_of(source)[j]) is Plain,
    ensures
        suppressed_in(source, l, rule) <==> (names_rule(directive(lines_of(source)[a - 1])->Disable_0, rule)
            && a <= l <= lines_of(source).len()),
{
    let lines = lines_of(source);
    let r = directive(lines[a - 1])->Disable_0;
    lemma_directive_ids(lines[a - 1]);
    lemma_state_unchanged(lines, 0, (a - 1) as nat);
    assert(state_after(lines, 0) == (RangeState { all: false, active: Seq::<Seq<char>>::empty() }));
    lemma_add_all_contains(Seq::empty(), r, rule);
    lemma_add_all_sub(Seq::empty(), r, rule);
    lemma_add_all_sub(Seq::empty(), r, Seq::<char>::empty());
    if 2 <= l <= lines.len() + 1 {
        assert(directive(lines[l - 2]) is Plain || l - 2 == a - 1);
    }
    if 1 <= l <= lines.len() {
        if l < a {
            lemma_state_unchanged(lines, 0, l as nat);
        } else {
            lemma_state_unchanged(lines, a as nat, l as nat);
            let st = state_after(lines, l as nat);
            if r.len() == 0 {
                assert(st.all);
                assert((seq![Seq::<char>::empty()] + st.active)[0] == Seq::<char>::empty());
            } else {
                assert(st.active == add_all(Seq::empty(), r));
                lemma_add_all_contains(Seq::empty(), r, r[0]);
                assert(r.contains(r[0]));
                assert(st.active.len() > 0);
                assert(covers(st.active, rule) == r.contains(rule));
            }
        }
    }
}

/// Without `disable` comments the open ranges stay empty.
proof fn lemma_no_disable_state(lines: Seq<Seq<char>>, k: nat)
    requires
        forall|j: int| 0 <= j < lines.len() ==> !(#[trigger] directive(lines[j]) is Disable),
    ensures
        state_after(lines, k) == (RangeState { all: false, active: Seq::empty() }),
    decreases k,
{
    if k > 0 && k <= lines.len() {
        lemma_no_disable_state(lines, (k - 1) as nat);
        assert(!(directive(lines[k - 1]) is Disable));
        match directive(lines[k - 1]) {
            Directive::Enable(r) => {
                assert(without(Seq::<Seq<char>>::empty(), r) =~= Seq::<Seq<char>>::empty());
            },
            _ => {},
        }
    }
}

/// Law: in a source without `disable` and `disable-next-line` comments no
/// rule is suppressed on any line.
pub proof fn law_no_disable_no_suppression(source: Seq<char>, l: int, rule: Seq<char>)
    requires
        forall|j: int|
            0 <= j < lines_of(source).len() ==> {
                let d = #[trigger] directive(lines_of(source)[j]);
                !(d is Disable) && !(d is NextLine)
            },
    ensures
        !suppressed_in(source, l, rule),
{
    let lines = lines_of(source);
    if 2 <= l <= lines.len() + 1 {
        assert(!(directive(lines[l - 2]) is NextLine));
    }
    assert forall|j: int| 0 <= j < lines.len() implies !(#[trigger] directive(lines[j]) is Disable) by {
        let d = directive(lines_of(source)[j]);
    }
    if 1 <= l <= lines.len() {
        lemma_no_disable_state(lines, l as nat);
    }
}

} // verus!
