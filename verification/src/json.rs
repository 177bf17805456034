//! The parts of `package.json` and `tsconfig.json` that configure the linter,
//! read with `serde_json`: each value is looked up by a JSON Pointer
//! (RFC 6901) and seen one level deep.

use vstd::prelude::*;
use crate::text::{chars_of, decimal, decimal_string, owned, push_char};

verus! {

/// A JSON value seen one level deep: a scalar with its text, the length of
/// an array, or the keys of an object.
pub enum JsonShape {
    Null,
    Bool(bool),
    Number(Seq<char>),
    Str(Seq<char>),
    Array(nat),
    Object(Seq<Seq<char>>),
}

/// A JSON value seen one level deep.
pub enum JsonShallow {
    Null,
    Bool(bool),
    Number(String),
    Str(String),
    Array(usize),
    Object(Vec<String>),
}

impl JsonShallow {
    /// The shape as plain values.
    pub open spec fn shape(&self) -> JsonShape {
        match self {
            JsonShallow::Null => JsonShape::Null,
            JsonShallow::Bool(b) => JsonShape::Bool(*b),
            JsonShallow::Number(n) => JsonShape::Number(n@),
            JsonShallow::Str(s) => JsonShape::Str(s@),
            JsonShallow::Array(n) => JsonShape::Array(*n as nat),
            JsonShallow::Object(keys) => JsonShape::Object(keys@.map_values(|k: String| k@)),
        }
    }
}

/// The shape of an optional value.
pub open spec fn opt_shape(o: Option<JsonShallow>) -> Option<JsonShape> {
    match o {
        Some(v) => Some(v.shape()),
        None => None,
    }
}

/// What `serde_json` gives for `text` parsed as a `serde_json::Value` and
/// looked up by the JSON Pointer `pointer` (`Value::pointer`): `None` where
/// the text is not JSON or nothing is at the pointer.
pub uninterp spec fn json_at(text: Seq<char>, pointer: Seq<char>) -> Option<JsonShape>;

/// Calls `serde_json::from_str::<serde_json::Value>(text)` and
/// `Value::pointer(pointer)` on the result, and converts the value found one
/// level deep: a number to its text (`Number::to_string`), an array to its
/// length, an object to its keys in the map's order. The contract claims
/// that the result depends on the two texts alone.
#[verifier::external_body]
fn json_pointer(text: &str, pointer: &str) -> (r: Option<JsonShallow>)
    ensures
        opt_shape(r) == json_at(text@, pointer@),
{
    match serde_json::from_str::<serde_json::Value>(text) {
        Ok(v) => match v.pointer(pointer) {
            Some(serde_json::Value::Null) => Some(JsonShallow::Null),
            Some(serde_json::Value::Bool(b)) => Some(JsonShallow::Bool(*b)),
            Some(serde_json::Value::Number(n)) => Some(JsonShallow::Number(n.to_string())),
            Some(serde_json::Value::String(s)) => Some(JsonShallow::Str(s.clone())),
            Some(serde_json::Value::Array(a)) => Some(JsonShallow::Array(a.len())),
            Some(serde_json::Value::Object(o)) => Some(JsonShallow::Object(o.keys().cloned().collect())),
            None => None,
        },
        Err(_) => None,
    }
}

/// A key as a JSON Pointer token: `~` written `~0` and `/` written `~1`.
pub open spec fn pointer_token(k: Seq<char>) -> Seq<char>
    decreases k.len(),
{
    if k.len() == 0 {
        k
    } else {
        let r = pointer_token(k.drop_last());
        if k.last() == '~' {
            r + seq!['~', '0']
        } else if k.last() == '/' {
            r + seq!['~', '1']
        } else {
            r.push(k.last())
        }
    }
}

/// The pointer of member `k` of the value at `p`.
pub open spec fn member(p: Seq<char>, k: Seq<char>) -> Seq<char> {
    p.push('/') + pointer_token(k)
}

/// The string at `p`, if the value there is a string.
pub open spec fn string_at(text: Seq<char>, p: Seq<char>) -> Option<Seq<char>> {
    match json_at(text, p) {
        Some(JsonShape::Str(s)) => Some(s),
        _ => None,
    }
}

/// The pointer of `vitest-linter.select` in `package.json`.
pub open spec fn select_pointer() -> Seq<char> {
    "/vitest-linter/select"@
}

/// The entries of the `select` table under the `vitest-linter` key of a
/// `package.json` text, each with its value where that is a string; `None`
/// where the text is not JSON or there is no such table.
pub open spec fn select_entries(text: Seq<char>) -> Option<Seq<(Seq<char>, Option<Seq<char>>)>> {
    match json_at(text, select_pointer()) {
        Some(JsonShape::Object(keys)) => Some(
            keys.map_values(|k: Seq<char>| (k, string_at(text, member(select_pointer(), k)))),
        ),
        _ => None,
    }
}

/// The targets of an alias at `p`: each element where it is a string, when
/// the value there is an array.
pub open spec fn targets_at(text: Seq<char>, p: Seq<char>) -> Option<Seq<Option<Seq<char>>>> {
    match json_at(text, p) {
        Some(JsonShape::Array(n)) => Some(
            Seq::new(n, |i: int| string_at(text, member(p, decimal(i as nat)))),
        ),
        _ => None,
    }
}

/// The pointer of `compilerOptions.paths` in `tsconfig.json`.
pub open spec fn paths_pointer() -> Seq<char> {
    "/compilerOptions/paths"@
}

/// The parts of a `tsconfig.json` text that alias resolution reads:
/// `compilerOptions.baseUrl` where it is a string, and each entry of
/// `compilerOptions.paths` (when that is an object) with its targets; `None`
/// where the text is not JSON or has no `compilerOptions`.
pub open spec fn tsconfig_entries(text: Seq<char>) -> Option<
    (Option<Seq<char>>, Seq<(Seq<char>, Option<Seq<Option<Seq<char>>>>)>),
> {
    match json_at(text, "/compilerOptions"@) {
        None => None,
        Some(_) => Some(
            (
                string_at(text, "/compilerOptions/baseUrl"@),
                match json_at(text, paths_pointer()) {
                    Some(JsonShape::Object(keys)) => keys.map_values(
                        |a: Seq<char>| (a, targets_at(text, member(paths_pointer(), a))),
                    ),
                    _ => Seq::empty(),
                },
            ),
        ),
    }
}

/// The JSON Pointer of member `k` of the value at `p`, with `~` and `/` in
/// `k` escaped.
pub fn member_pointer(p: &str, k: &str) -> (r: String)
    ensures
        r@ == member(p@, k@),
{
    let cs = chars_of(k);
    let mut r = owned(p);
    push_char(&mut r, '/');
    let ghost start = r@;
    let mut i: usize = 0;
    assert(cs@.take(0) =~= Seq::<char>::empty());
    while i < cs.len()
        invariant
            i <= cs@.len(),
            cs@ == k@,
            start == p@.push('/'),
            r@ == start + pointer_token(cs@.take(i as int)),
        decreases cs@.len() - i,
    {
        let c = cs[i];
        assert(cs@.take(i + 1).drop_last() == cs@.take(i as int));
        assert(cs@.take(i + 1).last() == c);
        if c == '~' {
            push_char(&mut r, '~');
            push_char(&mut r, '0');
        } else if c == '/' {
            push_char(&mut r, '~');
            push_char(&mut r, '1');
        } else {
            push_char(&mut r, c);
        }
        assert(r@ =~= start + pointer_token(cs@.take(i + 1)));
        i = i + 1;
    }
    assert(cs@.take(i as int) == cs@);
    r
}

/// The string at `p`, if the value there is a string.
fn string_at_exec(text: &str, p: &str) -> (r: Option<String>)
    ensures
        match r {
            Some(s) => string_at(text@, p@) == Some(s@),
            None => string_at(text@, p@).is_none(),
        },
{
    match json_pointer(text, p) {
        Some(JsonShallow::Str(s)) => Some(s),
        _ => None,
    }
}

/// The views of optional strings.
pub open spec fn opt_strs_view(s: Seq<Option<String>>) -> Seq<Option<Seq<char>>> {
    s.map_values(|o: Option<String>| crate::models::opt_view(o))
}

/// The entries of the `select` table under the `vitest-linter` key of a
/// `package.json` text, each with its value where that is a string.
pub fn package_select(text: &str) -> (r: Option<Vec<(String, Option<String>)>>)
    ensures
        match r {
            Some(v) => select_entries(text@) == Some(
                v@.map_values(|e: (String, Option<String>)| (e.0@, crate::models::opt_view(e.1))),
            ),
            None => select_entries(text@).is_none(),
        },
{
    let base = owned("/vitest-linter/select");
    match json_pointer(text, base.as_str()) {
        Some(JsonShallow::Object(keys)) => {
            let ghost kv = keys@.map_values(|k: String| k@);
            let mut out: Vec<(String, Option<String>)> = Vec::new();
            let mut i: usize = 0;
            while i < keys.len()
                invariant
                    i <= keys@.len(),
                    base@ == select_pointer(),
                    kv == keys@.map_values(|k: String| k@),
                    out@.map_values(|e: (String, Option<String>)| (e.0@, crate::models::opt_view(e.1)))
                        == kv.take(i as int).map_values(
                        |k: Seq<char>| (k, string_at(text@, member(select_pointer(), k))),
                    ),
                decreases keys@.len() - i,
            {
                let p = member_pointer(base.as_str(), keys[i].as_str());
                let v = string_at_exec(text, p.as_str());
                let ghost before = out@;
                let key = owned(keys[i].as_str());
                assert(kv[i as int] == keys@[i as int]@);
                assert(p@ == member(select_pointer(), kv[i as int]));
                let ghost ev = (key@, crate::models::opt_view(v));
                assert(ev == (kv[i as int], string_at(text@, member(select_pointer(), kv[i as int]))));
                out.push((key, v));
                assert(kv.take(i + 1) == kv.take(i as int).push(kv[i as int]));
                assert(out@ == before.push((key, v)));
                let ghost lhs = out@.map_values(|e: (String, Option<String>)| (e.0@, crate::models::opt_view(e.1)));
                let ghost lb = before.map_values(|e: (String, Option<String>)| (e.0@, crate::models::opt_view(e.1)));
                let ghost rhs = kv.take(i + 1).map_values(
                    |k: Seq<char>| (k, string_at(text@, member(select_pointer(), k))),
                );
                let ghost rb = kv.take(i as int).map_values(
                    |k: Seq<char>| (k, string_at(text@, member(select_pointer(), k))),
                );
                assert(lb == rb);
                assert(rb.len() == i);
                assert(before.len() == i);
                assert(out@.len() == i + 1);
                assert(lhs.len() == i + 1);
                assert(rhs.len() == i + 1);
                assert forall|j: int| 0 <= j < i + 1 implies lhs[j] == rhs[j] by {
                    if j < i {
                        assert(lhs[j] == lb[j]);
                        assert(rhs[j] == rb[j]);
                    } else {
                        assert(lhs[j] == ev);
                    }
                }
                assert(lhs =~= rhs);
                i = i + 1;
            }
            assert(kv.take(i as int) == kv);
            Some(out)
        },
        _ => None,
    }
}

/// The targets at `p`, when the value there is an array.
fn targets_at_exec(text: &str, p: &str) -> (r: Option<Vec<Option<String>>>)
    ensures
        match r {
            Some(v) => targets_at(text@, p@) == Some(opt_strs_view(v@)),
            None => targets_at(text@, p@).is_none(),
        },
{
    match json_pointer(text, p) {
        Some(JsonShallow::Array(n)) => {
            let mut out: Vec<Option<String>> = Vec::new();
            let mut i: usize = 0;
            while i < n
                invariant
                    i <= n,
                    json_at(text@, p@) == Some(JsonShape::Array(n as nat)),
                    opt_strs_view(out@) == Seq::new(
                        n as nat,
                        |j: int| string_at(text@, member(p@, decimal(j as nat))),
                    ).take(i as int),
                decreases n - i,
            {
                let idx = decimal_string(i);
                let q = member_pointer(p, idx.as_str());
                let v = string_at_exec(text, q.as_str());
                assert(q@ == member(p@, decimal(i as nat)));
                assert(crate::models::opt_view(v) == string_at(text@, member(p@, decimal(i as nat))));
                let ghost before = out@;
                out.push(v);
                assert(out@ == before.push(v));
                let ghost full = Seq::new(
                    n as nat,
                    |j: int| string_at(text@, member(p@, decimal(j as nat))),
                );
                assert(opt_strs_view(before).len() == i);
                assert(before.len() == i);
                assert(opt_strs_view(out@).len() == i + 1);
                assert forall|j: int| 0 <= j < i + 1 implies opt_strs_view(out@)[j] == full.take(i + 1)[j] by {
                    if j < i {
                        assert(opt_strs_view(out@)[j] == opt_strs_view(before)[j]);
                        assert(full.take(i + 1)[j] == full.take(i as int)[j]);
                    }
                }
                assert(opt_strs_view(out@) =~= full.take(i + 1));
                i = i + 1;
            }
            assert(opt_strs_view(out@) =~= Seq::new(
                n as nat,
                |j: int| string_at(text@, member(p@, decimal(j as nat))),
            ));
            Some(out)
        },
        _ => None,
    }
}

/// The view of alias entries.
pub open spec fn alias_entries_view(s: Seq<(String, Option<Vec<Option<String>>>)>) -> Seq<
    (Seq<char>, Option<Seq<Option<Seq<char>>>>),
> {
    s.map_values(
        |e: (String, Option<Vec<Option<String>>>)|
            (
                e.0@,
                match e.1 {
                    Some(v) => Some(opt_strs_view(v@)),
                    None => None,
                },
            ),
    )
}

/// The parts of a `tsconfig.json` text that alias resolution reads:
/// `compilerOptions.baseUrl` where it is a string, and the entries of
/// `compilerOptions.paths`, each with its targets where they form an array;
/// `None` where the text is not JSON or has no `compilerOptions`.
pub fn tsconfig_parts(text: &str) -> (r: Option<(Option<String>, Vec<(String, Option<Vec<Option<String>>>)>)>)
    ensures
        match r {
            Some((b, v)) => tsconfig_entries(text@) == Some(
                (crate::models::opt_view(b), alias_entries_view(v@)),
            ),
            None => tsconfig_entries(text@).is_none(),
        },
{
    let co = owned("/compilerOptions");
    if json_pointer(text, co.as_str()).is_none() {
        return None;
    }
    let base = string_at_exec(text, "/compilerOptions/baseUrl");
    let paths = owned("/compilerOptions/paths");
    let mut out: Vec<(String, Option<Vec<Option<String>>>)> = Vec::new();
    match json_pointer(text, paths.as_str()) {
        Some(JsonShallow::Object(keys)) => {
            let ghost kv = keys@.map_values(|k: String| k@);
            let mut i: usize = 0;
            while i < keys.len()
                invariant
                    i <= keys@.len(),
                    paths@ == paths_pointer(),
                    kv == keys@.map_values(|k: String| k@),
                    alias_entries_view(out@) == kv.take(i as int).map_values(
                        |a: Seq<char>| (a, targets_at(text@, member(paths_pointer(), a))),
                    ),
                decreases keys@.len() - i,
            {
                let p = member_pointer(paths.as_str(), keys[i].as_str());
                let t = targets_at_exec(text, p.as_str());
                let key = owned(keys[i].as_str());
                assert(kv[i as int] == keys@[i as int]@);
                assert(p@ == member(paths_pointer(), kv[i as int]));
                let ghost before = out@;
                out.push((key, t));
                assert(out@ == before.push((key, t)));
                assert(kv.take(i + 1) == kv.take(i as int).push(kv[i as int]));
                let ghost rhs = kv.take(i + 1).map_values(
                    |a: Seq<char>| (a, targets_at(text@, member(paths_pointer(), a))),
                );
                let ghost rb = kv.take(i as int).map_values(
                    |a: Seq<char>| (a, targets_at(text@, member(paths_pointer(), a))),
                );
                assert(alias_entries_view(before) == rb);
                assert(rb.len() == i);
                assert(before.len() == i);
                assert(alias_entries_view(out@).len() == i + 1);
                assert(rhs.len() == i + 1);
                assert forall|j: int| 0 <= j < i + 1 implies alias_entries_view(out@)[j] == rhs[j] by {
                    if j < i {
                        assert(alias_entries_view(out@)[j] == alias_entries_view(before)[j]);
                        assert(rhs[j] == rb[j]);
                    } else {
                        assert(alias_entries_view(out@)[j] == (key@, match t {
                            Some(v) => Some(opt_strs_view(v@)),
                            None => None,
                        }));
                    }
                }
                assert(alias_entries_view(out@) =~= rhs);
                i = i + 1;
            }
            assert(kv.take(i as int) == kv);
        },
        _ => {
            assert(alias_entries_view(out@) =~= Seq::<(Seq<char>, Option<Seq<Option<Seq<char>>>>)>::empty());
        },
    }
    Some((base, out))
}

} // verus!
