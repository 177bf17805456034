//! The syntax tree of a TypeScript file as plain data: `tree-sitter` parses
//! the text, and the tree is copied, node by node, into [`SyntaxNode`]s that
//! the analysis reads. A node of the parse is addressed by the positions of
//! the named children on the way from the root to it; what `tree-sitter`
//! gives for a node is named as a function of the text, the grammar and
//! that path.

use vstd::prelude::*;
use vstd::utf8::{encode_utf8, valid_utf8};
use tree_sitter::{Language, Node, Parser, Tree};
use crate::models::opt_view;

verus! {

#[verifier::external_type_specification]
#[verifier::external_body]
pub struct ExTree(Tree);

#[verifier::external_type_specification]
#[verifier::external_body]
pub struct ExNode<'a>(Node<'a>);

/// Whether `tree-sitter` parses with the bundled TypeScript grammar (the
/// TSX one when `tsx` holds): `Parser::set_language` accepts it.
pub uninterp spec fn grammar_loads(tsx: bool) -> bool;

/// `Node::kind` of the node at `path` in the parse of `source`.
pub uninterp spec fn node_kind(source: Seq<char>, tsx: bool, path: Seq<u32>) -> Seq<char>;

/// The row of `Node::start_position` of the node at `path`.
pub uninterp spec fn node_row(source: Seq<char>, tsx: bool, path: Seq<u32>) -> usize;

/// `Node::start_byte` of the node at `path`.
pub uninterp spec fn node_start_byte(source: Seq<char>, tsx: bool, path: Seq<u32>) -> usize;

/// `Node::end_byte` of the node at `path`.
pub uninterp spec fn node_end_byte(source: Seq<char>, tsx: bool, path: Seq<u32>) -> usize;

/// `Node::named_child_count` of the node at `path`.
pub uninterp spec fn node_named_count(source: Seq<char>, tsx: bool, path: Seq<u32>) -> usize;

/// Whether `Node::named_child(i)` of the node at `path` gives a node.
pub uninterp spec fn node_has_child(source: Seq<char>, tsx: bool, path: Seq<u32>, i: u32) -> bool;

/// `Node::field_name_for_named_child(i)` of the node at `path`.
pub uninterp spec fn node_child_field(source: Seq<char>, tsx: bool, path: Seq<u32>, i: u32) -> Option<
    Seq<char>,
>;

/// The tree that `tree-sitter` builds for `source` with the TypeScript (or
/// TSX) grammar. Only `ts_parse_source` makes one.
pub struct SourceTree {
    tree: Tree,
    source: String,
    tsx: bool,
}

impl SourceTree {
    /// The text that was parsed.
    pub closed spec fn spec_source(&self) -> Seq<char> {
        self.source@
    }

    /// Whether the TSX grammar was used.
    pub closed spec fn spec_tsx(&self) -> bool {
        self.tsx
    }
}

/// A node of a parse with its path from the root. Only `ts_root` and
/// `ts_child` make one, so that the node is the one at that path.
pub struct PathNode<'a> {
    node: Node<'a>,
    owner: &'a SourceTree,
    path: Vec<u32>,
}

impl<'a> PathNode<'a> {
    /// The text of the parse.
    pub closed spec fn src(&self) -> Seq<char> {
        self.owner.source@
    }

    /// Whether the parse used the TSX grammar.
    pub closed spec fn tsx(&self) -> bool {
        self.owner.tsx
    }

    /// The positions of the named children from the root to the node.
    pub closed spec fn spec_path(&self) -> Seq<u32> {
        self.path@
    }
}

/// Makes a `tree_sitter::Parser` (`Parser::new`), sets the TypeScript or the
/// TSX grammar of `tree-sitter-typescript` (`Parser::set_language`) and
/// parses `source` (`Parser::parse`, without an earlier tree). The contract
/// claims that the result depends on `tsx` alone: the crate's documentation
/// says that `parse` gives no tree only when no language is set, and whether
/// `set_language` accepts the grammar depends on the bundled grammar.
#[verifier::external_body]
fn ts_parse_source(source: &str, tsx: bool) -> (r: Option<SourceTree>)
    ensures
        r.is_some() == grammar_loads(tsx),
        r matches Some(t) ==> t.spec_source() == source@ && t.spec_tsx() == tsx,
{
    let lang: Language = if tsx {
        tree_sitter_typescript::LANGUAGE_TSX.into()
    } else {
        tree_sitter_typescript::LANGUAGE_TYPESCRIPT.into()
    };
    let mut p = Parser::new();
    if p.set_language(&lang).is_err() {
        return None;
    }
    p.parse(source, None).map(|tree| SourceTree { tree, source: source.to_string(), tsx })
}

/// `Tree::root_node` of the parse, at the empty path.
#[verifier::external_body]
fn ts_root<'a>(t: &'a SourceTree) -> (r: PathNode<'a>)
    ensures
        r.src() == t.spec_source(),
        r.tsx() == t.spec_tsx(),
        r.spec_path() == Seq::<u32>::empty(),
{
    PathNode { node: t.tree.root_node(), owner: t, path: Vec::new() }
}

/// `Node::named_child(i)`, at the path `path`, which extends the node's by
/// `i`.
#[verifier::external_body]
fn ts_child<'a>(n: &PathNode<'a>, i: u32, path: Vec<u32>) -> (r: Option<PathNode<'a>>)
    requires
        path@ == n.spec_path().push(i),
    ensures
        r.is_some() == node_has_child(n.src(), n.tsx(), n.spec_path(), i),
        r matches Some(c) ==> c.src() == n.src() && c.tsx() == n.tsx() && c.spec_path() == path@,
{
    match n.node.named_child(i) {
        Some(c) => Some(PathNode { node: c, owner: n.owner, path }),
        None => None,
    }
}

/// `Node::kind`, copied into a `String`.
#[verifier::external_body]
fn ts_kind(n: &PathNode) -> (r: String)
    ensures
        r@ == node_kind(n.src(), n.tsx(), n.spec_path()),
{
    n.node.kind().to_string()
}

/// `Node::named_child_count`.
#[verifier::external_body]
fn ts_named_child_count(n: &PathNode) -> (r: usize)
    ensures
        r == node_named_count(n.src(), n.tsx(), n.spec_path()),
{
    n.node.named_child_count()
}

/// `Node::field_name_for_named_child`, copied into a `String`.
#[verifier::external_body]
fn ts_field_name_for_named_child(n: &PathNode, i: u32) -> (r: Option<String>)
    ensures
        opt_view(r) == node_child_field(n.src(), n.tsx(), n.spec_path(), i),
{
    match n.node.field_name_for_named_child(i) {
        Some(s) => Some(s.to_string()),
        None => None,
    }
}

/// The row of `Node::start_position`.
#[verifier::external_body]
fn ts_start_row(n: &PathNode) -> (r: usize)
    ensures
        r == node_row(n.src(), n.tsx(), n.spec_path()),
{
    n.node.start_position().row
}

/// `Node::start_byte`.
#[verifier::external_body]
fn ts_start_byte(n: &PathNode) -> (r: usize)
    ensures
        r == node_start_byte(n.src(), n.tsx(), n.spec_path()),
{
    n.node.start_byte()
}

/// `Node::end_byte`.
#[verifier::external_body]
fn ts_end_byte(n: &PathNode) -> (r: usize)
    ensures
        r == node_end_byte(n.src(), n.tsx(), n.spec_path()),
{
    n.node.end_byte()
}

/// `std::str::from_utf8`, copied into a `String`: the bytes as text where
/// they are valid UTF-8.
#[verifier::external_body]
fn utf8_string(bytes: &[u8]) -> (r: Option<String>)
    ensures
        r.is_some() == valid_utf8(bytes@),
        r matches Some(s) ==> encode_utf8(s@) == bytes@,
{
    match std::str::from_utf8(bytes) {
        Ok(s) => Some(s.to_string()),
        Err(_) => None,
    }
}

/// The text of a node (`Node::utf8_text` on the text's bytes, or the empty
/// string where that fails): the characters whose UTF-8 bytes are those of
/// `source` from `start` to `end`, where those are in range and valid UTF-8.
pub open spec fn node_text(source: Seq<char>, start: usize, end: usize, text: Seq<char>) -> bool {
    let b = encode_utf8(source);
    if start <= end <= b.len() && valid_utf8(b.subrange(start as int, end as int)) {
        encode_utf8(text) == b.subrange(start as int, end as int)
    } else {
        text.len() == 0
    }
}

/// The positions below `k` at which the node at `path` has a named child.
pub open spec fn present_children(source: Seq<char>, tsx: bool, path: Seq<u32>, k: nat) -> Seq<u32>
    decreases k,
{
    if k == 0 {
        Seq::empty()
    } else {
        let r = present_children(source, tsx, path, (k - 1) as nat);
        if node_has_child(source, tsx, path, (k - 1) as u32) {
            r.push((k - 1) as u32)
        } else {
            r
        }
    }
}

/// How many named children are looked at: the count, up to `u32::MAX`.
pub open spec fn looked_at(source: Seq<char>, tsx: bool, path: Seq<u32>) -> nat {
    let c = node_named_count(source, tsx, path);
    if c < u32::MAX {
        c as nat
    } else {
        u32::MAX as nat
    }
}

/// Whether `n` is the copy of the node at `path` in the parse of `source`,
/// filling the field `field` of its parent, with its named children copied
/// down to `fuel` levels (deeper nodes are copied without children).
pub open spec fn copied(
    n: SyntaxNode,
    source: Seq<char>,
    tsx: bool,
    path: Seq<u32>,
    field: Option<Seq<char>>,
    fuel: nat,
) -> bool
    decreases fuel,
{
    let cs = present_children(source, tsx, path, looked_at(source, tsx, path));
    &&& n.kind@ == node_kind(source, tsx, path)
    &&& opt_view(n.field) == field
    &&& node_text(source, node_start_byte(source, tsx, path), node_end_byte(source, tsx, path), n.text@)
    &&& n.row == node_row(source, tsx, path)
    &&& if fuel == 0 {
        n.children@.len() == 0
    } else {
        &&& n.children@.len() == cs.len()
        &&& forall|j: int|
            0 <= j < cs.len() ==> copied(
                #[trigger] n.children@[j],
                source,
                tsx,
                path.push(cs[j]),
                node_child_field(source, tsx, path, cs[j]),
                (fuel - 1) as nat,
            )
    }
}

/// A node of a syntax tree: its kind, the field of its parent that it fills,
/// its source text, the row (0-based) where it starts, and its named
/// children in order.
#[derive(Debug)]
pub struct SyntaxNode {
    pub kind: String,
    pub field: Option<String>,
    pub text: String,
    pub row: usize,
    pub children: Vec<SyntaxNode>,
}

/// The text of the node: the bytes of `source` in the node's range, where
/// they are in range and valid UTF-8, else the empty string.
fn node_text_exec(n: &PathNode, source: &str) -> (r: String)
    requires
        source@ == n.src(),
    ensures
        node_text(
            n.src(),
            node_start_byte(n.src(), n.tsx(), n.spec_path()),
            node_end_byte(n.src(), n.tsx(), n.spec_path()),
            r@,
        ),
{
    let start = ts_start_byte(n);
    let end = ts_end_byte(n);
    let bytes = source.as_bytes();
    if start <= end && end <= bytes.len() {
        let sub = vstd::slice::slice_subrange(bytes, start, end);
        match utf8_string(sub) {
            Some(s) => s,
            None => String::new(),
        }
    } else {
        String::new()
    }
}

/// Copies the node and its named children, down to `fuel` levels; nodes
/// deeper than that are copied without their children.
fn copy_node(n: &PathNode, field: Option<String>, source: &str, fuel: usize) -> (r: SyntaxNode)
    requires
        source@ == n.src(),
    ensures
        copied(r, n.src(), n.tsx(), n.spec_path(), opt_view(field), fuel as nat),
    decreases fuel,
{
    let ghost src = n.src();
    let ghost tsx = n.tsx();
    let ghost path = n.spec_path();
    let kind = ts_kind(n);
    let text = node_text_exec(n, source);
    let row = ts_start_row(n);
    let mut children: Vec<SyntaxNode> = Vec::new();
    if fuel > 0 {
        let count = ts_named_child_count(n);
        let mut i: u32 = 0;
        while (i as usize) < count && i < u32::MAX
            invariant
                fuel > 0,
                source@ == n.src(),
                src == n.src(),
                tsx == n.tsx(),
                path == n.spec_path(),
                count == node_named_count(src, tsx, path),
                i as nat <= looked_at(src, tsx, path),
                children@.len() == present_children(src, tsx, path, i as nat).len(),
                forall|j: int|
                    0 <= j < children@.len() ==> copied(
                        #[trigger] children@[j],
                        src,
                        tsx,
                        path.push(present_children(src, tsx, path, i as nat)[j]),
                        node_child_field(src, tsx, path, present_children(src, tsx, path, i as nat)[j]),
                        (fuel - 1) as nat,
                    ),
            decreases count - (i as usize),
        {
            let ghost before = present_children(src, tsx, path, i as nat);
            let ghost old_children = children@;
            let mut cpath = n.path.clone();
            cpath.push(i);
            proof {
                assert(cpath@ == path.push(i));
            }
            match ts_child(n, i, cpath) {
                Some(c) => {
                    let f = ts_field_name_for_named_child(n, i);
                    let child = copy_node(&c, f, source, fuel - 1);
                    children.push(child);
                    assert(present_children(src, tsx, path, (i + 1) as nat) == before.push(i));
                    assert forall|j: int| 0 <= j < children@.len() implies copied(
                        #[trigger] children@[j],
                        src,
                        tsx,
                        path.push(present_children(src, tsx, path, (i + 1) as nat)[j]),
                        node_child_field(src, tsx, path, present_children(src, tsx, path, (i + 1) as nat)[j]),
                        (fuel - 1) as nat,
                    ) by {
                        if j < old_children.len() {
                            assert(children@[j] == old_children[j]);
                        }
                    }
                },
                None => {
                    assert(present_children(src, tsx, path, (i + 1) as nat) == before);
                },
            }
            i = i + 1;
        }
        assert(i as nat == looked_at(src, tsx, path));
    }
    SyntaxNode { kind, field, text, row, children }
}

/// Parses `source` as TypeScript, or as TSX when `tsx` holds, and copies the
/// whole tree (to a depth of `usize::MAX`): `None` exactly when `tree-sitter` does not
/// load the grammar.
pub fn syntax_tree(source: &str, tsx: bool) -> (r: Option<SyntaxNode>)
    ensures
        r.is_some() == grammar_loads(tsx),
        r matches Some(t) ==> copied(t, source@, tsx, Seq::empty(), None, usize::MAX as nat),
{
    match ts_parse_source(source, tsx) {
        Some(st) => {
            let root = ts_root(&st);
            let t = copy_node(&root, None, source, usize::MAX);
            Some(t)
        },
        None => None,
    }
}

} // verus!
