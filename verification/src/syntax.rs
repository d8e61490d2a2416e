//! Syntax trees of source files, held as plain data. A grammar parses the bytes; the tree
//! is then walked once, in preorder, and each node is kept with its kind, its field name
//! under its parent, its byte range and rows, and the index of its parent.
use vstd::prelude::*;

verus! {

#[verifier::external_type_specification]
#[verifier::external_body]
pub struct ExTree(tree_sitter::Tree);

#[verifier::external_type_specification]
#[verifier::external_body]
pub struct ExTreeCursor<'a>(tree_sitter::TreeCursor<'a>);

/// The grammars built in.
#[derive(Debug, Clone, Copy, PartialEq, Eq, Structural)]
pub enum Grammar {
    /// `tree_sitter_python`.
    Python,
    /// `tree_sitter_rust`.
    Rust,
}

/// Whether `tree_sitter::Parser::set_language` accepts the grammar (its ABI version is one
/// the parser supports).
pub uninterp spec fn grammar_loads(g: Grammar) -> bool;

/// A source parsed with a grammar: the tree, with the grammar and the bytes it came from.
/// Only `parse_source` builds one.
pub struct ParsedSource {
    tree: tree_sitter::Tree,
    grammar: Grammar,
    source: Vec<u8>,
}

/// `tree_sitter::Parser::parse` of `src` (no old tree) by a parser given the grammar's
/// language with `Parser::set_language`. The parser gives no tree only when it has no
/// language, so there is a tree exactly when the grammar loads (`grammar_loads`).
#[verifier::external_body]
fn parse_source(g: Grammar, src: &[u8]) -> (r: Option<ParsedSource>)
    ensures
        r is Some <==> grammar_loads(g),
        r matches Some(p) ==> p.grammar == g && p.source@ == src@,
{
    let mut parser = tree_sitter::Parser::new();
    let language: tree_sitter::Language = match g {
        Grammar::Python => tree_sitter_python::LANGUAGE.into(),
        Grammar::Rust => tree_sitter_rust::LANGUAGE.into(),
    };
    if parser.set_language(&language).is_err() {
        return None;
    }
    parser.parse(src, None).map(|tree| ParsedSource { tree, grammar: g, source: src.to_vec() })
}

/// A move of the cursor: to the first child.
pub const TO_FIRST_CHILD: u8 = 0;
/// A move of the cursor: to the next sibling.
pub const TO_NEXT_SIBLING: u8 = 1;
/// A move of the cursor: to the parent.
pub const TO_PARENT: u8 = 2;

/// A cursor on the tree of a parsed source, with the moves tried since it stood on the
/// root (each one recorded whether it moved or not). Only `start_walk` builds one.
pub struct SyntaxWalk<'a> {
    cursor: tree_sitter::TreeCursor<'a>,
    grammar: Grammar,
    source: Vec<u8>,
    moves: Vec<u8>,
}

impl<'a> SyntaxWalk<'a> {
    /// The grammar of the walked tree.
    pub closed spec fn grammar(&self) -> Grammar {
        self.grammar
    }

    /// The bytes the walked tree was parsed from.
    pub closed spec fn source(&self) -> Seq<u8> {
        self.source@
    }

    /// The moves tried so far.
    pub closed spec fn moves(&self) -> Seq<u8> {
        self.moves@
    }
}

/// `tree_sitter::Tree::walk`: a cursor on the root of the parsed source's tree.
#[verifier::external_body]
fn start_walk<'a>(p: &'a ParsedSource) -> (w: SyntaxWalk<'a>)
    ensures
        w.grammar() == p.grammar,
        w.source() == p.source@,
        w.moves() == Seq::<u8>::empty(),
{
    SyntaxWalk { cursor: p.tree.walk(), grammar: p.grammar, source: p.source.clone(), moves: Vec::new() }
}

/// Whether `TreeCursor::goto_first_child` moves, on the tree of `src` parsed with `g`,
/// after the moves `moves` were tried from the root.
pub uninterp spec fn first_child_moved(g: Grammar, src: Seq<u8>, moves: Seq<u8>) -> bool;

/// Whether `TreeCursor::goto_next_sibling` moves, likewise.
pub uninterp spec fn next_sibling_moved(g: Grammar, src: Seq<u8>, moves: Seq<u8>) -> bool;

/// Whether `TreeCursor::goto_parent` moves, likewise.
pub uninterp spec fn parent_moved(g: Grammar, src: Seq<u8>, moves: Seq<u8>) -> bool;

/// `Node::kind` of the node under the cursor after the moves `moves`.
pub uninterp spec fn kind_at(g: Grammar, src: Seq<u8>, moves: Seq<u8>) -> Seq<char>;

/// `Node::grammar_name` of the node under the cursor after the moves `moves`.
pub uninterp spec fn grammar_name_at(g: Grammar, src: Seq<u8>, moves: Seq<u8>) -> Seq<char>;

/// `Node::is_named` of the node under the cursor after the moves `moves`.
pub uninterp spec fn named_at(g: Grammar, src: Seq<u8>, moves: Seq<u8>) -> bool;

/// `Node::start_byte` of the node under the cursor after the moves `moves`.
pub uninterp spec fn start_byte_at(g: Grammar, src: Seq<u8>, moves: Seq<u8>) -> usize;

/// `Node::end_byte` of the node under the cursor after the moves `moves`.
pub uninterp spec fn end_byte_at(g: Grammar, src: Seq<u8>, moves: Seq<u8>) -> usize;

/// The row of `Node::start_position` of the node under the cursor after the moves `moves`.
pub uninterp spec fn start_row_at(g: Grammar, src: Seq<u8>, moves: Seq<u8>) -> usize;

/// The row of `Node::end_position` of the node under the cursor after the moves `moves`.
pub uninterp spec fn end_row_at(g: Grammar, src: Seq<u8>, moves: Seq<u8>) -> usize;

/// `TreeCursor::field_name` after the moves `moves`.
pub uninterp spec fn field_at(g: Grammar, src: Seq<u8>, moves: Seq<u8>) -> Option<Seq<char>>;

/// `tree_sitter::TreeCursor::goto_first_child`: whether the cursor moved (`first_child_moved`);
/// the try is recorded.
#[verifier::external_body]
fn goto_first_child(w: &mut SyntaxWalk) -> (moved: bool)
    ensures
        final(w).grammar() == old(w).grammar(),
        final(w).source() == old(w).source(),
        final(w).moves() == old(w).moves().push(TO_FIRST_CHILD),
        moved == first_child_moved(old(w).grammar(), old(w).source(), old(w).moves()),
{
    let moved = w.cursor.goto_first_child();
    w.moves.push(TO_FIRST_CHILD);
    moved
}

/// `tree_sitter::TreeCursor::goto_next_sibling`: whether the cursor moved
/// (`next_sibling_moved`); the try is recorded.
#[verifier::external_body]
fn goto_next_sibling(w: &mut SyntaxWalk) -> (moved: bool)
    ensures
        final(w).grammar() == old(w).grammar(),
        final(w).source() == old(w).source(),
        final(w).moves() == old(w).moves().push(TO_NEXT_SIBLING),
        moved == next_sibling_moved(old(w).grammar(), old(w).source(), old(w).moves()),
{
    let moved = w.cursor.goto_next_sibling();
    w.moves.push(TO_NEXT_SIBLING);
    moved
}

/// `tree_sitter::TreeCursor::goto_parent`: whether the cursor moved (`parent_moved`); the
/// try is recorded.
#[verifier::external_body]
fn goto_parent(w: &mut SyntaxWalk) -> (moved: bool)
    ensures
        final(w).grammar() == old(w).grammar(),
        final(w).source() == old(w).source(),
        final(w).moves() == old(w).moves().push(TO_PARENT),
        moved == parent_moved(old(w).grammar(), old(w).source(), old(w).moves()),
{
    let moved = w.cursor.goto_parent();
    w.moves.push(TO_PARENT);
    moved
}

/// `tree_sitter::TreeCursor::field_name` (`field_at`).
#[verifier::external_body]
fn cursor_field_name(w: &SyntaxWalk) -> (f: Option<String>)
    ensures
        match f {
            Some(s) => field_at(w.grammar(), w.source(), w.moves()) == Some(s@),
            None => field_at(w.grammar(), w.source(), w.moves()) is None,
        },
{
    w.cursor.field_name().map(|s| s.to_string())
}

/// `Node::kind` of the node under the cursor (`kind_at`).
#[verifier::external_body]
fn node_kind(w: &SyntaxWalk) -> (k: String)
    ensures
        k@ == kind_at(w.grammar(), w.source(), w.moves()),
{
    w.cursor.node().kind().to_string()
}

/// `Node::grammar_name` of the node under the cursor (`grammar_name_at`).
#[verifier::external_body]
fn node_grammar_name(w: &SyntaxWalk) -> (k: String)
    ensures
        k@ == grammar_name_at(w.grammar(), w.source(), w.moves()),
{
    w.cursor.node().grammar_name().to_string()
}

/// `Node::is_named` of the node under the cursor (`named_at`).
#[verifier::external_body]
fn node_is_named(w: &SyntaxWalk) -> (b: bool)
    ensures
        b == named_at(w.grammar(), w.source(), w.moves()),
{
    w.cursor.node().is_named()
}

/// `Node::start_byte` of the node under the cursor (`start_byte_at`).
#[verifier::external_body]
fn node_start_byte(w: &SyntaxWalk) -> (b: usize)
    ensures
        b == start_byte_at(w.grammar(), w.source(), w.moves()),
{
    w.cursor.node().start_byte()
}

/// `Node::end_byte` of the node under the cursor (`end_byte_at`).
#[verifier::external_body]
fn node_end_byte(w: &SyntaxWalk) -> (b: usize)
    ensures
        b == end_byte_at(w.grammar(), w.source(), w.moves()),
{
    w.cursor.node().end_byte()
}

/// The row of `Node::start_position` of the node under the cursor (`start_row_at`).
#[verifier::external_body]
fn node_start_row(w: &SyntaxWalk) -> (r: usize)
    ensures
        r == start_row_at(w.grammar(), w.source(), w.moves()),
{
    w.cursor.node().start_position().row
}

/// The row of `Node::end_position` of the node under the cursor (`end_row_at`).
#[verifier::external_body]
fn node_end_row(w: &SyntaxWalk) -> (r: usize)
    ensures
        r == end_row_at(w.grammar(), w.source(), w.moves()),
{
    w.cursor.node().end_position().row
}

/// The text of a byte string read as UTF-8, or `None` where it is not valid UTF-8.
pub uninterp spec fn utf8_text(b: Seq<u8>) -> Option<Seq<char>>;

/// `std::str::from_utf8`: the text of `b` when `b` is valid UTF-8 (named `utf8_text`).
#[verifier::external_body]
fn decode_utf8(b: &[u8]) -> (r: Option<String>)
    ensures
        match r {
            Some(s) => utf8_text(b@) == Some(s@),
            None => utf8_text(b@) is None,
        },
{
    std::str::from_utf8(b).ok().map(|s| s.to_string())
}

/// One node of a syntax tree.
#[derive(Debug)]
pub struct SyntaxNode {
    /// The node kind (`function_definition`, `identifier`...).
    pub kind: String,
    /// The grammar's own name for the kind.
    pub grammar_name: String,
    /// Named nodes are those the grammar names; the others are punctuation and keywords.
    pub is_named: bool,
    /// The field under which the node stands in its parent, if any.
    pub field: Option<String>,
    /// First byte of the node in the source.
    pub start_byte: usize,
    /// Byte after the node in the source.
    pub end_byte: usize,
    /// Row of the first byte, from 0.
    pub start_row: usize,
    /// Row of the last byte, from 0.
    pub end_row: usize,
    /// Index of the parent node; `None` for the root.
    pub parent: Option<usize>,
}

/// A node's data as plain values.
pub struct NodeView {
    pub kind: Seq<char>,
    pub grammar_name: Seq<char>,
    pub is_named: bool,
    pub field: Option<Seq<char>>,
    pub start_byte: usize,
    pub end_byte: usize,
    pub start_row: usize,
    pub end_row: usize,
    pub parent: Option<usize>,
}

impl View for SyntaxNode {
    type V = NodeView;

    open spec fn view(&self) -> NodeView {
        NodeView {
            kind: self.kind@,
            grammar_name: self.grammar_name@,
            is_named: self.is_named,
            field: match self.field {
                Some(f) => Some(f@),
                None => None,
            },
            start_byte: self.start_byte,
            end_byte: self.end_byte,
            start_row: self.start_row,
            end_row: self.end_row,
            parent: self.parent,
        }
    }
}

/// A syntax tree: its nodes in preorder, the root first. The children of a node are the
/// nodes whose parent it is, in the order of their indices.
#[derive(Debug)]
pub struct SyntaxTree {
    /// The nodes.
    pub nodes: Vec<SyntaxNode>,
}

/// The nodes of a tree as plain values.
pub open spec fn nodes_view(t: &SyntaxTree) -> Seq<NodeView> {
    t.nodes@.map_values(|n: SyntaxNode| n@)
}

/// Every parent comes before its children.
pub open spec fn well_formed(ts: Seq<NodeView>) -> bool {
    forall|i: int|
        0 <= i < ts.len() ==> match (#[trigger] ts[i]).parent {
            Some(p) => p < i,
            None => true,
        }
}


/// The node under the cursor after the moves `moves`, with the parent and field given.
pub open spec fn node_at(g: Grammar, src: Seq<u8>, moves: Seq<u8>, parent: Option<usize>, field: Option<Seq<char>>) -> NodeView {
    NodeView {
        kind: kind_at(g, src, moves),
        grammar_name: grammar_name_at(g, src, moves),
        is_named: named_at(g, src, moves),
        field,
        start_byte: start_byte_at(g, src, moves),
        end_byte: end_byte_at(g, src, moves),
        start_row: start_row_at(g, src, moves),
        end_row: end_row_at(g, src, moves),
        parent,
    }
}

/// The walk in preorder from a state (the moves tried, the nodes kept, the current node,
/// whether its children were done), with `budget` steps left: `flatten` step by step.
pub open spec fn walk_from(g: Grammar, src: Seq<u8>, moves: Seq<u8>, nodes: Seq<NodeView>, current: int, visited: bool, budget: nat) -> Seq<NodeView>
    decreases budget,
{
    if budget == 0 {
        nodes
    } else if !visited {
        let m = moves.push(TO_FIRST_CHILD);
        if first_child_moved(g, src, moves) {
            walk_from(g, src, m, nodes.push(node_at(g, src, m, Some(current as usize), field_at(g, src, m))), nodes.len() as int, false, (budget - 1) as nat)
        } else {
            walk_from(g, src, m, nodes, current, true, (budget - 1) as nat)
        }
    } else if next_sibling_moved(g, src, moves) {
        let m = moves.push(TO_NEXT_SIBLING);
        walk_from(g, src, m, nodes.push(node_at(g, src, m, nodes[current].parent, field_at(g, src, m))), nodes.len() as int, false, (budget - 1) as nat)
    } else {
        let m = moves.push(TO_NEXT_SIBLING).push(TO_PARENT);
        if parent_moved(g, src, moves.push(TO_NEXT_SIBLING)) {
            match nodes[current].parent {
                Some(p) => walk_from(g, src, m, nodes, p as int, true, (budget - 1) as nat),
                None => nodes,
            }
        } else {
            nodes
        }
    }
}

/// The nodes of the tree of `src` parsed with `g`, in preorder, as `flatten` keeps them.
pub open spec fn walk_nodes(g: Grammar, src: Seq<u8>) -> Seq<NodeView> {
    walk_from(g, src, Seq::empty(), seq![node_at(g, src, Seq::empty(), None, None)], 0, false, usize::MAX as nat)
}

/// The syntax tree of `src` parsed with `g`: its nodes, when the grammar loads.
pub open spec fn syntax_of(g: Grammar, src: Seq<u8>) -> Option<Seq<NodeView>> {
    if grammar_loads(g) {
        Some(walk_nodes(g, src))
    } else {
        None
    }
}

/// The data of the node under the cursor, with its parent and its field.
fn node_facts(w: &SyntaxWalk, parent: Option<usize>, field: Option<String>) -> (r: SyntaxNode)
    ensures
        r@ == node_at(w.grammar(), w.source(), w.moves(), parent, match field {
            Some(f) => Some(f@),
            None => None::<Seq<char>>,
        }),
{
    SyntaxNode {
        kind: node_kind(w),
        grammar_name: node_grammar_name(w),
        is_named: node_is_named(w),
        field,
        start_byte: node_start_byte(w),
        end_byte: node_end_byte(w),
        start_row: node_start_row(w),
        end_row: node_end_row(w),
        parent,
    }
}

/// Walks the tree under the cursor in preorder and keeps each node: the node the cursor
/// starts on is the root; a node found by going to a first child has the current node as
/// parent, one found by going to a next sibling has the current node's parent.
pub fn flatten(w: &mut SyntaxWalk) -> (t: SyntaxTree)
    requires
        old(w).moves() == Seq::<u8>::empty(),
    ensures
        nodes_view(&t) == walk_nodes(old(w).grammar(), old(w).source()),
        well_formed(nodes_view(&t)),
        nodes_view(&t).len() >= 1,
        nodes_view(&t)[0].parent is None,
{
    let ghost g = w.grammar();
    let ghost src = w.source();
    let mut nodes: Vec<SyntaxNode> = Vec::new();
    nodes.push(node_facts(w, None, None));
    proof {
        assert(nodes@.map_values(|n: SyntaxNode| n@) =~= seq![node_at(g, src, Seq::empty(), None, None)]);
    }
    let mut current: usize = 0;
    let mut visited_children = false;
    let mut steps: usize = 0;
    while steps < usize::MAX
        invariant_except_break
            walk_from(g, src, w.moves(), nodes@.map_values(|n: SyntaxNode| n@), current as int, visited_children, (usize::MAX - steps) as nat)
                == walk_nodes(g, src),
        invariant
            w.grammar() == g,
            w.source() == src,
            current < nodes@.len(),
            nodes@.len() >= 1,
            nodes@[0].parent is None,
            forall|i: int|
                0 <= i < nodes@.len() ==> match (#[trigger] nodes@[i]).parent {
                    Some(p) => p < i,
                    None => true,
                },
        ensures
            nodes@.map_values(|n: SyntaxNode| n@) == walk_nodes(g, src),
        decreases usize::MAX - steps,
    {
        let ghost vs = nodes@.map_values(|n: SyntaxNode| n@);
        let ghost m0 = w.moves();
        let ghost budget = (usize::MAX - steps) as nat;
        let ghost cur0 = current as int;
        assert(vs[cur0] == nodes@[cur0]@);
        steps = steps + 1;
        if !visited_children {
            if goto_first_child(w) {
                let f = cursor_field_name(w);
                let facts = node_facts(w, Some(current), f);
                nodes.push(facts);
                current = nodes.len() - 1;
                proof {
                    assert(nodes@.map_values(|n: SyntaxNode| n@) =~= vs.push(node_at(g, src, m0.push(TO_FIRST_CHILD), Some(cur0 as usize), field_at(g, src, m0.push(TO_FIRST_CHILD)))));
                }
            } else {
                visited_children = true;
            }
        } else if goto_next_sibling(w) {
            let p = nodes[current].parent;
            let f = cursor_field_name(w);
            let facts = node_facts(w, p, f);
            nodes.push(facts);
            current = nodes.len() - 1;
            visited_children = false;
            proof {
                assert(nodes@.map_values(|n: SyntaxNode| n@) =~= vs.push(node_at(g, src, m0.push(TO_NEXT_SIBLING), vs[cur0].parent, field_at(g, src, m0.push(TO_NEXT_SIBLING)))));
            }
        } else if goto_parent(w) {
            match nodes[current].parent {
                Some(p) => {
                    current = p;
                },
                None => {
                    break;
                },
            }
        } else {
            break;
        }
    }
    let t = SyntaxTree { nodes };
    assert forall|i: int| 0 <= i < nodes_view(&t).len() implies match (#[trigger] nodes_view(&t)[i]).parent {
        Some(p) => p < i,
        None => true,
    } by {
        assert(nodes_view(&t)[i] == t.nodes@[i]@);
    }
    t
}

/// Parses `source` with a grammar and keeps its syntax tree (`syntax_of`); `None` exactly
/// when the grammar does not load.
pub fn parse_syntax(grammar: Grammar, source: &[u8]) -> (r: Option<SyntaxTree>)
    ensures
        match r {
            Some(t) => syntax_of(grammar, source@) == Some(nodes_view(&t)) && well_formed(nodes_view(&t))
                && nodes_view(&t).len() >= 1,
            None => syntax_of(grammar, source@) is None,
        },
{
    match parse_source(grammar, source) {
        Some(p) => {
            let mut w = start_walk(&p);
            Some(flatten(&mut w))
        },
        None => None,
    }
}


/// The first child of `i`, from index `from` on, that stands under field `f`.
pub open spec fn field_child_from(ts: Seq<NodeView>, i: int, f: Seq<char>, from: int) -> Option<int>
    decreases ts.len() - from,
{
    if from < 0 || from >= ts.len() {
        None
    } else if ts[from].parent == Some(i as usize) && ts[from].field == Some(f) {
        Some(from)
    } else {
        field_child_from(ts, i, f, from + 1)
    }
}

/// The child of `i` under field `f` (`Node::child_by_field_name`): the first one.
pub open spec fn child_by_field(ts: Seq<NodeView>, i: int, f: Seq<char>) -> Option<int> {
    field_child_from(ts, i, f, i + 1)
}

proof fn lemma_field_child_from(ts: Seq<NodeView>, i: int, f: Seq<char>, from: int)
    ensures
        match field_child_from(ts, i, f, from) {
            Some(j) => from <= j < ts.len() && 0 <= j && ts[j].parent == Some(i as usize) && ts[j].field == Some(f),
            None => true,
        },
    decreases ts.len() - from,
{
    if from < 0 || from >= ts.len() {
    } else if ts[from].parent == Some(i as usize) && ts[from].field == Some(f) {
    } else {
        lemma_field_child_from(ts, i, f, from + 1);
    }
}

/// The first named child of `i` from index `from` on.
pub open spec fn named_child_from(ts: Seq<NodeView>, i: int, from: int) -> Option<int>
    decreases ts.len() - from,
{
    if from < 0 || from >= ts.len() {
        None
    } else if ts[from].parent == Some(i as usize) && ts[from].is_named {
        Some(from)
    } else {
        named_child_from(ts, i, from + 1)
    }
}

/// The first named child of `i`.
pub open spec fn first_named_child(ts: Seq<NodeView>, i: int) -> Option<int> {
    named_child_from(ts, i, i + 1)
}

/// The last named node before index `k` (inclusive) whose parent is `p`.
pub open spec fn named_sibling_before(ts: Seq<NodeView>, p: usize, k: int) -> Option<int>
    decreases k + 1,
{
    if k < 0 || k >= ts.len() {
        None
    } else if ts[k].parent == Some(p) && ts[k].is_named {
        Some(k)
    } else {
        named_sibling_before(ts, p, k - 1)
    }
}

/// The previous named sibling of `j` (`Node::prev_named_sibling`).
pub open spec fn prev_named_sibling(ts: Seq<NodeView>, j: int) -> Option<int> {
    match ts[j].parent {
        Some(p) => named_sibling_before(ts, p, j - 1),
        None => None,
    }
}

proof fn lemma_named_sibling_before(ts: Seq<NodeView>, p: usize, k: int)
    ensures
        match named_sibling_before(ts, p, k) {
            Some(j) => 0 <= j <= k && j < ts.len() && ts[j].parent == Some(p) && ts[j].is_named,
            None => true,
        },
    decreases k + 1,
{
    if k < 0 || k >= ts.len() {
    } else if ts[k].parent == Some(p) && ts[k].is_named {
    } else {
        lemma_named_sibling_before(ts, p, k - 1);
    }
}

/// The text of a node: its bytes read as UTF-8.
pub open spec fn node_text(src: Seq<u8>, n: NodeView) -> Option<Seq<char>> {
    if n.start_byte <= n.end_byte <= src.len() {
        utf8_text(src.subrange(n.start_byte as int, n.end_byte as int))
    } else {
        None
    }
}

/// The start rows of the nodes from `i` up to the root whose kind is in `wanted`, nearest
/// first.
pub open spec fn ancestor_rows(ts: Seq<NodeView>, wanted: Seq<Seq<char>>, i: int) -> Seq<usize>
    decreases i + 1,
{
    if i < 0 || i >= ts.len() {
        Seq::empty()
    } else {
        let here: Seq<usize> = if wanted.contains(ts[i].kind) {
            seq![ts[i].start_row]
        } else {
            Seq::empty()
        };
        match ts[i].parent {
            Some(p) => if p < i {
                here + ancestor_rows(ts, wanted, p as int)
            } else {
                here
            },
            None => here,
        }
    }
}

/// The parent of a node as an index, or -1 for the root.
pub open spec fn parent_index(n: NodeView) -> int {
    match n.parent {
        Some(p) => p as int,
        None => -1,
    }
}

/// `child_by_field` on a tree.
pub fn child_by_field_name(t: &SyntaxTree, i: usize, f: &str) -> (r: Option<usize>)
    requires
        i < t.nodes@.len(),
    ensures
        match r {
            Some(j) => child_by_field(nodes_view(t), i as int, f@) == Some(j as int) && i < j < t.nodes@.len(),
            None => child_by_field(nodes_view(t), i as int, f@) is None,
        },
{
    let ghost ts = nodes_view(t);
    let count = t.nodes.len();
    assert(i < count);
    let mut j = i + 1;
    proof {
        lemma_field_child_from(ts, i as int, f@, i + 1);
    }
    while j < t.nodes.len()
        invariant
            i < j <= t.nodes@.len(),
            ts == nodes_view(t),
            field_child_from(ts, i as int, f@, j as int) == child_by_field(ts, i as int, f@),
        decreases t.nodes.len() - j,
    {
        let n = &t.nodes[j];
        assert(ts[j as int] == n@);
        let hit = match &n.field {
            Some(name) => n.parent == Some(i) && crate::text::str_eq(name.as_str(), f),
            None => false,
        };
        if hit {
            return Some(j);
        }
        j = j + 1;
    }
    None
}

/// `first_named_child` on a tree.
pub fn first_named_child_of(t: &SyntaxTree, i: usize) -> (r: Option<usize>)
    requires
        i < t.nodes@.len(),
    ensures
        match r {
            Some(j) => first_named_child(nodes_view(t), i as int) == Some(j as int) && i < j < t.nodes@.len(),
            None => first_named_child(nodes_view(t), i as int) is None,
        },
{
    let ghost ts = nodes_view(t);
    let count = t.nodes.len();
    assert(i < count);
    let mut j = i + 1;
    while j < t.nodes.len()
        invariant
            i < j <= t.nodes@.len(),
            ts == nodes_view(t),
            named_child_from(ts, i as int, j as int) == first_named_child(ts, i as int),
        decreases t.nodes.len() - j,
    {
        let n = &t.nodes[j];
        assert(ts[j as int] == n@);
        if n.parent == Some(i) && n.is_named {
            return Some(j);
        }
        j = j + 1;
    }
    None
}

/// `prev_named_sibling` on a tree.
pub fn prev_named_sibling_of(t: &SyntaxTree, j: usize) -> (r: Option<usize>)
    requires
        j < t.nodes@.len(),
    ensures
        match r {
            Some(k) => prev_named_sibling(nodes_view(t), j as int) == Some(k as int) && k < j,
            None => prev_named_sibling(nodes_view(t), j as int) is None,
        },
{
    let ghost ts = nodes_view(t);
    assert(ts[j as int] == t.nodes@[j as int]@);
    let p = match t.nodes[j].parent {
        Some(p) => p,
        None => {
            return None;
        },
    };
    proof {
        lemma_named_sibling_before(ts, p, j - 1);
    }
    let mut k = j;
    while k > 0
        invariant
            k <= j < t.nodes@.len(),
            ts == nodes_view(t),
            named_sibling_before(ts, p, k - 1) == prev_named_sibling(ts, j as int),
        decreases k,
    {
        let n = &t.nodes[k - 1];
        assert(ts[k - 1] == n@);
        if n.parent == Some(p) && n.is_named {
            return Some(k - 1);
        }
        k = k - 1;
    }
    None
}

/// `node_text` on a tree.
pub fn text_of(source: &[u8], t: &SyntaxTree, i: usize) -> (r: Option<String>)
    requires
        i < t.nodes@.len(),
    ensures
        match r {
            Some(s) => node_text(source@, nodes_view(t)[i as int]) == Some(s@),
            None => node_text(source@, nodes_view(t)[i as int]) is None,
        },
{
    let n = &t.nodes[i];
    assert(nodes_view(t)[i as int] == n@);
    if !(n.start_byte <= n.end_byte && n.end_byte <= source.len()) {
        return None;
    }
    let mut bytes: Vec<u8> = Vec::new();
    let mut k = n.start_byte;
    while k < n.end_byte
        invariant
            n.start_byte <= k <= n.end_byte <= source@.len(),
            bytes@ == source@.subrange(n.start_byte as int, k as int),
        decreases n.end_byte - k,
    {
        bytes.push(source[k]);
        assert(source@.subrange(n.start_byte as int, k + 1) =~= source@.subrange(n.start_byte as int, k as int).push(source@[k as int]));
        k = k + 1;
    }
    decode_utf8(bytes.as_slice())
}

/// Whether `kind` is one of `wanted`.
pub fn kind_in(kind: &str, wanted: &Vec<&'static str>) -> (b: bool)
    ensures
        b == wanted@.map_values(|w: &'static str| w@).contains(kind@),
{
    let ghost ws = wanted@.map_values(|w: &'static str| w@);
    let mut i: usize = 0;
    while i < wanted.len()
        invariant
            i <= wanted@.len(),
            ws == wanted@.map_values(|w: &'static str| w@),
            forall|j: int| 0 <= j < i ==> ws[j] != kind@,
        decreases wanted.len() - i,
    {
        if crate::text::str_eq(wanted[i], kind) {
            assert(ws[i as int] == kind@);
            return true;
        }
        i = i + 1;
    }
    false
}

/// `ancestor_rows` on a tree.
pub fn ancestor_rows_of(t: &SyntaxTree, wanted: &Vec<&'static str>, i: Option<usize>) -> (r: Vec<usize>)
    requires
        match i {
            Some(k) => k < t.nodes@.len(),
            None => true,
        },
    ensures
        r@ == match i {
            Some(k) => ancestor_rows(nodes_view(t), wanted@.map_values(|w: &'static str| w@), k as int),
            None => Seq::<usize>::empty(),
        },
    decreases
            match i {
                Some(k) => k + 1,
                None => 0,
            },
{
    let ghost ts = nodes_view(t);
    let ghost ws = wanted@.map_values(|w: &'static str| w@);
    match i {
        None => Vec::new(),
        Some(k) => {
            let n = &t.nodes[k];
            assert(ts[k as int] == n@);
            let mut out: Vec<usize> = Vec::new();
            if kind_in(n.kind.as_str(), wanted) {
                out.push(n.start_row);
            }
            let ghost here = out@;
            match n.parent {
                Some(p) => {
                    if p < k {
                        let mut rest = ancestor_rows_of(t, wanted, Some(p));
                        out.append(&mut rest);
                    }
                },
                None => {},
            }
            out
        },
    }
}

} // verus!
