//! What the built-in grammars find in a syntax tree: declarations and imports.
use vstd::prelude::*;

use crate::language_api::{ImportView, ParsedImportsData};
use crate::syntax::{node_text, nodes_view, NodeView, SyntaxTree};

pub mod python;
pub mod rust;

verus! {

/// The import entry of node `i` with these names: none when there are no names or the
/// node's text is not UTF-8.
pub open spec fn build_imports_spec(src: Seq<u8>, ts: Seq<NodeView>, i: int, names: Seq<Seq<char>>) -> Option<ImportView> {
    if names.len() == 0 {
        None
    } else {
        match node_text(src, ts[i]) {
            Some(b) => Some(ImportView { body: b, names, start_line: ts[i].start_row, end_line: ts[i].end_row }),
            None => None,
        }
    }
}

/// `build_imports_spec`.
pub fn build_imports(source: &[u8], t: &SyntaxTree, i: usize, names: Vec<String>) -> (r: Option<ParsedImportsData>)
    requires
        i < t.nodes@.len(),
    ensures
        crate::language_api::opt_import_view(r) == build_imports_spec(
            source@,
            nodes_view(t),
            i as int,
            names@.map_values(|x: String| x@),
        ),
{
    if names.len() == 0 {
        return None;
    }
    let body = match crate::syntax::text_of(source, t, i) {
        Some(b) => b,
        None => {
            return None;
        },
    };
    assert(nodes_view(t)[i as int] == t.nodes@[i as int]@);
    Some(ParsedImportsData { body, names, start_line: t.nodes[i].start_row, end_line: t.nodes[i].end_row })
}

pub fn push_all(out: &mut Vec<String>, more: Vec<String>)
    ensures
        final(out)@.map_values(|x: String| x@) == old(out)@.map_values(|x: String| x@) + more@.map_values(
            |x: String| x@,
        ),
{
    let ghost start = out@.map_values(|x: String| x@);
    let ghost mv = more@.map_values(|x: String| x@);
    let mut k: usize = 0;
    while k < more.len()
        invariant
            k <= more@.len(),
            mv == more@.map_values(|x: String| x@),
            out@.map_values(|x: String| x@) == start + mv.take(k as int),
        decreases more.len() - k,
    {
        let ghost b = out@.map_values(|x: String| x@);
        out.push(crate::text::owned(more[k].as_str()));
        assert(out@.map_values(|x: String| x@) =~= b.push(mv[k as int]));
        assert(mv.take(k + 1) =~= mv.take(k as int).push(mv[k as int]));
        k = k + 1;
    }
    assert(mv.take(more@.len() as int) =~= mv);
}

} // verus!
