//! Python: `function_definition` and `class_definition` declarations, `import` and
//! `from ... import` statements.
use vstd::prelude::*;

use crate::language_api::{DeclView, ImportView, ParsedDeclarationsData, ParsedImportsData};
use crate::syntax::{
    ancestor_rows, child_by_field, node_text, nodes_view, parent_index, prev_named_sibling,
    well_formed, NodeView, SyntaxTree,
};
use crate::text::{replace_all_seq, split_seq, trim_seq};

verus! {

/// The Python grammar's helper.
#[derive(Debug, Clone, Copy, Default)]
pub struct HelperPython;

/// The parts of a dotted name, trimmed, empty ones left out.
pub open spec fn split_dotted(v: Seq<char>) -> Seq<Seq<char>> {
    split_seq(v, seq!['.']).map_values(|p: Seq<char>| trim_seq(p)).filter(|p: Seq<char>| p.len() > 0)
}

/// The names that the children of `import_statement` node `i` from index `from` on import.
pub open spec fn import_statement_names(src: Seq<u8>, ts: Seq<NodeView>, i: int, from: int) -> Option<Seq<Seq<char>>>
    decreases ts.len() - from,
{
    if from < 0 || from >= ts.len() {
        Some(Seq::empty())
    } else {
        let rest = import_statement_names(src, ts, i, from + 1);
        let n = ts[from];
        if n.parent == Some(i as usize) && n.is_named && (n.kind == "dotted_name"@ || n.kind == "aliased_import"@) {
            let name_node = if n.kind == "aliased_import"@ {
                child_by_field(ts, from, "name"@)
            } else {
                Some(from)
            };
            match name_node {
                None => None,
                Some(k) => match (node_text(src, ts[k]), rest) {
                    (Some(t), Some(r)) => Some(split_dotted(t) + r),
                    _ => None,
                },
            }
        } else {
            rest
        }
    }
}

/// The import entry of node `i`, for `import_statement` and `import_from_statement`.
pub open spec fn python_imports(src: Seq<u8>, ts: Seq<NodeView>, i: int) -> Option<ImportView> {
    if ts[i].kind == "import_statement"@ {
        match import_statement_names(src, ts, i, i + 1) {
            Some(names) => crate::languages::build_imports_spec(src, ts, i, names),
            None => None,
        }
    } else if ts[i].kind == "import_from_statement"@ {
        match child_by_field(ts, i, "module_name"@) {
            Some(m) => match node_text(src, ts[m]) {
                Some(t) => crate::languages::build_imports_spec(src, ts, i, split_dotted(t)),
                None => None,
            },
            None => None,
        }
    } else {
        None
    }
}

/// The first of the comments right before node `b` among its siblings, or `b` itself.
pub open spec fn comment_start(ts: Seq<NodeView>, b: int) -> int
    decreases b + 1,
{
    match prev_named_sibling(ts, b) {
        Some(p) => if 0 <= p < b && ts[p].grammar_name == "comment"@ {
            comment_start(ts, p)
        } else {
            b
        },
        None => b,
    }
}

/// The last row of a signature whose body starts on row `body_start`.
pub open spec fn signature_end(kind: Seq<char>, body_start: usize) -> usize {
    if kind == "function_definition"@ || kind == "class_definition"@ {
        if body_start >= 1 {
            (body_start - 1) as usize
        } else {
            0
        }
    } else {
        body_start
    }
}

/// The signature text of a declaration: its text on one line, trimmed.
pub open spec fn signature_text(full: Seq<char>) -> Seq<char> {
    trim_seq(replace_all_seq(full, "\n"@, " "@))
}

/// The declaration entry of node `i`: none when it has no `name` field or its text is not
/// UTF-8. The body starts at the comments right before it.
pub open spec fn python_declaration(src: Seq<u8>, ts: Seq<NodeView>, i: int, wanted: Seq<Seq<char>>) -> Option<DeclView> {
    match child_by_field(ts, i, "name"@) {
        None => None,
        Some(nn) => match (node_text(src, ts[nn]), node_text(src, ts[i])) {
            (Some(name), Some(full)) => {
                let start = ts[i].start_row;
                let body: Option<(usize, usize)> = match child_by_field(ts, i, "body"@) {
                    Some(b) => Some((ts[comment_start(ts, b)].start_row, ts[b].end_row)),
                    None => None,
                };
                let sig_end = match body {
                    Some(lb) => signature_end(ts[i].kind, lb.0),
                    None => start,
                };
                Some(
                    DeclView {
                        name,
                        start_line: start,
                        end_line: ts[i].end_row,
                        signature: signature_text(full),
                        lines_signature: (start, sig_end),
                        lines_body: body,
                        lines_doc: None,
                        parents: ancestor_rows(ts, wanted, parent_index(ts[i])),
                        lines_qualifier: None,
                        type_: ts[i].kind,
                    },
                )
            },
            _ => None,
        },
    }
}


/// `split_dotted`.
pub fn split_dotted_names(value: &str) -> (r: Vec<String>)
    ensures
        r@.map_values(|x: String| x@) == split_dotted(value@),
{
    let mut seps: Vec<char> = Vec::new();
    seps.push('.');
    let pieces = crate::text::split_chars(value, &seps);
    assert(seps@ =~= seq!['.']);
    let ghost pv = pieces@.map_values(|x: String| x@);
    let ghost trimmed = pv.map_values(|p: Seq<char>| trim_seq(p));
    let mut out: Vec<String> = Vec::new();
    let mut i: usize = 0;
    assert(trimmed.take(0) =~= Seq::<Seq<char>>::empty());
    while i < pieces.len()
        invariant
            i <= pieces@.len(),
            pv == pieces@.map_values(|x: String| x@),
            pv == split_seq(value@, seq!['.']),
            trimmed == pv.map_values(|p: Seq<char>| trim_seq(p)),
            out@.map_values(|x: String| x@) == trimmed.take(i as int).filter(|p: Seq<char>| p.len() > 0),
        decreases pieces.len() - i,
    {
        let t = crate::text::trim(pieces[i].as_str());
        assert(t@ == trimmed[i as int]);
        let ghost before = out@.map_values(|x: String| x@);
        proof {
            crate::utilities::lemma_filter_step(trimmed, i as int, |p: Seq<char>| p.len() > 0);
        }
        if !crate::text::is_empty_text(t.as_str()) {
            out.push(t);
            assert(out@.map_values(|x: String| x@) =~= before.push(trimmed[i as int]));
        } else {
            assert(out@.map_values(|x: String| x@) =~= before);
        }
        i = i + 1;
    }
    assert(trimmed.take(pieces@.len() as int) =~= trimmed);
    out
}

/// An accumulated prefix before what is still to come, failing when that fails.
pub open spec fn prefixed(acc: Seq<Seq<char>>, rest: Option<Seq<Seq<char>>>) -> Option<Seq<Seq<char>>> {
    match rest {
        Some(r) => Some(acc + r),
        None => None,
    }
}

/// The import entry of an `import_statement` node.
fn parse_import_statement(source: &[u8], t: &SyntaxTree, i: usize) -> (r: Option<ParsedImportsData>)
    requires
        i < t.nodes@.len(),
        nodes_view(t)[i as int].kind == "import_statement"@,
    ensures
        crate::language_api::opt_import_view(r) == python_imports(source@, nodes_view(t), i as int),
{
    let ghost ts = nodes_view(t);
    let count = t.nodes.len();
    let mut names: Vec<String> = Vec::new();
    let mut j = i + 1;
    assert(Seq::<Seq<char>>::empty() + Seq::<Seq<char>>::empty() =~= Seq::<Seq<char>>::empty());
    assert forall|r: Seq<Seq<char>>| Seq::<Seq<char>>::empty() + r =~= r by {}
    while j < count
        invariant
            i < j <= count,
            count == t.nodes@.len(),
            ts == nodes_view(t),
            ts[i as int].kind == "import_statement"@,
            import_statement_names(source@, ts, i as int, i + 1) == prefixed(
                names@.map_values(|x: String| x@),
                import_statement_names(source@, ts, i as int, j as int),
            ),
        decreases count - j,
    {
        let n = &t.nodes[j];
        assert(ts[j as int] == n@);
        let ghost acc = names@.map_values(|x: String| x@);
        let is_dotted = crate::text::str_eq(n.kind.as_str(), "dotted_name");
        let is_aliased = crate::text::str_eq(n.kind.as_str(), "aliased_import");
        if n.parent == Some(i) && n.is_named && (is_dotted || is_aliased) {
            let name_node = if is_aliased {
                crate::syntax::child_by_field_name(t, j, "name")
            } else {
                Some(j)
            };
            let k = match name_node {
                Some(k) => k,
                None => {
                    assert(import_statement_names(source@, ts, i as int, j as int) is None);
                    return None;
                },
            };
            let text = match crate::syntax::text_of(source, t, k) {
                Some(x) => x,
                None => {
                    assert(import_statement_names(source@, ts, i as int, j as int) is None);
                    return None;
                },
            };
            let parts = split_dotted_names(text.as_str());
            crate::languages::push_all(&mut names, parts);
            let ghost rest = import_statement_names(source@, ts, i as int, j + 1);
            assert(match rest {
                Some(r) => prefixed(acc, Some(split_dotted(text@) + r)) == prefixed(acc + split_dotted(text@), Some(r)),
                None => true,
            }) by {
                match rest {
                    Some(r) => {
                        assert(acc + (split_dotted(text@) + r) =~= (acc + split_dotted(text@)) + r);
                    },
                    None => {},
                }
            }
        }
        j = j + 1;
    }
    assert(names@.map_values(|x: String| x@) + Seq::<Seq<char>>::empty() =~= names@.map_values(|x: String| x@));
    crate::languages::build_imports(source, t, i, names)
}

/// The import entry of node `i` (`python_imports`).
pub fn parse_imports(source: &[u8], t: &SyntaxTree, i: usize) -> (r: Option<ParsedImportsData>)
    requires
        i < t.nodes@.len(),
    ensures
        crate::language_api::opt_import_view(r) == python_imports(source@, nodes_view(t), i as int),
{
    let ghost ts = nodes_view(t);
    assert(ts[i as int] == t.nodes@[i as int]@);
    let kind = t.nodes[i].kind.as_str();
    if crate::text::str_eq(kind, "import_statement") {
        parse_import_statement(source, t, i)
    } else if crate::text::str_eq(kind, "import_from_statement") {
        let m = match crate::syntax::child_by_field_name(t, i, "module_name") {
            Some(m) => m,
            None => {
                return None;
            },
        };
        let text = match crate::syntax::text_of(source, t, m) {
            Some(x) => x,
            None => {
                return None;
            },
        };
        let names = split_dotted_names(text.as_str());
        crate::languages::build_imports(source, t, i, names)
    } else {
        None
    }
}


/// `comment_start` on a tree.
fn comment_start_of(t: &SyntaxTree, b: usize) -> (r: usize)
    requires
        b < t.nodes@.len(),
    ensures
        r as int == comment_start(nodes_view(t), b as int),
        r < t.nodes@.len(),
{
    let ghost ts = nodes_view(t);
    let mut node = b;
    loop
        invariant
            node < t.nodes@.len(),
            ts == nodes_view(t),
            comment_start(ts, node as int) == comment_start(ts, b as int),
        decreases node,
    {
        match crate::syntax::prev_named_sibling_of(t, node) {
            Some(p) => {
                assert(ts[p as int] == t.nodes@[p as int]@);
                if crate::text::str_eq(t.nodes[p].grammar_name.as_str(), crate::constants::treesitter_::FIELD_COMMENT) {
                    node = p;
                } else {
                    return node;
                }
            },
            None => {
                return node;
            },
        }
    }
}

/// The declaration entry of node `i` (`python_declaration`).
pub fn parse_declaration_python(source: &[u8], t: &SyntaxTree, i: usize, wanted: &Vec<&'static str>) -> (r: Option<ParsedDeclarationsData>)
    requires
        i < t.nodes@.len(),
        well_formed(nodes_view(t)),
    ensures
        crate::language_api::opt_decl_view(r) == python_declaration(
            source@,
            nodes_view(t),
            i as int,
            wanted@.map_values(|w: &'static str| w@),
        ),
{
    let ghost ts = nodes_view(t);
    assert(ts[i as int] == t.nodes@[i as int]@);
    proof {
        reveal_strlit("comment");
    }
    let name_node = match crate::syntax::child_by_field_name(t, i, crate::constants::treesitter_::FIELD_NAME) {
        Some(n) => n,
        None => {
            return None;
        },
    };
    let name = match crate::syntax::text_of(source, t, name_node) {
        Some(x) => x,
        None => {
            return None;
        },
    };
    let full = match crate::syntax::text_of(source, t, i) {
        Some(x) => x,
        None => {
            return None;
        },
    };
    let node = &t.nodes[i];
    let start_line = node.start_row;
    let lines_body: Option<(usize, usize)> = match crate::syntax::child_by_field_name(t, i, crate::constants::treesitter_::FIELD_BODY) {
        Some(b) => {
            let c = comment_start_of(t, b);
            assert(ts[c as int] == t.nodes@[c as int]@);
            assert(ts[b as int] == t.nodes@[b as int]@);
            Some((t.nodes[c].start_row, t.nodes[b].end_row))
        },
        None => None,
    };
    let signature_end_line = match lines_body {
        Some((body_start, _)) => {
            if crate::text::str_eq(node.kind.as_str(), "function_definition") || crate::text::str_eq(
                node.kind.as_str(),
                "class_definition",
            ) {
                if body_start >= 1 {
                    body_start - 1
                } else {
                    0
                }
            } else {
                body_start
            }
        },
        None => start_line,
    };
    let one_line = crate::text::replace(full.as_str(), "\n", " ");
    let signature = crate::text::trim(one_line.as_str());
    let parents = crate::syntax::ancestor_rows_of(t, wanted, node.parent);
    Some(
        ParsedDeclarationsData {
            name,
            start_line,
            end_line: node.end_row,
            signature,
            lines_signature: (start_line, signature_end_line),
            lines_body,
            lines_doc: None,
            parents,
            lines_qualifier: None,
            type_: crate::text::owned(node.kind.as_str()),
        },
    )
}

} // verus!
