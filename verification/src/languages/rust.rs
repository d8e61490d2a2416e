//! Rust: items as declarations (an `impl` named after its trait and type), `use`
//! declarations and body-less `mod` items as imports.
use vstd::prelude::*;

use crate::commands::macros::split_double_colon;
use crate::language_api::{DeclView, ImportView, ParsedDeclarationsData, ParsedImportsData};
use crate::languages::build_imports_spec;
use crate::languages::python::{signature_end, signature_text};
use crate::syntax::{
    ancestor_rows, child_by_field, first_named_child, node_text, nodes_view, parent_index,
    well_formed, NodeView, SyntaxTree,
};
use crate::text::trim_seq;

verus! {

/// The Rust grammar's helper.
#[derive(Debug, Clone, Copy, Default)]
pub struct HelperRust;

/// Node kinds that are one path segment.
pub open spec fn is_segment_kind(k: Seq<char>) -> bool {
    k == "identifier"@ || k == "self"@ || k == "super"@ || k == "crate"@ || k == "type_identifier"@
}

/// Node kinds that are a path followed by a name.
pub open spec fn is_scoped_kind(k: Seq<char>) -> bool {
    k == "scoped_identifier"@ || k == "scoped_type_identifier"@
}

/// The segments of the path at node `n`, in order.
pub open spec fn path_segments(src: Seq<u8>, ts: Seq<NodeView>, n: int) -> Seq<Seq<char>>
    decreases ts.len() - n,
{
    if n < 0 || n >= ts.len() {
        Seq::empty()
    } else if is_segment_kind(ts[n].kind) {
        match node_text(src, ts[n]) {
            Some(t) => seq![t],
            None => Seq::empty(),
        }
    } else if is_scoped_kind(ts[n].kind) {
        let a: Seq<Seq<char>> = match child_by_field(ts, n, "path"@) {
            Some(p) => if n < p < ts.len() {
                path_segments(src, ts, p)
            } else {
                Seq::empty()
            },
            None => Seq::empty(),
        };
        let b: Seq<Seq<char>> = match child_by_field(ts, n, "name"@) {
            Some(m) => if n < m < ts.len() {
                path_segments(src, ts, m)
            } else {
                Seq::empty()
            },
            None => Seq::empty(),
        };
        a + b
    } else {
        Seq::empty()
    }
}

/// A path segment that names the crate or a relative module.
pub open spec fn is_relative_segment(s: Seq<char>) -> bool {
    s == "crate"@ || s == "self"@ || s == "super"@
}

/// The segments without `crate`, `self` and `super`.
pub open spec fn normalized(segs: Seq<Seq<char>>) -> Seq<Seq<char>> {
    segs.filter(|s: Seq<char>| !is_relative_segment(s))
}

/// The `::` fields of a `use` argument include `self` or `super`.
pub open spec fn mentions_self_or_super(raw: Seq<char>) -> bool {
    exists|k: int|
        0 <= k < split_double_colon(raw).len() && (trim_seq(#[trigger] split_double_colon(raw)[k]) == "self"@
            || trim_seq(split_double_colon(raw)[k]) == "super"@)
}

/// The names that the argument node `a` of a `use` declaration imports.
pub open spec fn use_names(src: Seq<u8>, ts: Seq<NodeView>, a: int) -> Seq<Seq<char>> {
    let k = ts[a].kind;
    if k == "scoped_use_list"@ || k == "use_as_clause"@ {
        match child_by_field(ts, a, "path"@) {
            Some(p) => normalized(path_segments(src, ts, p)),
            None => Seq::empty(),
        }
    } else if k == "use_wildcard"@ {
        match first_named_child(ts, a) {
            Some(p) => normalized(path_segments(src, ts, p)),
            None => Seq::empty(),
        }
    } else {
        let s = normalized(path_segments(src, ts, a));
        if s.len() > 1 {
            s.drop_last()
        } else {
            s
        }
    }
}

/// The import entry of a `use` declaration: none for one that names `self` or `super`.
pub open spec fn rust_use_import(src: Seq<u8>, ts: Seq<NodeView>, i: int) -> Option<ImportView> {
    match child_by_field(ts, i, "argument"@) {
        None => None,
        Some(a) => match node_text(src, ts[a]) {
            None => None,
            Some(raw) => if mentions_self_or_super(raw) {
                None
            } else {
                build_imports_spec(src, ts, i, use_names(src, ts, a).filter(|s: Seq<char>| s.len() > 0))
            },
        },
    }
}

/// The import entry of a `mod` item: only one without a body, which names a file.
pub open spec fn rust_mod_import(src: Seq<u8>, ts: Seq<NodeView>, i: int) -> Option<ImportView> {
    if child_by_field(ts, i, "body"@) is Some {
        None
    } else {
        match child_by_field(ts, i, "name"@) {
            None => None,
            Some(m) => match node_text(src, ts[m]) {
                Some(t) => build_imports_spec(src, ts, i, seq![t]),
                None => None,
            },
        }
    }
}

/// The import entry of node `i`, for `use_declaration` and `mod_item`.
pub open spec fn rust_imports(src: Seq<u8>, ts: Seq<NodeView>, i: int) -> Option<ImportView> {
    if ts[i].kind == "use_declaration"@ {
        rust_use_import(src, ts, i)
    } else if ts[i].kind == "mod_item"@ {
        rust_mod_import(src, ts, i)
    } else {
        None
    }
}

/// The text of the child of `i` under field `f`, if there is one and it is UTF-8.
pub open spec fn field_text(src: Seq<u8>, ts: Seq<NodeView>, i: int, f: Seq<char>) -> Option<Seq<char>> {
    match child_by_field(ts, i, f) {
        Some(n) => node_text(src, ts[n]),
        None => None,
    }
}

/// The name of an `impl` item: `Trait for Type`, or the type alone.
pub open spec fn impl_name(src: Seq<u8>, ts: Seq<NodeView>, i: int) -> Seq<char> {
    let ty = match field_text(src, ts, i, "type"@) {
        Some(t) => t,
        None => Seq::empty(),
    };
    match field_text(src, ts, i, "trait"@) {
        Some(tr) => tr + " for "@ + ty,
        None => ty,
    }
}

/// The declaration entry of node `i`: none when it is not an `impl` and has no `name`
/// field, or a text is not UTF-8.
pub open spec fn rust_declaration(src: Seq<u8>, ts: Seq<NodeView>, i: int, wanted: Seq<Seq<char>>) -> Option<DeclView> {
    let name: Option<Seq<char>> = if ts[i].kind == "impl_item"@ {
        Some(impl_name(src, ts, i))
    } else {
        field_text(src, ts, i, "name"@)
    };
    match (name, node_text(src, ts[i])) {
        (Some(name), Some(full)) => {
            let start = ts[i].start_row;
            let body: Option<(usize, usize)> = match child_by_field(ts, i, "body"@) {
                Some(b) => Some((ts[b].start_row, ts[b].end_row)),
                None => None,
            };
            let sig_end = match body {
                Some(lb) => signature_end(ts[i].kind, lb.0),
                None => start,
            };
            Some(
                DeclView {
                    name,
                    start_line: start,
                    end_line: ts[i].end_row,
                    signature: signature_text(full),
                    lines_signature: (start, sig_end),
                    lines_body: body,
                    lines_doc: None,
                    parents: ancestor_rows(ts, wanted, parent_index(ts[i])),
                    lines_qualifier: None,
                    type_: ts[i].kind,
                },
            )
        },
        _ => None,
    }
}


fn no_texts() -> (r: Vec<String>)
    ensures
        r@.map_values(|x: String| x@) == Seq::<Seq<char>>::empty(),
{
    let r: Vec<String> = Vec::new();
    assert(r@.map_values(|x: String| x@) =~= Seq::<Seq<char>>::empty());
    r
}

fn concat_texts(a: Vec<String>, b: Vec<String>) -> (r: Vec<String>)
    ensures
        r@.map_values(|x: String| x@) == a@.map_values(|x: String| x@) + b@.map_values(|x: String| x@),
{
    let mut out = a;
    crate::languages::push_all(&mut out, b);
    out
}

/// `path_segments` on a tree.
pub fn collect_path_segments(source: &[u8], t: &SyntaxTree, n: usize) -> (r: Vec<String>)
    requires
        n < t.nodes@.len(),
    ensures
        r@.map_values(|x: String| x@) == path_segments(source@, nodes_view(t), n as int),
    decreases t.nodes@.len() - n,
{
    let ghost ts = nodes_view(t);
    assert(ts[n as int] == t.nodes@[n as int]@);
    let kind = t.nodes[n].kind.as_str();
    let segment = crate::text::str_eq(kind, "identifier") || crate::text::str_eq(kind, "self")
        || crate::text::str_eq(kind, "super") || crate::text::str_eq(kind, "crate")
        || crate::text::str_eq(kind, "type_identifier");
    if segment {
        let mut out: Vec<String> = Vec::new();
        match crate::syntax::text_of(source, t, n) {
            Some(x) => {
                out.push(x);
                assert(out@.map_values(|x: String| x@) =~= seq![x@]);
            },
            None => {
                assert(out@.map_values(|x: String| x@) =~= Seq::<Seq<char>>::empty());
            },
        }
        out
    } else if crate::text::str_eq(kind, "scoped_identifier") || crate::text::str_eq(kind, "scoped_type_identifier") {
        let a = match crate::syntax::child_by_field_name(t, n, "path") {
            Some(p) => collect_path_segments(source, t, p),
            None => no_texts(),
        };
        let b = match crate::syntax::child_by_field_name(t, n, "name") {
            Some(m) => collect_path_segments(source, t, m),
            None => no_texts(),
        };
        concat_texts(a, b)
    } else {
        let out: Vec<String> = Vec::new();
        assert(out@.map_values(|x: String| x@) =~= Seq::<Seq<char>>::empty());
        out
    }
}

/// `normalized`: the segments without `crate`, `self` and `super`.
pub fn normalize_segments(segments: Vec<String>) -> (r: Vec<String>)
    ensures
        r@.map_values(|x: String| x@) == normalized(segments@.map_values(|x: String| x@)),
{
    let ghost sv = segments@.map_values(|x: String| x@);
    let mut out: Vec<String> = Vec::new();
    let mut i: usize = 0;
    assert(sv.take(0) =~= Seq::<Seq<char>>::empty());
    while i < segments.len()
        invariant
            i <= segments@.len(),
            sv == segments@.map_values(|x: String| x@),
            out@.map_values(|x: String| x@) == sv.take(i as int).filter(|s: Seq<char>| !is_relative_segment(s)),
        decreases segments.len() - i,
    {
        let seg = segments[i].as_str();
        assert(seg@ == sv[i as int]);
        let ghost before = out@.map_values(|x: String| x@);
        proof {
            crate::utilities::lemma_filter_step(sv, i as int, |s: Seq<char>| !is_relative_segment(s));
        }
        if !(crate::text::str_eq(seg, "crate") || crate::text::str_eq(seg, "self") || crate::text::str_eq(seg, "super")) {
            out.push(crate::text::owned(seg));
            assert(out@.map_values(|x: String| x@) =~= before.push(sv[i as int]));
        } else {
            assert(out@.map_values(|x: String| x@) =~= before);
        }
        i = i + 1;
    }
    assert(sv.take(segments@.len() as int) =~= sv);
    out
}

/// The names that are not empty.
fn non_empty_names(names: Vec<String>) -> (r: Vec<String>)
    ensures
        r@.map_values(|x: String| x@) == names@.map_values(|x: String| x@).filter(|s: Seq<char>| s.len() > 0),
{
    let ghost sv = names@.map_values(|x: String| x@);
    let mut out: Vec<String> = Vec::new();
    let mut i: usize = 0;
    assert(sv.take(0) =~= Seq::<Seq<char>>::empty());
    while i < names.len()
        invariant
            i <= names@.len(),
            sv == names@.map_values(|x: String| x@),
            out@.map_values(|x: String| x@) == sv.take(i as int).filter(|s: Seq<char>| s.len() > 0),
        decreases names.len() - i,
    {
        let name = names[i].as_str();
        assert(name@ == sv[i as int]);
        let ghost before = out@.map_values(|x: String| x@);
        proof {
            crate::utilities::lemma_filter_step(sv, i as int, |s: Seq<char>| s.len() > 0);
        }
        if !crate::text::is_empty_text(name) {
            out.push(crate::text::owned(name));
            assert(out@.map_values(|x: String| x@) =~= before.push(sv[i as int]));
        } else {
            assert(out@.map_values(|x: String| x@) =~= before);
        }
        i = i + 1;
    }
    assert(sv.take(names@.len() as int) =~= sv);
    out
}

/// `mentions_self_or_super`.
pub fn mentions_self_or_super_text(raw: &str) -> (b: bool)
    ensures
        b == mentions_self_or_super(raw@),
{
    let cs = crate::text::chars_of(raw);
    let fields = crate::commands::macros::split_double_colon_from(&cs, 0);
    assert(cs@.skip(0) =~= raw@);
    let ghost fv = fields@.map_values(|x: String| x@);
    let mut i: usize = 0;
    while i < fields.len()
        invariant
            i <= fields@.len(),
            fv == fields@.map_values(|x: String| x@),
            fv == split_double_colon(raw@),
            forall|k: int| 0 <= k < i ==> !(trim_seq(#[trigger] fv[k]) == "self"@ || trim_seq(fv[k]) == "super"@),
        decreases fields.len() - i,
    {
        let f = crate::text::trim(fields[i].as_str());
        assert(f@ == trim_seq(fv[i as int]));
        if crate::text::str_eq(f.as_str(), "self") || crate::text::str_eq(f.as_str(), "super") {
            return true;
        }
        i = i + 1;
    }
    false
}

/// `rust_use_import` on a tree.
fn parse_use_declarations(source: &[u8], t: &SyntaxTree, i: usize) -> (r: Option<ParsedImportsData>)
    requires
        i < t.nodes@.len(),
    ensures
        crate::language_api::opt_import_view(r) == rust_use_import(source@, nodes_view(t), i as int),
{
    let ghost ts = nodes_view(t);
    let a = match crate::syntax::child_by_field_name(t, i, "argument") {
        Some(a) => a,
        None => {
            return None;
        },
    };
    let raw = match crate::syntax::text_of(source, t, a) {
        Some(x) => x,
        None => {
            return None;
        },
    };
    if mentions_self_or_super_text(raw.as_str()) {
        return None;
    }
    assert(ts[a as int] == t.nodes@[a as int]@);
    let kind = t.nodes[a].kind.as_str();
    let names = if crate::text::str_eq(kind, "scoped_use_list") || crate::text::str_eq(kind, "use_as_clause") {
        match crate::syntax::child_by_field_name(t, a, "path") {
            Some(p) => normalize_segments(collect_path_segments(source, t, p)),
            None => no_texts(),
        }
    } else if crate::text::str_eq(kind, "use_wildcard") {
        match crate::syntax::first_named_child_of(t, a) {
            Some(p) => normalize_segments(collect_path_segments(source, t, p)),
            None => no_texts(),
        }
    } else {
        let mut segments = normalize_segments(collect_path_segments(source, t, a));
        if segments.len() > 1 {
            let ghost before = segments@.map_values(|x: String| x@);
            segments.pop();
            assert(segments@.map_values(|x: String| x@) =~= before.drop_last());
        }
        segments
    };
    assert(names@.map_values(|x: String| x@) == use_names(source@, ts, a as int));
    let kept = non_empty_names(names);
    crate::languages::build_imports(source, t, i, kept)
}

/// `rust_mod_import` on a tree.
fn parse_mod_item_import(source: &[u8], t: &SyntaxTree, i: usize) -> (r: Option<ParsedImportsData>)
    requires
        i < t.nodes@.len(),
    ensures
        crate::language_api::opt_import_view(r) == rust_mod_import(source@, nodes_view(t), i as int),
{
    if crate::syntax::child_by_field_name(t, i, "body").is_some() {
        return None;
    }
    let m = match crate::syntax::child_by_field_name(t, i, "name") {
        Some(m) => m,
        None => {
            return None;
        },
    };
    let text = match crate::syntax::text_of(source, t, m) {
        Some(x) => x,
        None => {
            return None;
        },
    };
    let mut names: Vec<String> = Vec::new();
    names.push(text);
    assert(names@.map_values(|x: String| x@) =~= seq![text@]);
    crate::languages::build_imports(source, t, i, names)
}

/// The import entry of node `i` (`rust_imports`).
pub fn parse_imports(source: &[u8], t: &SyntaxTree, i: usize) -> (r: Option<ParsedImportsData>)
    requires
        i < t.nodes@.len(),
    ensures
        crate::language_api::opt_import_view(r) == rust_imports(source@, nodes_view(t), i as int),
{
    assert(nodes_view(t)[i as int] == t.nodes@[i as int]@);
    let kind = t.nodes[i].kind.as_str();
    if crate::text::str_eq(kind, "use_declaration") {
        parse_use_declarations(source, t, i)
    } else if crate::text::str_eq(kind, "mod_item") {
        parse_mod_item_import(source, t, i)
    } else {
        None
    }
}

/// `field_text` on a tree.
fn field_text_of(source: &[u8], t: &SyntaxTree, i: usize, f: &str) -> (r: Option<String>)
    requires
        i < t.nodes@.len(),
    ensures
        crate::text::opt_view(r) == field_text(source@, nodes_view(t), i as int, f@),
{
    match crate::syntax::child_by_field_name(t, i, f) {
        Some(n) => crate::syntax::text_of(source, t, n),
        None => None,
    }
}

/// The declaration entry of node `i` (`rust_declaration`).
pub fn parse_declaration_rust(source: &[u8], t: &SyntaxTree, i: usize, wanted: &Vec<&'static str>) -> (r: Option<ParsedDeclarationsData>)
    requires
        i < t.nodes@.len(),
        well_formed(nodes_view(t)),
    ensures
        crate::language_api::opt_decl_view(r) == rust_declaration(
            source@,
            nodes_view(t),
            i as int,
            wanted@.map_values(|w: &'static str| w@),
        ),
{
    let ghost ts = nodes_view(t);
    assert(ts[i as int] == t.nodes@[i as int]@);
    let node = &t.nodes[i];
    let name = if crate::text::str_eq(node.kind.as_str(), "impl_item") {
        let ty_text = match field_text_of(source, t, i, "type") {
            Some(x) => x,
            None => String::new(),
        };
        match field_text_of(source, t, i, "trait") {
            Some(tr) => crate::text::concat3(tr.as_str(), " for ", ty_text.as_str()),
            None => ty_text,
        }
    } else {
        match field_text_of(source, t, i, crate::constants::treesitter_::FIELD_NAME) {
            Some(x) => x,
            None => {
                return None;
            },
        }
    };
    let full = match crate::syntax::text_of(source, t, i) {
        Some(x) => x,
        None => {
            return None;
        },
    };
    let start_line = node.start_row;
    let lines_body: Option<(usize, usize)> = match crate::syntax::child_by_field_name(t, i, crate::constants::treesitter_::FIELD_BODY) {
        Some(b) => {
            assert(ts[b as int] == t.nodes@[b as int]@);
            Some((t.nodes[b].start_row, t.nodes[b].end_row))
        },
        None => None,
    };
    let signature_end_line = match lines_body {
        Some((body_start, _)) => {
            if crate::text::str_eq(node.kind.as_str(), "function_definition") || crate::text::str_eq(
                node.kind.as_str(),
                "class_definition",
            ) {
                if body_start >= 1 {
                    body_start - 1
                } else {
                    0
                }
            } else {
                body_start
            }
        },
        None => start_line,
    };
    let one_line = crate::text::replace(full.as_str(), "\n", " ");
    let signature = crate::text::trim(one_line.as_str());
    let parents = crate::syntax::ancestor_rows_of(t, wanted, node.parent);
    Some(
        ParsedDeclarationsData {
            name,
            start_line,
            end_line: node.end_row,
            signature,
            lines_signature: (start_line, signature_end_line),
            lines_body,
            lines_doc: None,
            parents,
            lines_qualifier: None,
            type_: crate::text::owned(node.kind.as_str()),
        },
    )
}

} // verus!
