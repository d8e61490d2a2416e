//! Which files a grammar can parse, and what the grammars make of them.
use vstd::prelude::*;

use std::collections::HashMap;

use crate::language_api::{LanguageHelper, DeclView, ImportView, Parsed, ParsedDeclarationsData, ParsedImportsData, ParsedView};
use crate::languages::python::HelperPython;
use crate::languages::rust::HelperRust;
use crate::syntax::{nodes_view, syntax_of, well_formed, Grammar, NodeView, SyntaxTree};
use crate::text::ascii_lower_seq;

verus! {

/// A built-in grammar parses the extension (`py` or `rs`), or a language plugin was found
/// for it (`plugin_extensions` lists those, in lower case).
pub open spec fn parses_extension(ext: Seq<char>, plugin_extensions: Seq<String>) -> bool {
    ext == "py"@ || ext == "rs"@ || exists|i: int| 0 <= i < plugin_extensions.len() && (#[trigger] plugin_extensions[i])@ == ascii_lower_seq(ext)
}

/// Whether files with this extension can be parsed: by a built-in grammar, or by a language
/// plugin among `plugin_extensions`.
pub fn supports_extension_for_parsing(extension: &str, plugin_extensions: &Vec<String>) -> (b: bool)
    ensures
        b == parses_extension(extension@, plugin_extensions@),
{
    if crate::text::str_eq(extension, "py") || crate::text::str_eq(extension, "rs") {
        return true;
    }
    let lowered = crate::text::to_ascii_lowercase(extension);
    let mut i: usize = 0;
    while i < plugin_extensions.len()
        invariant
            i <= plugin_extensions@.len(),
            lowered@ == ascii_lower_seq(extension@),
            forall|j: int| 0 <= j < i ==> (#[trigger] plugin_extensions@[j])@ != ascii_lower_seq(extension@),
        decreases plugin_extensions.len() - i,
    {
        if crate::text::str_eq(plugin_extensions[i].as_str(), lowered.as_str()) {
            return true;
        }
        i = i + 1;
    }
    false
}


broadcast use vstd::std_specs::hash::group_hash_axioms;

/// The built-in language helpers.
#[derive(Debug, Clone, Copy)]
pub enum Helper {
    /// Python.
    Python(HelperPython),
    /// Rust.
    Rust(HelperRust),
}

/// The declaration node kinds of a helper's grammar.
pub open spec fn declares_of(h: Helper) -> Seq<Seq<char>> {
    match h {
        Helper::Python(_) => seq!["function_definition"@, "class_definition"@],
        Helper::Rust(_) => seq![
            "function_item"@,
            "function_signature_item"@,
            "struct_item"@,
            "enum_item"@,
            "impl_item"@,
            "trait_item"@,
            "mod_item"@,
        ],
    }
}

/// The import node kinds of a helper's grammar.
pub open spec fn imports_of(h: Helper) -> Seq<Seq<char>> {
    match h {
        Helper::Python(_) => seq!["import_statement"@, "import_from_statement"@],
        Helper::Rust(_) => seq!["use_declaration"@, "mod_item"@],
    }
}

/// The grammar of a helper.
pub open spec fn grammar_of(h: Helper) -> Grammar {
    match h {
        Helper::Python(_) => Grammar::Python,
        Helper::Rust(_) => Grammar::Rust,
    }
}

/// The import entry that a helper makes of node `i`.
pub open spec fn helper_import(h: Helper, src: Seq<u8>, ts: Seq<NodeView>, i: int) -> Option<ImportView> {
    match h {
        Helper::Python(_) => crate::languages::python::python_imports(src, ts, i),
        Helper::Rust(_) => crate::languages::rust::rust_imports(src, ts, i),
    }
}

/// The declaration entry that a helper makes of node `i`.
pub open spec fn helper_declaration(h: Helper, src: Seq<u8>, ts: Seq<NodeView>, i: int, wanted: Seq<Seq<char>>) -> Option<DeclView> {
    match h {
        Helper::Python(_) => crate::languages::python::python_declaration(src, ts, i, wanted),
        Helper::Rust(_) => crate::languages::rust::rust_declaration(src, ts, i, wanted),
    }
}

/// The hashtree made of the first `k` nodes, in order: a node of an import kind that gives
/// an import entry is keyed by its start line; otherwise a node of a declaration kind that
/// gives a declaration entry is. A later entry replaces an earlier one on the same line.
pub open spec fn hashtree_of(h: Helper, src: Seq<u8>, ts: Seq<NodeView>, k: int) -> Map<usize, ParsedView>
    decreases k,
{
    if k <= 0 || k > ts.len() {
        Map::empty()
    } else {
        let m = hashtree_of(h, src, ts, k - 1);
        let n = k - 1;
        let imp = if imports_of(h).contains(ts[n].kind) {
            helper_import(h, src, ts, n)
        } else {
            None
        };
        match imp {
            Some(iv) => m.insert(iv.start_line, ParsedView::Imports(iv)),
            None => if declares_of(h).contains(ts[n].kind) {
                match helper_declaration(h, src, ts, n, declares_of(h)) {
                    Some(d) => m.insert(d.start_line, ParsedView::Declarations(d)),
                    None => m,
                }
            } else {
                m
            },
        }
    }
}

/// The values of a hashtree as plain values.
pub open spec fn hashtree_view(m: Map<usize, Parsed>) -> Map<usize, ParsedView> {
    m.map_values(|p: Parsed| p@)
}

impl Helper {
    /// The grammar it parses with.
    pub fn grammar(&self) -> (g: Grammar)
        ensures
            g == grammar_of(*self),
    {
        match self {
            Helper::Python(_) => Grammar::Python,
            Helper::Rust(_) => Grammar::Rust,
        }
    }

    /// The node kinds taken as declarations.
    pub fn wanted_declares(&self) -> (r: Vec<&'static str>)
        ensures
            r@.map_values(|w: &'static str| w@) == declares_of(*self),
    {
        let r = match self {
            Helper::Python(_) => crate::constants::grammars::python::wanted_declares(),
            Helper::Rust(_) => crate::constants::grammars::rust::wanted_declares(),
        };
        assert(r@.map_values(|w: &'static str| w@) =~= declares_of(*self));
        r
    }

    /// The node kinds taken as imports.
    pub fn wanted_imports(&self) -> (r: Vec<&'static str>)
        ensures
            r@.map_values(|w: &'static str| w@) == imports_of(*self),
    {
        let r = match self {
            Helper::Python(_) => crate::constants::grammars::python::wanted_imports(),
            Helper::Rust(_) => crate::constants::grammars::rust::wanted_imports(),
        };
        assert(r@.map_values(|w: &'static str| w@) =~= imports_of(*self));
        r
    }

    /// The import entry of node `i`.
    pub fn parse_imports(&self, source: &[u8], t: &SyntaxTree, i: usize) -> (r: Option<ParsedImportsData>)
        requires
            i < t.nodes@.len(),
        ensures
            crate::language_api::opt_import_view(r) == helper_import(*self, source@, nodes_view(t), i as int),
    {
        match self {
            Helper::Python(_) => crate::languages::python::parse_imports(source, t, i),
            Helper::Rust(_) => crate::languages::rust::parse_imports(source, t, i),
        }
    }

    /// The declaration entry of node `i`, with `wanted` as the kinds of enclosing
    /// declarations.
    pub fn parse_declarations(&self, source: &[u8], t: &SyntaxTree, i: usize, wanted: &Vec<&'static str>) -> (r: Option<ParsedDeclarationsData>)
        requires
            i < t.nodes@.len(),
            well_formed(nodes_view(t)),
        ensures
            crate::language_api::opt_decl_view(r) == helper_declaration(
                *self,
                source@,
                nodes_view(t),
                i as int,
                wanted@.map_values(|w: &'static str| w@),
            ),
    {
        match self {
            Helper::Python(_) => crate::languages::python::parse_declaration_python(source, t, i, wanted),
            Helper::Rust(_) => crate::languages::rust::parse_declaration_rust(source, t, i, wanted),
        }
    }
}

/// The hashtree of a parsed source (`hashtree_of` all its nodes).
pub fn hashtree_from_tree(helper: &Helper, source: &[u8], t: &SyntaxTree) -> (r: HashMap<usize, Parsed>)
    requires
        well_formed(nodes_view(t)),
    ensures
        hashtree_view(r@) == hashtree_of(*helper, source@, nodes_view(t), nodes_view(t).len() as int),
{
    let ghost ts = nodes_view(t);
    let declares = helper.wanted_declares();
    let imports = helper.wanted_imports();
    let mut hashtree: HashMap<usize, Parsed> = HashMap::new();
    let mut k: usize = 0;
    assert(hashtree_view(hashtree@) =~= Map::<usize, ParsedView>::empty());
    while k < t.nodes.len()
        invariant
            k <= t.nodes@.len(),
            ts == nodes_view(t),
            ts.len() == t.nodes@.len(),
            well_formed(ts),
            declares@.map_values(|w: &'static str| w@) == declares_of(*helper),
            imports@.map_values(|w: &'static str| w@) == imports_of(*helper),
            hashtree_view(hashtree@) == hashtree_of(*helper, source@, ts, k as int),
        decreases t.nodes.len() - k,
    {
        assert(ts[k as int] == t.nodes@[k as int]@);
        let ghost before = hashtree@;
        let kind = t.nodes[k].kind.as_str();
        let imp = if crate::syntax::kind_in(kind, &imports) {
            helper.parse_imports(source, t, k)
        } else {
            None
        };
        match imp {
            Some(parsed) => {
                let line = parsed.start_line;
                let ghost v = parsed@;
                hashtree.insert(line, Parsed::Imports(parsed));
                assert(hashtree_view(hashtree@) =~= hashtree_view(before).insert(line, ParsedView::Imports(v)));
            },
            None => {
                if crate::syntax::kind_in(kind, &declares) {
                    match helper.parse_declarations(source, t, k, &declares) {
                        Some(parsed) => {
                            let line = parsed.start_line;
                            let ghost v = parsed@;
                            hashtree.insert(line, Parsed::Declarations(parsed));
                            assert(hashtree_view(hashtree@) =~= hashtree_view(before).insert(
                                line,
                                ParsedView::Declarations(v),
                            ));
                        },
                        None => {},
                    }
                }
            },
        }
        k = k + 1;
    }
    hashtree
}

/// The hashtree of `src` with helper `h`: that of the syntax tree its grammar gives
/// (`syntax_of`); empty when the grammar does not load.
pub open spec fn helper_hashtree(h: Helper, src: Seq<u8>) -> Map<usize, ParsedView> {
    match syntax_of(grammar_of(h), src) {
        Some(ts) => hashtree_of(h, src, ts, ts.len() as int),
        None => Map::empty(),
    }
}

/// What `parse_content_to_hashtree` gives for a source and an extension: the hashtree of the
/// built-in grammar for `py` and `rs`, nothing for any other extension.
pub open spec fn content_hashtree(src: Seq<u8>, ext: Seq<char>) -> Map<usize, ParsedView> {
    if ext == "py"@ {
        helper_hashtree(Helper::Python(HelperPython), src)
    } else if ext == "rs"@ {
        helper_hashtree(Helper::Rust(HelperRust), src)
    } else {
        Map::empty()
    }
}

/// Parses `source` with the helper's grammar and builds its hashtree (`helper_hashtree`);
/// empty when the grammar does not load.
pub fn parse_with_helper(helper: &Helper, source: &[u8]) -> (r: HashMap<usize, Parsed>)
    ensures
        hashtree_view(r@) == helper_hashtree(*helper, source@),
{
    match crate::syntax::parse_syntax(helper.grammar(), source) {
        Some(t) => hashtree_from_tree(helper, source, &t),
        None => {
            let r: HashMap<usize, Parsed> = HashMap::new();
            assert(hashtree_view(r@) =~= Map::<usize, ParsedView>::empty());
            r
        },
    }
}

/// The hashtree of a source file with this extension, for the built-in grammars (`py`,
/// `rs`); empty for any other extension (a language plugin is the application's to run).
pub fn parse_content_to_hashtree(source: &[u8], extension: &str) -> (r: HashMap<usize, Parsed>)
    ensures
        hashtree_view(r@) == content_hashtree(source@, extension@),
        !(extension@ == "py"@ || extension@ == "rs"@) ==> r@ == Map::<usize, Parsed>::empty(),
{
    proof {
        reveal_strlit("py");
        reveal_strlit("rs");
        assert("py"@[0] != "rs"@[0]);
    }
    if crate::text::str_eq(extension, "py") {
        parse_with_helper(&Helper::Python(HelperPython), source)
    } else if crate::text::str_eq(extension, "rs") {
        parse_with_helper(&Helper::Rust(HelperRust), source)
    } else {
        let r: HashMap<usize, Parsed> = HashMap::new();
        assert(r@ =~= Map::<usize, Parsed>::empty());
        assert(hashtree_view(r@) =~= Map::<usize, ParsedView>::empty());
        r
    }
}

/// The hashtree of a source file read from `path`: by the extension of the path (see
/// `parse_content_to_hashtree`); empty when the path has none.
pub fn parse_source_file_to_hashtree(path: &str, content: &[u8]) -> (r: HashMap<usize, Parsed>)
    ensures
        hashtree_view(r@) == match crate::utilities::extension_spec(path@) {
            Some(e) => content_hashtree(content@, e),
            None => Map::<usize, ParsedView>::empty(),
        },
        match crate::utilities::extension_spec(path@) {
            None => r@ == Map::<usize, Parsed>::empty(),
            Some(e) => !(e == "py"@ || e == "rs"@) ==> r@ == Map::<usize, Parsed>::empty(),
        },
{
    match crate::utilities::path_extension(path) {
        Some(ext) => parse_content_to_hashtree(content, ext.as_str()),
        None => {
            let r: HashMap<usize, Parsed> = HashMap::new();
            assert(r@ =~= Map::<usize, Parsed>::empty());
            assert(hashtree_view(r@) =~= Map::<usize, ParsedView>::empty());
            r
        },
    }
}


impl LanguageHelper for Helper {
    fn wanted_declares(&self) -> (r: Vec<&'static str>)
        ensures
            r@.map_values(|w: &'static str| w@) == declares_of(*self),
    {
        Helper::wanted_declares(self)
    }

    fn wanted_imports(&self) -> (r: Vec<&'static str>)
        ensures
            r@.map_values(|w: &'static str| w@) == imports_of(*self),
    {
        Helper::wanted_imports(self)
    }

    fn parse_imports(&self, source: &[u8], tree: &SyntaxTree, node: usize) -> (r: Option<ParsedImportsData>)
        ensures
            crate::language_api::opt_import_view(r) == helper_import(*self, source@, nodes_view(tree), node as int),
    {
        Helper::parse_imports(self, source, tree, node)
    }

    fn parse_declarations(
        &self,
        source: &[u8],
        tree: &SyntaxTree,
        node: usize,
        wanted_declares: &Vec<&'static str>,
    ) -> (r: Option<ParsedDeclarationsData>)
        ensures
            crate::language_api::opt_decl_view(r) == helper_declaration(
                *self,
                source@,
                nodes_view(tree),
                node as int,
                wanted_declares@.map_values(|w: &'static str| w@),
            ),
    {
        Helper::parse_declarations(self, source, tree, node, wanted_declares)
    }

    fn parse_content_to_hashtree(&self, source: &[u8]) -> (r: HashMap<usize, Parsed>)
        ensures
            hashtree_view(r@) == helper_hashtree(*self, source@),
    {
        parse_with_helper(self, source)
    }
}

impl LanguageHelper for HelperPython {
    fn wanted_declares(&self) -> (r: Vec<&'static str>)
        ensures
            r@.map_values(|w: &'static str| w@) == declares_of(Helper::Python(*self)),
    {
        Helper::Python(*self).wanted_declares()
    }

    fn wanted_imports(&self) -> (r: Vec<&'static str>)
        ensures
            r@.map_values(|w: &'static str| w@) == imports_of(Helper::Python(*self)),
    {
        Helper::Python(*self).wanted_imports()
    }

    fn parse_imports(&self, source: &[u8], tree: &SyntaxTree, node: usize) -> (r: Option<ParsedImportsData>)
        ensures
            crate::language_api::opt_import_view(r) == crate::languages::python::python_imports(source@, nodes_view(tree), node as int),
    {
        crate::languages::python::parse_imports(source, tree, node)
    }

    fn parse_declarations(
        &self,
        source: &[u8],
        tree: &SyntaxTree,
        node: usize,
        wanted_declares: &Vec<&'static str>,
    ) -> (r: Option<ParsedDeclarationsData>)
        ensures
            crate::language_api::opt_decl_view(r) == crate::languages::python::python_declaration(
                source@,
                nodes_view(tree),
                node as int,
                wanted_declares@.map_values(|w: &'static str| w@),
            ),
    {
        crate::languages::python::parse_declaration_python(source, tree, node, wanted_declares)
    }

    fn parse_content_to_hashtree(&self, source: &[u8]) -> (r: HashMap<usize, Parsed>)
        ensures
            hashtree_view(r@) == helper_hashtree(Helper::Python(*self), source@),
    {
        parse_with_helper(&Helper::Python(*self), source)
    }
}

impl LanguageHelper for HelperRust {
    fn wanted_declares(&self) -> (r: Vec<&'static str>)
        ensures
            r@.map_values(|w: &'static str| w@) == declares_of(Helper::Rust(*self)),
    {
        Helper::Rust(*self).wanted_declares()
    }

    fn wanted_imports(&self) -> (r: Vec<&'static str>)
        ensures
            r@.map_values(|w: &'static str| w@) == imports_of(Helper::Rust(*self)),
    {
        Helper::Rust(*self).wanted_imports()
    }

    fn parse_imports(&self, source: &[u8], tree: &SyntaxTree, node: usize) -> (r: Option<ParsedImportsData>)
        ensures
            crate::language_api::opt_import_view(r) == crate::languages::rust::rust_imports(source@, nodes_view(tree), node as int),
    {
        crate::languages::rust::parse_imports(source, tree, node)
    }

    fn parse_declarations(
        &self,
        source: &[u8],
        tree: &SyntaxTree,
        node: usize,
        wanted_declares: &Vec<&'static str>,
    ) -> (r: Option<ParsedDeclarationsData>)
        ensures
            crate::language_api::opt_decl_view(r) == crate::languages::rust::rust_declaration(
                source@,
                nodes_view(tree),
                node as int,
                wanted_declares@.map_values(|w: &'static str| w@),
            ),
    {
        crate::languages::rust::parse_declaration_rust(source, tree, node, wanted_declares)
    }

    fn parse_content_to_hashtree(&self, source: &[u8]) -> (r: HashMap<usize, Parsed>)
        ensures
            hashtree_view(r@) == helper_hashtree(Helper::Rust(*self), source@),
    {
        parse_with_helper(&Helper::Rust(*self), source)
    }
}


/// The file name of a language plugin library for a target OS: `dylib` on macOS, `dll` on
/// Windows, `so` elsewhere.
pub open spec fn plugin_library_filename_spec(language_id: Seq<char>, target_os: Seq<char>) -> Seq<char> {
    let ext = if target_os == "macos"@ {
        "dylib"@
    } else if target_os == "windows"@ {
        "dll"@
    } else {
        "so"@
    };
    "librxedit_language_"@ + language_id + "."@ + ext
}

/// `plugin_library_filename_spec`, for the OS named as `std::env::consts::OS` names it.
pub fn plugin_library_filename(language_id: &str, target_os: &str) -> (r: String)
    ensures
        r@ == plugin_library_filename_spec(language_id@, target_os@),
{
    let ext = if crate::text::str_eq(target_os, "macos") {
        "dylib"
    } else if crate::text::str_eq(target_os, "windows") {
        "dll"
    } else {
        "so"
    };
    crate::text::concat3(crate::text::concat2("librxedit_language_", language_id).as_str(), ".", ext)
}


/// The language of an extension (in lower case) when the configuration does not say:
/// `py` Python, `rs` Rust, `js`/`mjs`/`cjs` JavaScript, `sh`/`bash`/`zsh` shell.
pub open spec fn default_language_spec(e: Seq<char>) -> Option<Seq<char>> {
    if e == "py"@ {
        Some("python"@)
    } else if e == "rs"@ {
        Some("rust"@)
    } else if e == "js"@ || e == "mjs"@ || e == "cjs"@ {
        Some("js"@)
    } else if e == "sh"@ || e == "bash"@ || e == "zsh"@ {
        Some("zsh"@)
    } else {
        None
    }
}

/// The language an extension maps to in the configured mapping: the last entry for it.
pub open spec fn mapped_language(mappings: Seq<(String, String)>, e: Seq<char>) -> Option<Seq<char>>
    decreases mappings.len(),
{
    if mappings.len() == 0 {
        None
    } else if mappings.last().0@ == e {
        Some(mappings.last().1@)
    } else {
        mapped_language(mappings.drop_last(), e)
    }
}

/// The language id of a file extension: the configured one (the `[tree_sitter.extensions]`
/// entries, their extensions trimmed and in lower case, their languages trimmed), else the
/// default one; the extension is compared in lower case.
pub fn resolve_extension_language_id(extension: &str, mappings: &Vec<(String, String)>) -> (r: Option<String>)
    ensures
        crate::text::opt_view(r) == match mapped_language(mappings@, ascii_lower_seq(extension@)) {
            Some(l) => Some(l),
            None => default_language_spec(ascii_lower_seq(extension@)),
        },
{
    let normalized = crate::text::to_ascii_lowercase(extension);
    let mut k = mappings.len();
    assert(mappings@.take(k as int) =~= mappings@);
    while k > 0
        invariant
            k <= mappings@.len(),
            normalized@ == ascii_lower_seq(extension@),
            mapped_language(mappings@, normalized@) == mapped_language(mappings@.take(k as int), normalized@),
        decreases k,
    {
        assert(mappings@.take(k as int).drop_last() =~= mappings@.take(k - 1));
        assert(mappings@.take(k as int).last() == mappings@[k - 1]);
        let entry = &mappings[k - 1];
        if crate::text::str_eq(entry.0.as_str(), normalized.as_str()) {
            return Some(crate::text::owned(entry.1.as_str()));
        }
        k = k - 1;
    }
    let n = normalized.as_str();
    if crate::text::str_eq(n, "py") {
        Some(crate::text::owned("python"))
    } else if crate::text::str_eq(n, "rs") {
        Some(crate::text::owned("rust"))
    } else if crate::text::str_eq(n, "js") || crate::text::str_eq(n, "mjs") || crate::text::str_eq(n, "cjs") {
        Some(crate::text::owned("js"))
    } else if crate::text::str_eq(n, "sh") || crate::text::str_eq(n, "bash") || crate::text::str_eq(n, "zsh") {
        Some(crate::text::owned("zsh"))
    } else {
        None
    }
}

/// A configured mapping entry as used: the extension trimmed and in lower case, the
/// language trimmed.
pub fn normalize_mapping_entry(extension: &str, language: &str) -> (r: (String, String))
    ensures
        r.0@ == ascii_lower_seq(crate::text::trim_seq(extension@)),
        r.1@ == crate::text::trim_seq(language@),
{
    let e = crate::text::trim(extension);
    (crate::text::to_ascii_lowercase(e.as_str()), crate::text::trim(language))
}

} // verus!
