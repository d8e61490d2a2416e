//! What a language grammar yields about a source file: declarations (functions, classes,
//! structs...) and imports, each keyed in a "hashtree" by the line it starts on.
use vstd::prelude::*;
use std::collections::HashMap;

use crate::syntax::{nodes_view, well_formed, SyntaxTree};

verus! {

/// A declaration found in the source.
#[derive(Debug)]
pub struct ParsedDeclarationsData {
    /// Declaration name.
    pub name: String,
    /// Start line of the declaration.
    pub start_line: usize,
    /// End line of the declaration.
    pub end_line: usize,
    /// Signature text for the declaration.
    pub signature: String,
    /// Line range of the signature.
    pub lines_signature: (usize, usize),
    /// Line range of the body, when there is one.
    pub lines_body: Option<(usize, usize)>,
    /// Line range of the docs, when there are any.
    pub lines_doc: Option<(usize, usize)>,
    /// Start lines of the enclosing declarations, innermost first.
    pub parents: Vec<usize>,
    /// Line range of qualifiers such as decorators or attributes.
    pub lines_qualifier: Option<(usize, usize)>,
    /// One-letter declaration type: `f`unction, `c`lass, `s`truct...
    pub type_: String,
}

impl Clone for ParsedDeclarationsData {
    fn clone(&self) -> (r: Self)
        ensures
            r.name@ == self.name@,
            r.start_line == self.start_line,
            r.end_line == self.end_line,
            r.signature@ == self.signature@,
            r.lines_signature == self.lines_signature,
            r.lines_body == self.lines_body,
            r.lines_doc == self.lines_doc,
            r.parents@ == self.parents@,
            r.lines_qualifier == self.lines_qualifier,
            r.type_@ == self.type_@,
    {
        ParsedDeclarationsData {
            name: self.name.clone(),
            start_line: self.start_line,
            end_line: self.end_line,
            signature: self.signature.clone(),
            lines_signature: self.lines_signature,
            lines_body: self.lines_body,
            lines_doc: self.lines_doc,
            parents: self.parents.clone(),
            lines_qualifier: self.lines_qualifier,
            type_: self.type_.clone(),
        }
    }
}

impl Default for ParsedDeclarationsData {
    fn default() -> (r: Self)
        ensures
            r.name@ == Seq::<char>::empty(),
            r.start_line == 0,
            r.end_line == 0,
            r.signature@ == Seq::<char>::empty(),
            r.lines_signature == (0usize, 0usize),
            r.lines_body is None,
            r.lines_doc is None,
            r.parents@ == Seq::<usize>::empty(),
            r.lines_qualifier is None,
            r.type_@ == Seq::<char>::empty(),
    {
        ParsedDeclarationsData {
            name: String::new(),
            start_line: 0,
            end_line: 0,
            signature: String::new(),
            lines_signature: (0, 0),
            lines_body: None,
            lines_doc: None,
            parents: Vec::new(),
            lines_qualifier: None,
            type_: String::new(),
        }
    }
}

/// An import found in the source.
#[derive(Debug, Clone)]
pub struct ParsedImportsData {
    /// Full import text.
    pub body: String,
    /// Imported names.
    pub names: Vec<String>,
    /// Start line of the import.
    pub start_line: usize,
    /// End line of the import.
    pub end_line: usize,
}

impl Default for ParsedImportsData {
    fn default() -> (r: Self)
        ensures
            r.body@ == Seq::<char>::empty(),
            r.names@ == Seq::<String>::empty(),
            r.start_line == 0,
            r.end_line == 0,
    {
        ParsedImportsData { body: String::new(), names: Vec::new(), start_line: 0, end_line: 0 }
    }
}

/// One entry of a hashtree.
#[derive(Debug)]
pub enum Parsed {
    /// A declaration.
    Declarations(ParsedDeclarationsData),
    /// An import.
    Imports(ParsedImportsData),
}

impl Clone for Parsed {
    fn clone(&self) -> (r: Self) {
        match self {
            Parsed::Declarations(d) => Parsed::Declarations(d.clone()),
            Parsed::Imports(i) => Parsed::Imports(i.clone()),
        }
    }
}

impl Parsed {
    /// The line this entry starts on.
    pub fn start_line(&self) -> (r: usize)
        ensures
            r == match self {
                Parsed::Declarations(d) => d.start_line,
                Parsed::Imports(i) => i.start_line,
            },
    {
        match self {
            Parsed::Declarations(parsed) => parsed.start_line,
            Parsed::Imports(parsed) => parsed.start_line,
        }
    }

    /// The declaration data, when this entry is a declaration.
    pub fn as_declarations(&self) -> (r: Option<&ParsedDeclarationsData>)
        ensures
            match self {
                Parsed::Declarations(d) => r == Some(d),
                Parsed::Imports(_) => r is None,
            },
    {
        match self {
            Parsed::Declarations(parsed) => Some(parsed),
            Parsed::Imports(_) => None,
        }
    }

    /// The import data, when this entry is an import.
    pub fn as_imports(&self) -> (r: Option<&ParsedImportsData>)
        ensures
            match self {
                Parsed::Imports(i) => r == Some(i),
                Parsed::Declarations(_) => r is None,
            },
    {
        match self {
            Parsed::Declarations(_) => None,
            Parsed::Imports(parsed) => Some(parsed),
        }
    }
}

/// The declaration data of an entry, if it is one.
pub open spec fn decl_of(p: Parsed) -> Option<ParsedDeclarationsData> {
    match p {
        Parsed::Declarations(d) => Some(d),
        Parsed::Imports(_) => None,
    }
}

/// The import data of an entry, if it is one.
pub open spec fn import_of(p: Parsed) -> Option<ParsedImportsData> {
    match p {
        Parsed::Imports(i) => Some(i),
        Parsed::Declarations(_) => None,
    }
}


/// A declaration as plain values.
pub struct DeclView {
    pub name: Seq<char>,
    pub start_line: usize,
    pub end_line: usize,
    pub signature: Seq<char>,
    pub lines_signature: (usize, usize),
    pub lines_body: Option<(usize, usize)>,
    pub lines_doc: Option<(usize, usize)>,
    pub parents: Seq<usize>,
    pub lines_qualifier: Option<(usize, usize)>,
    pub type_: Seq<char>,
}

impl View for ParsedDeclarationsData {
    type V = DeclView;

    open spec fn view(&self) -> DeclView {
        DeclView {
            name: self.name@,
            start_line: self.start_line,
            end_line: self.end_line,
            signature: self.signature@,
            lines_signature: self.lines_signature,
            lines_body: self.lines_body,
            lines_doc: self.lines_doc,
            parents: self.parents@,
            lines_qualifier: self.lines_qualifier,
            type_: self.type_@,
        }
    }
}

/// An import as plain values.
pub struct ImportView {
    pub body: Seq<char>,
    pub names: Seq<Seq<char>>,
    pub start_line: usize,
    pub end_line: usize,
}

impl View for ParsedImportsData {
    type V = ImportView;

    open spec fn view(&self) -> ImportView {
        ImportView {
            body: self.body@,
            names: self.names@.map_values(|n: String| n@),
            start_line: self.start_line,
            end_line: self.end_line,
        }
    }
}

/// A hashtree entry as plain values.
pub enum ParsedView {
    Declarations(DeclView),
    Imports(ImportView),
}

impl View for Parsed {
    type V = ParsedView;

    open spec fn view(&self) -> ParsedView {
        match self {
            Parsed::Declarations(d) => ParsedView::Declarations(d@),
            Parsed::Imports(i) => ParsedView::Imports(i@),
        }
    }
}

/// An optional declaration as plain values.
pub open spec fn opt_decl_view(d: Option<ParsedDeclarationsData>) -> Option<DeclView> {
    match d {
        Some(x) => Some(x@),
        None => None,
    }
}

/// An optional import as plain values.
pub open spec fn opt_import_view(d: Option<ParsedImportsData>) -> Option<ImportView> {
    match d {
        Some(x) => Some(x@),
        None => None,
    }
}


/// What a language gives the hashtree: the node kinds it takes as declarations and as
/// imports, and the entries it makes of such nodes of a syntax tree.
pub trait LanguageHelper {
    /// The node kinds taken as declarations.
    fn wanted_declares(&self) -> Vec<&'static str>;

    /// The node kinds taken as imports.
    fn wanted_imports(&self) -> Vec<&'static str>;

    /// The import entry of node `node`, if it gives one.
    fn parse_imports(&self, source: &[u8], tree: &SyntaxTree, node: usize) -> Option<ParsedImportsData>
        requires
            node < tree.nodes@.len(),
    ;

    /// The declaration entry of node `node`, if it gives one; `wanted_declares` are the
    /// kinds of the enclosing declarations to list as its parents.
    fn parse_declarations(
        &self,
        source: &[u8],
        tree: &SyntaxTree,
        node: usize,
        wanted_declares: &Vec<&'static str>,
    ) -> Option<ParsedDeclarationsData>
        requires
            node < tree.nodes@.len(),
            well_formed(nodes_view(tree)),
    ;

    /// The hashtree of a source; none for a language that does not parse.
    fn parse_content_to_hashtree(&self, source: &[u8]) -> (r: HashMap<usize, Parsed>)
        default_ensures
            r@ == Map::<usize, Parsed>::empty(),
    {
        let r: HashMap<usize, Parsed> = HashMap::new();
        assert(r@ =~= Map::<usize, Parsed>::empty());
        r
    }
}

/// The language that finds nothing: no kinds, no entries, an empty hashtree.
#[derive(Debug, Clone, Copy, Default)]
pub struct DefaultLanguageHelper;

impl LanguageHelper for DefaultLanguageHelper {
    fn wanted_declares(&self) -> (r: Vec<&'static str>)
        ensures
            r@.len() == 0,
    {
        Vec::new()
    }

    fn wanted_imports(&self) -> (r: Vec<&'static str>)
        ensures
            r@.len() == 0,
    {
        Vec::new()
    }

    fn parse_imports(&self, source: &[u8], tree: &SyntaxTree, node: usize) -> (r: Option<ParsedImportsData>)
        ensures
            r is None,
    {
        None
    }

    fn parse_declarations(
        &self,
        source: &[u8],
        tree: &SyntaxTree,
        node: usize,
        wanted_declares: &Vec<&'static str>,
    ) -> (r: Option<ParsedDeclarationsData>)
        ensures
            r is None,
    {
        None
    }
}

} // verus!
