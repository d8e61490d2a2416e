//! Python grammar node kinds.
use vstd::prelude::*;

verus! {

/// Node kinds treated as declarations.
pub fn wanted_declares() -> (r: Vec<&'static str>)
    ensures
        r@.map_values(|w: &'static str| w@) == seq!["function_definition"@, "class_definition"@],
        forall|i: int| 0 <= i < 2 ==> declare_flag_spec(#[trigger] r@[i]@) is Some,
{
    vec!["function_definition", "class_definition"]
}

/// The one-letter type of a declaration node kind.
pub open spec fn declare_flag_spec(kind: Seq<char>) -> Option<char> {
    if kind == "function_definition"@ {
        Some('f')
    } else if kind == "class_definition"@ {
        Some('c')
    } else {
        None
    }
}

/// The one-letter type of a declaration node kind: `f`unction or `c`lass.
pub fn declare_flag(kind: &str) -> (r: Option<char>)
    ensures
        r == declare_flag_spec(kind@),
{
    if crate::text::str_eq(kind, "function_definition") {
        Some('f')
    } else if crate::text::str_eq(kind, "class_definition") {
        Some('c')
    } else {
        None
    }
}

/// Node kinds treated as imports.
pub fn wanted_imports() -> (r: Vec<&'static str>)
    ensures
        r@.map_values(|w: &'static str| w@) == seq!["import_statement"@, "import_from_statement"@],
{
    vec!["import_statement", "import_from_statement"]
}

} // verus!
