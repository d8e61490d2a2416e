//! Rust grammar node kinds.
use vstd::prelude::*;

verus! {

/// Node kinds treated as declarations, in a fixed order.
pub fn wanted_declares() -> (r: Vec<&'static str>)
    ensures
        r@.map_values(|w: &'static str| w@) == seq![
            "function_item"@,
            "function_signature_item"@,
            "struct_item"@,
            "enum_item"@,
            "impl_item"@,
            "trait_item"@,
            "mod_item"@,
        ],
        forall|i: int| 0 <= i < 7 ==> declare_flag_spec(#[trigger] r@[i]@) is Some,
{
    vec![
        "function_item",
        "function_signature_item",
        "struct_item",
        "enum_item",
        "impl_item",
        "trait_item",
        "mod_item",
    ]
}

/// The one-letter type of a declaration node kind.
pub open spec fn declare_flag_spec(kind: Seq<char>) -> Option<char> {
    if kind == "function_item"@ || kind == "function_signature_item"@ || kind == "impl_item"@ {
        Some('f')
    } else if kind == "struct_item"@ {
        Some('s')
    } else if kind == "enum_item"@ {
        Some('e')
    } else if kind == "trait_item"@ {
        Some('i')
    } else if kind == "mod_item"@ {
        Some('m')
    } else {
        None
    }
}

/// The one-letter type of a declaration node kind: `f`unction, `s`truct, `e`num,
/// `i`nterface (trait) or `m`odule.
pub fn declare_flag(kind: &str) -> (r: Option<char>)
    ensures
        r == declare_flag_spec(kind@),
{
    if crate::text::str_eq(kind, "function_item") || crate::text::str_eq(kind, "function_signature_item")
        || crate::text::str_eq(kind, "impl_item") {
        Some('f')
    } else if crate::text::str_eq(kind, "struct_item") {
        Some('s')
    } else if crate::text::str_eq(kind, "enum_item") {
        Some('e')
    } else if crate::text::str_eq(kind, "trait_item") {
        Some('i')
    } else if crate::text::str_eq(kind, "mod_item") {
        Some('m')
    } else {
        None
    }
}

/// Node kinds treated as imports.
pub fn wanted_imports() -> (r: Vec<&'static str>)
    ensures
        r@.map_values(|w: &'static str| w@) == seq!["use_declaration"@, "mod_item"@],
{
    vec!["use_declaration", "mod_item"]
}

} // verus!
