//! What counts as a declaration line for each language.
use vstd::prelude::*;

verus! {

/// Regex for Rust declaration-like lines.
pub const RUST: &'static str = r"\bimpl |\bfn |\benum |\bstruct |\bmod |\btrait ";
/// Regex for Python declaration-like lines.
pub const PYTHON: &'static str = r"^ *class |^ *def |^ *@";

} // verus!
