//! Syntax node kinds that the `declarations` and `imports` commands act on.
use vstd::prelude::*;

pub mod rust;
pub mod python;

verus! {

/// The declaration type letters that some grammar gives.
pub open spec fn supported_declare_letter(c: char) -> bool {
    c == 'f' || c == 'c' || c == 's' || c == 'e' || c == 'i' || c == 'm'
}

} // verus!
