//! Tree-sitter field names used by the grammar helpers.
use vstd::prelude::*;

verus! {

/// Field name for identifier names.
pub const FIELD_NAME: &'static str = "name";
/// Field name for body nodes.
pub const FIELD_BODY: &'static str = "body";
/// Grammar name of comment nodes.
pub const FIELD_COMMENT: &'static str = "comment";

} // verus!
