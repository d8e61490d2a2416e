//! Constants of the command language: command names, flags, grep shortcodes, and the
//! syntax node kinds that count as declarations and imports.
//!
//! Each flag and shortcode has a built-in value here; the values can be inspected with
//! `rxedit --help flags` and `rxedit --help shortcodes`.
use vstd::prelude::*;

pub mod command_prefix;
pub mod treesitter_;
pub mod declarations;
pub mod env_vars;
pub mod grammars;
pub mod commandflags;
pub mod grep_shortcodes;

verus! {

/// Trim direction used by text operations.
#[derive(PartialEq, Eq, Structural, Debug, Clone, Copy)]
pub enum Direction {
    /// Trim from the start.
    LEADING,
    /// Trim from the end.
    TRAILING,
    /// Trim from both ends.
    BOTH,
}

/// Command argument separator token.
pub const SEP: &'static str = "::";




/// Definition of a command flag.
#[derive(Debug, Clone, Copy)]
pub struct FlagDef {
    /// Logical flag name.
    pub name: &'static str,
    /// Flag token, or the regex that finds it.
    pub value: &'static str,
    /// Help text shown to users.
    pub help: &'static str,
    /// Example usage text.
    pub example: &'static str,
}



} // verus!
