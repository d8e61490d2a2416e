//! Environment variable names.
use vstd::prelude::*;

verus! {

/// Env var for the block spacer.
pub const SPACER: &'static str = "rxedit_spacer";
/// Env var for line number display.
pub const LINE_NUMBER: &'static str = "rxedit_line_number";
/// Env var to toggle grep shortcodes.
pub const GREP_SHORTCODES: &'static str = "rxedit_grep_shortcodes";
/// Env var naming the plugin directory for language parsers.
pub const PLUGINS_DIRECTORY: &'static str = "rxedit_plugins_directory";

} // verus!
