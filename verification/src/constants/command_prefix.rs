//! Long and short command names.
use vstd::prelude::*;

verus! {

/// Long command: macro.
pub const MACROS: &'static str = "macro";
/// Long command: lines.
pub const LINES: &'static str = "lines";
/// Long command: more.
pub const MORE: &'static str = "more";
/// Long command: less.
pub const LESS: &'static str = "less";
/// Long command: all.
pub const ALL: &'static str = "all";
/// Long command: change.
pub const CHANGE: &'static str = "change";
/// Long command: declarations.
pub const DECLARATIONS: &'static str = "declarations";
/// Long command: imports.
pub const IMPORTS: &'static str = "imports";
/// Long command: and.
pub const AND: &'static str = "and";
/// Long command: output.
pub const OUTPUT: &'static str = "output";
/// Long command: delete.
pub const DELETE: &'static str = "delete";
/// Long command: invert.
pub const INVERT: &'static str = "invert";
/// Long command: explain.
pub const EXPLAIN: &'static str = "explain";
/// Long command: prepend.
pub const PREPEND: &'static str = "prepend";
/// Long command: append.
pub const APPEND: &'static str = "append";
/// Short command: more.
pub const MORE1: &'static str = "m";
/// Short command: all.
pub const ALL1: &'static str = "a";
/// Short command: less.
pub const LESS1: &'static str = "l";
/// Short command: change.
pub const CHANGE1: &'static str = "c";
/// Short command: declarations.
pub const DECLARATIONS1: &'static str = "d";
/// Short command: imports.
pub const IMPORTS1: &'static str = "i";
/// Short command: and.
pub const AND1: &'static str = "n";
/// Short command: output.
pub const OUTPUT1: &'static str = "o";
/// Short command: delete.
pub const DELETE1: &'static str = "del";
/// Short command: invert.
pub const INVERT1: &'static str = "inv";
/// Short command: prepend.
pub const PREPEND1: &'static str = "pre";
/// Short command: append.
pub const APPEND1: &'static str = "app";

} // verus!
