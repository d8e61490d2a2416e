//! The commands, one module each, and what they share.
pub mod search;
pub mod helpers;
pub mod all;
pub mod more;
pub mod and;
pub mod explain;
pub mod invert;
pub mod less;
pub mod noop;
pub mod delete;
pub mod change;
pub mod appendprepend;
pub mod imports;
pub mod declarations;
pub mod lines;
pub mod macros;
