//! The command that stands for one that was not understood.
use vstd::prelude::*;
use std::collections::HashMap;

use crate::base::{CommandDefinition, LineStatus};
use crate::language_api::Parsed;
use crate::CommandActions;

verus! {

/// Leaves the lines unchanged; holds the command text and why it was not understood.
#[derive(Debug)]
pub struct CNoop {
    /// The command text.
    pub text: String,
    /// Why the command does nothing.
    pub message: String,
}

impl CommandActions for CNoop {
    fn apply(&self, lines: Vec<LineStatus>, hashtree: &HashMap<usize, Parsed>) -> (r: Vec<LineStatus>)
        ensures
            r@ == lines@,
    {
        lines
    }

    fn get_constant_definition(&self) -> (r: CommandDefinition)
        ensures
            r.name@ == "noop"@,
            !r.mutates_line_text,
            r.flags@.len() == 0,
    {
        CommandDefinition { name: "noop", mutates_line_text: false, flags: Vec::new() }
    }
}

} // verus!
