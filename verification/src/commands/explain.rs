//! `explain`: asks for an account of how the commands were understood.
use vstd::prelude::*;
use std::collections::HashMap;

use crate::base::{CommandDefinition, LineStatus};
use crate::constants::command_prefix;
use crate::language_api::Parsed;
use crate::CommandActions;

verus! {

/// Leaves the lines as they are; the run that finds it in the command list records an
/// explain request (see `telemetry::request_explain`), and the account is given after
/// the commands have run.
#[derive(Debug)]
pub struct CExplain;

impl CommandActions for CExplain {
    fn apply(&self, lines: Vec<LineStatus>, hashtree: &HashMap<usize, Parsed>) -> (r: Vec<LineStatus>)
        ensures
            r@ == lines@,
    {
        lines
    }

    fn get_constant_definition(&self) -> (r: CommandDefinition)
        ensures
            r.name@ == command_prefix::EXPLAIN@,
            !r.mutates_line_text,
            r.flags@.len() == 0,
    {
        CommandDefinition { name: command_prefix::EXPLAIN, mutates_line_text: false, flags: Vec::new() }
    }
}

} // verus!
