//! `less`: hides the lines matching the pattern.
use vstd::prelude::*;
use std::collections::HashMap;

use crate::base::{lines_view, CommandDefinition, LineStatus};
use crate::commands::helpers::{search_vector, search_views, Visibility};
use crate::commands::search::Searcher;
use crate::common::CommandQualifier;
use crate::constants::{command_prefix, commandflags};
use crate::language_api::Parsed;
use crate::CommandActions;

verus! {

/// Hides the lines that match the pattern.
#[derive(Debug)]
pub struct CLess {
    /// What decides a match.
    pub searcher: Searcher,
    /// What the user asked of the command.
    pub qualifier: CommandQualifier,
}

/// Compile-time facts about `less`.
pub fn get_constant_definition() -> (r: CommandDefinition)
    ensures
        r.name@ == command_prefix::LESS@,
        !r.mutates_line_text,
        r.flags@ == commandflags::searchflags_seq(),
{
    CommandDefinition { name: command_prefix::LESS, mutates_line_text: false, flags: commandflags::searchflags() }
}

impl CLess {
    /// What `apply` gives: visible when visible and not a hit.
    pub open spec fn applied(self, lines: Seq<LineStatus>, h: Map<usize, Parsed>, out: Seq<LineStatus>) -> bool {
        match self.qualifier {
            CommandQualifier::GrepQualifier(q) => lines_view(out) == search_views(
                Visibility::VisibleAndNotHit,
                self.searcher,
                q,
                lines_view(lines),
            ),
            CommandQualifier::DeclareQualifier(_) => lines_view(out) == lines_view(lines),
        }
    }
}

impl CommandActions for CLess {
    fn apply(&self, lines: Vec<LineStatus>, hashtree: &HashMap<usize, Parsed>) -> (r: Vec<LineStatus>)
        ensures
            self.applied(lines@, hashtree@, r@),
    {
        let qualifier = match &self.qualifier {
            CommandQualifier::GrepQualifier(grep) => grep,
            CommandQualifier::DeclareQualifier(_) => {
                return lines;
            },
        };
        let (_, result_lines) = search_vector(Visibility::VisibleAndNotHit, &self.searcher, lines, qualifier);
        result_lines
    }

    fn get_constant_definition(&self) -> (r: CommandDefinition)
        ensures
            r.name@ == command_prefix::LESS@,
            !r.mutates_line_text,
    {
        get_constant_definition()
    }
}

} // verus!
