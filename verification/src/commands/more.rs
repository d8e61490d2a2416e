//! `more`: also shows the lines matching the pattern.
use vstd::prelude::*;
use std::collections::HashMap;

use crate::base::{lines_view, CommandDefinition, LineStatus};
use crate::commands::helpers::{
    context_spec, has_declarations, has_valid_treesitter, hit_positions, owner_indices, post_search,
    search_vector, search_views, show_owner_from_hits, Visibility,
};
use crate::commands::search::Searcher;
use crate::common::{show_views, CommandQualifier};
use crate::constants::{command_prefix, commandflags};
use crate::language_api::Parsed;
use crate::CommandActions;

verus! {

/// Makes the lines matching the pattern visible, leaving the others as they are.
#[derive(Debug)]
pub struct CMore {
    /// What decides a match.
    pub searcher: Searcher,
    /// What the user asked of the command.
    pub qualifier: CommandQualifier,
}

/// Compile-time facts about `more`.
pub fn get_constant_definition() -> (r: CommandDefinition)
    ensures
        r.name@ == command_prefix::MORE@,
        !r.mutates_line_text,
        r.flags@ == commandflags::searchflags_seq(),
{
    CommandDefinition { name: command_prefix::MORE, mutates_line_text: false, flags: commandflags::searchflags() }
}

impl CMore {
    /// What `apply` gives: visibility set by the search, context around the hits, and
    /// the owners of the hits when `o` was given and the file was parsed.
    pub open spec fn applied(self, lines: Seq<LineStatus>, h: Map<usize, Parsed>, out: Seq<LineStatus>) -> bool {
        match self.qualifier {
            CommandQualifier::GrepQualifier(q) => {
                let v0 = lines_view(lines);
                let hits = hit_positions(self.searcher, q, v0).to_set();
                let v1 = search_views(Visibility::VisibleOrHit, self.searcher, q, v0);
                let v2 = show_views(v1, context_spec(q.before, q.after, hits, lines.len() as int));
                let v3 = if q.showowner && has_declarations(h) {
                    show_views(v2, owner_indices(h, hits, lines.len() as int))
                } else {
                    v2
                };
                lines_view(out) == v3
            },
            CommandQualifier::DeclareQualifier(_) => lines_view(out) == lines_view(lines),
        }
    }
}

impl CommandActions for CMore {
    fn apply(&self, lines: Vec<LineStatus>, hashtree: &HashMap<usize, Parsed>) -> (r: Vec<LineStatus>)
        ensures
            self.applied(lines@, hashtree@, r@),
    {
        let qualifier = match &self.qualifier {
            CommandQualifier::GrepQualifier(grep) => grep,
            CommandQualifier::DeclareQualifier(_) => {
                return lines;
            },
        };
        let (hits, result_lines) = search_vector(Visibility::VisibleOrHit, &self.searcher, lines, qualifier);
        let result_lines = post_search(qualifier, hits.as_slice(), result_lines);
        if qualifier.showowner && has_valid_treesitter(hashtree) {
            show_owner_from_hits(hits.as_slice(), result_lines, hashtree)
        } else {
            result_lines
        }
    }

    fn get_constant_definition(&self) -> (r: CommandDefinition)
        ensures
            r.name@ == command_prefix::MORE@,
            !r.mutates_line_text,
    {
        get_constant_definition()
    }
}

} // verus!
