//! `and`: keeps visible only the visible lines that also match.
use vstd::prelude::*;
use std::collections::HashMap;
use std::collections::HashSet;

use crate::base::{lines_view, CommandDefinition, LineStatus, LineView};
use crate::commands::helpers::{
    context_spec, hit_positions, post_search, search_vector, search_views, Visibility,
};
use crate::commands::search::Searcher;
use crate::common::{show_views, CommandQualifier};
use crate::constants::{command_prefix, commandflags};
use crate::language_api::Parsed;
use crate::CommandActions;

verus! {

broadcast use vstd::std_specs::hash::group_hash_axioms;

/// Keeps visible the lines that are visible and match; context is shown around them.
#[derive(Debug)]
pub struct CAnd {
    /// What decides a match.
    pub searcher: Searcher,
    /// What the user asked of the command.
    pub qualifier: CommandQualifier,
}

/// Compile-time facts about `and`.
pub fn get_constant_definition() -> (r: CommandDefinition)
    ensures
        r.name@ == command_prefix::AND@,
        !r.mutates_line_text,
        r.flags@ == commandflags::and_flags_seq(),
{
    CommandDefinition { name: command_prefix::AND, mutates_line_text: false, flags: commandflags::and_flags() }
}

/// The hits that were visible before the search.
pub open spec fn visible_hits(hits: Seq<usize>, v0: Seq<LineView>) -> Set<usize> {
    Set::new(|i: usize| hits.contains(i) && i < v0.len() && v0[i as int].visible)
}

impl CAnd {
    /// What `apply` gives: visible when visible and a hit, and context around the hits
    /// that were visible.
    pub open spec fn applied(self, lines: Seq<LineStatus>, h: Map<usize, Parsed>, out: Seq<LineStatus>) -> bool {
        match self.qualifier {
            CommandQualifier::GrepQualifier(q) => {
                let v0 = lines_view(lines);
                let hits = visible_hits(hit_positions(self.searcher, q, v0), v0);
                let v1 = search_views(Visibility::VisibleAndHit, self.searcher, q, v0);
                lines_view(out) == show_views(v1, context_spec(q.before, q.after, hits, lines.len() as int))
            },
            CommandQualifier::DeclareQualifier(_) => lines_view(out) == lines_view(lines),
        }
    }
}

impl CommandActions for CAnd {
    fn apply(&self, lines: Vec<LineStatus>, hashtree: &HashMap<usize, Parsed>) -> (r: Vec<LineStatus>)
        ensures
            self.applied(lines@, hashtree@, r@),
    {
        let qualifier = match &self.qualifier {
            CommandQualifier::GrepQualifier(grep) => grep,
            CommandQualifier::DeclareQualifier(_) => {
                return lines;
            },
        };
        let ghost v0 = lines_view(lines@);
        let mut visibles: HashSet<usize> = HashSet::new();
        let mut i: usize = 0;
        while i < lines.len()
            invariant
                i <= lines@.len(),
                v0 == lines_view(lines@),
                visibles@ == Set::new(|j: usize| j < i && v0[j as int].visible),
            decreases lines.len() - i,
        {
            if lines[i].visible {
                visibles.insert(i);
            }
            assert(visibles@ =~= Set::new(|j: usize| j < i + 1 && v0[j as int].visible));
            i = i + 1;
        }
        let (search_hits, result_lines) = search_vector(Visibility::VisibleAndHit, &self.searcher, lines, qualifier);
        let mut hits: Vec<usize> = Vec::new();
        let mut k: usize = 0;
        while k < search_hits.len()
            invariant
                k <= search_hits@.len(),
                visibles@ == Set::new(|j: usize| j < v0.len() && v0[j as int].visible),
                forall|x: usize| hits@.contains(x) <==> ((exists|j: int| 0 <= j < k && #[trigger] search_hits@[j] == x) && visibles@.contains(x)),
            decreases search_hits.len() - k,
        {
            let hit = search_hits[k];
            let ghost before = hits@;
            if visibles.contains(&hit) {
                hits.push(hit);
            }
            assert forall|x: usize| hits@.contains(x) <==> ((exists|j: int| 0 <= j < k + 1 && #[trigger] search_hits@[j] == x) && visibles@.contains(x)) by {
                if hits@.contains(x) && x != hit {
                    let j = choose|j: int| 0 <= j < hits@.len() && hits@[j] == x;
                    assert(before[j] == x);
                    assert(before.contains(x));
                }
                if (exists|j: int| 0 <= j < k + 1 && #[trigger] search_hits@[j] == x) && visibles@.contains(x) && x != hit {
                    let j = choose|j: int| 0 <= j < k + 1 && #[trigger] search_hits@[j] == x;
                    assert(j < k);
                    assert(before.contains(x));
                    let jj = choose|jj: int| 0 <= jj < before.len() && before[jj] == x;
                    assert(hits@[jj] == x);
                }
                if x == hit && visibles@.contains(x) {
                    assert(hits@[hits@.len() - 1] == x);
                }
            }
            k = k + 1;
        }
        assert(hits@.to_set() =~= visible_hits(search_hits@, v0));
        post_search(qualifier, hits.as_slice(), result_lines)
    }

    fn get_constant_definition(&self) -> (r: CommandDefinition)
        ensures
            r.name@ == command_prefix::AND@,
            !r.mutates_line_text,
    {
        get_constant_definition()
    }
}

} // verus!
