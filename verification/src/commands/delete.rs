//! `delete`: removes the visible lines that match.
use vstd::prelude::*;
use std::collections::HashMap;

use crate::base::{lines_view, CommandDefinition, LineStatus, LineView};
use crate::commands::helpers::line_hit;
use crate::commands::search::{Search, Searcher};
use crate::common::CommandQualifier;
use crate::constants::{command_prefix, commandflags};
use crate::language_api::Parsed;
use crate::CommandActions;

verus! {

/// Removes the visible lines that match the pattern.
#[derive(Debug)]
pub struct CDelete {
    /// What decides a match.
    pub searcher: Searcher,
    /// What the user asked of the command.
    pub qualifier: CommandQualifier,
}

/// Compile-time facts about `delete`.
pub fn get_constant_definition() -> (r: CommandDefinition)
    ensures
        r.name@ == command_prefix::DELETE@,
        r.mutates_line_text,
        r.flags@ == commandflags::searchflags_seq(),
{
    CommandDefinition { name: command_prefix::DELETE, mutates_line_text: true, flags: commandflags::searchflags() }
}

/// The answer to the next question: the first answer, or "no" when there is none left.
pub open spec fn next_answer(answers: Seq<bool>) -> bool {
    answers.len() > 0 && answers[0]
}

/// The answers left after the next question.
pub open spec fn rest_answers(answers: Seq<bool>) -> Seq<bool> {
    if answers.len() > 0 {
        answers.drop_first()
    } else {
        answers
    }
}

/// What `delete` keeps of `views`: a visible hit goes, unless confirmation is asked for
/// and the answer to its question (in line order) is not "yes".
pub open spec fn kept(searcher: Searcher, q: crate::base::GrepCommandQualifier, views: Seq<LineView>, answers: Seq<bool>) -> Seq<LineView>
    decreases views.len(),
{
    if views.len() == 0 {
        Seq::empty()
    } else {
        let l = views[0];
        let candidate = l.visible && line_hit(searcher, q, l);
        if !candidate {
            seq![l] + kept(searcher, q, views.drop_first(), answers)
        } else if !q.user_confirmation {
            kept(searcher, q, views.drop_first(), answers)
        } else if next_answer(answers) {
            kept(searcher, q, views.drop_first(), rest_answers(answers))
        } else {
            seq![l] + kept(searcher, q, views.drop_first(), rest_answers(answers))
        }
    }
}

/// The texts of the visible lines that match, in order: each is what a confirmation
/// question is about.
pub open spec fn candidates(searcher: Searcher, q: crate::base::GrepCommandQualifier, views: Seq<LineView>) -> Seq<Seq<char>>
    decreases views.len(),
{
    if views.len() == 0 {
        Seq::empty()
    } else if views.last().visible && line_hit(searcher, q, views.last()) {
        candidates(searcher, q, views.drop_last()).push(views.last().line)
    } else {
        candidates(searcher, q, views.drop_last())
    }
}

impl CDelete {
    /// What `apply_with_answers` gives.
    pub open spec fn applied(self, lines: Seq<LineStatus>, answers: Seq<bool>, out: Seq<LineStatus>) -> bool {
        match self.qualifier {
            CommandQualifier::GrepQualifier(q) => lines_view(out) == kept(self.searcher, q, lines_view(lines), answers),
            CommandQualifier::DeclareQualifier(_) => lines_view(out) == lines_view(lines),
        }
    }

    /// The questions that `delete` asks when confirmation is on, in order:
    /// `delete <line>` for each visible line that matches.
    pub fn confirmation_prompts(&self, lines: &Vec<LineStatus>) -> (r: Vec<String>)
        ensures
            match self.qualifier {
                CommandQualifier::GrepQualifier(q) => r@.map_values(|s: String| s@) == candidates(
                    self.searcher,
                    q,
                    lines_view(lines@),
                ).map_values(|t: Seq<char>| "delete "@ + t),
                CommandQualifier::DeclareQualifier(_) => r@.len() == 0,
            },
    {
        let mut out: Vec<String> = Vec::new();
        let qualifier = match &self.qualifier {
            CommandQualifier::GrepQualifier(grep) => grep,
            CommandQualifier::DeclareQualifier(_) => {
                return out;
            },
        };
        let ghost q = *qualifier;
        let ghost all = lines_view(lines@);
        let mut i: usize = 0;
        while i < lines.len()
            invariant
                i <= lines@.len(),
                all == lines_view(lines@),
                q == *qualifier,
                out@.map_values(|s: String| s@) == candidates(self.searcher, q, all.take(i as int)).map_values(
                    |t: Seq<char>| "delete "@ + t,
                ),
            decreases lines.len() - i,
        {
            let l = &lines[i];
            let ghost prev = out@.map_values(|s: String| s@);
            assert(all.take(i + 1).drop_last() =~= all.take(i as int));
            assert(all.take(i + 1).last() == lines@[i as int]@);
            if l.visible && self.searcher.search(l.line.as_str()) && qualifier.conditions_checker.check(l) {
                let msg = crate::text::concat2("delete ", l.line.as_str());
                out.push(msg);
                assert(out@.map_values(|s: String| s@) =~= prev.push(msg@));
            }
            i = i + 1;
        }
        assert(all.take(lines@.len() as int) =~= all);
        out
    }

    /// Runs `delete`, where the answer to the question about the k-th visible line that
    /// matches is `answers[k]` (no answer counts as "no").
    pub fn apply_with_answers(&self, lines: Vec<LineStatus>, answers: &[bool]) -> (r: Vec<LineStatus>)
        ensures
            self.applied(lines@, answers@, r@),
    {
        let qualifier = match &self.qualifier {
            CommandQualifier::GrepQualifier(grep) => grep,
            CommandQualifier::DeclareQualifier(_) => {
                return lines;
            },
        };
        let ghost q = *qualifier;
        let ghost all = lines_view(lines@);
        let mut out: Vec<LineStatus> = Vec::new();
        let mut next: usize = 0;
        let mut i: usize = 0;
        assert(all.skip(0) =~= all);
        assert(answers@.skip(0) =~= answers@);
        while i < lines.len()
            invariant
                i <= lines@.len(),
                next <= answers@.len(),
                all == lines_view(lines@),
                q == *qualifier,
                lines_view(out@) + kept(self.searcher, q, all.skip(i as int), answers@.skip(next as int))
                    == kept(self.searcher, q, all, answers@),
            decreases lines.len() - i,
        {
            let ghost rest = all.skip(i as int);
            let ghost ans = answers@.skip(next as int);
            let ghost before = lines_view(out@);
            assert(rest.drop_first() =~= all.skip(i + 1));
            assert(rest[0] == lines@[i as int]@);
            let l = lines[i].duplicate();
            let hit = self.searcher.search(l.line.as_str()) && qualifier.conditions_checker.check(&l);
            if l.visible && hit {
                if qualifier.user_confirmation {
                    let yes = next < answers.len() && answers[next];
                    assert(yes == next_answer(ans));
                    if next < answers.len() {
                        assert(ans.drop_first() =~= answers@.skip(next + 1));
                        next = next + 1;
                    }
                    assert(rest_answers(ans) =~= answers@.skip(next as int));
                    if !yes {
                        out.push(l);
                        assert(lines_view(out@) =~= before + seq![rest[0]]);
                        assert(kept(self.searcher, q, rest, ans) == seq![rest[0]] + kept(self.searcher, q, rest.drop_first(), rest_answers(ans)));
                        assert(before + kept(self.searcher, q, rest, ans) =~= lines_view(out@) + kept(self.searcher, q, rest.drop_first(), rest_answers(ans)));
                    } else {
                        assert(kept(self.searcher, q, rest, ans) == kept(self.searcher, q, rest.drop_first(), rest_answers(ans)));
                    }
                } else {
                    assert(kept(self.searcher, q, rest, ans) == kept(self.searcher, q, rest.drop_first(), ans));
                }
            } else {
                out.push(l);
                assert(lines_view(out@) =~= before + seq![rest[0]]);
                assert(kept(self.searcher, q, rest, ans) == seq![rest[0]] + kept(self.searcher, q, rest.drop_first(), ans));
                assert(before + kept(self.searcher, q, rest, ans) =~= lines_view(out@) + kept(self.searcher, q, rest.drop_first(), ans));
            }
            i = i + 1;
        }
        assert(all.skip(lines@.len() as int) =~= Seq::<LineView>::empty());
        assert(lines_view(out@) =~= kept(self.searcher, q, all, answers@));
        out
    }
}

impl CommandActions for CDelete {
    fn apply(&self, lines: Vec<LineStatus>, hashtree: &HashMap<usize, Parsed>) -> (r: Vec<LineStatus>)
        ensures
            self.applied(lines@, Seq::empty(), r@),
    {
        let no_answers: Vec<bool> = Vec::new();
        self.apply_with_answers(lines, no_answers.as_slice())
    }

    fn get_constant_definition(&self) -> (r: CommandDefinition)
        ensures
            r.name@ == command_prefix::DELETE@,
            r.mutates_line_text,
    {
        get_constant_definition()
    }
}

} // verus!
