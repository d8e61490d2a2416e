//! `change`: replaces text in the visible lines.
use vstd::prelude::*;
use std::collections::HashMap;

use crate::base::{conditions_hold, lines_view, CommandDefinition, GrepCommandQualifier, LineStatus, LineView};
use crate::commands::delete::{next_answer, rest_answers};
use crate::common::CommandQualifier;
use crate::constants::{command_prefix, commandflags};
use crate::language_api::Parsed;
use crate::regexes::{regex_replace_all, regex_replace_first, CompiledRegex};
use crate::text::{replace_all_seq, replace_seq, split_seq};
use crate::CommandActions;

verus! {

/// How `change` rewrites a line.
#[derive(Debug)]
pub enum ChangeReplacer {
    /// Replace regex matches.
    Regex {
        /// The pattern.
        patre: CompiledRegex,
        /// The replacement (`$1` and the like refer to groups).
        replace_with: String,
        /// Every match, or only the first.
        global: bool,
        /// Whether the replacement holds a line feed (the line is then split).
        linefeed: bool,
    },
    /// Replace a fixed text.
    Literal {
        /// The text replaced.
        pattern: String,
        /// The replacement.
        replace_with: String,
        /// Every occurrence, or only the first.
        global: bool,
        /// Whether the replacement holds a line feed (the line is then split).
        linefeed: bool,
    },
}

impl ChangeReplacer {
    /// The line after replacement.
    pub open spec fn replaced(self, line: Seq<char>) -> Seq<char> {
        match self {
            ChangeReplacer::Regex { patre, replace_with, global, .. } => if global {
                regex_replace_all(patre.source(), patre.insensitive(), line, replace_with@)
            } else {
                regex_replace_first(patre.source(), patre.insensitive(), line, replace_with@)
            },
            ChangeReplacer::Literal { pattern, replace_with, global, .. } => if global {
                replace_all_seq(line, pattern@, replace_with@)
            } else {
                replace_seq(line, pattern@, replace_with@, false, 1)
            },
        }
    }

    /// Whether a changed line is split at line feeds.
    pub open spec fn splits(self) -> bool {
        match self {
            ChangeReplacer::Regex { linefeed, .. } => linefeed,
            ChangeReplacer::Literal { linefeed, .. } => linefeed,
        }
    }

    /// Rewrites one line.
    pub fn apply(&self, line: &str) -> (r: String)
        ensures
            r@ == self.replaced(line@),
    {
        match self {
            ChangeReplacer::Regex { patre, replace_with, global, .. } => {
                if *global {
                    crate::regexes::replace_all(patre, line, replace_with.as_str())
                } else {
                    crate::regexes::replace_first(patre, line, replace_with.as_str())
                }
            },
            ChangeReplacer::Literal { pattern, replace_with, global, .. } => {
                if *global {
                    crate::text::replace(line, pattern.as_str(), replace_with.as_str())
                } else {
                    crate::text::replacen(line, pattern.as_str(), replace_with.as_str(), 1)
                }
            },
        }
    }
}

/// Replaces text in the visible lines, keeping their visibility.
#[derive(Debug)]
pub struct CChange {
    /// How lines are rewritten.
    pub replacer: ChangeReplacer,
    /// What the user asked of the command.
    pub qualifier: Option<CommandQualifier>,
}

/// Compile-time facts about `change`.
pub fn get_constant_definition() -> (r: CommandDefinition)
    ensures
        r.name@ == command_prefix::CHANGE@,
        r.mutates_line_text,
        r.flags@ == commandflags::change_flags_seq(),
{
    CommandDefinition { name: command_prefix::CHANGE, mutates_line_text: true, flags: commandflags::change_flags() }
}

/// The grep qualifier of a change, if it has one.
pub open spec fn grep_of(q: Option<CommandQualifier>) -> Option<GrepCommandQualifier> {
    match q {
        Some(CommandQualifier::GrepQualifier(g)) => Some(g),
        _ => None,
    }
}

/// The line may be changed: the qualifier's conditions hold (or there is no qualifier).
pub open spec fn key_ok(g: Option<GrepCommandQualifier>, l: LineView) -> bool {
    match g {
        Some(q) => conditions_hold(q.conditions_checker.conds@, l),
        None => true,
    }
}

/// Whether a change is confirmed line by line.
pub open spec fn confirms(g: Option<GrepCommandQualifier>) -> bool {
    match g {
        Some(q) => q.user_confirmation,
        None => false,
    }
}

/// The lines that replace `l` when its text becomes `c`: one, or one per piece of `c`
/// between line feeds when the replacer splits.
pub open spec fn emitted(r: ChangeReplacer, l: LineView, c: Seq<char>) -> Seq<LineView> {
    if r.splits() {
        split_seq(c, seq!['\n']).map_values(|p: Seq<char>| LineView { line: p, ..l })
    } else {
        seq![LineView { line: c, ..l }]
    }
}

/// The line is rewritten into something else: visible, its conditions hold, and the
/// replacement changes it.
pub open spec fn changes(r: ChangeReplacer, g: Option<GrepCommandQualifier>, l: LineView) -> bool {
    l.visible && key_ok(g, l) && r.replaced(l.line) != l.line
}

/// What `change` makes of the lines, with `answers` to the confirmation questions in
/// order (no answer counts as "no").
pub open spec fn changed(r: ChangeReplacer, g: Option<GrepCommandQualifier>, views: Seq<LineView>, answers: Seq<bool>) -> Seq<LineView>
    decreases views.len(),
{
    if views.len() == 0 {
        Seq::empty()
    } else {
        let l = views[0];
        if !changes(r, g, l) {
            seq![l] + changed(r, g, views.drop_first(), answers)
        } else if !confirms(g) {
            emitted(r, l, r.replaced(l.line)) + changed(r, g, views.drop_first(), answers)
        } else if next_answer(answers) {
            emitted(r, l, r.replaced(l.line)) + changed(r, g, views.drop_first(), rest_answers(answers))
        } else {
            seq![l] + changed(r, g, views.drop_first(), rest_answers(answers))
        }
    }
}

/// The confirmation questions of `change`, in order: the text before and after for each
/// line it would rewrite.
pub open spec fn change_prompts(r: ChangeReplacer, g: Option<GrepCommandQualifier>, views: Seq<LineView>) -> Seq<Seq<char>>
    decreases views.len(),
{
    if views.len() == 0 {
        Seq::empty()
    } else if changes(r, g, views.last()) {
        change_prompts(r, g, views.drop_last()).push(
            "change : "@ + views.last().line + "\n  to     : "@ + r.replaced(views.last().line) + "\n"@,
        )
    } else {
        change_prompts(r, g, views.drop_last())
    }
}

fn rewritten(l: &LineStatus, text: String, split: bool) -> (r: Vec<LineStatus>)
    ensures
        lines_view(r@) == if split {
            split_seq(text@, seq!['\n']).map_values(|p: Seq<char>| LineView { line: p, ..l@ })
        } else {
            seq![LineView { line: text@, ..l@ }]
        },
{
    let mut out: Vec<LineStatus> = Vec::new();
    if split {
        let seps = vec!['\n'];
        let pieces = crate::text::split_chars(text.as_str(), &seps);
        let ghost target = split_seq(text@, seq!['\n']).map_values(|p: Seq<char>| LineView { line: p, ..l@ });
        assert(seps@ =~= seq!['\n']);
        let mut i: usize = 0;
        while i < pieces.len()
            invariant
                i <= pieces@.len(),
                pieces@.map_values(|x: String| x@) == split_seq(text@, seq!['\n']),
                target == split_seq(text@, seq!['\n']).map_values(|p: Seq<char>| LineView { line: p, ..l@ }),
                lines_view(out@) == target.take(i as int),
            decreases pieces.len() - i,
        {
            let mut changed_status = l.duplicate();
            changed_status.line = pieces[i].clone();
            let ghost prev_out = out@;
            assert(pieces@.map_values(|x: String| x@)[i as int] == pieces@[i as int]@);
            assert(changed_status@ == target[i as int]);
            out.push(changed_status);
            assert(lines_view(out@) =~= lines_view(prev_out).push(changed_status@));
            assert(lines_view(out@) =~= target.take(i + 1));
            i = i + 1;
        }
        assert(target.take(pieces@.len() as int) =~= target);
    } else {
        let mut changed_status = l.duplicate();
        changed_status.line = text;
        out.push(changed_status);
        assert(lines_view(out@) =~= seq![LineView { line: changed_status.line@, ..l@ }]);
    }
    out
}

fn append_lines(out: &mut Vec<LineStatus>, more: Vec<LineStatus>)
    ensures
        lines_view(final(out)@) == lines_view(old(out)@) + lines_view(more@),
{
    let ghost start = lines_view(out@);
    let mut i: usize = 0;
    while i < more.len()
        invariant
            i <= more@.len(),
            lines_view(out@) == start + lines_view(more@).take(i as int),
        decreases more.len() - i,
    {
        let ghost prev_out = out@;
        let d = more[i].duplicate();
        out.push(d);
        assert(lines_view(out@) =~= lines_view(prev_out).push(d@));
        assert(lines_view(out@) =~= start + lines_view(more@).take(i + 1));
        i = i + 1;
    }
    assert(lines_view(more@).take(more@.len() as int) =~= lines_view(more@));
}

impl CChange {
    fn grep_qualifier(&self) -> (r: Option<&GrepCommandQualifier>)
        ensures
            match r {
                Some(q) => grep_of(self.qualifier) == Some(*q),
                None => grep_of(self.qualifier) is None,
            },
    {
        match &self.qualifier {
            Some(CommandQualifier::GrepQualifier(grep)) => Some(grep),
            _ => None,
        }
    }

    /// The questions that `change` asks when confirmation is on, in order.
    pub fn confirmation_prompts(&self, lines: &Vec<LineStatus>) -> (r: Vec<String>)
        ensures
            r@.map_values(|s: String| s@) == change_prompts(self.replacer, grep_of(self.qualifier), lines_view(lines@)),
    {
        let g = self.grep_qualifier();
        let ghost gq = grep_of(self.qualifier);
        let ghost all = lines_view(lines@);
        let mut out: Vec<String> = Vec::new();
        let mut i: usize = 0;
        while i < lines.len()
            invariant
                i <= lines@.len(),
                all == lines_view(lines@),
                gq == grep_of(self.qualifier),
                match g {
                    Some(q) => gq == Some(*q),
                    None => gq is None,
                },
                out@.map_values(|s: String| s@) == change_prompts(self.replacer, gq, all.take(i as int)),
            decreases lines.len() - i,
        {
            let l = &lines[i];
            assert(all.take(i + 1).drop_last() =~= all.take(i as int));
            assert(all.take(i + 1).last() == lines@[i as int]@);
            let key_matches = match g {
                Some(q) => q.conditions_checker.check(l),
                None => true,
            };
            if l.visible && key_matches {
                let changed_line = self.replacer.apply(l.line.as_str());
                if !crate::text::str_eq(changed_line.as_str(), l.line.as_str()) {
                    let ghost prev = out@.map_values(|s: String| s@);
                    let a = crate::text::concat3("change : ", l.line.as_str(), "\n  to     : ");
                    let msg = crate::text::concat3(a.as_str(), changed_line.as_str(), "\n");
                    out.push(msg);
                    assert(out@.map_values(|s: String| s@) =~= prev.push(msg@));
                }
            }
            i = i + 1;
        }
        assert(all.take(lines@.len() as int) =~= all);
        out
    }

    /// Runs `change`, where the answer to the k-th confirmation question is
    /// `answers[k]` (no answer counts as "no").
    pub fn apply_with_answers(&self, lines: Vec<LineStatus>, answers: &[bool]) -> (r: Vec<LineStatus>)
        ensures
            lines_view(r@) == changed(self.replacer, grep_of(self.qualifier), lines_view(lines@), answers@),
    {
        let g = self.grep_qualifier();
        let ghost gq = grep_of(self.qualifier);
        let ghost all = lines_view(lines@);
        let mut out: Vec<LineStatus> = Vec::new();
        let mut next: usize = 0;
        let mut i: usize = 0;
        assert(all.skip(0) =~= all);
        assert(answers@.skip(0) =~= answers@);
        while i < lines.len()
            invariant
                i <= lines@.len(),
                next <= answers@.len(),
                all == lines_view(lines@),
                gq == grep_of(self.qualifier),
                match g {
                    Some(q) => gq == Some(*q),
                    None => gq is None,
                },
                lines_view(out@) + changed(self.replacer, gq, all.skip(i as int), answers@.skip(next as int))
                    == changed(self.replacer, gq, all, answers@),
            decreases lines.len() - i,
        {
            let ghost rest = all.skip(i as int);
            let ghost ans = answers@.skip(next as int);
            let ghost before = lines_view(out@);
            let ghost r = self.replacer;
            assert(rest.drop_first() =~= all.skip(i + 1));
            assert(rest[0] == lines@[i as int]@);
            let l = lines[i].duplicate();
            let key_matches = match g {
                Some(q) => q.conditions_checker.check(&l),
                None => true,
            };
            let confirm = match g {
                Some(q) => q.user_confirmation,
                None => false,
            };
            let mut done = false;
            if l.visible && key_matches {
                let changed_line = self.replacer.apply(l.line.as_str());
                if !crate::text::str_eq(changed_line.as_str(), l.line.as_str()) {
                    let should_apply = if confirm {
                        let yes = next < answers.len() && answers[next];
                        assert(yes == next_answer(ans));
                        if next < answers.len() {
                            assert(ans.drop_first() =~= answers@.skip(next + 1));
                            next = next + 1;
                        }
                        assert(rest_answers(ans) =~= answers@.skip(next as int));
                        yes
                    } else {
                        true
                    };
                    if should_apply {
                        let split = match &self.replacer {
                            ChangeReplacer::Regex { linefeed, .. } => *linefeed,
                            ChangeReplacer::Literal { linefeed, .. } => *linefeed,
                        };
                        let new_lines = rewritten(&l, changed_line, split);
                        append_lines(&mut out, new_lines);
                        done = true;
                        assert(emitted(r, rest[0], r.replaced(rest[0].line)) == lines_view(new_lines@));
                        assert(before + changed(r, gq, rest, ans) =~= lines_view(out@) + changed(
                            r,
                            gq,
                            rest.drop_first(),
                            answers@.skip(next as int),
                        ));
                    } else {
                        assert(changed(r, gq, rest, ans) == seq![rest[0]] + changed(r, gq, rest.drop_first(), rest_answers(ans)));
                    }
                }
            }
            if !done {
                out.push(l);
                assert(lines_view(out@) =~= before + seq![rest[0]]);
                assert(before + changed(r, gq, rest, ans) =~= lines_view(out@) + changed(
                    r,
                    gq,
                    rest.drop_first(),
                    answers@.skip(next as int),
                ));
            }
            i = i + 1;
        }
        assert(all.skip(lines@.len() as int) =~= Seq::<LineView>::empty());
        assert(lines_view(out@) =~= changed(self.replacer, gq, all, answers@));
        out
    }
}

impl CommandActions for CChange {
    fn apply(&self, lines: Vec<LineStatus>, hashtree: &HashMap<usize, Parsed>) -> (r: Vec<LineStatus>)
        ensures
            lines_view(r@) == changed(self.replacer, grep_of(self.qualifier), lines_view(lines@), Seq::empty()),
    {
        let no_answers: Vec<bool> = Vec::new();
        self.apply_with_answers(lines, no_answers.as_slice())
    }

    fn get_constant_definition(&self) -> (r: CommandDefinition)
        ensures
            r.name@ == command_prefix::CHANGE@,
            r.mutates_line_text,
    {
        get_constant_definition()
    }
}

/// What `from_change` builds: the change command, or a no-op holding the command text and
/// the error.
pub open spec fn change_command_spec(r: crate::Command, pattern: Seq<char>, replace_with: Seq<char>, flags: Seq<char>, arg: Seq<char>, config_shortcodes: bool) -> bool {
    match crate::replacer_error(pattern, replace_with, flags, config_shortcodes) {
        Some(e) => r matches crate::Command::CNoop(n) && n.text@ == arg && n.message@ == e,
        None => {
            &&& r is CChange
            &&& crate::replacer_built(r->CChange_0.replacer, pattern, replace_with, flags, config_shortcodes)
            &&& grep_of(r->CChange_0.qualifier) is Some
            &&& crate::flag_utilities::qualifier_matches(grep_of(r->CChange_0.qualifier)->0, crate::flag_utilities::grep_flags_spec(flags, commandflags::change_flags_seq(), config_shortcodes))
        },
    }
}

/// Builds a `change` command. When the replacement has an invalid escape or the pattern is
/// not a valid regex, the command is a no-op holding the error, and a telemetry event names
/// it.
pub fn from_change(state: &mut crate::common::AppState, pattern: &str, replace_with: &str, flags: &str, arg: &str) -> (r: crate::Command)
    ensures
        change_command_spec(r, pattern@, replace_with@, flags@, arg@, old(state).config.grep_shortcodes),
        match crate::replacer_error(pattern@, replace_with@, flags@, old(state).config.grep_shortcodes) {
            Some(e) => {
                &&& r matches crate::Command::CNoop(n) && n.text@ == arg@ && n.message@ == e
                &&& final(state).telemetry.events@.len() == old(state).telemetry.events@.len() + 1
                &&& final(state).telemetry.events@.drop_last() == old(state).telemetry.events@
                &&& crate::telemetry::event_view(final(state).telemetry.events@.last()) == (0int, seq![pattern@, arg@, e])
            },
            None => {
                &&& r is CChange
                &&& crate::replacer_built(r->CChange_0.replacer, pattern@, replace_with@, flags@, old(state).config.grep_shortcodes)
                &&& grep_of(r->CChange_0.qualifier) is Some
                &&& crate::flag_utilities::qualifier_matches(grep_of(r->CChange_0.qualifier)->0, crate::flag_utilities::grep_flags_spec(flags@, commandflags::change_flags_seq(), old(state).config.grep_shortcodes))
                &&& final(state).telemetry.events@ == old(state).telemetry.events@
            },
        },
        final(state).config == old(state).config,
        final(state).plugin_extensions == old(state).plugin_extensions,
        final(state).telemetry.explain_requests == old(state).telemetry.explain_requests,
{
    match crate::new_replacer(pattern, replace_with, flags, &state.config) {
        Ok(seed) => {
            let qualifier = match seed.qualifier {
                Some(q) => Some(CommandQualifier::GrepQualifier(q)),
                None => None,
            };
            crate::Command::CChange(CChange { replacer: seed.replacer, qualifier })
        },
        Err(error_message) => {
            crate::telemetry::append_telemetry(
                &mut state.telemetry,
                crate::telemetry::TelemetryEvent::NoopNotification {
                    payload: crate::text::owned(pattern),
                    received: crate::text::owned(arg),
                    cause: error_message.clone(),
                },
            );
            crate::Command::CNoop(crate::commands::noop::CNoop { text: crate::text::owned(arg), message: error_message })
        },
    }
}

} // verus!
