//! `lines::1,5-9,20-`: shows lines by their numbers.
use vstd::prelude::*;
use std::collections::HashMap;

use crate::base::{conditions_hold, lines_view, CheckCondition, CommandDefinition, GrepCommandQualifier, LineStatus, LineView};
use crate::common::{AppConfig, CheckLineRange};
use crate::constants::{command_prefix, commandflags};
use crate::flag_utilities::{grep_flags_spec, qualifier_matches};
use crate::language_api::Parsed;
use crate::telemetry::TelemetryEvent;
use crate::utilities::lines_payload_spec;
use crate::CommandActions;

verus! {

/// Shows the lines whose numbers are in a range.
#[derive(Debug)]
pub struct CLines {
    /// The line numbers wanted.
    pub condition: CheckLineRange,
    /// What the user asked of the command.
    pub qualifier: GrepCommandQualifier,
}

/// Compile-time facts about `lines`.
pub fn get_constant_definition() -> (r: CommandDefinition)
    ensures
        r.name@ == command_prefix::LINES@,
        !r.mutates_line_text,
        r.flags@ == commandflags::linesflags_seq(),
{
    CommandDefinition { name: command_prefix::LINES, mutates_line_text: false, flags: commandflags::linesflags() }
}

/// The line after `lines`: a hit when its number is in the range and the conditions hold;
/// a hit becomes visible and gets the key when `sk=` was given.
pub open spec fn lines_view_after(c: CheckLineRange, q: GrepCommandQualifier, l: LineView) -> LineView {
    let hit = c.holds(l) && conditions_hold(q.conditions_checker.conds@, l);
    LineView {
        visible: l.visible || hit,
        key: if hit && q.set_key is Some {
            q.set_key->0@
        } else {
            l.key
        },
        ..l
    }
}

/// The command for `lines::payload::flags` and its telemetry.
pub fn from_arg(arg: &str, payload: &str, flags: &str, config: &AppConfig) -> (r: (TelemetryEvent, crate::Command))
    ensures
        r.1 matches crate::Command::CLines(c) && (c.condition.until_, c.condition.wanted@, c.condition.from_)
            == lines_payload_spec(payload@) && qualifier_matches(
            c.qualifier,
            grep_flags_spec(flags@, commandflags::linesflags_seq(), config.grep_shortcodes),
        ),
        r.0 matches TelemetryEvent::GenericCommandNotification { name, arg: a, .. } && name@ == "lines"@
            && a@ == arg@,
        r.1 matches crate::Command::CLines(c) && crate::telemetry::event_view(r.0) == (2int, seq![
            "lines"@,
            arg@,
            crate::formatters::qualifier_text(c.qualifier),
            crate::formatters::line_range_text(c.condition),
            c.qualifier.unrecognized@,
        ]),
{
    let condition = CheckLineRange::new(crate::text::owned(payload));
    let allowed_flags = commandflags::linesflags();
    let (qualifier, unconsumed) = GrepCommandQualifier::build_with_flags(flags, allowed_flags.as_slice(), config);
    let s_qualifier = crate::formatters::describe_qualifier(&qualifier);
    let s_searcher = crate::formatters::describe_line_range(&condition);
    proof {
        reveal_strlit("lines");
    }
    let telemetry_event = TelemetryEvent::GenericCommandNotification {
        name: crate::text::owned("lines"),
        arg: crate::text::owned(arg),
        qualifier: s_qualifier,
        searcher: s_searcher,
        unrecognized: unconsumed,
    };
    (telemetry_event, crate::Command::CLines(CLines { condition, qualifier }))
}

impl CommandActions for CLines {
    fn apply(&self, lines: Vec<LineStatus>, hashtree: &HashMap<usize, Parsed>) -> (r: Vec<LineStatus>)
        ensures
            lines_view(r@) == lines_view(lines@).map_values(|l: LineView| lines_view_after(self.condition, self.qualifier, l)),
    {
        let mut out: Vec<LineStatus> = Vec::new();
        let mut i: usize = 0;
        while i < lines.len()
            invariant
                i <= lines@.len(),
                out@.len() == i,
                forall|j: int| 0 <= j < i ==> #[trigger] out@[j]@ == lines_view_after(self.condition, self.qualifier, lines@[j]@),
            decreases lines.len() - i,
        {
            let mut l = lines[i].duplicate();
            let hit = self.condition.check(&l) && self.qualifier.conditions_checker.check(&l);
            if hit {
                match &self.qualifier.set_key {
                    Some(key) => {
                        l.meta.key = key.clone();
                    },
                    None => {},
                }
            }
            l.visible = l.visible || hit;
            out.push(l);
            i = i + 1;
        }
        assert(lines_view(out@) =~= lines_view(lines@).map_values(|l: LineView| lines_view_after(self.condition, self.qualifier, l)));
        out
    }

    fn get_constant_definition(&self) -> (r: CommandDefinition)
        ensures
            r.name@ == command_prefix::LINES@,
            !r.mutates_line_text,
    {
        get_constant_definition()
    }
}

} // verus!
