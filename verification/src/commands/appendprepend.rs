//! `prepend` and `append`: insert a line before or after each visible line that matches.
use vstd::prelude::*;
use std::collections::HashMap;

use crate::base::{lines_view, CommandDefinition, GrepCommandQualifier, LineStatus, LineView, MetaInfo};
use crate::commands::change::{confirms, grep_of, key_ok};
use crate::commands::delete::{next_answer, rest_answers};
use crate::common::{indent_of, CommandQualifier};
use crate::constants::{command_prefix, commandflags};
use crate::language_api::Parsed;
use crate::regexes::{regex_is_match, CompiledRegex};
use crate::text::contains_seq;
use crate::CommandActions;

verus! {

/// Compile-time facts about `prepend` and `append`.
pub fn get_constant_definition() -> (r: CommandDefinition)
    ensures
        r.name@ == "append"@,
        r.mutates_line_text,
        r.flags@ == commandflags::insert_flags_seq(),
{
    CommandDefinition { name: "append", mutates_line_text: true, flags: commandflags::insert_flags() }
}

/// What is inserted, and where.
#[derive(Debug)]
pub enum AppendPrepend {
    /// Lines are found by a regex.
    Regex {
        /// Insert before the line (else after).
        insert_before: bool,
        /// Give the inserted line the indentation of the matched one.
        indent_keep: bool,
        /// The pattern.
        patre: CompiledRegex,
        /// The text inserted.
        content: String,
    },
    /// Lines are found by a fixed text.
    Literal {
        /// Insert before the line (else after).
        insert_before: bool,
        /// Give the inserted line the indentation of the matched one.
        indent_keep: bool,
        /// The text searched for.
        pattern: String,
        /// The text inserted.
        content: String,
    },
}

impl AppendPrepend {
    /// Whether the line matches.
    pub open spec fn matches(self, line: Seq<char>) -> bool {
        match self {
            AppendPrepend::Regex { patre, .. } => regex_is_match(patre.source(), patre.insensitive(), line),
            AppendPrepend::Literal { pattern, .. } => contains_seq(line, pattern@),
        }
    }

    /// Insert before the line (else after).
    pub open spec fn before(self) -> bool {
        match self {
            AppendPrepend::Regex { insert_before, .. } => insert_before,
            AppendPrepend::Literal { insert_before, .. } => insert_before,
        }
    }

    /// Keep the indentation of the matched line.
    pub open spec fn keeps_indent(self) -> bool {
        match self {
            AppendPrepend::Regex { indent_keep, .. } => indent_keep,
            AppendPrepend::Literal { indent_keep, .. } => indent_keep,
        }
    }

    /// The text inserted.
    pub open spec fn text(self) -> Seq<char> {
        match self {
            AppendPrepend::Regex { content, .. } => content@,
            AppendPrepend::Literal { content, .. } => content@,
        }
    }

    fn is_match(&self, line: &str) -> (b: bool)
        ensures
            b == self.matches(line@),
    {
        match self {
            AppendPrepend::Regex { patre, .. } => crate::regexes::is_match(patre, line),
            AppendPrepend::Literal { pattern, .. } => crate::text::contains(line, pattern.as_str()),
        }
    }

    fn insert_before(&self) -> (b: bool)
        ensures
            b == self.before(),
    {
        match self {
            AppendPrepend::Regex { insert_before, .. } => *insert_before,
            AppendPrepend::Literal { insert_before, .. } => *insert_before,
        }
    }

    fn indent_keep(&self) -> (b: bool)
        ensures
            b == self.keeps_indent(),
    {
        match self {
            AppendPrepend::Regex { indent_keep, .. } => *indent_keep,
            AppendPrepend::Literal { indent_keep, .. } => *indent_keep,
        }
    }

    fn content(&self) -> (r: &str)
        ensures
            r@ == self.text(),
    {
        match self {
            AppendPrepend::Regex { content, .. } => content.as_str(),
            AppendPrepend::Literal { content, .. } => content.as_str(),
        }
    }
}

/// Inserts a line before or after each visible line that matches.
#[derive(Debug)]
pub struct CInserter {
    /// What is inserted, and where.
    pub inserter: AppendPrepend,
    /// What the user asked of the command.
    pub qualifier: Option<CommandQualifier>,
}

/// `n` spaces.
pub open spec fn spaces(n: nat) -> Seq<char> {
    Seq::new(n, |i: int| ' ')
}

/// `content` indented by `indent_spaces` spaces (none when not positive).
pub open spec fn indented(content: Seq<char>, indent_spaces: int) -> Seq<char> {
    if indent_spaces <= 0 {
        content
    } else {
        spaces(indent_spaces as nat) + content
    }
}

/// Indents `content` by `indent_spaces` spaces.
pub fn apply_indent(content: &str, indent_spaces: i32) -> (r: String)
    ensures
        r@ == indented(content@, indent_spaces as int),
{
    if indent_spaces <= 0 {
        crate::text::owned(content)
    } else {
        let mut cs: Vec<char> = Vec::new();
        let mut i: i32 = 0;
        while i < indent_spaces
            invariant
                0 <= i <= indent_spaces,
                cs@ == spaces(i as nat),
            decreases indent_spaces - i,
        {
            cs.push(' ');
            assert(cs@ =~= spaces((i + 1) as nat));
            i = i + 1;
        }
        let body = crate::text::chars_of(content);
        crate::text::append_chars(&mut cs, &body);
        crate::text::string_from_chars(cs.as_slice())
    }
}

/// The text of the line inserted next to `matched_line`.
pub open spec fn inserted_text(base: Seq<char>, matched_line: Seq<char>, indent_keep: bool) -> Seq<char> {
    if !indent_keep {
        base
    } else {
        indented(base, if indent_of(matched_line) > 0 { indent_of(matched_line) as int } else { 0 })
    }
}

/// The text of the line inserted next to `matched_line`: the content, indented like the
/// matched line when asked to.
pub fn inserted_line_text(base_content: &str, matched_line: &str, indent_keep: bool) -> (r: String)
    ensures
        r@ == inserted_text(base_content@, matched_line@, indent_keep),
{
    if !indent_keep {
        return crate::text::owned(base_content);
    }
    let indent = crate::common::calc_indent(matched_line);
    let n = if indent > 0 {
        indent
    } else {
        0
    };
    apply_indent(base_content, n)
}

/// The line inserted next to `l`: same number, visible, no key.
pub open spec fn new_line(l: LineView, text: Seq<char>) -> LineView {
    LineView { line_number: l.line_number, visible: true, line: text, key: Seq::empty(), groupid: 0 }
}

/// The line gets an insertion: visible, its conditions hold, and it matches.
pub open spec fn gets_insert(ins: AppendPrepend, g: Option<GrepCommandQualifier>, l: LineView) -> bool {
    l.visible && key_ok(g, l) && ins.matches(l.line)
}

/// What the command makes of the lines, with `answers` to the confirmation questions in
/// order (no answer counts as "no").
pub open spec fn inserted(ins: AppendPrepend, g: Option<GrepCommandQualifier>, views: Seq<LineView>, answers: Seq<bool>) -> Seq<LineView>
    decreases views.len(),
{
    if views.len() == 0 {
        Seq::empty()
    } else {
        let l = views[0];
        if !gets_insert(ins, g, l) {
            seq![l] + inserted(ins, g, views.drop_first(), answers)
        } else {
            let yes = !confirms(g) || next_answer(answers);
            let rest_ans = if confirms(g) {
                rest_answers(answers)
            } else {
                answers
            };
            let n = new_line(l, inserted_text(ins.text(), l.line, ins.keeps_indent()));
            let pre: Seq<LineView> = if yes && ins.before() {
                seq![n]
            } else {
                Seq::empty()
            };
            let post: Seq<LineView> = if yes && !ins.before() {
                seq![n]
            } else {
                Seq::empty()
            };
            pre + seq![l] + post + inserted(ins, g, views.drop_first(), rest_ans)
        }
    }
}

/// The confirmation questions of the command, in order: one for each line that gets an
/// insertion.
pub open spec fn insert_prompts(ins: AppendPrepend, g: Option<GrepCommandQualifier>, views: Seq<LineView>) -> Seq<Seq<char>>
    decreases views.len(),
{
    if views.len() == 0 {
        Seq::empty()
    } else if gets_insert(ins, g, views.last()) {
        let l = views.last();
        let action = if ins.before() {
            "prepend"@
        } else {
            "append"@
        };
        insert_prompts(ins, g, views.drop_last()).push(
            action + " `"@ + inserted_text(ins.text(), l.line, ins.keeps_indent()) + "` around `"@ + l.line + "`"@,
        )
    } else {
        insert_prompts(ins, g, views.drop_last())
    }
}

impl CInserter {
    /// The questions that the command asks when confirmation is on, in order.
    pub fn confirmation_prompts(&self, lines: &Vec<LineStatus>) -> (r: Vec<String>)
        ensures
            r@.map_values(|s: String| s@) == insert_prompts(self.inserter, grep_of(self.qualifier), lines_view(lines@)),
    {
        let g = self.grep_qualifier();
        let ghost gq = grep_of(self.qualifier);
        let ghost all = lines_view(lines@);
        let action = if self.inserter.insert_before() {
            "prepend"
        } else {
            "append"
        };
        let mut out: Vec<String> = Vec::new();
        let mut i: usize = 0;
        while i < lines.len()
            invariant
                i <= lines@.len(),
                all == lines_view(lines@),
                gq == grep_of(self.qualifier),
                action@ == if self.inserter.before() {
                    "prepend"@
                } else {
                    "append"@
                },
                match g {
                    Some(q) => gq == Some(*q),
                    None => gq is None,
                },
                out@.map_values(|s: String| s@) == insert_prompts(self.inserter, gq, all.take(i as int)),
            decreases lines.len() - i,
        {
            let l = &lines[i];
            assert(all.take(i + 1).drop_last() =~= all.take(i as int));
            assert(all.take(i + 1).last() == lines@[i as int]@);
            let key_matches = match g {
                Some(q) => q.conditions_checker.check(l),
                None => true,
            };
            if l.visible && key_matches && self.inserter.is_match(l.line.as_str()) {
                let text = inserted_line_text(self.inserter.content(), l.line.as_str(), self.inserter.indent_keep());
                let ghost prev = out@.map_values(|s: String| s@);
                let a = crate::text::concat3(action, " `", text.as_str());
                let b = crate::text::concat3(a.as_str(), "` around `", l.line.as_str());
                let msg = crate::text::concat2(b.as_str(), "`");
                out.push(msg);
                assert(out@.map_values(|s: String| s@) =~= prev.push(msg@));
            }
            i = i + 1;
        }
        assert(all.take(lines@.len() as int) =~= all);
        out
    }

    /// The command name for telemetry: `prepend` or `append`.
    pub fn source_prefix(&self) -> (r: &'static str)
        ensures
            r@ == if self.inserter.before() {
                command_prefix::PREPEND@
            } else {
                command_prefix::APPEND@
            },
    {
        if self.inserter.insert_before() {
            command_prefix::PREPEND
        } else {
            command_prefix::APPEND
        }
    }

    fn grep_qualifier(&self) -> (r: Option<&GrepCommandQualifier>)
        ensures
            match r {
                Some(q) => grep_of(self.qualifier) == Some(*q),
                None => grep_of(self.qualifier) is None,
            },
    {
        match &self.qualifier {
            Some(CommandQualifier::GrepQualifier(grep)) => Some(grep),
            _ => None,
        }
    }

    /// Runs the command, where the answer to the k-th confirmation question is
    /// `answers[k]` (no answer counts as "no").
    pub fn apply_with_answers(&self, lines: Vec<LineStatus>, answers: &[bool]) -> (r: Vec<LineStatus>)
        ensures
            lines_view(r@) == inserted(self.inserter, grep_of(self.qualifier), lines_view(lines@), answers@),
    {
        let g = self.grep_qualifier();
        let ghost gq = grep_of(self.qualifier);
        let ghost all = lines_view(lines@);
        let ghost ins = self.inserter;
        let user_confirmation = match g {
            Some(q) => q.user_confirmation,
            None => false,
        };
        let mut out: Vec<LineStatus> = Vec::new();
        let mut next: usize = 0;
        let mut i: usize = 0;
        assert(all.skip(0) =~= all);
        assert(answers@.skip(0) =~= answers@);
        while i < lines.len()
            invariant
                i <= lines@.len(),
                next <= answers@.len(),
                all == lines_view(lines@),
                gq == grep_of(self.qualifier),
                ins == self.inserter,
                user_confirmation == confirms(gq),
                match g {
                    Some(q) => gq == Some(*q),
                    None => gq is None,
                },
                lines_view(out@) + inserted(ins, gq, all.skip(i as int), answers@.skip(next as int))
                    == inserted(ins, gq, all, answers@),
            decreases lines.len() - i,
        {
            let ghost rest = all.skip(i as int);
            let ghost ans = answers@.skip(next as int);
            let ghost before = lines_view(out@);
            assert(rest.drop_first() =~= all.skip(i + 1));
            assert(rest[0] == lines@[i as int]@);
            let l = lines[i].duplicate();
            let key_matches = match g {
                Some(q) => q.conditions_checker.check(&l),
                None => true,
            };
            let hit = l.visible && key_matches && self.inserter.is_match(l.line.as_str());
            if hit {
                let text = inserted_line_text(self.inserter.content(), l.line.as_str(), self.inserter.indent_keep());
                let should_insert = if user_confirmation {
                    let yes = next < answers.len() && answers[next];
                    assert(yes == next_answer(ans));
                    if next < answers.len() {
                        assert(ans.drop_first() =~= answers@.skip(next + 1));
                        next = next + 1;
                    }
                    assert(rest_answers(ans) =~= answers@.skip(next as int));
                    yes
                } else {
                    true
                };
                let ghost n = new_line(l@, text@);
                let before_ins = self.inserter.insert_before();
                if should_insert && before_ins {
                    let nl = LineStatus { line_number: l.line_number, visible: true, line: text.clone(), meta: MetaInfo::default() };
                    assert(nl@ == n);
                    out.push(nl);
                }
                let ln = l.line_number;
                out.push(l);
                if should_insert && !before_ins {
                    let nl = LineStatus { line_number: ln, visible: true, line: text, meta: MetaInfo::default() };
                    assert(nl@ == n);
                    out.push(nl);
                }
                assert(before + inserted(ins, gq, rest, ans) =~= lines_view(out@) + inserted(
                    ins,
                    gq,
                    rest.drop_first(),
                    answers@.skip(next as int),
                ));
            } else {
                out.push(l);
                assert(lines_view(out@) =~= before + seq![rest[0]]);
                assert(before + inserted(ins, gq, rest, ans) =~= lines_view(out@) + inserted(
                    ins,
                    gq,
                    rest.drop_first(),
                    answers@.skip(next as int),
                ));
            }
            i = i + 1;
        }
        assert(all.skip(lines@.len() as int) =~= Seq::<LineView>::empty());
        assert(lines_view(out@) =~= inserted(ins, gq, all, answers@));
        out
    }
}

impl CommandActions for CInserter {
    fn apply(&self, lines: Vec<LineStatus>, hashtree: &HashMap<usize, Parsed>) -> (r: Vec<LineStatus>)
        ensures
            lines_view(r@) == inserted(self.inserter, grep_of(self.qualifier), lines_view(lines@), Seq::empty()),
    {
        let no_answers: Vec<bool> = Vec::new();
        self.apply_with_answers(lines, no_answers.as_slice())
    }

    fn get_constant_definition(&self) -> (r: CommandDefinition)
        ensures
            r.name@ == "append"@,
            r.mutates_line_text,
    {
        get_constant_definition()
    }
}

/// The command text that a failed `prepend` or `append` reports.
pub open spec fn insert_text(insert_before: bool, pattern: Seq<char>, content: Seq<char>, flags: Seq<char>) -> Seq<char> {
    (if insert_before { command_prefix::PREPEND@ } else { command_prefix::APPEND@ }) + "::"@ + pattern + "::"@ + content + "::"@ + flags
}

/// What `from_insert` builds: the inserter, or a no-op holding the command text and the
/// regex error.
pub open spec fn insert_command_spec(r: crate::Command, insert_before: bool, pattern: Seq<char>, content: Seq<char>, flags: Seq<char>, config_shortcodes: bool) -> bool {
    let g = crate::flag_utilities::grep_flags_spec(flags, commandflags::insert_flags_seq(), config_shortcodes);
    let p = crate::preformat_spec(pattern, g.preformat, crate::constants::grep_shortcodes::searchfield_seq());
    match crate::searcher_error(g, p, None) {
        Some(e) => r matches crate::Command::CNoop(n) && n.text@ == insert_text(insert_before, pattern, content, flags) && n.message@ == e,
        None => {
            &&& r is CInserter
            &&& r->CInserter_0.inserter.before() == insert_before
            &&& r->CInserter_0.inserter.keeps_indent() == contains_seq(flags, commandflags::indent_keep_def().value@)
            &&& r->CInserter_0.inserter.text() == content
            &&& grep_of(r->CInserter_0.qualifier) is Some
            &&& crate::flag_utilities::qualifier_matches(grep_of(r->CInserter_0.qualifier)->0, g)
            &&& if g.fixed_string {
                r->CInserter_0.inserter is Literal && r->CInserter_0.inserter->Literal_pattern@ == crate::commands::search::folded(p, g.case_insensitive)
            } else {
                r->CInserter_0.inserter is Regex && r->CInserter_0.inserter->Regex_patre.source() == crate::search_source(g.case_insensitive, p) && !r->CInserter_0.inserter->Regex_patre.insensitive()
            }
        },
    }
}

/// Builds a `prepend` (`insert_before`) or `append` command. An invalid regex gives a
/// no-op and a telemetry event naming the error.
pub fn from_insert(state: &mut crate::common::AppState, pattern: &str, content: &str, flags: &str, insert_before: bool) -> (r: crate::Command)
    ensures
        insert_command_spec(r, insert_before, pattern@, content@, flags@, old(state).config.grep_shortcodes),
        ({
            let g = crate::flag_utilities::grep_flags_spec(flags@, commandflags::insert_flags_seq(), old(state).config.grep_shortcodes);
            let p = crate::preformat_spec(pattern@, g.preformat, crate::constants::grep_shortcodes::searchfield_seq());
            let text = insert_text(insert_before, pattern@, content@, flags@);
            match crate::searcher_error(g, p, None) {
                Some(e) => {
                    &&& r matches crate::Command::CNoop(n) && n.text@ == text && n.message@ == e
                    &&& final(state).telemetry.events@.len() == old(state).telemetry.events@.len() + 1
                    &&& final(state).telemetry.events@.drop_last() == old(state).telemetry.events@
                    &&& crate::telemetry::event_view(final(state).telemetry.events@.last()) == (0int, seq![pattern@, text, e])
                },
                None => {
                    &&& r is CInserter
                    &&& r->CInserter_0.inserter.before() == insert_before
                    &&& r->CInserter_0.inserter.keeps_indent() == contains_seq(flags@, commandflags::indent_keep_def().value@)
                    &&& r->CInserter_0.inserter.text() == content@
                    &&& grep_of(r->CInserter_0.qualifier) is Some
                    &&& crate::flag_utilities::qualifier_matches(grep_of(r->CInserter_0.qualifier)->0, g)
                    &&& if g.fixed_string {
                        r->CInserter_0.inserter is Literal && r->CInserter_0.inserter->Literal_pattern@ == crate::commands::search::folded(p, g.case_insensitive)
                    } else {
                        r->CInserter_0.inserter is Regex && r->CInserter_0.inserter->Regex_patre.source() == crate::search_source(g.case_insensitive, p) && !r->CInserter_0.inserter->Regex_patre.insensitive()
                    }
                    &&& final(state).telemetry.events@ == old(state).telemetry.events@
                },
            }
        }),
        final(state).config == old(state).config,
        final(state).plugin_extensions == old(state).plugin_extensions,
        final(state).telemetry.explain_requests == old(state).telemetry.explain_requests,
{
    let flagset = commandflags::insert_flags();
    let codes = crate::constants::grep_shortcodes::searchfield();
    match crate::new_searcher(pattern, None, flags, flagset.as_slice(), codes.as_slice(), &state.config) {
        Ok(seed) => {
            let qualifier = match seed.qualifier {
                Some(q) => q,
                None => {
                    proof {
                        assert(false);
                    }
                    return crate::Command::CInvert(crate::commands::invert::CInvert);
                },
            };
            let indent_keep = crate::text::contains(flags, commandflags::indent_keep().value);
            let inserter = match seed.searcher {
                crate::commands::search::Searcher::RegexSearcher(re) => AppendPrepend::Regex {
                    insert_before,
                    indent_keep,
                    patre: re.patre,
                    content: crate::text::owned(content),
                },
                crate::commands::search::Searcher::ContainsSearcher(contains) => AppendPrepend::Literal {
                    insert_before,
                    indent_keep,
                    pattern: contains.pattern,
                    content: crate::text::owned(content),
                },
                _ => {
                    proof {
                        assert(false);
                    }
                    return crate::Command::CInvert(crate::commands::invert::CInvert);
                },
            };
            crate::Command::CInserter(CInserter { inserter, qualifier: Some(CommandQualifier::GrepQualifier(qualifier)) })
        },
        Err(error_message) => {
            proof {
                reveal_strlit("::");
            }
            let name = if insert_before { command_prefix::PREPEND } else { command_prefix::APPEND };
            let a = crate::text::concat3(name, "::", pattern);
            let b = crate::text::concat3(a.as_str(), "::", content);
            let text = crate::text::concat3(b.as_str(), "::", flags);
            crate::telemetry::append_telemetry(
                &mut state.telemetry,
                crate::telemetry::TelemetryEvent::NoopNotification {
                    payload: crate::text::owned(pattern),
                    received: text.clone(),
                    cause: error_message.clone(),
                },
            );
            crate::Command::CNoop(crate::commands::noop::CNoop { text, message: error_message })
        },
    }
}

} // verus!
