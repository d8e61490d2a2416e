//! Low-level components used by the commands: line state, line conditions and the
//! qualifiers that record what a user asked of a command.
use vstd::prelude::*;

use crate::common::{CheckKey, CheckLineRange};
use crate::constants::FlagDef;
use crate::regexes::CompiledRegex;

verus! {

broadcast use vstd::std_specs::hash::group_hash_axioms;

/// Information attached to a source line.
#[derive(Debug, Clone)]
pub struct MetaInfo {
    /// Marker set by `sk=` and tested by `wk=`.
    pub key: String,
    /// Optional grouping id used by commands.
    pub groupid: i32,
}

/// The state of one source line.
#[derive(Debug, Clone)]
pub struct LineStatus {
    /// Line number.
    pub line_number: usize,
    /// Whether the line is currently visible.
    pub visible: bool,
    /// The current text of the line.
    pub line: String,
    /// Extra metadata associated with the line.
    pub meta: MetaInfo,
}

/// The mathematical value of a `LineStatus`.
pub struct LineView {
    pub line_number: usize,
    pub visible: bool,
    pub line: Seq<char>,
    pub key: Seq<char>,
    pub groupid: i32,
}

impl View for LineStatus {
    type V = LineView;

    open spec fn view(&self) -> LineView {
        LineView {
            line_number: self.line_number,
            visible: self.visible,
            line: self.line@,
            key: self.meta.key@,
            groupid: self.meta.groupid,
        }
    }
}

/// The values of a sequence of lines.
pub open spec fn lines_view(lines: Seq<LineStatus>) -> Seq<LineView> {
    lines.map_values(|l: LineStatus| l@)
}

impl Default for MetaInfo {
    fn default() -> (r: Self)
        ensures
            r.key@ == Seq::<char>::empty(),
            r.groupid == 0,
    {
        MetaInfo { key: String::new(), groupid: 0 }
    }
}

impl Default for LineStatus {
    fn default() -> (r: Self)
        ensures
            r.line_number == 0,
            !r.visible,
            r.line@ == Seq::<char>::empty(),
            r.meta.key@ == Seq::<char>::empty(),
            r.meta.groupid == 0,
    {
        LineStatus { line_number: 0, visible: false, line: String::new(), meta: MetaInfo::default() }
    }
}

impl MetaInfo {
    /// A copy of this metadata.
    pub fn duplicate(&self) -> (r: MetaInfo)
        ensures
            r.key@ == self.key@,
            r.groupid == self.groupid,
    {
        MetaInfo { key: self.key.clone(), groupid: self.groupid }
    }
}

impl LineStatus {
    /// A copy of this line.
    pub fn duplicate(&self) -> (r: LineStatus)
        ensures
            r@ == self@,
    {
        LineStatus {
            line_number: self.line_number,
            visible: self.visible,
            line: self.line.clone(),
            meta: self.meta.duplicate(),
        }
    }
}

/// Checks whether a source line satisfies a condition.
pub trait CheckCondition {
    /// Returns true when the condition holds for the line.
    fn check(&self, line: &LineStatus) -> bool;
}

/// One condition that a command can put on the lines it acts on.
#[derive(Debug)]
pub enum Condition {
    /// The line's number lies in a range (`wl=`).
    LineRange(CheckLineRange),
    /// The line carries a key (`wk=`).
    Key(CheckKey),
}

/// Whether condition `c` holds for the line `l`.
pub open spec fn condition_holds(c: Condition, l: LineView) -> bool {
    match c {
        Condition::LineRange(r) => r.holds(l),
        Condition::Key(k) => l.key == k.required_key@,
    }
}

/// Whether all conditions hold for the line `l`.
pub open spec fn conditions_hold(cs: Seq<Condition>, l: LineView) -> bool {
    forall|i: int| 0 <= i < cs.len() ==> condition_holds(#[trigger] cs[i], l)
}

impl CheckCondition for Condition {
    fn check(&self, line: &LineStatus) -> (b: bool)
        ensures
            b == condition_holds(*self, line@),
    {
        match self {
            Condition::LineRange(r) => r.check(line),
            Condition::Key(k) => k.check(line),
        }
    }
}

/// A combination of conditions, all of which must hold.
#[derive(Debug)]
pub struct CheckConditions {
    /// Registered conditions evaluated for each line.
    pub conds: Vec<Condition>,
}

/// Compile-time facts about a command: the flags it supports, its name and whether it
/// can change the text of lines.
#[derive(Debug)]
pub struct CommandDefinition {
    /// Flags accepted by the command.
    pub flags: Vec<FlagDef>,
    /// Canonical command name.
    pub name: &'static str,
    /// True when the command can change line text.
    pub mutates_line_text: bool,
}

impl Default for CommandDefinition {
    fn default() -> (r: Self)
        ensures
            r.flags@.len() == 0,
            r.name@ == Seq::<char>::empty(),
            !r.mutates_line_text,
    {
        proof {
            reveal_strlit("");
        }
        CommandDefinition { flags: Vec::new(), name: "", mutates_line_text: false }
    }
}

impl Default for CheckConditions {
    fn default() -> (r: Self)
        ensures
            r.conds@.len() == 0,
    {
        Self::new()
    }
}

impl CheckConditions {
    /// Creates an empty condition set.
    pub fn new() -> (r: CheckConditions)
        ensures
            r.conds@.len() == 0,
    {
        CheckConditions { conds: Vec::new() }
    }

    /// Adds one condition to the condition set.
    pub fn add_condition(&mut self, checker: Condition)
        ensures
            final(self).conds@ == old(self).conds@.push(checker),
    {
        self.conds.push(checker);
    }

    /// Do all conditions hold for this line?
    pub fn check(&self, line: &LineStatus) -> (b: bool)
        ensures
            b == conditions_hold(self.conds@, line@),
    {
        let mut i: usize = 0;
        while i < self.conds.len()
            invariant
                i <= self.conds.len(),
                forall|j: int| 0 <= j < i ==> condition_holds(#[trigger] self.conds@[j], line@),
            decreases self.conds.len() - i,
        {
            if !self.conds[i].check(line) {
                return false;
            }
            i = i + 1;
        }
        true
    }
}

/// What the user asked of a search-type command.
#[derive(Debug)]
pub struct GrepCommandQualifier {
    /// Number of lines to include after a match.
    pub after: i32,
    /// Number of lines to include before a match.
    pub before: i32,
    /// Whether to apply grep shortcode expansion.
    pub preformat: bool,
    /// Whether to treat the pattern as fixed text.
    pub fixed_string: bool,
    /// Regex flags passed to regex compilation.
    pub regex_flags: Option<String>,
    /// If `Some(key)`, set `meta.key` on every line that matches the search pattern.
    pub set_key: Option<String>,
    /// Whether to display owner information.
    pub showowner: bool,
    /// Whether the command requires user confirmation.
    pub user_confirmation: bool,
    /// What of the flags was not understood; `explain` shows it.
    pub unrecognized: String,
    /// Extra where-conditions applied after searching.
    pub conditions_checker: CheckConditions,
}

/// A constraint on the parents of declarations: `d::--tests/::` matches no item whose
/// parent matches `tests`.
#[derive(Debug)]
#[allow(inconsistent_fields)]
pub enum DeclarationsParentMatcher {
    /// Fixed-string parent matching rules.
    Fixed {
        /// Parent tokens of which one must occur.
        positive: Vec<String>,
        /// Parent tokens of which none may occur.
        negative: Vec<String>,
        /// Whether matching ignores case.
        case_insensitive: bool,
    },
    /// Regex parent matching rules.
    Regex {
        /// Regex that must match.
        positive: CompiledRegex,
        /// Optional regex that must not match.
        negative: Option<CompiledRegex>,
        /// Whether matching ignores case.
        case_insensitive: bool,
    },
}

/// What the user asked of a `declarations` command.
#[derive(Debug)]
pub struct DeclarationsCommandQualifier {
    /// Shared search qualifier options.
    pub searchqualifier: GrepCommandQualifier,
    /// File extension used for grammar lookup.
    pub extension: String,
    /// Whether declaration docs should be shown.
    pub showdoc: bool,
    /// Whether declaration bodies should be shown.
    pub showbody: bool,
    /// What of the flags was not understood; `explain` shows it.
    pub unrecognized: String,
    /// Optional parent filters from the command.
    pub parents: Option<Vec<String>>,
    /// Compiled parent matchers, one per parent filter.
    pub parent_matchers: Option<Vec<DeclarationsParentMatcher>>,
    /// Optional declaration type filter.
    pub where_type: Option<String>,
}

} // verus!
