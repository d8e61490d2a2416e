//! Composable line-oriented search and edit commands over source files.
//!
//! A command is a text such as `m::pattern::flags`: its fields are separated by `::`
//! (write `~::` for a literal `::`). Each command receives the lines of a file, each with
//! a visibility flag, and returns them with visibility or text changed.
use vstd::prelude::*;

pub mod base;
pub mod commands;
pub mod common;
pub mod config_utilities;
pub mod constants;
pub mod flag_utilities;
pub mod formatters;
pub mod hashtree;
pub mod help_tables;
pub mod language_api;
pub mod languages;
pub mod laws;
pub mod loader_for_constants;
pub mod pipeline;
pub mod regexes;
pub mod syntax;
pub mod telemetry;
pub mod text;
pub mod treesitterparser;
pub mod user_messages;
pub mod utilities;

pub use crate::commands::all::CAll;
pub use crate::commands::and::CAnd;
pub use crate::commands::appendprepend::CInserter;
pub use crate::commands::change::{CChange, ChangeReplacer};
pub use crate::commands::declarations::CDeclarations;
pub use crate::commands::delete::CDelete;
pub use crate::commands::explain::CExplain;
pub use crate::commands::imports::CImports;
pub use crate::commands::invert::CInvert;
pub use crate::commands::less::CLess;
pub use crate::commands::lines::CLines;
pub use crate::commands::macros::CMacro;
pub use crate::commands::more::CMore;
pub use crate::commands::noop::CNoop;
pub use crate::commands::search::{Search, Searcher};

use std::collections::HashMap;

use crate::commands::search::CommandVariant as V;
use crate::constants::command_prefix as cp;

use crate::base::{lines_view, CommandDefinition, GrepCommandQualifier, LineStatus, LineView};
use crate::common::CommandQualifier;
use crate::language_api::Parsed;
use crate::commands::search::{
    folded, ContainsKeepSkip, ContainsSearcher, RegexKeepSkip, RegexSearcher,
};
use crate::common::{AppConfig, AppState, SearchSeed};
use crate::constants::FlagDef;
use crate::constants::grep_shortcodes::GrepShortCodeDef;
use crate::flag_utilities::{grep_flags_spec, qualifier_matches, GrepFlags};
use crate::regexes::{compile_regex, regex_build_error};
use crate::text::{ascii_lower_seq, contains_seq, replace_all_seq};

verus! {

/// `s` with every `macrocode` of `codes` replaced by its `expansion`, the codes applied in
/// order.
pub open spec fn expand_codes(s: Seq<char>, codes: Seq<GrepShortCodeDef>) -> Seq<char>
    decreases codes.len(),
{
    if codes.len() == 0 {
        s
    } else {
        replace_all_seq(expand_codes(s, codes.drop_last()), codes.last().macrocode@, codes.last().expansion@)
    }
}

/// What `preformat` gives: the shortcodes expanded when the qualifier asks for it.
pub open spec fn preformat_spec(arg: Seq<char>, expand: bool, codes: Seq<GrepShortCodeDef>) -> Seq<char> {
    if expand {
        expand_codes(arg, codes)
    } else {
        arg
    }
}

/// Expands the grep shortcodes in a pattern when the qualifier asks for it.
pub fn preformat(arg0: &str, qualifier: &GrepCommandQualifier, grep_shortcodes: &[GrepShortCodeDef]) -> (r:
    String)
    ensures
        r@ == preformat_spec(arg0@, qualifier.preformat, grep_shortcodes@),
{
    if qualifier.preformat {
        let mut result = crate::text::owned(arg0);
        let mut i: usize = 0;
        while i < grep_shortcodes.len()
            invariant
                i <= grep_shortcodes@.len(),
                result@ == expand_codes(arg0@, grep_shortcodes@.take(i as int)),
            decreases grep_shortcodes.len() - i,
        {
            let code = grep_shortcodes[i];
            assert(grep_shortcodes@.take(i + 1).drop_last() =~= grep_shortcodes@.take(i as int));
            result = crate::text::replace(result.as_str(), code.macrocode, code.expansion);
            i = i + 1;
        }
        assert(grep_shortcodes@.take(grep_shortcodes@.len() as int) =~= grep_shortcodes@);
        result
    } else {
        crate::text::owned(arg0)
    }
}

/// The fields of a command text still to be split, given the field being read and the
/// fields done: `~::` adds `::` to the field, `::` ends it, anything else is added.
pub open spec fn fields_from(s: Seq<char>, current: Seq<char>, done: Seq<Seq<char>>) -> Seq<Seq<char>>
    decreases s.len(),
{
    if s.len() == 0 {
        done.push(current)
    } else if s.len() >= 3 && s[0] == '~' && s[1] == ':' && s[2] == ':' {
        fields_from(s.skip(3), current + seq![':', ':'], done)
    } else if s.len() >= 2 && s[0] == ':' && s[1] == ':' {
        fields_from(s.skip(2), Seq::empty(), done.push(current))
    } else {
        fields_from(s.drop_first(), current.push(s[0]), done)
    }
}

/// The fields of a command text: `m::foobar` gives `m` and `foobar`.
pub open spec fn split_fields_spec(s: Seq<char>) -> Seq<Seq<char>> {
    fields_from(s, Seq::empty(), Seq::empty())
}

/// Splits a command text into its fields at `::`; `~::` stands for a literal `::` in a
/// field.
pub fn split_command_fields(arg: &str) -> (r: Vec<String>)
    ensures
        r@.map_values(|x: String| x@) == split_fields_spec(arg@),
{
    let cs = crate::text::chars_of(arg);
    let mut segments: Vec<String> = Vec::new();
    let mut current: Vec<char> = Vec::new();
    let mut index: usize = 0;
    let n = cs.len();
    assert(cs@.skip(0) =~= cs@);
    assert(segments@.map_values(|x: String| x@) =~= Seq::<Seq<char>>::empty());
    while index < n
        invariant
            n == cs@.len(),
            index <= n,
            cs@ == arg@,
            fields_from(cs@.skip(index as int), current@, segments@.map_values(|x: String| x@))
                == split_fields_spec(arg@),
        decreases n - index,
    {
        let ghost rest = cs@.skip(index as int);
        let ghost done = segments@.map_values(|x: String| x@);
        if n - index >= 3 && cs[index] == '~' && cs[index + 1] == ':' && cs[index + 2] == ':' {
            assert(rest.skip(3) =~= cs@.skip(index + 3));
            let ghost old_cur = current@;
            current.push(':');
            current.push(':');
            assert(current@ =~= old_cur + seq![':', ':']);
            index = index + 3;
        } else if n - index >= 2 && cs[index] == ':' && cs[index + 1] == ':' {
            assert(rest.skip(2) =~= cs@.skip(index + 2));
            let piece = crate::text::string_from_chars(current.as_slice());
            segments.push(piece);
            assert(segments@.map_values(|x: String| x@) =~= done.push(piece@));
            current = Vec::new();
            assert(current@ =~= Seq::<char>::empty());
            index = index + 2;
        } else {
            assert(rest.drop_first() =~= cs@.skip(index + 1));
            current.push(cs[index]);
            index = index + 1;
        }
    }
    assert(cs@.skip(n as int) =~= Seq::<char>::empty());
    let ghost done = segments@.map_values(|x: String| x@);
    let piece = crate::text::string_from_chars(current.as_slice());
    segments.push(piece);
    assert(segments@.map_values(|x: String| x@) =~= done.push(piece@));
    segments
}

/// The regex source for a pattern: prefixed with `(?i)` when case is ignored.
pub open spec fn search_source(case_insensitive: bool, value: Seq<char>) -> Seq<char> {
    if case_insensitive {
        seq!['(', '?', 'i', ')'] + value
    } else {
        value
    }
}

/// The view of an optional string slice.
pub open spec fn opt_str_view(o: Option<&str>) -> Option<Seq<char>> {
    match o {
        Some(s) => Some(s@),
        None => None,
    }
}

/// The skip pattern after shortcode expansion.
pub open spec fn preformat_opt(o: Option<Seq<char>>, expand: bool, codes: Seq<GrepShortCodeDef>) -> Option<
    Seq<char>,
> {
    match o {
        Some(s) => Some(preformat_spec(s, expand, codes)),
        None => None,
    }
}

/// Why a searcher cannot be built: the message of the first regex (keep, then skip) that
/// does not compile. A fixed-string search always builds.
pub open spec fn searcher_error(g: GrepFlags, pattern: Seq<char>, skip: Option<Seq<char>>) -> Option<Seq<char>> {
    if g.fixed_string {
        None
    } else {
        let keep_err = regex_build_error(search_source(g.case_insensitive, pattern), false);
        match skip {
            Some(s) => if keep_err is Some {
                keep_err
            } else {
                regex_build_error(search_source(g.case_insensitive, s), false)
            },
            None => keep_err,
        }
    }
}

/// The searcher that the flags `g` ask for on `pattern` (and `skip`): a substring
/// searcher for a fixed string, else a regex searcher; a keep/skip one when there is a
/// skip pattern.
pub open spec fn searcher_built(s: Searcher, g: GrepFlags, pattern: Seq<char>, skip: Option<Seq<char>>) -> bool {
    let ci = g.case_insensitive;
    if g.fixed_string {
        match skip {
            Some(k) => s matches Searcher::ContainsKeepSkip(c) && c.keep@ == folded(pattern, ci) && c.skip@
                == (if ci {
                ascii_lower_seq(k)
            } else {
                k
            }) && c.insensitive == ci,
            None => s matches Searcher::ContainsSearcher(c) && c.pattern@ == folded(pattern, ci)
                && c.insensitive == ci,
        }
    } else {
        match skip {
            Some(k) => s matches Searcher::RegexKeepSkip(r) && r.rekeep.source() == search_source(ci, pattern)
                && !r.rekeep.insensitive() && r.reskip.source() == search_source(ci, k)
                && !r.reskip.insensitive(),
            None => s matches Searcher::RegexSearcher(r) && r.patre.source() == search_source(ci, pattern)
                && !r.patre.insensitive(),
        }
    }
}

/// What `new_searcher` gives on its arguments.
pub open spec fn new_searcher_spec(
    r: Result<SearchSeed, String>,
    arg0: Seq<char>,
    skip: Option<Seq<char>>,
    flags: Seq<char>,
    allowed: Seq<FlagDef>,
    codes: Seq<GrepShortCodeDef>,
    config_shortcodes: bool,
) -> bool {
    let g = grep_flags_spec(flags, allowed, config_shortcodes);
    let p = preformat_spec(arg0, g.preformat, codes);
    let k = preformat_opt(skip, g.preformat, codes);
    match r {
        Ok(seed) => {
            &&& searcher_error(g, p, k) is None
            &&& searcher_built(seed.searcher, g, p, k)
            &&& seed.qualifier matches Some(q) && qualifier_matches(q, g)
            &&& seed.unused@ == g.unrecognized
        },
        Err(e) => searcher_error(g, p, k) == Some(e@),
    }
}

fn regex_source(case_insensitive: bool, value: String) -> (r: String)
    ensures
        r@ == search_source(case_insensitive, value@),
{
    if case_insensitive {
        proof {
            reveal_strlit("(?i)");
            assert("(?i)"@ =~= seq!['(', '?', 'i', ')']);
        }
        crate::text::concat2("(?i)", value.as_str())
    } else {
        value
    }
}

/// Builds the searcher for a command's pattern (and skip pattern), reading its flags
/// with `allowed_flags` and expanding `grep_shortcodes` when asked to. Fails with the
/// regex error's message when a pattern is not a valid regex.
pub fn new_searcher(
    arg0: &str,
    skip_pattern: Option<&str>,
    flags: &str,
    allowed_flags: &[FlagDef],
    grep_shortcodes: &[GrepShortCodeDef],
    config: &AppConfig,
) -> (r: Result<SearchSeed, String>)
    ensures
        new_searcher_spec(
            r,
            arg0@,
            opt_str_view(skip_pattern),
            flags@,
            allowed_flags@,
            grep_shortcodes@,
            config.grep_shortcodes,
        ),
{
    let ghost g = grep_flags_spec(flags@, allowed_flags@, config.grep_shortcodes);
    let (qualifier, unconsumed) = GrepCommandQualifier::build_with_flags(flags, allowed_flags, config);
    let pattern = preformat(arg0, &qualifier, grep_shortcodes);
    let skip_pattern: Option<String> = match skip_pattern {
        Some(value) => Some(preformat(value, &qualifier, grep_shortcodes)),
        None => None,
    };
    let ci = match &qualifier.regex_flags {
        Some(regex_flags) => crate::text::contains(regex_flags.as_str(), crate::constants::commandflags::case_insensitive().value),
        None => false,
    };
    proof {
        reveal_strlit("i");
        if qualifier.regex_flags is Some {
            assert(qualifier.regex_flags->0@ =~= seq!['i']);
            assert(seq!['i'].subrange(0, 1) =~= seq!['i']);
            assert(crate::text::matches_at(seq!['i'], seq!['i'], 0));
            assert(crate::constants::commandflags::case_insensitive_def().value@ =~= seq!['i']);
        }
    }
    assert(ci == g.case_insensitive);
    let searcher = if qualifier.fixed_string {
        match skip_pattern {
            Some(skip) => Searcher::ContainsKeepSkip(ContainsKeepSkip::new(pattern, skip, ci)),
            None => Searcher::ContainsSearcher(ContainsSearcher::new(pattern, ci)),
        }
    } else {
        match skip_pattern {
            Some(skip) => {
                let rekeep = match compile_regex(regex_source(ci, pattern).as_str(), false) {
                    Ok(re) => re,
                    Err(e) => {
                        return Err(e);
                    },
                };
                let reskip = match compile_regex(regex_source(ci, skip).as_str(), false) {
                    Ok(re) => re,
                    Err(e) => {
                        return Err(e);
                    },
                };
                Searcher::RegexKeepSkip(RegexKeepSkip { rekeep, reskip })
            },
            None => {
                let patre = match compile_regex(regex_source(ci, pattern).as_str(), false) {
                    Ok(re) => re,
                    Err(e) => {
                        return Err(e);
                    },
                };
                Searcher::RegexSearcher(RegexSearcher { patre })
            },
        }
    };
    Ok(SearchSeed { searcher, qualifier: Some(qualifier), unused: unconsumed })
}

/// A command, ready to run.
#[derive(Debug)]
pub enum Command {
    /// Shows lines by number.
    CLines(CLines),
    /// Keeps visible the visible lines that match.
    CAnd(CAnd),
    /// Makes matching lines visible.
    CMore(CMore),
    /// Shows matching declarations.
    CDeclarations(CDeclarations),
    /// Shows matching imports.
    CImports(CImports),
    /// Hides matching lines.
    CLess(CLess),
    /// Shows exactly the matching lines.
    CAll(CAll),
    /// Replaces text in visible lines.
    CChange(CChange),
    /// Deletes visible matching lines.
    CDelete(CDelete),
    /// Inserts a line before or after visible matching lines.
    CInserter(CInserter),
    /// Flips visibility.
    CInvert(CInvert),
    /// Asks for an account of the commands.
    CExplain(CExplain),
    /// A command that was not understood.
    CNoop(CNoop),
    /// Where commands were loaded from a file.
    CMacro(CMacro),
}

/// What every command does: it receives the lines of a file (with their visibility) and
/// the hashtree of the file, and returns the lines with visibility, keys or text changed.
pub trait CommandActions {
    /// Compile-time facts about the command.
    fn get_constant_definition(&self) -> CommandDefinition;

    /// Runs the command on the lines.
    fn apply(&self, lines: Vec<LineStatus>, hashtree: &HashMap<usize, Parsed>) -> Vec<LineStatus>;
}

impl Command {
    /// The qualifier of the command: what the user asked of it, when it has one.
    pub fn qualifier(&self) -> (r: Option<&CommandQualifier>)
        ensures
            match r {
                Some(q) => command_qualifier(*self) == Some(*q),
                None => command_qualifier(*self) is None,
            },
    {
        match self {
            Command::CAnd(c) => Some(&c.qualifier),
            Command::CMore(c) => Some(&c.qualifier),
            Command::CDeclarations(_) => None,
            Command::CImports(c) => Some(&c.qualifier),
            Command::CLess(c) => Some(&c.qualifier),
            Command::CAll(c) => Some(&c.qualifier),
            Command::CChange(c) => match &c.qualifier {
                Some(q) => Some(q),
                None => None,
            },
            Command::CDelete(c) => Some(&c.qualifier),
            Command::CInserter(c) => match &c.qualifier {
                Some(q) => Some(q),
                None => None,
            },
            Command::CInvert(_) => None,
            Command::CExplain(_) => None,
            Command::CNoop(_) => None,
            Command::CLines(_) => None,
            Command::CMacro(_) => None,
        }
    }

    /// Whether the command can change the text of lines (not only their visibility and
    /// keys).
    pub fn mutates_line_text(&self) -> (b: bool)
        ensures
            b == (self is CChange || self is CDelete || self is CInserter),
    {
        self.get_constant_definition().mutates_line_text
    }
}

/// The qualifier of a command, when it has one.
pub open spec fn command_qualifier(c: Command) -> Option<CommandQualifier> {
    match c {
        Command::CAnd(x) => Some(x.qualifier),
        Command::CMore(x) => Some(x.qualifier),
        Command::CImports(x) => Some(x.qualifier),
        Command::CLess(x) => Some(x.qualifier),
        Command::CAll(x) => Some(x.qualifier),
        Command::CChange(x) => x.qualifier,
        Command::CDelete(x) => Some(x.qualifier),
        Command::CInserter(x) => x.qualifier,
        _ => None,
    }
}

/// What running a command on the lines gives.
pub open spec fn command_applied(c: Command, lines: Seq<LineStatus>, h: Map<usize, Parsed>, out: Seq<LineStatus>) -> bool {
    match c {
        Command::CLines(x) => lines_view(out) == lines_view(lines).map_values(
            |l: LineView| crate::commands::lines::lines_view_after(x.condition, x.qualifier, l),
        ),
        Command::CAnd(x) => x.applied(lines, h, out),
        Command::CMore(x) => x.applied(lines, h, out),
        Command::CDeclarations(x) => x.applied(lines, h, out),
        Command::CImports(x) => x.applied(lines, h, out),
        Command::CLess(x) => x.applied(lines, h, out),
        Command::CAll(x) => x.applied(lines, h, out),
        Command::CChange(x) => lines_view(out) == crate::commands::change::changed(
            x.replacer,
            crate::commands::change::grep_of(x.qualifier),
            lines_view(lines),
            Seq::empty(),
        ),
        Command::CDelete(x) => x.applied(lines, Seq::empty(), out),
        Command::CInserter(x) => lines_view(out) == crate::commands::appendprepend::inserted(
            x.inserter,
            crate::commands::change::grep_of(x.qualifier),
            lines_view(lines),
            Seq::empty(),
        ),
        Command::CInvert(_) => lines_view(out) == lines_view(lines).map_values(
            |l: LineView| crate::commands::invert::flipped(l),
        ),
        Command::CExplain(_) => out == lines,
        Command::CNoop(_) => out == lines,
        Command::CMacro(_) => out == lines,
    }
}

impl CommandActions for Command {
    fn get_constant_definition(&self) -> (r: CommandDefinition)
        ensures
            r.mutates_line_text == (self is CChange || self is CDelete || self is CInserter),
    {
        match self {
            Command::CLines(c) => c.get_constant_definition(),
            Command::CAnd(c) => c.get_constant_definition(),
            Command::CMore(c) => c.get_constant_definition(),
            Command::CDeclarations(c) => c.get_constant_definition(),
            Command::CImports(c) => c.get_constant_definition(),
            Command::CLess(c) => c.get_constant_definition(),
            Command::CAll(c) => c.get_constant_definition(),
            Command::CChange(c) => c.get_constant_definition(),
            Command::CDelete(c) => c.get_constant_definition(),
            Command::CInserter(c) => c.get_constant_definition(),
            Command::CInvert(c) => c.get_constant_definition(),
            Command::CExplain(c) => c.get_constant_definition(),
            Command::CNoop(c) => c.get_constant_definition(),
            Command::CMacro(c) => c.get_constant_definition(),
        }
    }

    fn apply(&self, lines: Vec<LineStatus>, hashtree: &HashMap<usize, Parsed>) -> (r: Vec<LineStatus>)
        ensures
            command_applied(*self, lines@, hashtree@, r@),
    {
        match self {
            Command::CLines(c) => c.apply(lines, hashtree),
            Command::CAnd(c) => c.apply(lines, hashtree),
            Command::CMore(c) => c.apply(lines, hashtree),
            Command::CDeclarations(c) => c.apply(lines, hashtree),
            Command::CImports(c) => c.apply(lines, hashtree),
            Command::CLess(c) => c.apply(lines, hashtree),
            Command::CAll(c) => c.apply(lines, hashtree),
            Command::CChange(c) => c.apply(lines, hashtree),
            Command::CDelete(c) => c.apply(lines, hashtree),
            Command::CInserter(c) => c.apply(lines, hashtree),
            Command::CInvert(c) => c.apply(lines, hashtree),
            Command::CExplain(c) => c.apply(lines, hashtree),
            Command::CNoop(c) => c.apply(lines, hashtree),
            Command::CMacro(c) => c.apply(lines, hashtree),
        }
    }
}

/// Whether running `c` asks the user to confirm each line it would change.
pub open spec fn asks_confirmation(c: Command) -> bool {
    match c {
        Command::CChange(x) => crate::commands::change::confirms(crate::commands::change::grep_of(x.qualifier)),
        Command::CDelete(x) => match x.qualifier {
            CommandQualifier::GrepQualifier(q) => q.user_confirmation,
            CommandQualifier::DeclareQualifier(_) => false,
        },
        Command::CInserter(x) => crate::commands::change::confirms(crate::commands::change::grep_of(x.qualifier)),
        _ => false,
    }
}

/// The questions that running `c` on `lines` asks, in order: none unless it asks for
/// confirmation.
pub open spec fn command_prompts(c: Command, lines: Seq<LineStatus>) -> Seq<Seq<char>> {
    if !asks_confirmation(c) {
        Seq::empty()
    } else {
        match c {
            Command::CChange(x) => crate::commands::change::change_prompts(
                x.replacer,
                crate::commands::change::grep_of(x.qualifier),
                lines_view(lines),
            ),
            Command::CDelete(x) => match x.qualifier {
                CommandQualifier::GrepQualifier(q) => crate::commands::delete::candidates(
                    x.searcher,
                    q,
                    lines_view(lines),
                ).map_values(|t: Seq<char>| "delete "@ + t),
                CommandQualifier::DeclareQualifier(_) => Seq::empty(),
            },
            Command::CInserter(x) => crate::commands::appendprepend::insert_prompts(
                x.inserter,
                crate::commands::change::grep_of(x.qualifier),
                lines_view(lines),
            ),
            _ => Seq::empty(),
        }
    }
}

/// What running `c` on the lines gives when the k-th confirmation question is answered
/// `answers[k]` (no answer counts as "no"); a command that asks nothing ignores them.
pub open spec fn command_applied_with(c: Command, lines: Seq<LineStatus>, h: Map<usize, Parsed>, answers: Seq<bool>, out: Seq<LineStatus>) -> bool {
    match c {
        Command::CChange(x) => lines_view(out) == crate::commands::change::changed(
            x.replacer,
            crate::commands::change::grep_of(x.qualifier),
            lines_view(lines),
            answers,
        ),
        Command::CDelete(x) => x.applied(lines, answers, out),
        Command::CInserter(x) => lines_view(out) == crate::commands::appendprepend::inserted(
            x.inserter,
            crate::commands::change::grep_of(x.qualifier),
            lines_view(lines),
            answers,
        ),
        _ => command_applied(c, lines, h, out),
    }
}

impl Command {
    /// The questions that running the command on `lines` asks, in order (none unless it
    /// asks for confirmation).
    pub fn confirmation_prompts(&self, lines: &Vec<LineStatus>) -> (r: Vec<String>)
        ensures
            r@.map_values(|s: String| s@) == command_prompts(*self, lines@),
    {
        match self {
            Command::CChange(c) => {
                let confirm = match &c.qualifier {
                    Some(CommandQualifier::GrepQualifier(g)) => g.user_confirmation,
                    _ => false,
                };
                if confirm {
                    c.confirmation_prompts(lines)
                } else {
                    let r: Vec<String> = Vec::new();
                    assert(r@.map_values(|s: String| s@) =~= Seq::<Seq<char>>::empty());
                    r
                }
            },
            Command::CDelete(c) => {
                let confirm = match &c.qualifier {
                    CommandQualifier::GrepQualifier(g) => g.user_confirmation,
                    CommandQualifier::DeclareQualifier(_) => false,
                };
                if confirm {
                    c.confirmation_prompts(lines)
                } else {
                    let r: Vec<String> = Vec::new();
                    assert(r@.map_values(|s: String| s@) =~= Seq::<Seq<char>>::empty());
                    r
                }
            },
            Command::CInserter(c) => {
                let confirm = match &c.qualifier {
                    Some(CommandQualifier::GrepQualifier(g)) => g.user_confirmation,
                    _ => false,
                };
                if confirm {
                    c.confirmation_prompts(lines)
                } else {
                    let r: Vec<String> = Vec::new();
                    assert(r@.map_values(|s: String| s@) =~= Seq::<Seq<char>>::empty());
                    r
                }
            },
            _ => {
                let r: Vec<String> = Vec::new();
                assert(r@.map_values(|s: String| s@) =~= Seq::<Seq<char>>::empty());
                r
            },
        }
    }

    /// Runs the command on the lines, where the answer to the k-th confirmation question
    /// is `answers[k]` (no answer counts as "no").
    pub fn apply_with_answers(&self, lines: Vec<LineStatus>, hashtree: &HashMap<usize, Parsed>, answers: &[bool]) -> (r: Vec<LineStatus>)
        ensures
            command_applied_with(*self, lines@, hashtree@, answers@, r@),
    {
        match self {
            Command::CChange(c) => c.apply_with_answers(lines, answers),
            Command::CDelete(c) => c.apply_with_answers(lines, answers),
            Command::CInserter(c) => c.apply_with_answers(lines, answers),
            _ => self.apply(lines, hashtree),
        }
    }
}

/// What `unescaper::unescape` gives: the text with its escape sequences (`\\n`, `\\t`,
/// `\\u{..}`...) replaced by the characters they stand for, or the error's message.
pub uninterp spec fn unescape_result(s: Seq<char>) -> Result<Seq<char>, Seq<char>>;

/// `unescaper::unescape`: the outcome is `unescape_result` of the text; a text without a
/// backslash comes back unchanged (the crate copies every other character as it is).
#[verifier::external_body]
fn unescape_text(s: &str) -> (r: Result<String, String>)
    ensures
        match r {
            Ok(v) => unescape_result(s@) == Ok::<Seq<char>, Seq<char>>(v@),
            Err(e) => unescape_result(s@) == Err::<Seq<char>, Seq<char>>(e@),
        },
        !s@.contains('\\') ==> r == Ok::<String, String>(r->Ok_0) && r->Ok_0@ == s@,
{
    match unescaper::unescape(s) {
        Ok(v) => Ok(v),
        Err(e) => Err(e.to_string()),
    }
}

/// The replacer and qualifier of a `change` command.
#[derive(Debug)]
pub struct ChangeSeed {
    /// How lines are rewritten.
    pub replacer: ChangeReplacer,
    /// The qualifier read from the flags.
    pub qualifier: Option<GrepCommandQualifier>,
}

/// The replacement text of a `change`: with its escapes resolved unless `r` is among the
/// flags.
pub open spec fn replacement_spec(replace_with: Seq<char>, flags: Seq<char>) -> Result<Seq<char>, Seq<char>> {
    if contains_seq(flags, crate::constants::commandflags::raw_string_def().value@) {
        Ok(replace_with)
    } else {
        unescape_result(replace_with)
    }
}

/// Why a `change` cannot be built: the escape error, or the regex error.
pub open spec fn replacer_error(pattern_arg: Seq<char>, replace_with: Seq<char>, flags: Seq<char>, config_shortcodes: bool) -> Option<Seq<char>> {
    let g = grep_flags_spec(flags, crate::constants::commandflags::change_flags_seq(), config_shortcodes);
    let pattern = preformat_spec(pattern_arg, g.preformat, crate::constants::grep_shortcodes::searchfield_seq());
    let ci = contains_seq(flags, crate::constants::commandflags::case_insensitive_def().value@);
    match replacement_spec(replace_with, flags) {
        Err(e) => Some(e),
        Ok(_) => if g.fixed_string && !ci {
            None
        } else {
            regex_build_error(if g.fixed_string { crate::regexes::regex_escape_spec(pattern) } else { pattern }, ci)
        },
    }
}

/// The replacer a `change` builds: a fixed-text one for a case-sensitive fixed string,
/// else a regex one (the pattern escaped for a fixed string); every match when `a` is
/// among the flags, else the first; the replacement split at line feeds when it holds one.
pub open spec fn replacer_built(r: ChangeReplacer, pattern_arg: Seq<char>, replace_with: Seq<char>, flags: Seq<char>, config_shortcodes: bool) -> bool {
    let g = grep_flags_spec(flags, crate::constants::commandflags::change_flags_seq(), config_shortcodes);
    let pattern = preformat_spec(pattern_arg, g.preformat, crate::constants::grep_shortcodes::searchfield_seq());
    let ci = contains_seq(flags, crate::constants::commandflags::case_insensitive_def().value@);
    let global = contains_seq(flags, crate::constants::commandflags::change_all_def().value@);
    let rw = replacement_spec(replace_with, flags)->Ok_0;
    let lf = contains_seq(rw, seq!['\n']);
    if g.fixed_string && !ci {
        r matches ChangeReplacer::Literal { pattern: p, replace_with: w, global: gl, linefeed: l } && p@ == pattern
            && w@ == rw && gl == global && l == lf
    } else {
        r matches ChangeReplacer::Regex { patre, replace_with: w, global: gl, linefeed: l } && patre.source()
            == (if g.fixed_string { crate::regexes::regex_escape_spec(pattern) } else { pattern })
            && patre.insensitive() == ci && w@ == rw && gl == global && l == lf
    }
}

/// Builds the replacer of a `change` command; fails with the message of an invalid escape
/// in the replacement or of an invalid regex.
pub fn new_replacer(pattern_arg: &str, replace_with: &str, flags: &str, config: &AppConfig) -> (r: Result<ChangeSeed, String>)
    ensures
        match r {
            Ok(seed) => {
                &&& replacer_error(pattern_arg@, replace_with@, flags@, config.grep_shortcodes) is None
                &&& replacer_built(seed.replacer, pattern_arg@, replace_with@, flags@, config.grep_shortcodes)
                &&& seed.qualifier matches Some(q) && qualifier_matches(q, grep_flags_spec(flags@, crate::constants::commandflags::change_flags_seq(), config.grep_shortcodes))
            },
            Err(e) => replacer_error(pattern_arg@, replace_with@, flags@, config.grep_shortcodes) == Some(e@),
        },
{
    let allowed = crate::constants::commandflags::change_flags();
    let (qualifier, _unconsumed) = GrepCommandQualifier::build_with_flags(flags, allowed.as_slice(), config);
    let codes = crate::constants::grep_shortcodes::searchfield();
    let pattern = preformat(pattern_arg, &qualifier, codes.as_slice());
    let global = crate::text::contains(flags, crate::constants::commandflags::change_all().value);
    let case_insensitive = crate::text::contains(flags, crate::constants::commandflags::case_insensitive().value);
    let replace_with = if !crate::text::contains(flags, crate::constants::commandflags::raw_string().value) {
        match unescape_text(replace_with) {
            Ok(v) => v,
            Err(e) => {
                return Err(e);
            },
        }
    } else {
        crate::text::owned(replace_with)
    };
    proof {
        reveal_strlit("\n");
        assert("\n"@ =~= seq!['\n']);
    }
    let linefeed = crate::text::contains(replace_with.as_str(), "\n");
    let replacer = if qualifier.fixed_string && !case_insensitive {
        ChangeReplacer::Literal { pattern, replace_with, global, linefeed }
    } else {
        let regex_pattern = if qualifier.fixed_string {
            crate::regexes::escape(pattern.as_str())
        } else {
            pattern
        };
        match compile_regex(regex_pattern.as_str(), case_insensitive) {
            Ok(patre) => ChangeReplacer::Regex { patre, replace_with, global, linefeed },
            Err(e) => {
                return Err(e);
            },
        }
    };
    Ok(ChangeSeed { replacer, qualifier: Some(qualifier) })
}

/// What a command text asks for, read from its fields.
pub enum CommandForm {
    /// A search-type command: variant, pattern and flags.
    Search(crate::commands::search::CommandVariant, Seq<char>, Seq<char>),
    /// `lines`: payload and flags.
    Lines(Seq<char>, Seq<char>),
    /// `macro`: the file.
    Macro(Seq<char>),
    /// `change`: pattern, replacement and flags.
    Change(Seq<char>, Seq<char>, Seq<char>),
    /// `declarations`: pattern and flags.
    Declarations(Seq<char>, Seq<char>),
    /// `imports`: pattern and flags.
    Imports(Seq<char>, Seq<char>),
    /// `prepend` (true) or `append` (false): pattern, content and flags.
    Insert(bool, Seq<char>, Seq<char>, Seq<char>),
    /// `invert`.
    Invert,
    /// `explain`.
    Explain,
    /// Anything else.
    Unknown,
}

/// The first field is one of the two names.
pub open spec fn named(f: Seq<Seq<char>>, long: &str, short: &str) -> bool {
    f[0] == long@ || f[0] == short@
}

/// How the fields of a command text are read: the first arm that fits wins.
pub open spec fn command_form(f: Seq<Seq<char>>) -> CommandForm {
    let n = f.len();
    if n == 3 && named(f, crate::constants::command_prefix::AND, crate::constants::command_prefix::AND1) {
        CommandForm::Search(crate::commands::search::CommandVariant::CAnd, f[1], f[2])
    } else if n == 2 && named(f, crate::constants::command_prefix::AND, crate::constants::command_prefix::AND1) {
        CommandForm::Search(crate::commands::search::CommandVariant::CAnd, f[1], Seq::empty())
    } else if n == 3 && f[0] == crate::constants::command_prefix::LINES@ {
        CommandForm::Lines(f[1], f[2])
    } else if n == 2 && f[0] == crate::constants::command_prefix::MACROS@ {
        CommandForm::Macro(f[1])
    } else if n == 2 && f[0] == crate::constants::command_prefix::LINES@ {
        CommandForm::Lines(f[1], Seq::empty())
    } else if n == 3 && named(f, crate::constants::command_prefix::MORE, crate::constants::command_prefix::MORE1) {
        CommandForm::Search(crate::commands::search::CommandVariant::CMore, f[1], f[2])
    } else if n == 2 && named(f, crate::constants::command_prefix::MORE, crate::constants::command_prefix::MORE1) {
        CommandForm::Search(crate::commands::search::CommandVariant::CMore, f[1], Seq::empty())
    } else if n == 3 && named(f, crate::constants::command_prefix::LESS, crate::constants::command_prefix::LESS1) {
        CommandForm::Search(crate::commands::search::CommandVariant::CLess, f[1], f[2])
    } else if n == 2 && named(f, crate::constants::command_prefix::LESS, crate::constants::command_prefix::LESS1) {
        CommandForm::Search(crate::commands::search::CommandVariant::CLess, f[1], Seq::empty())
    } else if n == 3 && named(f, crate::constants::command_prefix::DELETE, crate::constants::command_prefix::DELETE1) {
        CommandForm::Search(crate::commands::search::CommandVariant::CDelete, f[1], f[2])
    } else if n == 2 && named(f, crate::constants::command_prefix::DELETE, crate::constants::command_prefix::DELETE1) {
        CommandForm::Search(crate::commands::search::CommandVariant::CDelete, f[1], Seq::empty())
    } else if n == 1 && named(f, crate::constants::command_prefix::DELETE, crate::constants::command_prefix::DELETE1) {
        CommandForm::Search(crate::commands::search::CommandVariant::CDelete, seq!['.'], Seq::empty())
    } else if n == 3 && named(f, crate::constants::command_prefix::ALL, crate::constants::command_prefix::ALL1) {
        CommandForm::Search(crate::commands::search::CommandVariant::CAll, f[1], f[2])
    } else if n == 2 && named(f, crate::constants::command_prefix::ALL, crate::constants::command_prefix::ALL1) {
        CommandForm::Search(crate::commands::search::CommandVariant::CAll, f[1], Seq::empty())
    } else if n == 1 && named(f, crate::constants::command_prefix::ALL, crate::constants::command_prefix::ALL1) {
        CommandForm::Search(crate::commands::search::CommandVariant::CAll, seq!['.'], Seq::empty())
    } else if n == 1 && named(f, crate::constants::command_prefix::OUTPUT, crate::constants::command_prefix::OUTPUT1) {
        CommandForm::Search(crate::commands::search::CommandVariant::CAll, seq!['.'], seq!['N'])
    } else if n == 4 && named(f, crate::constants::command_prefix::CHANGE, crate::constants::command_prefix::CHANGE1) {
        CommandForm::Change(f[1], f[2], f[3])
    } else if n == 3 && named(f, crate::constants::command_prefix::CHANGE, crate::constants::command_prefix::CHANGE1) {
        CommandForm::Change(f[1], f[2], Seq::empty())
    } else if n == 3 && named(f, crate::constants::command_prefix::DECLARATIONS, crate::constants::command_prefix::DECLARATIONS1) {
        CommandForm::Declarations(f[1], f[2])
    } else if n == 2 && named(f, crate::constants::command_prefix::DECLARATIONS, crate::constants::command_prefix::DECLARATIONS1) {
        CommandForm::Declarations(f[1], Seq::empty())
    } else if n == 1 && named(f, crate::constants::command_prefix::DECLARATIONS, crate::constants::command_prefix::DECLARATIONS1) {
        CommandForm::Declarations(Seq::empty(), Seq::empty())
    } else if n == 3 && named(f, crate::constants::command_prefix::IMPORTS, crate::constants::command_prefix::IMPORTS1) {
        CommandForm::Imports(f[1], f[2])
    } else if n == 2 && named(f, crate::constants::command_prefix::IMPORTS, crate::constants::command_prefix::IMPORTS1) {
        CommandForm::Imports(f[1], Seq::empty())
    } else if n == 1 && named(f, crate::constants::command_prefix::IMPORTS, crate::constants::command_prefix::IMPORTS1) {
        CommandForm::Imports(seq!['.'], Seq::empty())
    } else if n == 4 && named(f, crate::constants::command_prefix::PREPEND, crate::constants::command_prefix::PREPEND1) {
        CommandForm::Insert(true, f[1], f[2], f[3])
    } else if n == 3 && named(f, crate::constants::command_prefix::PREPEND, crate::constants::command_prefix::PREPEND1) {
        CommandForm::Insert(true, f[1], f[2], Seq::empty())
    } else if n == 4 && named(f, crate::constants::command_prefix::APPEND, crate::constants::command_prefix::APPEND1) {
        CommandForm::Insert(false, f[1], f[2], f[3])
    } else if n == 3 && named(f, crate::constants::command_prefix::APPEND, crate::constants::command_prefix::APPEND1) {
        CommandForm::Insert(false, f[1], f[2], Seq::empty())
    } else if (n == 1 || (n == 2 && f[1].len() == 0)) && named(f, crate::constants::command_prefix::INVERT, crate::constants::command_prefix::INVERT1) {
        CommandForm::Invert
    } else if (n == 1 || n == 2) && f[0] == crate::constants::command_prefix::EXPLAIN@ {
        CommandForm::Explain
    } else {
        CommandForm::Unknown
    }
}

/// What `make_command` builds for a command text.
pub open spec fn command_spec(r: Command, arg: Seq<char>, config: AppConfig, plugin_extensions: Seq<String>) -> bool {
    let cfg = config.grep_shortcodes;
    match command_form(split_fields_spec(arg)) {
        CommandForm::Search(v, p, fl) => crate::commands::search::search_command_spec(r, v, p, fl, arg, cfg),
        CommandForm::Lines(p, fl) => r matches Command::CLines(c) && (c.condition.until_, c.condition.wanted@, c.condition.from_)
            == crate::utilities::lines_payload_spec(p) && qualifier_matches(
            c.qualifier,
            grep_flags_spec(fl, crate::constants::commandflags::linesflags_seq(), cfg),
        ),
        CommandForm::Macro(_) => r is CMacro,
        CommandForm::Change(p, w, fl) => crate::commands::change::change_command_spec(r, p, w, fl, arg, cfg),
        CommandForm::Declarations(p, fl) => crate::commands::declarations::declarations_command_spec(r, p, fl, arg, config, plugin_extensions),
        CommandForm::Imports(p, fl) => crate::commands::imports::import_command_spec(r, p, fl, arg, cfg),
        CommandForm::Insert(before, p, c, fl) => crate::commands::appendprepend::insert_command_spec(r, before, p, c, fl, cfg),
        CommandForm::Invert => r is CInvert,
        CommandForm::Explain => r is CExplain,
        CommandForm::Unknown => r matches Command::CNoop(n) && n.text@ == arg && n.message@ == "unrecognized command"@,
    }
}

/// The name under which a command's build is reported, if it is reported generically.
pub open spec fn generic_source(c: Command) -> Option<Seq<char>> {
    match c {
        Command::CAnd(_) => Some(crate::constants::command_prefix::AND@),
        Command::CMore(_) => Some(crate::constants::command_prefix::MORE@),
        Command::CImports(_) => Some(crate::constants::command_prefix::IMPORTS@),
        Command::CLess(_) => Some(crate::constants::command_prefix::LESS@),
        Command::CAll(_) => Some(crate::constants::command_prefix::ALL@),
        Command::CChange(_) => Some(crate::constants::command_prefix::CHANGE@),
        Command::CDelete(_) => Some(crate::constants::command_prefix::DELETE@),
        Command::CInserter(x) => Some(if x.inserter.before() {
            crate::constants::command_prefix::PREPEND@
        } else {
            crate::constants::command_prefix::APPEND@
        }),
        Command::CInvert(_) => Some(crate::constants::command_prefix::INVERT@),
        Command::CExplain(_) => Some(crate::constants::command_prefix::EXPLAIN@),
        _ => None,
    }
}

/// The qualifier text reported for a command without a qualifier.
pub open spec fn missing_qualifier_text() -> Seq<char> {
    "❓qualifier???"@
}

/// The event that reports a command's build: for `explain` an explain notification; for
/// the other reported commands their name, the command text, the qualifier and searcher
/// described, and what of the flags was not understood.
pub open spec fn generic_event(c: Command, arg: Seq<char>) -> Option<(int, Seq<Seq<char>>)> {
    match generic_source(c) {
        None => None,
        Some(name) => if c is CExplain {
            Some((1, seq!["explain"@, arg]))
        } else {
            let searcher: Seq<char> = match c {
                Command::CMore(x) => crate::formatters::searcher_text(x.searcher),
                Command::CLess(x) => crate::formatters::searcher_text(x.searcher),
                Command::CAll(x) => crate::formatters::searcher_text(x.searcher),
                Command::CAnd(x) => crate::formatters::searcher_text(x.searcher),
                Command::CImports(x) => crate::formatters::searcher_text(x.searcher),
                _ => Seq::empty(),
            };
            let q: Seq<char> = match command_qualifier(c) {
                Some(CommandQualifier::GrepQualifier(g)) => crate::formatters::qualifier_text(g),
                Some(CommandQualifier::DeclareQualifier(_)) => Seq::empty(),
                None => missing_qualifier_text(),
            };
            let u: Seq<char> = match command_qualifier(c) {
                Some(CommandQualifier::GrepQualifier(g)) => g.unrecognized@,
                _ => Seq::empty(),
            };
            Some((2, seq![name, arg, q, searcher, u]))
        },
    }
}

fn generic_source_name(command: &Command) -> (r: Option<&'static str>)
    ensures
        match r {
            Some(s) => generic_source(*command) == Some(s@),
            None => generic_source(*command) is None,
        },
{
    match command {
        Command::CAnd(_) => Some(crate::constants::command_prefix::AND),
        Command::CMore(_) => Some(crate::constants::command_prefix::MORE),
        Command::CImports(_) => Some(crate::constants::command_prefix::IMPORTS),
        Command::CLess(_) => Some(crate::constants::command_prefix::LESS),
        Command::CAll(_) => Some(crate::constants::command_prefix::ALL),
        Command::CChange(_) => Some(crate::constants::command_prefix::CHANGE),
        Command::CDelete(_) => Some(crate::constants::command_prefix::DELETE),
        Command::CInserter(c) => Some(c.source_prefix()),
        Command::CInvert(_) => Some(crate::constants::command_prefix::INVERT),
        Command::CExplain(_) => Some(crate::constants::command_prefix::EXPLAIN),
        _ => None,
    }
}

/// Reports how a command was built (see `generic_event`).
fn append_generic_command_telemetry(state: &mut AppState, command: &Command, arg: &str)
    ensures
        final(state).config == old(state).config,
        final(state).plugin_extensions == old(state).plugin_extensions,
        final(state).telemetry.explain_requests == old(state).telemetry.explain_requests,
        match generic_event(*command, arg@) {
            Some(ev) => {
                &&& final(state).telemetry.events@.len() == old(state).telemetry.events@.len() + 1
                &&& final(state).telemetry.events@.drop_last() == old(state).telemetry.events@
                &&& crate::telemetry::event_view(final(state).telemetry.events@.last()) == ev
            },
            None => final(state).telemetry.events@ == old(state).telemetry.events@,
        },
{
    let source = match generic_source_name(command) {
        Some(s) => s,
        None => {
            return;
        },
    };
    if let Command::CExplain(_) = command {
        crate::telemetry::append_telemetry(
            &mut state.telemetry,
            crate::telemetry::TelemetryEvent::ExplainNotification {
                source: crate::text::owned("explain"),
                payload: crate::text::owned(arg),
            },
        );
        return;
    }
    let s_searcher = match command {
        Command::CMore(c) => crate::formatters::describe_searcher(&c.searcher),
        Command::CLess(c) => crate::formatters::describe_searcher(&c.searcher),
        Command::CAll(c) => crate::formatters::describe_searcher(&c.searcher),
        Command::CAnd(c) => crate::formatters::describe_searcher(&c.searcher),
        Command::CImports(c) => crate::formatters::describe_searcher(&c.searcher),
        _ => String::new(),
    };
    let qualifier = match command.qualifier() {
        Some(CommandQualifier::GrepQualifier(grep)) => crate::formatters::describe_qualifier(grep),
        Some(CommandQualifier::DeclareQualifier(_)) => String::new(),
        None => crate::text::owned("❓qualifier???"),
    };
    let unrecognized = match command.qualifier() {
        Some(CommandQualifier::GrepQualifier(grep)) => grep.unrecognized.clone(),
        _ => String::new(),
    };
    crate::telemetry::append_telemetry(
        &mut state.telemetry,
        crate::telemetry::TelemetryEvent::GenericCommandNotification {
            name: crate::text::owned(source),
            arg: crate::text::owned(arg),
            qualifier,
            searcher: s_searcher,
            unrecognized,
        },
    );
}


/// The fields of a command text, read as `command_form` reads them.
enum FieldForm {
    Search(crate::commands::search::CommandVariant, String, String),
    Lines(String, String),
    Macro(String),
    Change(String, String, String),
    Declarations(String, String),
    Imports(String, String),
    Insert(bool, String, String, String),
    Invert,
    Explain,
    Unknown,
}

spec fn field_form_view(f: FieldForm) -> CommandForm {
    match f {
        FieldForm::Search(v, p, fl) => CommandForm::Search(v, p@, fl@),
        FieldForm::Lines(p, fl) => CommandForm::Lines(p@, fl@),
        FieldForm::Macro(p) => CommandForm::Macro(p@),
        FieldForm::Change(p, w, fl) => CommandForm::Change(p@, w@, fl@),
        FieldForm::Declarations(p, fl) => CommandForm::Declarations(p@, fl@),
        FieldForm::Imports(p, fl) => CommandForm::Imports(p@, fl@),
        FieldForm::Insert(b, p, c, fl) => CommandForm::Insert(b, p@, c@, fl@),
        FieldForm::Invert => CommandForm::Invert,
        FieldForm::Explain => CommandForm::Explain,
        FieldForm::Unknown => CommandForm::Unknown,
    }
}

fn is_named(first: &str, long: &str, short: &str) -> (r: bool)
    ensures
        r == (first@ == long@ || first@ == short@),
{
    crate::text::str_eq(first, long) || crate::text::str_eq(first, short)
}

fn same_variant(v: crate::commands::search::CommandVariant) -> (r: crate::commands::search::CommandVariant)
    ensures
        r == v,
{
    match v {
        crate::commands::search::CommandVariant::CAll => crate::commands::search::CommandVariant::CAll,
        crate::commands::search::CommandVariant::CMore => crate::commands::search::CommandVariant::CMore,
        crate::commands::search::CommandVariant::CAnd => crate::commands::search::CommandVariant::CAnd,
        crate::commands::search::CommandVariant::CLess => crate::commands::search::CommandVariant::CLess,
        crate::commands::search::CommandVariant::CDelete => crate::commands::search::CommandVariant::CDelete,
    }
}

fn field_at(f: &Vec<String>, i: usize) -> (s: String)
    requires
        i < f.len(),
    ensures
        s@ == f@[i as int]@,
{
    crate::text::owned(f[i].as_str())
}

/// Reads the fields of a command text into what it asks for.
#[verifier::rlimit(60)]
fn read_fields(f: &Vec<String>) -> (r: FieldForm)
    ensures
        field_form_view(r) == command_form(f@.map_values(|x: String| x@)),
{
    let ghost fs = f@.map_values(|x: String| x@);
    let n = f.len();
    assert(fs.len() == n);
    assert(forall|i: int| 0 <= i < n ==> fs[i] == f@[i]@);
    if n == 0 {
        return FieldForm::Unknown;
    }
    let first = f[0].as_str();
    let dot = ".";
    let big_n = "N";
    proof {
        reveal_strlit(".");
        reveal_strlit("N");
        assert(dot@ =~= seq!['.']);
        assert(big_n@ =~= seq!['N']);
    }
    if n == 3 && is_named(first, cp::AND, cp::AND1) {
        FieldForm::Search(V::CAnd, field_at(f, 1), field_at(f, 2))
    } else if n == 2 && is_named(first, cp::AND, cp::AND1) {
        FieldForm::Search(V::CAnd, field_at(f, 1), String::new())
    } else if n == 3 && crate::text::str_eq(first, cp::LINES) {
        FieldForm::Lines(field_at(f, 1), field_at(f, 2))
    } else if n == 2 && crate::text::str_eq(first, cp::MACROS) {
        FieldForm::Macro(field_at(f, 1))
    } else if n == 2 && crate::text::str_eq(first, cp::LINES) {
        FieldForm::Lines(field_at(f, 1), String::new())
    } else if n == 3 && is_named(first, cp::MORE, cp::MORE1) {
        FieldForm::Search(V::CMore, field_at(f, 1), field_at(f, 2))
    } else if n == 2 && is_named(first, cp::MORE, cp::MORE1) {
        FieldForm::Search(V::CMore, field_at(f, 1), String::new())
    } else if n == 3 && is_named(first, cp::LESS, cp::LESS1) {
        FieldForm::Search(V::CLess, field_at(f, 1), field_at(f, 2))
    } else if n == 2 && is_named(first, cp::LESS, cp::LESS1) {
        FieldForm::Search(V::CLess, field_at(f, 1), String::new())
    } else if n == 3 && is_named(first, cp::DELETE, cp::DELETE1) {
        FieldForm::Search(V::CDelete, field_at(f, 1), field_at(f, 2))
    } else if n == 2 && is_named(first, cp::DELETE, cp::DELETE1) {
        FieldForm::Search(V::CDelete, field_at(f, 1), String::new())
    } else if n == 1 && is_named(first, cp::DELETE, cp::DELETE1) {
        FieldForm::Search(V::CDelete, crate::text::owned(dot), String::new())
    } else if n == 3 && is_named(first, cp::ALL, cp::ALL1) {
        FieldForm::Search(V::CAll, field_at(f, 1), field_at(f, 2))
    } else if n == 2 && is_named(first, cp::ALL, cp::ALL1) {
        FieldForm::Search(V::CAll, field_at(f, 1), String::new())
    } else if n == 1 && is_named(first, cp::ALL, cp::ALL1) {
        FieldForm::Search(V::CAll, crate::text::owned(dot), String::new())
    } else if n == 1 && is_named(first, cp::OUTPUT, cp::OUTPUT1) {
        FieldForm::Search(V::CAll, crate::text::owned(dot), crate::text::owned(big_n))
    } else if n == 4 && is_named(first, cp::CHANGE, cp::CHANGE1) {
        FieldForm::Change(field_at(f, 1), field_at(f, 2), field_at(f, 3))
    } else if n == 3 && is_named(first, cp::CHANGE, cp::CHANGE1) {
        FieldForm::Change(field_at(f, 1), field_at(f, 2), String::new())
    } else if n == 3 && is_named(first, cp::DECLARATIONS, cp::DECLARATIONS1) {
        FieldForm::Declarations(field_at(f, 1), field_at(f, 2))
    } else if n == 2 && is_named(first, cp::DECLARATIONS, cp::DECLARATIONS1) {
        FieldForm::Declarations(field_at(f, 1), String::new())
    } else if n == 1 && is_named(first, cp::DECLARATIONS, cp::DECLARATIONS1) {
        FieldForm::Declarations(String::new(), String::new())
    } else if n == 3 && is_named(first, cp::IMPORTS, cp::IMPORTS1) {
        FieldForm::Imports(field_at(f, 1), field_at(f, 2))
    } else if n == 2 && is_named(first, cp::IMPORTS, cp::IMPORTS1) {
        FieldForm::Imports(field_at(f, 1), String::new())
    } else if n == 1 && is_named(first, cp::IMPORTS, cp::IMPORTS1) {
        FieldForm::Imports(crate::text::owned(dot), String::new())
    } else if n == 4 && is_named(first, cp::PREPEND, cp::PREPEND1) {
        FieldForm::Insert(true, field_at(f, 1), field_at(f, 2), field_at(f, 3))
    } else if n == 3 && is_named(first, cp::PREPEND, cp::PREPEND1) {
        FieldForm::Insert(true, field_at(f, 1), field_at(f, 2), String::new())
    } else if n == 4 && is_named(first, cp::APPEND, cp::APPEND1) {
        FieldForm::Insert(false, field_at(f, 1), field_at(f, 2), field_at(f, 3))
    } else if n == 3 && is_named(first, cp::APPEND, cp::APPEND1) {
        FieldForm::Insert(false, field_at(f, 1), field_at(f, 2), String::new())
    } else if (n == 1 || (n == 2 && crate::text::is_empty_text(f[1].as_str()))) && is_named(first, cp::INVERT, cp::INVERT1) {
        FieldForm::Invert
    } else if (n == 1 || n == 2) && crate::text::str_eq(first, cp::EXPLAIN) {
        FieldForm::Explain
    } else {
        FieldForm::Unknown
    }
}


/// The events of `after` start with those of `before`.
pub open spec fn events_extend(before: AppState, after: AppState) -> bool {
    &&& before.telemetry.events@.len() <= after.telemetry.events@.len()
    &&& after.telemetry.events@.subrange(0, before.telemetry.events@.len() as int) == before.telemetry.events@
}

/// The events that building `r` from the text `arg` (read as `form`, with the state
/// `before`) reports, viewed (`event_view`), in order: a no-op with its cause where the
/// build failed; the build's own notice for `lines`, `macro` and `declarations`; the
/// command's description (`generic_event`) for the others.
pub open spec fn build_reported(form: CommandForm, r: Command, arg: Seq<char>, before: AppState, added: Seq<(int, Seq<Seq<char>>)>) -> bool {
    match form {
        CommandForm::Search(_, p, _) => if r is CNoop {
            added == seq![(0int, seq![p, arg, r->CNoop_0.message@])]
        } else {
            generic_event(r, arg) is Some && added == seq![generic_event(r, arg)->0]
        },
        CommandForm::Lines(_, _) => r matches Command::CLines(c) && added == seq![(2int, seq![
            "lines"@,
            arg,
            crate::formatters::qualifier_text(c.qualifier),
            crate::formatters::line_range_text(c.condition),
            c.qualifier.unrecognized@,
        ])],
        CommandForm::Macro(p) => added == seq![(2int, seq!["macro"@, arg, Seq::<char>::empty(), p, Seq::<char>::empty()])],
        CommandForm::Change(p, w, fl) => match replacer_error(p, w, fl, before.config.grep_shortcodes) {
            Some(e) => added == seq![(0int, seq![p, arg, e])],
            None => generic_event(r, arg) is Some && added == seq![generic_event(r, arg)->0],
        },
        CommandForm::Declarations(p, fl) => added.len() == 1 && crate::commands::declarations::declarations_built(
            r,
            p,
            fl,
            arg,
            before.config,
            before.plugin_extensions@,
            added[0],
        ),
        CommandForm::Imports(p, _) => if r is CNoop {
            added == seq![(0int, seq![p, arg, r->CNoop_0.message@])]
        } else {
            generic_event(r, arg) is Some && added == seq![generic_event(r, arg)->0]
        },
        CommandForm::Insert(b, p, c, fl) => if r is CNoop {
            added == seq![(0int, seq![p, crate::commands::appendprepend::insert_text(b, p, c, fl), r->CNoop_0.message@])]
        } else {
            generic_event(r, arg) is Some && added == seq![generic_event(r, arg)->0]
        },
        CommandForm::Invert | CommandForm::Explain => generic_event(r, arg) is Some && added == seq![generic_event(r, arg)->0],
        CommandForm::Unknown => added == seq![(0int, seq![arg, arg, "not understood"@])],
    }
}

/// The events after the first `n`, viewed.
pub open spec fn events_after(events: Seq<crate::telemetry::TelemetryEvent>, n: int) -> Seq<(int, Seq<Seq<char>>)> {
    events.subrange(n, events.len() as int).map_values(|e: crate::telemetry::TelemetryEvent| crate::telemetry::event_view(e))
}

/// Builds the command that a command text asks for (see `command_form` and `command_spec`)
/// and reports the build in the telemetry of `state`.
///
/// A text that no command reads becomes a `CNoop` with the message "unrecognized command",
/// reported as not understood; a search-type command whose pattern or flags do not build
/// becomes a `CNoop` with the reason.
#[verifier::spinoff_prover]
#[verifier::rlimit(60)]
pub fn make_command(state: &mut AppState, arg: &str) -> (r: Command)
    ensures
        command_spec(r, arg@, old(state).config, old(state).plugin_extensions@),
        final(state).config == old(state).config,
        final(state).plugin_extensions == old(state).plugin_extensions,
        final(state).telemetry.explain_requests == old(state).telemetry.explain_requests,
        events_extend(*old(state), *final(state)),
        match generic_event(r, arg@) {
            Some(ev) => crate::telemetry::event_view(final(state).telemetry.events@.last()) == ev,
            None => true,
        },
        command_form(split_fields_spec(arg@)) is Unknown ==> crate::telemetry::event_view(
            final(state).telemetry.events@.last(),
        ) == (0int, seq![arg@, arg@, "not understood"@]),
        command_form(split_fields_spec(arg@)) is Unknown ==> final(state).telemetry.events@.len()
            == old(state).telemetry.events@.len() + 1,
        build_reported(
            command_form(split_fields_spec(arg@)),
            r,
            arg@,
            *old(state),
            events_after(final(state).telemetry.events@, old(state).telemetry.events@.len() as int),
        ),
{
    let fields = split_command_fields(arg);
    let form = read_fields(&fields);
    let ghost before = *state;
    let command = match form {
        FieldForm::Search(v, p, fl) => crate::commands::search::from_search(state, v, p.as_str(), fl.as_str(), arg),
        FieldForm::Lines(p, fl) => {
            let (event, command) = crate::commands::lines::from_arg(arg, p.as_str(), fl.as_str(), &state.config);
            crate::telemetry::append_telemetry(&mut state.telemetry, event);
            assert(state.telemetry.events@.subrange(0, before.telemetry.events@.len() as int) =~= before.telemetry.events@);
            proof {
                reveal_strlit("macro");
                assert(events_after(state.telemetry.events@, before.telemetry.events@.len() as int) =~= seq![
                    crate::telemetry::event_view(event),
                ]);
            }
            return command;
        },
        FieldForm::Macro(p) => {
            let (event, command) = crate::commands::macros::from_arg(arg, p.as_str());
            crate::telemetry::append_telemetry(&mut state.telemetry, event);
            assert(state.telemetry.events@.subrange(0, before.telemetry.events@.len() as int) =~= before.telemetry.events@);
            proof {
                reveal_strlit("macro");
                assert(events_after(state.telemetry.events@, before.telemetry.events@.len() as int) =~= seq![
                    crate::telemetry::event_view(event),
                ]);
            }
            return command;
        },
        FieldForm::Change(p, w, fl) => crate::commands::change::from_change(state, p.as_str(), w.as_str(), fl.as_str(), arg),
        FieldForm::Declarations(p, fl) => crate::commands::declarations::from_declarations(state, p.as_str(), fl.as_str(), arg),
        FieldForm::Imports(p, fl) => crate::commands::imports::from_import(state, p.as_str(), fl.as_str(), arg),
        FieldForm::Insert(before_line, p, c, fl) => crate::commands::appendprepend::from_insert(
            state,
            p.as_str(),
            c.as_str(),
            fl.as_str(),
            before_line,
        ),
        FieldForm::Invert => Command::CInvert(CInvert),
        FieldForm::Explain => Command::CExplain(CExplain),
        FieldForm::Unknown => {
            crate::telemetry::append_telemetry(
                &mut state.telemetry,
                crate::telemetry::TelemetryEvent::NoopNotification {
                    payload: crate::text::owned(arg),
                    received: crate::text::owned(arg),
                    cause: crate::text::owned("not understood"),
                },
            );
            Command::CNoop(CNoop { text: crate::text::owned(arg), message: crate::text::owned("unrecognized command") })
        },
    };
    let ghost middle = *state;
    assert(middle.telemetry.events@.subrange(0, before.telemetry.events@.len() as int) =~= before.telemetry.events@);
    proof {
        let n0 = before.telemetry.events@.len() as int;
        if middle.telemetry.events@.len() == n0 {
            assert(events_after(middle.telemetry.events@, n0) =~= Seq::<(int, Seq<Seq<char>>)>::empty());
        } else if middle.telemetry.events@.len() == n0 + 1 {
            assert(events_after(middle.telemetry.events@, n0) =~= seq![
                crate::telemetry::event_view(middle.telemetry.events@.last()),
            ]);
        }
    }
    append_generic_command_telemetry(state, &command, arg);
    assert(state.telemetry.events@.subrange(0, before.telemetry.events@.len() as int) =~= before.telemetry.events@);
    proof {
        let n0 = before.telemetry.events@.len() as int;
        if generic_event(command, arg@) is Some {
            assert(state.telemetry.events@ =~= middle.telemetry.events@.push(state.telemetry.events@.last()));
            assert(events_after(state.telemetry.events@, n0) =~= events_after(middle.telemetry.events@, n0).push(
                generic_event(command, arg@)->0,
            ));
        } else {
            assert(events_after(state.telemetry.events@, n0) =~= events_after(middle.telemetry.events@, n0));
        }
    }
    command
}


/// The commands loaded for a command text: those of its file when it names one and the
/// file was read, else none.
pub open spec fn loaded_for(arg: Seq<char>, loaded: Option<Vec<String>>) -> Seq<Seq<char>> {
    match (crate::commands::macros::macro_ref_spec(arg), loaded) {
        (Some(Some(_)), Some(v)) => v@.map_values(|x: String| x@),
        _ => Seq::empty(),
    }
}

/// The command texts after expansion: each text, followed by the commands loaded for it.
pub open spec fn expansion_spec(args: Seq<Seq<char>>, loaded: Seq<Option<Vec<String>>>) -> Seq<Seq<char>>
    decreases args.len(),
{
    if args.len() == 0 || loaded.len() != args.len() {
        Seq::empty()
    } else {
        expansion_spec(args.drop_last(), loaded.drop_last()) + seq![args.last()] + loaded_for(
            args.last(),
            loaded.last(),
        )
    }
}

/// Puts after each `macro::path` text the commands read from its file: `loaded[i]` holds
/// what was read for `args[i]` (`None` where nothing was read), and is used only where
/// `args[i]` names a file.
pub fn expand_macros(args: &[String], loaded: &[Option<Vec<String>>]) -> (r: Vec<String>)
    requires
        loaded.len() == args.len(),
    ensures
        r@.map_values(|x: String| x@) == expansion_spec(args@.map_values(|x: String| x@), loaded@),
{
    let ghost av = args@.map_values(|x: String| x@);
    let mut res: Vec<String> = Vec::new();
    let mut i: usize = 0;
    while i < args.len()
        invariant
            i <= args.len(),
            loaded.len() == args.len(),
            av == args@.map_values(|x: String| x@),
            res@.map_values(|x: String| x@) == expansion_spec(av.take(i as int), loaded@.take(i as int)),
        decreases args.len() - i,
    {
        let ghost before = res@.map_values(|x: String| x@);
        proof {
            assert(av.take(i + 1).drop_last() =~= av.take(i as int));
            assert(loaded@.take(i + 1).drop_last() =~= loaded@.take(i as int));
            assert(av.take(i + 1).last() == args@[i as int]@);
        }
        let arg = args[i].as_str();
        res.push(crate::text::owned(arg));
        let ghost pushed = res@.map_values(|x: String| x@);
        assert(pushed =~= before + seq![arg@]);
        let names_file = match crate::commands::macros::macro_ref(arg) {
            crate::commands::macros::MacroRef::File(_) => true,
            _ => false,
        };
        if names_file {
            match &loaded[i] {
                Some(v) => {
                    let mut j: usize = 0;
                    while j < v.len()
                        invariant
                            j <= v.len(),
                            res@.map_values(|x: String| x@) == pushed + v@.map_values(|x: String| x@).take(j as int),
                        decreases v.len() - j,
                    {
                        let ghost b2 = res@.map_values(|x: String| x@);
                        res.push(crate::text::owned(v[j].as_str()));
                        assert(res@.map_values(|x: String| x@) =~= b2.push(v@[j as int]@));
                        assert(v@.map_values(|x: String| x@).take(j + 1) =~= v@.map_values(|x: String| x@).take(j as int).push(v@[j as int]@));
                        j = j + 1;
                    }
                    assert(v@.map_values(|x: String| x@).take(v.len() as int) =~= v@.map_values(|x: String| x@));
                },
                None => {
                    assert(pushed + Seq::<Seq<char>>::empty() =~= pushed);
                },
            }
        } else {
            assert(pushed + Seq::<Seq<char>>::empty() =~= pushed);
        }
        i = i + 1;
    }
    assert(av.take(args.len() as int) =~= av);
    assert(loaded@.take(args.len() as int) =~= loaded@);
    res
}

/// Builds the command of each command text, in order, after the texts of loaded commands
/// files have been put in (see `expand_macros`).
pub fn commands_factory(state: &mut AppState, args: &[String], loaded: &[Option<Vec<String>>]) -> (r: Vec<Command>)
    requires
        loaded.len() == args.len(),
    ensures
        ({
            let texts = expansion_spec(args@.map_values(|x: String| x@), loaded@);
            &&& r.len() == texts.len()
            &&& forall|i: int|
                0 <= i < r.len() ==> command_spec(
                    #[trigger] r@[i],
                    texts[i],
                    old(state).config,
                    old(state).plugin_extensions@,
                )
        }),
        final(state).config == old(state).config,
        final(state).plugin_extensions == old(state).plugin_extensions,
        events_extend(*old(state), *final(state)),
{
    let texts = expand_macros(args, loaded);
    let ghost tv = texts@.map_values(|x: String| x@);
    let ghost start = *state;
    assert(start.telemetry.events@.subrange(0, start.telemetry.events@.len() as int) =~= start.telemetry.events@);
    let mut commands: Vec<Command> = Vec::new();
    let mut i: usize = 0;
    while i < texts.len()
        invariant
            i <= texts.len(),
            tv == texts@.map_values(|x: String| x@),
            commands.len() == i,
            state.config == start.config,
            state.plugin_extensions == start.plugin_extensions,
            events_extend(start, *state),
            forall|j: int|
                0 <= j < i ==> command_spec(
                    #[trigger] commands@[j],
                    tv[j],
                    start.config,
                    start.plugin_extensions@,
                ),
        decreases texts.len() - i,
    {
        let ghost mid = *state;
        let c = make_command(state, texts[i].as_str());
        proof {
            let a = start.telemetry.events@;
            let b = mid.telemetry.events@;
            let e = state.telemetry.events@;
            assert(e.subrange(0, a.len() as int) =~= b.subrange(0, a.len() as int));
        }
        commands.push(c);
        i = i + 1;
    }
    commands
}

} // verus!
