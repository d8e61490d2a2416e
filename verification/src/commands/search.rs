//! Searchers: what decides whether a line matches a command's pattern.
use vstd::prelude::*;

use crate::regexes::{is_match, regex_is_match, CompiledRegex};
use crate::text::{ascii_lower_seq, contains_seq, lowercase_spec};

verus! {

/// Matching behavior shared by all searchers.
pub trait Search {
    /// Whether the line matches.
    fn search(&self, line: &str) -> bool;

    /// Whether the line matches the skip part of a keep/skip searcher.
    fn skip(&self, line: &str) -> bool;
}

/// A regex searcher.
#[derive(Debug)]
pub struct RegexSearcher {
    /// The pattern.
    pub patre: CompiledRegex,
}

/// A regex searcher with a keep and a skip pattern.
#[derive(Debug)]
pub struct RegexKeepSkip {
    /// Lines must match this.
    pub rekeep: CompiledRegex,
    /// Lines must not match this.
    pub reskip: CompiledRegex,
}

/// A substring searcher, optionally ignoring case.
#[derive(Debug, Clone)]
pub struct ContainsSearcher {
    /// The text searched for (lower case when `insensitive`).
    pub pattern: String,
    /// Whether case is ignored.
    pub insensitive: bool,
}

/// A substring searcher with a keep and a skip text.
#[derive(Debug, Clone)]
pub struct ContainsKeepSkip {
    /// Lines must contain this.
    pub keep: String,
    /// Lines must not contain this.
    pub skip: String,
    /// Whether case is ignored.
    pub insensitive: bool,
}

/// The searcher a command uses.
#[derive(Debug)]
pub enum Searcher {
    /// Regex only.
    RegexSearcher(RegexSearcher),
    /// Substring only.
    ContainsSearcher(ContainsSearcher),
    /// Substring keep/skip.
    ContainsKeepSkip(ContainsKeepSkip),
    /// Regex keep/skip.
    RegexKeepSkip(RegexKeepSkip),
}

/// The line as the substring searchers compare it: lower-cased when case is ignored.
pub open spec fn folded(line: Seq<char>, insensitive: bool) -> Seq<char> {
    if insensitive {
        lowercase_spec(line)
    } else {
        line
    }
}

impl Searcher {
    /// Whether `line` matches.
    pub open spec fn matches(self, line: Seq<char>) -> bool {
        match self {
            Searcher::RegexSearcher(s) => regex_is_match(s.patre.source(), s.patre.insensitive(), line),
            Searcher::ContainsSearcher(s) => contains_seq(folded(line, s.insensitive), s.pattern@),
            Searcher::ContainsKeepSkip(s) => contains_seq(folded(line, s.insensitive), s.keep@)
                && !contains_seq(folded(line, s.insensitive), s.skip@),
            Searcher::RegexKeepSkip(s) => regex_is_match(s.rekeep.source(), s.rekeep.insensitive(), line)
                && !regex_is_match(s.reskip.source(), s.reskip.insensitive(), line),
        }
    }

    /// Whether `line` matches the skip part (never, for a searcher without one).
    pub open spec fn skips(self, line: Seq<char>) -> bool {
        match self {
            Searcher::RegexSearcher(_) => false,
            Searcher::ContainsSearcher(_) => false,
            Searcher::ContainsKeepSkip(s) => contains_seq(folded(line, s.insensitive), s.skip@),
            Searcher::RegexKeepSkip(s) => regex_is_match(s.reskip.source(), s.reskip.insensitive(), line),
        }
    }
}

impl ContainsSearcher {
    /// A substring searcher; when case is ignored the pattern is lower-cased.
    pub fn new(pattern: String, insensitive: bool) -> (r: Self)
        ensures
            r.pattern@ == folded(pattern@, insensitive),
            r.insensitive == insensitive,
    {
        let pattern = if insensitive {
            crate::text::to_lowercase(pattern.as_str())
        } else {
            pattern
        };
        ContainsSearcher { pattern, insensitive }
    }
}

impl ContainsKeepSkip {
    /// A keep/skip substring searcher; when case is ignored the keep text is lower-cased
    /// and the skip text is ASCII lower-cased.
    pub fn new(keep: String, skip: String, insensitive: bool) -> (r: Self)
        ensures
            r.keep@ == folded(keep@, insensitive),
            r.skip@ == if insensitive {
                ascii_lower_seq(skip@)
            } else {
                skip@
            },
            r.insensitive == insensitive,
    {
        if insensitive {
            ContainsKeepSkip {
                keep: crate::text::to_lowercase(keep.as_str()),
                skip: crate::text::to_ascii_lowercase(skip.as_str()),
                insensitive,
            }
        } else {
            ContainsKeepSkip { keep, skip, insensitive }
        }
    }
}

fn fold_line(line: &str, insensitive: bool) -> (r: String)
    ensures
        r@ == folded(line@, insensitive),
{
    if insensitive {
        crate::text::to_lowercase(line)
    } else {
        crate::text::owned(line)
    }
}

impl Search for Searcher {
    fn search(&self, line: &str) -> (b: bool)
        ensures
            b == self.matches(line@),
    {
        match self {
            Searcher::RegexSearcher(s) => is_match(&s.patre, line),
            Searcher::ContainsSearcher(s) => {
                let l = fold_line(line, s.insensitive);
                crate::text::contains(l.as_str(), s.pattern.as_str())
            },
            Searcher::ContainsKeepSkip(s) => {
                let l = fold_line(line, s.insensitive);
                crate::text::contains(l.as_str(), s.keep.as_str()) && !crate::text::contains(
                    l.as_str(),
                    s.skip.as_str(),
                )
            },
            Searcher::RegexKeepSkip(s) => is_match(&s.rekeep, line) && !is_match(&s.reskip, line),
        }
    }

    fn skip(&self, line: &str) -> (b: bool)
        ensures
            b == self.skips(line@),
    {
        match self {
            Searcher::RegexSearcher(_) => false,
            Searcher::ContainsSearcher(_) => false,
            Searcher::ContainsKeepSkip(s) => {
                let l = fold_line(line, s.insensitive);
                crate::text::contains(l.as_str(), s.skip.as_str())
            },
            Searcher::RegexKeepSkip(s) => is_match(&s.reskip, line),
        }
    }
}

/// The search-type commands built by `from_search`.
#[derive(Debug, Clone, Copy)]
pub enum CommandVariant {
    /// `all`
    CAll,
    /// `more`
    CMore,
    /// `and`
    CAnd,
    /// `less`
    CLess,
    /// `delete`
    CDelete,
}

/// The flags a search-type command accepts.
pub open spec fn variant_flags(v: CommandVariant) -> Seq<crate::constants::FlagDef> {
    match v {
        CommandVariant::CDelete => crate::constants::commandflags::delete_flags_seq(),
        CommandVariant::CAnd => crate::constants::commandflags::and_flags_seq(),
        _ => crate::constants::commandflags::searchflags_seq(),
    }
}

/// The searcher and qualifier of a search-type command of the given variant.
pub open spec fn variant_parts(c: crate::Command, v: CommandVariant) -> Option<(Searcher, crate::common::CommandQualifier)> {
    match (c, v) {
        (crate::Command::CAll(x), CommandVariant::CAll) => Some((x.searcher, x.qualifier)),
        (crate::Command::CMore(x), CommandVariant::CMore) => Some((x.searcher, x.qualifier)),
        (crate::Command::CAnd(x), CommandVariant::CAnd) => Some((x.searcher, x.qualifier)),
        (crate::Command::CLess(x), CommandVariant::CLess) => Some((x.searcher, x.qualifier)),
        (crate::Command::CDelete(x), CommandVariant::CDelete) => Some((x.searcher, x.qualifier)),
        _ => None,
    }
}

/// The first of a pair.
pub open spec fn first_of<A, B>(p: (A, B)) -> A {
    p.0
}

/// The second of a pair.
pub open spec fn second_of<A, B>(p: (A, B)) -> B {
    p.1
}

/// What `from_search` builds: the command of the variant with the searcher and qualifier
/// that `new_searcher` builds, or, when a pattern is not a valid regex, a no-op holding
/// the command text and the regex error.
pub open spec fn search_command_spec(
    c: crate::Command,
    v: CommandVariant,
    pattern: Seq<char>,
    flags: Seq<char>,
    arg: Seq<char>,
    config_shortcodes: bool,
) -> bool {
    let g = crate::flag_utilities::grep_flags_spec(flags, variant_flags(v), config_shortcodes);
    let p = crate::preformat_spec(pattern, g.preformat, crate::constants::grep_shortcodes::searchfield_seq());
    match crate::searcher_error(g, p, None) {
        Some(e) => c matches crate::Command::CNoop(n) && n.text@ == arg && n.message@ == e,
        None => {
            &&& variant_parts(c, v) is Some
            &&& crate::searcher_built(first_of(variant_parts(c, v)->0), g, p, None)
            &&& second_of(variant_parts(c, v)->0) is GrepQualifier
            &&& crate::flag_utilities::qualifier_matches(second_of(variant_parts(c, v)->0)->GrepQualifier_0, g)
        },
    }
}

/// Builds a search-type command from its pattern and flags; an invalid regex gives a
/// no-op and a telemetry event naming the error.
pub fn from_search(state: &mut crate::common::AppState, variant: CommandVariant, pattern: &str, flags: &str, arg: &str) -> (r: crate::Command)
    ensures
        search_command_spec(r, variant, pattern@, flags@, arg@, old(state).config.grep_shortcodes),
        final(state).config == old(state).config,
        final(state).plugin_extensions == old(state).plugin_extensions,
        final(state).telemetry.explain_requests == old(state).telemetry.explain_requests,
        r is CNoop ==> final(state).telemetry.events@.len() == old(state).telemetry.events@.len() + 1
            && final(state).telemetry.events@.drop_last() == old(state).telemetry.events@
            && crate::telemetry::event_view(final(state).telemetry.events@.last()) == (0int, seq![pattern@, arg@, r->CNoop_0.message@]),
        !(r is CNoop) ==> final(state).telemetry.events@ == old(state).telemetry.events@,
{
    let allowed_flags = match variant {
        CommandVariant::CDelete => crate::constants::commandflags::delete_flags(),
        CommandVariant::CAnd => crate::constants::commandflags::and_flags(),
        _ => crate::constants::commandflags::searchflags(),
    };
    let codes = crate::constants::grep_shortcodes::searchfield();
    let result = crate::new_searcher(pattern, None, flags, allowed_flags.as_slice(), codes.as_slice(), &state.config);
    match result {
        Ok(seed) => {
            let qualifier = match seed.qualifier {
                Some(q) => crate::common::CommandQualifier::GrepQualifier(q),
                None => {
                    proof {
                        assert(false);
                    }
                    return crate::Command::CInvert(crate::commands::invert::CInvert);
                },
            };
            match variant {
                CommandVariant::CAnd => crate::Command::CAnd(crate::commands::and::CAnd { searcher: seed.searcher, qualifier }),
                CommandVariant::CMore => crate::Command::CMore(crate::commands::more::CMore { searcher: seed.searcher, qualifier }),
                CommandVariant::CLess => crate::Command::CLess(crate::commands::less::CLess { searcher: seed.searcher, qualifier }),
                CommandVariant::CAll => crate::Command::CAll(crate::commands::all::CAll { searcher: seed.searcher, qualifier }),
                CommandVariant::CDelete => crate::Command::CDelete(crate::commands::delete::CDelete { searcher: seed.searcher, qualifier }),
            }
        },
        Err(error_message) => {
            crate::telemetry::append_telemetry(
                &mut state.telemetry,
                crate::telemetry::TelemetryEvent::NoopNotification {
                    payload: crate::text::owned(pattern),
                    received: crate::text::owned(arg),
                    cause: error_message.clone(),
                },
            );
            crate::Command::CNoop(crate::commands::noop::CNoop { text: crate::text::owned(arg), message: error_message })
        },
    }
}

} // verus!
