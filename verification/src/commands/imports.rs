//! `imports`: shows the import lines with a name that matches.
use vstd::prelude::*;
use std::collections::HashMap;
use std::collections::HashSet;

use crate::base::{conditions_hold, lines_view, CommandDefinition, GrepCommandQualifier, LineStatus, LineView};
use crate::commands::helpers::{
    context_spec, has_declarations, has_valid_treesitter, owner_indices, post_search, show_owner_from_hits,
};
use crate::commands::search::{Search, Searcher};
use crate::common::{key_views, set_visibles, show_views, update_meta_key, CommandQualifier};
use crate::constants::{command_prefix, commandflags};
use crate::hashtree::{hashtree_keys, imp_at, import_at};
use crate::language_api::Parsed;
use crate::CommandActions;

verus! {

broadcast use vstd::std_specs::hash::group_hash_axioms;

/// Makes visible the import lines of which a name matches.
#[derive(Debug)]
pub struct CImports {
    /// What decides a match (on the imported names).
    pub searcher: Searcher,
    /// What the user asked of the command.
    pub qualifier: CommandQualifier,
}

/// Compile-time facts about `imports`.
pub fn get_constant_definition() -> (r: CommandDefinition)
    ensures
        r.name@ == command_prefix::IMPORTS@,
        !r.mutates_line_text,
        r.flags@ == commandflags::searchflags_seq(),
{
    CommandDefinition { name: command_prefix::IMPORTS, mutates_line_text: false, flags: commandflags::searchflags() }
}

/// The conditions hold for the line the import is on (or, past the last line, there are
/// none).
pub open spec fn key_matches_at(q: GrepCommandQualifier, v0: Seq<LineView>, k: usize) -> bool {
    if k < v0.len() {
        conditions_hold(q.conditions_checker.conds@, v0[k as int])
    } else {
        q.conditions_checker.conds@.len() == 0
    }
}

/// Some name matches.
pub open spec fn any_name_matches(s: Searcher, names: Seq<String>) -> bool {
    exists|i: int| 0 <= i < names.len() && s.matches(#[trigger] names[i]@)
}

/// Some name matches the skip part.
pub open spec fn any_name_skips(s: Searcher, names: Seq<String>) -> bool {
    exists|i: int| 0 <= i < names.len() && s.skips(#[trigger] names[i]@)
}

/// The keys of the imports that are hits.
pub open spec fn import_hits(s: Searcher, q: GrepCommandQualifier, h: Map<usize, Parsed>, v0: Seq<LineView>) -> Set<usize> {
    Set::new(
        |k: usize|
            imp_at(h, k) is Some && key_matches_at(q, v0, k) && any_name_matches(s, imp_at(h, k)->0.names@)
                && !any_name_skips(s, imp_at(h, k)->0.names@),
    )
}

impl CImports {
    /// What `apply` gives: the hit imports' lines shown, with context, keys and owners as
    /// asked.
    pub open spec fn applied(self, lines: Seq<LineStatus>, h: Map<usize, Parsed>, out: Seq<LineStatus>) -> bool {
        match self.qualifier {
            CommandQualifier::GrepQualifier(q) => {
                let v0 = lines_view(lines);
                let hits = import_hits(self.searcher, q, h, v0);
                let v1 = show_views(v0, hits);
                let v2 = show_views(v1, context_spec(q.before, q.after, hits, lines.len() as int));
                let v3 = match q.set_key {
                    Some(key) => key_views(v2, hits, key@),
                    None => v2,
                };
                let v4 = if q.showowner && has_declarations(h) {
                    show_views(v3, owner_indices(h, hits, lines.len() as int))
                } else {
                    v3
                };
                lines_view(out) == v4
            },
            CommandQualifier::DeclareQualifier(_) => lines_view(out) == lines_view(lines),
        }
    }
}

fn any_match(searcher: &Searcher, names: &Vec<String>) -> (b: bool)
    ensures
        b == any_name_matches(*searcher, names@),
{
    let mut i: usize = 0;
    while i < names.len()
        invariant
            i <= names@.len(),
            forall|j: int| 0 <= j < i ==> !searcher.matches(#[trigger] names@[j]@),
        decreases names.len() - i,
    {
        if searcher.search(names[i].as_str()) {
            return true;
        }
        i = i + 1;
    }
    false
}

fn any_skip(searcher: &Searcher, names: &Vec<String>) -> (b: bool)
    ensures
        b == any_name_skips(*searcher, names@),
{
    let mut i: usize = 0;
    while i < names.len()
        invariant
            i <= names@.len(),
            forall|j: int| 0 <= j < i ==> !searcher.skips(#[trigger] names@[j]@),
        decreases names.len() - i,
    {
        if searcher.skip(names[i].as_str()) {
            return true;
        }
        i = i + 1;
    }
    false
}

impl CommandActions for CImports {
    fn apply(&self, lines: Vec<LineStatus>, hashtree: &HashMap<usize, Parsed>) -> (r: Vec<LineStatus>)
        ensures
            self.applied(lines@, hashtree@, r@),
    {
        let qualifier = match &self.qualifier {
            CommandQualifier::GrepQualifier(grep) => grep,
            CommandQualifier::DeclareQualifier(_) => {
                return lines;
            },
        };
        let ghost v0 = lines_view(lines@);
        let ghost target = import_hits(self.searcher, *qualifier, hashtree@, v0);
        let keys = hashtree_keys(hashtree);
        let mut hit_keys: Vec<usize> = Vec::new();
        let mut i: usize = 0;
        while i < keys.len()
            invariant
                i <= keys@.len(),
                keys@.to_set() == hashtree@.dom(),
                v0 == lines_view(lines@),
                target == import_hits(self.searcher, *qualifier, hashtree@, v0),
                forall|x: usize| hit_keys@.contains(x) <==> ((exists|j: int| 0 <= j < i && #[trigger] keys@[j] == x) && target.contains(x)),
            decreases keys.len() - i,
        {
            let k = keys[i];
            let ghost before = hit_keys@;
            assert(forall|x: usize| before.contains(x) <==> ((exists|j: int| 0 <= j < i && #[trigger] keys@[j] == x) && target.contains(x)));
            let ghost in_target = target.contains(k);
            if let Some(parsed) = import_at(hashtree, k) {
                let key_matches = if k < lines.len() {
                    qualifier.conditions_checker.check(&lines[k])
                } else {
                    qualifier.conditions_checker.conds.len() == 0
                };
                let import_match = any_match(&self.searcher, &parsed.names);
                let skip = if import_match {
                    any_skip(&self.searcher, &parsed.names)
                } else {
                    false
                };
                assert(key_matches == key_matches_at(*qualifier, v0, k));
                assert((key_matches && import_match && !skip) == in_target);
                if key_matches && import_match && !skip {
                    hit_keys.push(k);
                }
            } else {
                assert(!in_target);
            }
            assert(hit_keys@ == before || (hit_keys@ == before.push(k) && in_target));
            assert(in_target ==> hit_keys@ == before.push(k));
            assert(!in_target ==> hit_keys@ == before);
            i = i + 1;
            assert forall|x: usize| hit_keys@.contains(x) <==> ((exists|j: int| 0 <= j < i && #[trigger] keys@[j] == x) && target.contains(x)) by {
                if hit_keys@.contains(x) {
                    if before.contains(x) {
                        let j = choose|j: int| 0 <= j < i - 1 && #[trigger] keys@[j] == x;
                        assert(keys@[j] == x);
                    } else {
                        let jj = choose|jj: int| 0 <= jj < hit_keys@.len() && hit_keys@[jj] == x;
                        if jj < before.len() {
                            assert(before[jj] == x);
                        }
                        assert(x == k);
                        assert(keys@[i - 1] == x);
                    }
                }
                if (exists|j: int| 0 <= j < i && #[trigger] keys@[j] == x) && target.contains(x) {
                    let j = choose|j: int| 0 <= j < i && #[trigger] keys@[j] == x;
                    if j < i - 1 {
                        assert(before.contains(x));
                        let jj = choose|jj: int| 0 <= jj < before.len() && before[jj] == x;
                        assert(hit_keys@[jj] == x);
                    } else {
                        assert(x == k);
                        if hit_keys@ == before {
                            assert(before.contains(k)) by {
                                assert(in_target);
                            }
                        } else {
                            assert(hit_keys@[before.len() as int] == x);
                        }
                    }
                }
            }
        }
        assert forall|x: usize| hit_keys@.to_set().contains(x) <==> target.contains(x) by {
            if target.contains(x) {
                assert(imp_at(hashtree@, x) is Some);
                assert(keys@.to_set().contains(x));
                let j = choose|j: int| 0 <= j < keys@.len() && keys@[j] == x;
            }
        }
        assert(hit_keys@.to_set() =~= target);
        let mut saved: HashSet<usize> = HashSet::new();
        let mut m: usize = 0;
        while m < hit_keys.len()
            invariant
                m <= hit_keys@.len(),
                forall|x: usize| saved@.contains(x) <==> exists|j: int| 0 <= j < m && #[trigger] hit_keys@[j] == x,
            decreases hit_keys.len() - m,
        {
            saved.insert(hit_keys[m]);
            m = m + 1;
        }
        assert(saved@ =~= hit_keys@.to_set());
        let mut result_lines = set_visibles(lines, &saved);
        result_lines = post_search(qualifier, hit_keys.as_slice(), result_lines);
        match &qualifier.set_key {
            Some(set_key) => {
                result_lines = update_meta_key(result_lines, &saved, set_key.as_str());
            },
            None => {},
        }
        if qualifier.showowner && has_valid_treesitter(hashtree) {
            result_lines = show_owner_from_hits(hit_keys.as_slice(), result_lines, hashtree);
        }
        result_lines
    }

    fn get_constant_definition(&self) -> (r: CommandDefinition)
        ensures
            r.name@ == command_prefix::IMPORTS@,
            !r.mutates_line_text,
    {
        get_constant_definition()
    }
}

/// What `from_import` builds: the imports command, or a no-op holding the command text and
/// the regex error.
pub open spec fn import_command_spec(r: crate::Command, pattern: Seq<char>, flags: Seq<char>, arg: Seq<char>, config_shortcodes: bool) -> bool {
    let parts = crate::utilities::negation_spec(pattern);
    let g = crate::flag_utilities::grep_flags_spec(flags, commandflags::searchflags_seq(), config_shortcodes);
    let codes = crate::constants::grep_shortcodes::name_searchfield_seq();
    let p = crate::preformat_spec(parts.0, g.preformat, codes);
    let k = crate::preformat_opt(parts.1, g.preformat, codes);
    match crate::searcher_error(g, p, k) {
        Some(e) => r matches crate::Command::CNoop(n) && n.text@ == arg && n.message@ == e,
        None => {
            &&& r is CImports
            &&& crate::searcher_built(r->CImports_0.searcher, g, p, k)
            &&& r->CImports_0.qualifier is GrepQualifier
            &&& crate::flag_utilities::qualifier_matches(r->CImports_0.qualifier->GrepQualifier_0, g)
        },
    }
}

/// Builds an `imports` command; the pattern may name an unwanted part after `--` or `!`.
/// An invalid regex gives a no-op and a telemetry event naming the error.
pub fn from_import(state: &mut crate::common::AppState, pattern: &str, flags: &str, arg: &str) -> (r: crate::Command)
    ensures
        import_command_spec(r, pattern@, flags@, arg@, old(state).config.grep_shortcodes),
        ({
            let parts = crate::utilities::negation_spec(pattern@);
            let g = crate::flag_utilities::grep_flags_spec(flags@, commandflags::searchflags_seq(), old(state).config.grep_shortcodes);
            let codes = crate::constants::grep_shortcodes::name_searchfield_seq();
            let p = crate::preformat_spec(parts.0, g.preformat, codes);
            let k = crate::preformat_opt(parts.1, g.preformat, codes);
            match crate::searcher_error(g, p, k) {
                Some(e) => {
                    &&& r matches crate::Command::CNoop(n) && n.text@ == arg@ && n.message@ == e
                    &&& final(state).telemetry.events@.len() == old(state).telemetry.events@.len() + 1
                    &&& final(state).telemetry.events@.drop_last() == old(state).telemetry.events@
                    &&& crate::telemetry::event_view(final(state).telemetry.events@.last()) == (0int, seq![pattern@, arg@, e])
                },
                None => {
                    &&& r is CImports
                    &&& crate::searcher_built(r->CImports_0.searcher, g, p, k)
                    &&& r->CImports_0.qualifier is GrepQualifier
                    &&& crate::flag_utilities::qualifier_matches(r->CImports_0.qualifier->GrepQualifier_0, g)
                    &&& final(state).telemetry.events@ == old(state).telemetry.events@
                },
            }
        }),
        final(state).config == old(state).config,
        final(state).plugin_extensions == old(state).plugin_extensions,
        final(state).telemetry.explain_requests == old(state).telemetry.explain_requests,
{
    let (keep_pattern, skip_pattern) = crate::utilities::split_name_negation(pattern);
    let flagset = commandflags::searchflags();
    let codes = crate::constants::grep_shortcodes::name_searchfield();
    let skip: Option<&str> = match &skip_pattern {
        Some(s) => Some(s.as_str()),
        None => None,
    };
    match crate::new_searcher(keep_pattern.as_str(), skip, flags, flagset.as_slice(), codes.as_slice(), &state.config) {
        Ok(seed) => {
            let qualifier = match seed.qualifier {
                Some(q) => CommandQualifier::GrepQualifier(q),
                None => {
                    proof {
                        assert(false);
                    }
                    return crate::Command::CInvert(crate::commands::invert::CInvert);
                },
            };
            crate::Command::CImports(CImports { searcher: seed.searcher, qualifier })
        },
        Err(error_message) => {
            crate::telemetry::append_telemetry(
                &mut state.telemetry,
                crate::telemetry::TelemetryEvent::NoopNotification {
                    payload: crate::text::owned(pattern),
                    received: crate::text::owned(arg),
                    cause: error_message.clone(),
                },
            );
            crate::Command::CNoop(crate::commands::noop::CNoop { text: crate::text::owned(arg), message: error_message })
        },
    }
}

} // verus!
