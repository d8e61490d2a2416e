//! `declarations`: shows the declarations (functions, classes, structs...) whose names
//! match, using the hashtree that a grammar made of the file. `d::Url/__init__` finds the
//! declarations matching `__init__` whose parent matches `Url`.
use vstd::prelude::*;
use std::collections::HashMap;
use std::collections::HashSet;

use crate::base::{
    conditions_hold, lines_view, CommandDefinition, DeclarationsCommandQualifier,
    DeclarationsParentMatcher, GrepCommandQualifier, LineStatus, LineView,
};
use crate::commands::search::{folded, Search, Searcher};
use crate::common::{key_views, set_visibles, show_views, update_meta_key};
use crate::constants::grammars::supported_declare_letter;
use crate::constants::{command_prefix, commandflags};
use crate::hashtree::{decl_at, declaration_at, hashtree_keys};
use crate::language_api::{Parsed, ParsedDeclarationsData};
use crate::regexes::regex_is_match;
use crate::text::contains_seq;
use crate::utilities::vec_lines::{bounded_extend, extend_set};
use crate::CommandActions;

verus! {

broadcast use vstd::std_specs::hash::group_hash_axioms;

/// Makes visible the declarations whose names match.
#[derive(Debug)]
pub struct CDeclarations {
    /// What decides a match (on the declaration names).
    pub searcher: Searcher,
    /// What the user asked of the command.
    pub qualifier: DeclarationsCommandQualifier,
}

/// Compile-time facts about `declarations`.
pub fn get_constant_definition() -> (r: CommandDefinition)
    ensures
        r.name@ == command_prefix::DECLARATIONS@,
        !r.mutates_line_text,
        r.flags@ == commandflags::declaration_flags_seq(),
{
    CommandDefinition {
        name: command_prefix::DECLARATIONS,
        mutates_line_text: false,
        flags: commandflags::declaration_flags(),
    }
}

/// The line a declaration's name is searched as: numbered by its key, not visible, no key.
pub open spec fn name_view(k: usize, d: ParsedDeclarationsData) -> LineView {
    LineView { line_number: k, visible: false, line: d.name@, key: Seq::empty(), groupid: 0 }
}

/// The keys of the declarations whose names are hits.
pub open spec fn name_hits(s: Searcher, q: GrepCommandQualifier, h: Map<usize, Parsed>) -> Set<usize> {
    Set::new(
        |k: usize|
            decl_at(h, k) is Some && s.matches(decl_at(h, k)->0.name@) && conditions_hold(
                q.conditions_checker.conds@,
                name_view(k, decl_at(h, k)->0),
            ),
    )
}

/// Collects the keys of the declarations whose names are hits.
fn declaration_hits(searcher: &Searcher, q: &GrepCommandQualifier, hashtree: &HashMap<usize, Parsed>) -> (r: Vec<
    usize,
>)
    ensures
        r@.to_set() == name_hits(*searcher, *q, hashtree@),
{
    let ghost target = name_hits(*searcher, *q, hashtree@);
    let keys = hashtree_keys(hashtree);
    let mut out: Vec<usize> = Vec::new();
    let mut i: usize = 0;
    while i < keys.len()
        invariant
            i <= keys@.len(),
            keys@.to_set() == hashtree@.dom(),
            target == name_hits(*searcher, *q, hashtree@),
            forall|x: usize| out@.contains(x) <==> ((exists|j: int| 0 <= j < i && #[trigger] keys@[j] == x) && target.contains(x)),
        decreases keys.len() - i,
    {
        let k = keys[i];
        let ghost before = out@;
        assert(forall|x: usize| before.contains(x) <==> ((exists|j: int| 0 <= j < i && #[trigger] keys@[j] == x) && target.contains(x)));
        let ghost in_target = target.contains(k);
        let keep = match declaration_at(hashtree, k) {
            Some(d) => {
                let probe = LineStatus {
                    line_number: k,
                    visible: false,
                    line: d.name.clone(),
                    meta: crate::base::MetaInfo { key: String::new(), groupid: 0 },
                };
                assert(probe@ == name_view(k, decl_at(hashtree@, k)->0));
                searcher.search(d.name.as_str()) && q.conditions_checker.check(&probe)
            },
            None => false,
        };
        assert(keep == in_target);
        if keep {
            out.push(k);
        }
        assert(in_target ==> out@ == before.push(k));
        assert(!in_target ==> out@ == before);
        i = i + 1;
        assert forall|x: usize| out@.contains(x) <==> ((exists|j: int| 0 <= j < i && #[trigger] keys@[j] == x) && target.contains(x)) by {
            if out@.contains(x) {
                if before.contains(x) {
                    let j = choose|j: int| 0 <= j < i - 1 && #[trigger] keys@[j] == x;
                    assert(keys@[j] == x);
                } else {
                    let jj = choose|jj: int| 0 <= jj < out@.len() && out@[jj] == x;
                    if jj < before.len() {
                        assert(before[jj] == x);
                    }
                    assert(keys@[i - 1] == x);
                }
            }
            if (exists|j: int| 0 <= j < i && #[trigger] keys@[j] == x) && target.contains(x) {
                let j = choose|j: int| 0 <= j < i && #[trigger] keys@[j] == x;
                if j < i - 1 {
                    assert(before.contains(x));
                    let jj = choose|jj: int| 0 <= jj < before.len() && before[jj] == x;
                    assert(out@[jj] == x);
                } else {
                    assert(out@[before.len() as int] == x);
                }
            }
        }
        assert(keys@.to_set() == hashtree@.dom());
        assert(target == name_hits(*searcher, *q, hashtree@));
    }
    assert forall|x: usize| out@.to_set().contains(x) <==> target.contains(x) by {
        if target.contains(x) {
            assert(hashtree@.dom().contains(x));
            assert(keys@.to_set().contains(x));
            let j = choose|j: int| 0 <= j < keys@.len() && keys@[j] == x;
        }
    }
    assert(out@.to_set() =~= target);
    out
}

/// The one-letter type of a declaration's node kind, by the Python grammar, else the
/// Rust one.
pub open spec fn flag_for_type(kind: Seq<char>) -> Option<char> {
    match crate::constants::grammars::python::declare_flag_spec(kind) {
        Some(c) => Some(c),
        None => crate::constants::grammars::rust::declare_flag_spec(kind),
    }
}

fn declaration_flag_for_type(kind: &str) -> (r: Option<char>)
    ensures
        r == flag_for_type(kind@),
{
    match crate::constants::grammars::python::declare_flag(kind) {
        Some(c) => Some(c),
        None => crate::constants::grammars::rust::declare_flag(kind),
    }
}

fn is_supported_declaration_flag(flag: char) -> (b: bool)
    ensures
        b == supported_declare_letter(flag),
{
    flag == 'f' || flag == 'c' || flag == 's' || flag == 'e' || flag == 'i' || flag == 'm'
}

/// What `wt=` keeps of the hits: when one of its letters is a declaration type some grammar
/// gives, the declarations whose type letter is among them; otherwise all.
pub open spec fn nodetype_filter(types: Seq<char>, h: Map<usize, Parsed>, hits: Set<usize>) -> Set<usize> {
    if exists|i: int| 0 <= i < types.len() && supported_declare_letter(#[trigger] types[i]) {
        Set::new(
            |k: usize|
                hits.contains(k) && decl_at(h, k) is Some && flag_for_type(decl_at(h, k)->0.type_@) is Some
                    && types.contains(flag_for_type(decl_at(h, k)->0.type_@)->0),
        )
    } else {
        hits
    }
}

/// Keeps the hits whose declaration type is among the letters of `types_`.
fn filter_by_nodetype(types_: &str, hashtree: &HashMap<usize, Parsed>, hits_declares: Vec<usize>) -> (r: Vec<usize>)
    ensures
        r@.to_set() == nodetype_filter(types_@, hashtree@, hits_declares@.to_set()),
{
    let requested = crate::text::chars_of(types_);
    let mut supported = false;
    let mut i: usize = 0;
    while i < requested.len()
        invariant
            i <= requested@.len(),
            requested@ == types_@,
            supported == exists|j: int| 0 <= j < i && supported_declare_letter(#[trigger] requested@[j]),
        decreases requested.len() - i,
    {
        if is_supported_declaration_flag(requested[i]) {
            supported = true;
        }
        i = i + 1;
    }
    if !supported {
        return hits_declares;
    }
    let ghost target = nodetype_filter(types_@, hashtree@, hits_declares@.to_set());
    let mut out: Vec<usize> = Vec::new();
    let mut k: usize = 0;
    while k < hits_declares.len()
        invariant
            k <= hits_declares@.len(),
            requested@ == types_@,
            supported,
            exists|j: int| 0 <= j < types_@.len() && supported_declare_letter(#[trigger] types_@[j]),
            target == nodetype_filter(types_@, hashtree@, hits_declares@.to_set()),
            forall|x: usize| out@.contains(x) <==> ((exists|j: int| 0 <= j < k && #[trigger] hits_declares@[j] == x) && target.contains(x)),
        decreases hits_declares.len() - k,
    {
        let key = hits_declares[k];
        let ghost before = out@;
        assert(forall|x: usize| before.contains(x) <==> ((exists|j: int| 0 <= j < k && #[trigger] hits_declares@[j] == x) && target.contains(x)));
        let ghost in_target = target.contains(key);
        assert(hits_declares@.to_set().contains(key));
        let keep = match declaration_at(hashtree, key) {
            Some(d) => match declaration_flag_for_type(d.type_.as_str()) {
                Some(c) => crate::text::char_in(&requested, c),
                None => false,
            },
            None => false,
        };
        assert(keep == in_target);
        if keep {
            out.push(key);
        }
        k = k + 1;
        assert forall|x: usize| out@.contains(x) <==> ((exists|j: int| 0 <= j < k && #[trigger] hits_declares@[j] == x) && target.contains(x)) by {
            if out@.contains(x) {
                if before.contains(x) {
                    let j = choose|j: int| 0 <= j < k - 1 && #[trigger] hits_declares@[j] == x;
                    assert(hits_declares@[j] == x);
                } else {
                    let jj = choose|jj: int| 0 <= jj < out@.len() && out@[jj] == x;
                    if jj < before.len() {
                        assert(before[jj] == x);
                    }
                    assert(hits_declares@[k - 1] == x);
                }
            }
            if (exists|j: int| 0 <= j < k && #[trigger] hits_declares@[j] == x) && target.contains(x) {
                let j = choose|j: int| 0 <= j < k && #[trigger] hits_declares@[j] == x;
                if j < k - 1 {
                    assert(before.contains(x));
                    let jj = choose|jj: int| 0 <= jj < before.len() && before[jj] == x;
                    assert(out@[jj] == x);
                } else {
                    assert(out@[before.len() as int] == x);
                }
            }
        }
    }
    assert forall|x: usize| out@.to_set().contains(x) <==> target.contains(x) by {
        if target.contains(x) {
            assert(hits_declares@.to_set().contains(x));
            let j = choose|j: int| 0 <= j < hits_declares@.len() && hits_declares@[j] == x;
        }
    }
    assert(out@.to_set() =~= target);
    out
}

/// Whether a parent constraint accepts a parent named `name`: for fixed texts, one of the
/// wanted texts occurs (or none are given) and none of the unwanted ones; for regexes,
/// the wanted one matches and the unwanted one (if any) does not. Names are lower-cased
/// first when case is ignored.
pub open spec fn matcher_accepts(m: DeclarationsParentMatcher, name: Seq<char>) -> bool {
    match m {
        DeclarationsParentMatcher::Fixed { positive, negative, case_insensitive } => {
            let n = folded(name, case_insensitive);
            (positive@.len() == 0 || exists|i: int| 0 <= i < positive@.len() && contains_seq(n, #[trigger] positive@[i]@))
                && !(exists|i: int| 0 <= i < negative@.len() && contains_seq(n, #[trigger] negative@[i]@))
        },
        DeclarationsParentMatcher::Regex { positive, negative, case_insensitive } => {
            let n = folded(name, case_insensitive);
            regex_is_match(positive.source(), positive.insensitive(), n) && !(negative matches Some(r)
                && regex_is_match(r.source(), r.insensitive(), n))
        },
    }
}

/// A constraint with only an unwanted part: it also accepts a declaration without
/// parents.
pub open spec fn allows_missing(m: DeclarationsParentMatcher) -> bool {
    match m {
        DeclarationsParentMatcher::Fixed { positive, negative, .. } => positive@.len() == 0 && negative@.len() > 0,
        DeclarationsParentMatcher::Regex { positive, negative, .. } => positive.source().len() == 0 && negative is Some,
    }
}

fn any_occurs(n: &str, filters: &Vec<String>) -> (b: bool)
    ensures
        b == exists|i: int| 0 <= i < filters@.len() && contains_seq(n@, #[trigger] filters@[i]@),
{
    let mut i: usize = 0;
    while i < filters.len()
        invariant
            i <= filters@.len(),
            forall|j: int| 0 <= j < i ==> !contains_seq(n@, #[trigger] filters@[j]@),
        decreases filters.len() - i,
    {
        if crate::text::contains(n, filters[i].as_str()) {
            return true;
        }
        i = i + 1;
    }
    false
}

fn fold_name(name: &str, case_insensitive: bool) -> (r: String)
    ensures
        r@ == folded(name@, case_insensitive),
{
    if case_insensitive {
        crate::text::to_lowercase(name)
    } else {
        crate::text::owned(name)
    }
}

/// Whether the constraint accepts a parent named `name`.
pub fn parent_matcher_matches(matcher: &DeclarationsParentMatcher, name: &str) -> (b: bool)
    ensures
        b == matcher_accepts(*matcher, name@),
{
    match matcher {
        DeclarationsParentMatcher::Fixed { positive, negative, case_insensitive } => {
            let name_cmp = fold_name(name, *case_insensitive);
            let matches_positive = if positive.len() == 0 {
                true
            } else {
                any_occurs(name_cmp.as_str(), positive)
            };
            let matches_negative = any_occurs(name_cmp.as_str(), negative);
            matches_positive && !matches_negative
        },
        DeclarationsParentMatcher::Regex { positive, negative, case_insensitive } => {
            let name_cmp = fold_name(name, *case_insensitive);
            let matches_positive = crate::regexes::is_match(positive, name_cmp.as_str());
            let matches_negative = match negative {
                Some(r) => crate::regexes::is_match(r, name_cmp.as_str()),
                None => false,
            };
            matches_positive && !matches_negative
        },
    }
}

/// Whether the constraint also accepts a declaration without parents.
pub fn parent_matcher_allows_missing_parent(matcher: &DeclarationsParentMatcher) -> (b: bool)
    ensures
        b == allows_missing(*matcher),
{
    match matcher {
        DeclarationsParentMatcher::Fixed { positive, negative, .. } => positive.len() == 0 && negative.len() > 0,
        DeclarationsParentMatcher::Regex { positive, negative, .. } => crate::text::is_empty_text(positive.as_str())
            && negative.is_some(),
    }
}

/// The pieces of a parent filter: split at `,` and spaces, trimmed, empty ones dropped.
pub open spec fn nonempty_trimmed(pieces: Seq<Seq<char>>) -> Seq<Seq<char>>
    decreases pieces.len(),
{
    if pieces.len() == 0 {
        Seq::empty()
    } else {
        let init = nonempty_trimmed(pieces.drop_last());
        let last = crate::text::trim_seq(pieces.last());
        if last.len() == 0 {
            init
        } else {
            init.push(last)
        }
    }
}

/// What `split_parent_filters` gives.
pub open spec fn parent_filters_spec(value: Seq<char>) -> Seq<Seq<char>> {
    nonempty_trimmed(crate::text::split_seq(value, seq![',', ' ']))
}

/// Splits a parent filter at `,` and spaces into its non-empty trimmed pieces.
pub fn split_parent_filters(value: &str) -> (r: Vec<String>)
    ensures
        r@.map_values(|x: String| x@) == parent_filters_spec(value@),
{
    let seps = vec![',', ' '];
    assert(seps@ =~= seq![',', ' ']);
    let pieces = crate::text::split_chars(value, &seps);
    let ghost pv = pieces@.map_values(|x: String| x@);
    let mut out: Vec<String> = Vec::new();
    let mut i: usize = 0;
    while i < pieces.len()
        invariant
            i <= pieces@.len(),
            pv == pieces@.map_values(|x: String| x@),
            pv == crate::text::split_seq(value@, seq![',', ' ']),
            out@.map_values(|x: String| x@) == nonempty_trimmed(pv.take(i as int)),
        decreases pieces.len() - i,
    {
        assert(pv.take(i + 1).drop_last() =~= pv.take(i as int));
        assert(pv.take(i + 1).last() == pieces@[i as int]@);
        let piece = crate::text::trim(pieces[i].as_str());
        let ghost before = out@.map_values(|x: String| x@);
        if !crate::text::is_empty_text(piece.as_str()) {
            out.push(piece);
            assert(out@.map_values(|x: String| x@) =~= before.push(piece@));
        }
        i = i + 1;
    }
    assert(pv.take(pieces@.len() as int) =~= pv);
    out
}

/// The regex source of a parent filter: `,` stands for `|`.
pub open spec fn parent_regex_source(value: Seq<char>) -> Seq<char> {
    crate::text::replace_all_seq(value, seq![','], seq!['|'])
}

/// Why a parent constraint cannot be built: for regexes, the message of the first of the
/// wanted and unwanted patterns that does not compile.
pub open spec fn matcher_error(wanted: Seq<char>, fixed_string: bool, case_insensitive: bool) -> Option<Seq<char>> {
    let parts = crate::utilities::negation_spec(folded(wanted, case_insensitive));
    if fixed_string {
        None
    } else {
        let pos_err = crate::regexes::regex_build_error(parent_regex_source(parts.0), false);
        if pos_err is Some {
            pos_err
        } else {
            match parts.1 {
                Some(n) => crate::regexes::regex_build_error(parent_regex_source(n), false),
                None => None,
            }
        }
    }
}

/// The parent constraint built from `wanted`: the text (lower-cased when case is ignored)
/// split into its wanted and unwanted parts, as fixed-text pieces or as regexes.
pub open spec fn matcher_built(m: DeclarationsParentMatcher, wanted: Seq<char>, fixed_string: bool, case_insensitive: bool) -> bool {
    let parts = crate::utilities::negation_spec(folded(wanted, case_insensitive));
    if fixed_string {
        m matches DeclarationsParentMatcher::Fixed { positive, negative, case_insensitive: ci } && ci
            == case_insensitive && positive@.map_values(|x: String| x@) == parent_filters_spec(parts.0)
            && negative@.map_values(|x: String| x@) == match parts.1 {
            Some(n) => parent_filters_spec(n),
            None => Seq::empty(),
        }
    } else {
        m matches DeclarationsParentMatcher::Regex { positive, negative, case_insensitive: ci } && ci
            == case_insensitive && positive.source() == parent_regex_source(parts.0)
            && !positive.insensitive() && match parts.1 {
            Some(n) => negative matches Some(r) && r.source() == parent_regex_source(n) && !r.insensitive(),
            None => negative is None,
        }
    }
}

fn parent_regex(value: &str) -> (r: Result<crate::regexes::CompiledRegex, String>)
    ensures
        match r {
            Ok(c) => c.source() == parent_regex_source(value@) && !c.insensitive()
                && crate::regexes::regex_build_error(parent_regex_source(value@), false) is None,
            Err(e) => crate::regexes::regex_build_error(parent_regex_source(value@), false) == Some(e@),
        },
{
    proof {
        reveal_strlit(",");
        reveal_strlit("|");
        assert(","@ =~= seq![',']);
        assert("|"@ =~= seq!['|']);
    }
    let source = crate::text::replace(value, ",", "|");
    crate::regexes::compile_regex(source.as_str(), false)
}

/// Builds one parent constraint.
pub fn build_parent_matcher(wanted: &str, fixed_string: bool, case_insensitive: bool) -> (r: Result<
    DeclarationsParentMatcher,
    String,
>)
    ensures
        match r {
            Ok(m) => matcher_error(wanted@, fixed_string, case_insensitive) is None && matcher_built(
                m,
                wanted@,
                fixed_string,
                case_insensitive,
            ),
            Err(e) => matcher_error(wanted@, fixed_string, case_insensitive) == Some(e@),
        },
{
    let wanted_cmp = fold_name(wanted, case_insensitive);
    let (positive, negative) = crate::utilities::split_name_negation(wanted_cmp.as_str());
    if fixed_string {
        let positive = split_parent_filters(positive.as_str());
        let negative = match negative {
            Some(n) => split_parent_filters(n.as_str()),
            None => {
                let v: Vec<String> = Vec::new();
                assert(v@.map_values(|x: String| x@) =~= Seq::<Seq<char>>::empty());
                v
            },
        };
        return Ok(DeclarationsParentMatcher::Fixed { positive, negative, case_insensitive });
    }
    let positive = match parent_regex(positive.as_str()) {
        Ok(re) => re,
        Err(e) => {
            return Err(e);
        },
    };
    let negative = match negative {
        Some(value) => match parent_regex(value.as_str()) {
            Ok(re) => Some(re),
            Err(e) => {
                return Err(e);
            },
        },
        None => None,
    };
    Ok(DeclarationsParentMatcher::Regex { positive, negative, case_insensitive })
}

/// The first error among the parent constraints, in order.
pub open spec fn matchers_error(parents: Seq<Seq<char>>, fixed_string: bool, case_insensitive: bool) -> Option<Seq<char>>
    decreases parents.len(),
{
    if parents.len() == 0 {
        None
    } else if matchers_error(parents.drop_last(), fixed_string, case_insensitive) is Some {
        matchers_error(parents.drop_last(), fixed_string, case_insensitive)
    } else {
        matcher_error(parents.last(), fixed_string, case_insensitive)
    }
}

/// Builds the parent constraints, one per parent filter; fails with the first error.
pub fn build_parent_matchers(parents: &Option<Vec<String>>, fixed_string: bool, case_insensitive: bool) -> (r: Result<
    Option<Vec<DeclarationsParentMatcher>>,
    String,
>)
    ensures
        match parents {
            None => r matches Ok(None),
            Some(ps) => match r {
                Ok(Some(ms)) => {
                    &&& matchers_error(ps@.map_values(|x: String| x@), fixed_string, case_insensitive) is None
                    &&& ms@.len() == ps@.len()
                    &&& forall|i: int| 0 <= i < ms@.len() ==> matcher_built(#[trigger] ms@[i], ps@[i]@, fixed_string, case_insensitive)
                },
                Ok(None) => false,
                Err(e) => matchers_error(ps@.map_values(|x: String| x@), fixed_string, case_insensitive) == Some(e@),
            },
        },
{
    match parents {
        None => Ok(None),
        Some(ps) => {
            let ghost pv = ps@.map_values(|x: String| x@);
            let mut out: Vec<DeclarationsParentMatcher> = Vec::new();
            let mut i: usize = 0;
            while i < ps.len()
                invariant
                    *parents == Some(*ps),
                    i <= ps@.len(),
                    pv == ps@.map_values(|x: String| x@),
                    out@.len() == i,
                    matchers_error(pv.take(i as int), fixed_string, case_insensitive) is None,
                    forall|j: int| 0 <= j < i ==> matcher_built(#[trigger] out@[j], ps@[j]@, fixed_string, case_insensitive),
                decreases ps.len() - i,
            {
                assert(pv.take(i + 1).drop_last() =~= pv.take(i as int));
                assert(pv.take(i + 1).last() == ps@[i as int]@);
                match build_parent_matcher(ps[i].as_str(), fixed_string, case_insensitive) {
                    Ok(m) => {
                        out.push(m);
                    },
                    Err(e) => {
                        proof {
                            assert(matchers_error(pv.take(i + 1), fixed_string, case_insensitive) == Some(e@));
                            lemma_matchers_error_prefix(pv, (i + 1) as nat, fixed_string, case_insensitive);
                            assert(matchers_error(pv, fixed_string, case_insensitive) == Some(e@));
                        }
                        return Err(e);
                    },
                }
                i = i + 1;
            }
            assert(pv.take(ps@.len() as int) =~= pv);
            Ok(Some(out))
        },
    }
}

proof fn lemma_matchers_error_prefix(pv: Seq<Seq<char>>, n: nat, fixed_string: bool, case_insensitive: bool)
    requires
        n <= pv.len(),
        matchers_error(pv.take(n as int), fixed_string, case_insensitive) is Some,
    ensures
        matchers_error(pv, fixed_string, case_insensitive) == matchers_error(pv.take(n as int), fixed_string, case_insensitive),
    decreases pv.len() - n,
{
    if n < pv.len() {
        assert(pv.take((n + 1) as int).drop_last() =~= pv.take(n as int));
        lemma_matchers_error_prefix(pv, n + 1, fixed_string, case_insensitive);
    } else {
        assert(pv.take(n as int) =~= pv);
    }
}

/// The `i`-th parent of `d` is a declaration that the `i`-th constraint accepts.
pub open spec fn parent_ok(h: Map<usize, Parsed>, wanted: Seq<DeclarationsParentMatcher>, d: ParsedDeclarationsData, i: int) -> bool {
    &&& 0 <= i < wanted.len()
    &&& i < d.parents@.len()
    &&& decl_at(h, d.parents@[i]) is Some
    &&& matcher_accepts(wanted[i], decl_at(h, d.parents@[i])->0.name@)
}

/// The first constraint has only an unwanted part and the declaration has no parents.
pub open spec fn missing_ok(wanted: Seq<DeclarationsParentMatcher>, d: ParsedDeclarationsData) -> bool {
    wanted.len() > 0 && allows_missing(wanted[0]) && d.parents@.len() == 0
}

/// The hits that the parent constraints keep.
pub open spec fn kept_by_parents(h: Map<usize, Parsed>, wanted: Seq<DeclarationsParentMatcher>, hits: Set<usize>) -> Set<usize> {
    Set::new(
        |k: usize|
            hits.contains(k) && decl_at(h, k) is Some && (missing_ok(wanted, decl_at(h, k)->0) || exists|i: int|
                parent_ok(h, wanted, decl_at(h, k)->0, i)),
    )
}

/// The hits of `hits` that are in `kept`, in their order (a hit that occurs twice is kept
/// twice).
pub open spec fn kept_in_order(hits: Seq<usize>, kept: Set<usize>) -> Seq<usize>
    decreases hits.len(),
{
    if hits.len() == 0 {
        Seq::empty()
    } else if kept.contains(hits.last()) {
        kept_in_order(hits.drop_last(), kept).push(hits.last())
    } else {
        kept_in_order(hits.drop_last(), kept)
    }
}

/// The index lies in the signature of the `i`-th parent of `d`.
pub open spec fn in_parent_signature(h: Map<usize, Parsed>, d: ParsedDeclarationsData, i: int, idx: usize) -> bool {
    let pd = decl_at(h, d.parents@[i])->0;
    pd.lines_signature.0 <= idx <= pd.lines_signature.1
}

/// The signature lines of the accepted parents of the hits (not counting hits kept for
/// having no parents).
pub open spec fn parent_lines(h: Map<usize, Parsed>, wanted: Seq<DeclarationsParentMatcher>, hits: Set<usize>) -> Set<usize> {
    Set::new(
        |idx: usize|
            exists|k: usize|
                #![trigger hits.contains(k)]
                hits.contains(k) && decl_at(h, k) is Some && !missing_ok(wanted, decl_at(h, k)->0) && exists|i: int|
                    parent_ok(h, wanted, decl_at(h, k)->0, i) && in_parent_signature(h, decl_at(h, k)->0, i, idx),
    )
}

/// Keeps the hits whose parents satisfy the constraints given with `d::parent/name`, and
/// collects the signature lines of those parents.
pub fn filter_parent_where(hashtree: &HashMap<usize, Parsed>, wanted: &[DeclarationsParentMatcher], hits_declares: &Vec<usize>) -> (r: (
    Vec<usize>,
    HashSet<usize>,
))
    ensures
        r.0@ == kept_in_order(hits_declares@, kept_by_parents(hashtree@, wanted@, hits_declares@.to_set())),
        r.0@.to_set() == kept_by_parents(hashtree@, wanted@, hits_declares@.to_set()),
        r.1@ == parent_lines(hashtree@, wanted@, hits_declares@.to_set()),
{
    let ghost hs = hits_declares@.to_set();
    let ghost kt = kept_by_parents(hashtree@, wanted@, hs);
    let ghost pt = parent_lines(hashtree@, wanted@, hs);
    let mut keeps: Vec<usize> = Vec::new();
    let mut parent_indices: HashSet<usize> = HashSet::new();
    let first_allows_missing = wanted.len() > 0 && parent_matcher_allows_missing_parent(&wanted[0]);
    let mut m: usize = 0;
    assert(hits_declares@.take(0) =~= Seq::<usize>::empty());
    while m < hits_declares.len()
        invariant
            m <= hits_declares@.len(),
            hs == hits_declares@.to_set(),
            first_allows_missing == (wanted@.len() > 0 && allows_missing(wanted@[0])),
            forall|x: usize| keeps@.contains(x) <==> exists|j: int| 0 <= j < m && #[trigger] hits_declares@[j] == x && kt.contains(x),
            keeps@ == kept_in_order(hits_declares@.take(m as int), kt),
            kt == kept_by_parents(hashtree@, wanted@, hs),
            parent_indices@ == Set::new(
                |idx: usize|
                    exists|j: int|
                        0 <= j < m && decl_at(hashtree@, #[trigger] hits_declares@[j]) is Some && !missing_ok(wanted@, decl_at(hashtree@, hits_declares@[j])->0)
                            && exists|i: int| parent_ok(hashtree@, wanted@, decl_at(hashtree@, hits_declares@[j])->0, i)
                            && in_parent_signature(hashtree@, decl_at(hashtree@, hits_declares@[j])->0, i, idx),
            ),
        decreases hits_declares.len() - m,
    {
        let key = hits_declares[m];
        let ghost keeps_before = keeps@;
        let ghost pset_before = parent_indices@;
        assert(forall|x: usize| keeps_before.contains(x) <==> exists|j: int| 0 <= j < m && #[trigger] hits_declares@[j] == x && kt.contains(x));
        assert(hs.contains(key));
        let mut keep_now = false;
        match declaration_at(hashtree, key) {
            Some(d) => {
                let ghost dd = decl_at(hashtree@, key)->0;
                if first_allows_missing && d.parents.len() == 0 {
                    keeps.push(key);
                    keep_now = true;
                    assert(kt.contains(key));
                } else {
                    assert(!missing_ok(wanted@, dd));
                    let mut i: usize = 0;
                    let mut any = false;
                    while i < wanted.len() && i < d.parents.len()
                        invariant
                            i <= wanted@.len(),
                            i <= d.parents@.len(),
                            *d == dd,
                            dd == decl_at(hashtree@, key)->0,
                            decl_at(hashtree@, key) is Some,
                            any == exists|i2: int| 0 <= i2 < i && parent_ok(hashtree@, wanted@, dd, i2),
                            parent_indices@ == pset_before.union(Set::new(
                                |idx: usize| exists|i2: int| 0 <= i2 < i && parent_ok(hashtree@, wanted@, dd, i2) && in_parent_signature(hashtree@, dd, i2, idx),
                            )),
                        decreases wanted.len() - i,
                    {
                        let pk = d.parents[i];
                        let ghost pbefore = parent_indices@;
                        match declaration_at(hashtree, pk) {
                            Some(pd) => {
                                if parent_matcher_matches(&wanted[i], pd.name.as_str()) {
                                    any = true;
                                    let (sig_start, sig_end) = pd.lines_signature;
                                    if sig_start <= sig_end {
                                        let mut ix = sig_start;
                                        while ix < sig_end
                                            invariant
                                                sig_start <= ix <= sig_end,
                                                parent_indices@ == pbefore.union(Set::new(|x: usize| sig_start <= x < ix)),
                                            decreases sig_end - ix,
                                        {
                                            parent_indices.insert(ix);
                                            assert(pbefore.union(Set::new(|x: usize| sig_start <= x < ix + 1)) =~= pbefore.union(Set::new(|x: usize| sig_start <= x < ix)).insert(ix));
                                            ix = ix + 1;
                                        }
                                        parent_indices.insert(sig_end);
                                    }
                                    assert(parent_ok(hashtree@, wanted@, dd, i as int));
                                    assert(parent_indices@ =~= pbefore.union(Set::new(|x: usize| sig_start <= x <= sig_end)));
                                } else {
                                    assert(!parent_ok(hashtree@, wanted@, dd, i as int));
                                }
                            },
                            None => {
                                assert(!parent_ok(hashtree@, wanted@, dd, i as int));
                            },
                        }
                        i = i + 1;
                        assert(parent_indices@ =~= pset_before.union(Set::new(
                            |idx: usize| exists|i2: int| 0 <= i2 < i && parent_ok(hashtree@, wanted@, dd, i2) && in_parent_signature(hashtree@, dd, i2, idx),
                        ))) by {
                            assert forall|idx: usize| parent_indices@.contains(idx) <==> pset_before.union(Set::new(
                                |idx: usize| exists|i2: int| 0 <= i2 < i && parent_ok(hashtree@, wanted@, dd, i2) && in_parent_signature(hashtree@, dd, i2, idx),
                            )).contains(idx) by {
                                if exists|i2: int| 0 <= i2 < i && parent_ok(hashtree@, wanted@, dd, i2) && in_parent_signature(hashtree@, dd, i2, idx) {
                                    let i2 = choose|i2: int| 0 <= i2 < i && parent_ok(hashtree@, wanted@, dd, i2) && in_parent_signature(hashtree@, dd, i2, idx);
                                    if i2 < i - 1 {
                                        assert(pbefore.contains(idx));
                                    }
                                }
                                if parent_indices@.contains(idx) && !pbefore.contains(idx) {
                                    assert(parent_ok(hashtree@, wanted@, dd, i - 1) && in_parent_signature(hashtree@, dd, i - 1, idx));
                                }
                            }
                        }
                    }
                    assert forall|i2: int| parent_ok(hashtree@, wanted@, dd, i2) implies 0 <= i2 < i by {}
                    if any {
                        keeps.push(key);
                        keep_now = true;
                    }
                    assert(any == kt.contains(key));
                    assert(parent_indices@ =~= pset_before.union(Set::new(
                        |idx: usize| exists|i2: int| parent_ok(hashtree@, wanted@, dd, i2) && in_parent_signature(hashtree@, dd, i2, idx),
                    )));
                }
            },
            None => {
                assert(!kt.contains(key));
            },
        }
        assert(keep_now == kt.contains(key));
        assert(keep_now ==> keeps@ == keeps_before.push(key));
        assert(!keep_now ==> keeps@ == keeps_before);
        assert(hits_declares@.take(m + 1).drop_last() =~= hits_declares@.take(m as int));
        assert(hits_declares@.take(m + 1).last() == key);
        m = m + 1;
        assert forall|x: usize| keeps@.contains(x) <==> exists|j: int| 0 <= j < m && #[trigger] hits_declares@[j] == x && kt.contains(x) by {
            if keeps@.contains(x) {
                if keeps_before.contains(x) {
                    let j = choose|j: int| 0 <= j < m - 1 && #[trigger] hits_declares@[j] == x && kt.contains(x);
                    assert(hits_declares@[j] == x);
                } else {
                    let jj = choose|jj: int| 0 <= jj < keeps@.len() && keeps@[jj] == x;
                    if jj < keeps_before.len() {
                        assert(keeps_before[jj] == x);
                    }
                    assert(hits_declares@[m - 1] == x);
                }
            }
            if exists|j: int| 0 <= j < m && #[trigger] hits_declares@[j] == x && kt.contains(x) {
                let j = choose|j: int| 0 <= j < m && #[trigger] hits_declares@[j] == x && kt.contains(x);
                if j < m - 1 {
                    assert(keeps_before.contains(x));
                    let jj = choose|jj: int| 0 <= jj < keeps_before.len() && keeps_before[jj] == x;
                    assert(keeps@[jj] == x);
                } else {
                    assert(keeps@[keeps_before.len() as int] == x);
                }
            }
        }
        assert(parent_indices@ =~= Set::new(
            |idx: usize|
                exists|j: int|
                    0 <= j < m && decl_at(hashtree@, #[trigger] hits_declares@[j]) is Some && !missing_ok(wanted@, decl_at(hashtree@, hits_declares@[j])->0)
                        && exists|i: int| parent_ok(hashtree@, wanted@, decl_at(hashtree@, hits_declares@[j])->0, i)
                        && in_parent_signature(hashtree@, decl_at(hashtree@, hits_declares@[j])->0, i, idx),
        )) by {
            assert forall|idx: usize| parent_indices@.contains(idx) <==> (exists|j: int|
                    0 <= j < m && decl_at(hashtree@, #[trigger] hits_declares@[j]) is Some && !missing_ok(wanted@, decl_at(hashtree@, hits_declares@[j])->0)
                        && exists|i: int| parent_ok(hashtree@, wanted@, decl_at(hashtree@, hits_declares@[j])->0, i)
                        && in_parent_signature(hashtree@, decl_at(hashtree@, hits_declares@[j])->0, i, idx)) by {
                if parent_indices@.contains(idx) && !pset_before.contains(idx) {
                    assert(hits_declares@[m - 1] == key);
                }
                if exists|j: int|
                    0 <= j < m && decl_at(hashtree@, #[trigger] hits_declares@[j]) is Some && !missing_ok(wanted@, decl_at(hashtree@, hits_declares@[j])->0)
                        && exists|i: int| parent_ok(hashtree@, wanted@, decl_at(hashtree@, hits_declares@[j])->0, i)
                        && in_parent_signature(hashtree@, decl_at(hashtree@, hits_declares@[j])->0, i, idx) {
                    let j = choose|j: int|
                    0 <= j < m && decl_at(hashtree@, #[trigger] hits_declares@[j]) is Some && !missing_ok(wanted@, decl_at(hashtree@, hits_declares@[j])->0)
                        && exists|i: int| parent_ok(hashtree@, wanted@, decl_at(hashtree@, hits_declares@[j])->0, i)
                        && in_parent_signature(hashtree@, decl_at(hashtree@, hits_declares@[j])->0, i, idx);
                    if j < m - 1 {
                        assert(pset_before.contains(idx));
                    }
                }
            }
        }
    }
    assert forall|x: usize| keeps@.to_set().contains(x) <==> kt.contains(x) by {
        if kt.contains(x) {
            let j = choose|j: int| 0 <= j < hits_declares@.len() && hits_declares@[j] == x;
            assert(keeps@.contains(x));
        }
    }
    assert(keeps@.to_set() =~= kt);
    assert forall|idx: usize| parent_indices@.contains(idx) <==> pt.contains(idx) by {
        if pt.contains(idx) {
            let k = choose|k: usize|
                #![trigger hs.contains(k)]
                hs.contains(k) && decl_at(hashtree@, k) is Some && !missing_ok(wanted@, decl_at(hashtree@, k)->0) && exists|i: int|
                    parent_ok(hashtree@, wanted@, decl_at(hashtree@, k)->0, i) && in_parent_signature(hashtree@, decl_at(hashtree@, k)->0, i, idx);
            let j = choose|j: int| 0 <= j < hits_declares@.len() && hits_declares@[j] == k;
            assert(decl_at(hashtree@, hits_declares@[j]) is Some);
        }
        if parent_indices@.contains(idx) {
            let j = choose|j: int|
                0 <= j < hits_declares@.len() && decl_at(hashtree@, #[trigger] hits_declares@[j]) is Some && !missing_ok(wanted@, decl_at(hashtree@, hits_declares@[j])->0)
                    && exists|i: int| parent_ok(hashtree@, wanted@, decl_at(hashtree@, hits_declares@[j])->0, i)
                    && in_parent_signature(hashtree@, decl_at(hashtree@, hits_declares@[j])->0, i, idx);
            assert(hs.contains(hits_declares@[j]));
        }
    }
    assert(parent_indices@ =~= pt);
    assert(hits_declares@.take(hits_declares@.len() as int) =~= hits_declares@);
    (keeps, parent_indices)
}

/// The signature lines (below `len`) of the declarations at the keys.
pub open spec fn signature_lines(h: Map<usize, Parsed>, keys: Set<usize>, len: int) -> Set<usize> {
    Set::new(
        |idx: usize|
            idx < len && exists|k: usize|
                #![trigger keys.contains(k)]
                keys.contains(k) && decl_at(h, k) is Some && decl_at(h, k)->0.lines_signature.0 <= idx
                    <= decl_at(h, k)->0.lines_signature.1,
    )
}

/// The first signature lines of the declarations at the keys.
pub open spec fn signature_starts(h: Map<usize, Parsed>, keys: Set<usize>) -> Set<usize> {
    Set::new(|s: usize| exists|k: usize| #![trigger keys.contains(k)] keys.contains(k) && decl_at(h, k) is Some && decl_at(h, k)->0.lines_signature.0 == s)
}

/// The last signature lines of the declarations at the keys.
pub open spec fn signature_ends(h: Map<usize, Parsed>, keys: Set<usize>) -> Set<usize> {
    Set::new(|s: usize| exists|k: usize| #![trigger keys.contains(k)] keys.contains(k) && decl_at(h, k) is Some && decl_at(h, k)->0.lines_signature.1 == s)
}

/// Collects the signature lines of the hits, and their first and last lines.
fn signatures(hashtree: &HashMap<usize, Parsed>, keys: &Vec<usize>, len: usize) -> (r: (HashSet<usize>, Vec<usize>, Vec<usize>))
    ensures
        r.0@ == signature_lines(hashtree@, keys@.to_set(), len as int),
        r.1@.to_set() == signature_starts(hashtree@, keys@.to_set()),
        r.2@.to_set() == signature_ends(hashtree@, keys@.to_set()),
{
    let ghost ks = keys@.to_set();
    let mut flip: HashSet<usize> = HashSet::new();
    let mut starts: Vec<usize> = Vec::new();
    let mut ends: Vec<usize> = Vec::new();
    let mut m: usize = 0;
    while m < keys.len()
        invariant
            m <= keys@.len(),
            ks == keys@.to_set(),
            flip@ == Set::new(
                |idx: usize|
                    idx < len && exists|j: int|
                        0 <= j < m && decl_at(hashtree@, #[trigger] keys@[j]) is Some && decl_at(hashtree@, keys@[j])->0.lines_signature.0 <= idx
                            <= decl_at(hashtree@, keys@[j])->0.lines_signature.1,
            ),
            forall|s: usize| starts@.contains(s) <==> exists|j: int| 0 <= j < m && decl_at(hashtree@, #[trigger] keys@[j]) is Some && decl_at(hashtree@, keys@[j])->0.lines_signature.0 == s,
            forall|s: usize| ends@.contains(s) <==> exists|j: int| 0 <= j < m && decl_at(hashtree@, #[trigger] keys@[j]) is Some && decl_at(hashtree@, keys@[j])->0.lines_signature.1 == s,
        decreases keys.len() - m,
    {
        let k = keys[m];
        let ghost fb = flip@;
        let ghost sb = starts@;
        let ghost eb = ends@;
        assert(forall|s: usize| sb.contains(s) <==> exists|j: int| 0 <= j < m && decl_at(hashtree@, #[trigger] keys@[j]) is Some && decl_at(hashtree@, keys@[j])->0.lines_signature.0 == s);
        assert(forall|s: usize| eb.contains(s) <==> exists|j: int| 0 <= j < m && decl_at(hashtree@, #[trigger] keys@[j]) is Some && decl_at(hashtree@, keys@[j])->0.lines_signature.1 == s);
        let ghost dk = decl_at(hashtree@, k);
        let info: Option<(usize, usize)> = match declaration_at(hashtree, k) {
            Some(d) => Some(d.lines_signature),
            None => None,
        };
        assert(dk is Some <==> info is Some);
        assert(dk is Some ==> info->0 == dk->0.lines_signature);
        match info {
            Some(sig) => {
                let (sig_start, sig_end) = sig;
                starts.push(sig_start);
                ends.push(sig_end);
                if sig_start < len {
                    let hi = if sig_end < len { sig_end } else { len - 1 };
                    crate::utilities::insert_range(&mut flip, sig_start, hi);
                    assert(flip@ =~= fb.union(Set::new(|idx: usize| idx < len && sig_start <= idx <= sig_end)));
                } else {
                    assert(fb.union(Set::new(|idx: usize| idx < len && sig_start <= idx <= sig_end)) =~= fb);
                }
                assert forall|s: usize| starts@.contains(s) <==> (sb.contains(s) || s == sig_start) by {
                    if sb.contains(s) {
                        let j = choose|j: int| 0 <= j < sb.len() && sb[j] == s;
                        assert(starts@[j] == s);
                    }
                    if s == sig_start {
                        assert(starts@[sb.len() as int] == s);
                    }
                    if starts@.contains(s) {
                        let j = choose|j: int| 0 <= j < starts@.len() && starts@[j] == s;
                        if j < sb.len() {
                            assert(sb[j] == s);
                        }
                    }
                }
                assert forall|s: usize| ends@.contains(s) <==> (eb.contains(s) || s == sig_end) by {
                    if eb.contains(s) {
                        let j = choose|j: int| 0 <= j < eb.len() && eb[j] == s;
                        assert(ends@[j] == s);
                    }
                    if s == sig_end {
                        assert(ends@[eb.len() as int] == s);
                    }
                    if ends@.contains(s) {
                        let j = choose|j: int| 0 <= j < ends@.len() && ends@[j] == s;
                        if j < eb.len() {
                            assert(eb[j] == s);
                        }
                    }
                }
            },
            None => {},
        }
        assert(starts@ == if dk is Some { sb.push(dk->0.lines_signature.0) } else { sb });
        assert(ends@ == if dk is Some { eb.push(dk->0.lines_signature.1) } else { eb });
        m = m + 1;
        assert(flip@ =~= Set::new(
            |idx: usize|
                idx < len && exists|j: int|
                    0 <= j < m && decl_at(hashtree@, #[trigger] keys@[j]) is Some && decl_at(hashtree@, keys@[j])->0.lines_signature.0 <= idx
                        <= decl_at(hashtree@, keys@[j])->0.lines_signature.1,
        )) by {
            assert forall|idx: usize| #![auto] flip@.contains(idx) <==> (idx < len && exists|j: int|
                    0 <= j < m && decl_at(hashtree@, #[trigger] keys@[j]) is Some && decl_at(hashtree@, keys@[j])->0.lines_signature.0 <= idx
                        <= decl_at(hashtree@, keys@[j])->0.lines_signature.1) by {
                if flip@.contains(idx) && !fb.contains(idx) {
                    assert(keys@[m - 1] == k);
                }
                if idx < len && exists|j: int|
                    0 <= j < m && decl_at(hashtree@, #[trigger] keys@[j]) is Some && decl_at(hashtree@, keys@[j])->0.lines_signature.0 <= idx
                        <= decl_at(hashtree@, keys@[j])->0.lines_signature.1 {
                    let j = choose|j: int|
                    0 <= j < m && decl_at(hashtree@, #[trigger] keys@[j]) is Some && decl_at(hashtree@, keys@[j])->0.lines_signature.0 <= idx
                        <= decl_at(hashtree@, keys@[j])->0.lines_signature.1;
                    if j < m - 1 {
                        assert(fb.contains(idx));
                    }
                }
            }
        }
        assert forall|s: usize| starts@.contains(s) <==> exists|j: int| 0 <= j < m && decl_at(hashtree@, #[trigger] keys@[j]) is Some && decl_at(hashtree@, keys@[j])->0.lines_signature.0 == s by {
            if exists|j: int| 0 <= j < m && decl_at(hashtree@, #[trigger] keys@[j]) is Some && decl_at(hashtree@, keys@[j])->0.lines_signature.0 == s {
                let j = choose|j: int| 0 <= j < m && decl_at(hashtree@, #[trigger] keys@[j]) is Some && decl_at(hashtree@, keys@[j])->0.lines_signature.0 == s;
                if j < m - 1 {
                    assert(sb.contains(s));
                } else {
                    assert(keys@[j] == k);
                    assert(dk is Some && s == dk->0.lines_signature.0);
                    assert(starts@[sb.len() as int] == s);
                    assert(starts@.contains(s));
                }
            }
            if starts@.contains(s) {
                let jj = choose|jj: int| 0 <= jj < starts@.len() && starts@[jj] == s;
                if jj < sb.len() {
                    assert(sb[jj] == s);
                }
                if sb.contains(s) {
                    let j = choose|j: int| 0 <= j < m - 1 && decl_at(hashtree@, #[trigger] keys@[j]) is Some && decl_at(hashtree@, keys@[j])->0.lines_signature.0 == s;
                    assert(decl_at(hashtree@, keys@[j]) is Some);
                } else {
                    assert(keys@[m - 1] == k);
                    assert(dk is Some);
                    assert(s == dk->0.lines_signature.0);
                    assert(decl_at(hashtree@, keys@[m - 1]) is Some);
                }
            }
        }
        assert forall|s: usize| ends@.contains(s) <==> exists|j: int| 0 <= j < m && decl_at(hashtree@, #[trigger] keys@[j]) is Some && decl_at(hashtree@, keys@[j])->0.lines_signature.1 == s by {
            if exists|j: int| 0 <= j < m && decl_at(hashtree@, #[trigger] keys@[j]) is Some && decl_at(hashtree@, keys@[j])->0.lines_signature.1 == s {
                let j = choose|j: int| 0 <= j < m && decl_at(hashtree@, #[trigger] keys@[j]) is Some && decl_at(hashtree@, keys@[j])->0.lines_signature.1 == s;
                if j < m - 1 {
                    assert(eb.contains(s));
                } else {
                    assert(keys@[j] == k);
                    assert(dk is Some && s == dk->0.lines_signature.1);
                    assert(ends@[eb.len() as int] == s);
                    assert(ends@.contains(s));
                }
            }
            if ends@.contains(s) {
                let jj = choose|jj: int| 0 <= jj < ends@.len() && ends@[jj] == s;
                if jj < eb.len() {
                    assert(eb[jj] == s);
                }
                if eb.contains(s) {
                    let j = choose|j: int| 0 <= j < m - 1 && decl_at(hashtree@, #[trigger] keys@[j]) is Some && decl_at(hashtree@, keys@[j])->0.lines_signature.1 == s;
                    assert(decl_at(hashtree@, keys@[j]) is Some);
                } else {
                    assert(keys@[m - 1] == k);
                    assert(dk is Some);
                    assert(s == dk->0.lines_signature.1);
                    assert(decl_at(hashtree@, keys@[m - 1]) is Some);
                }
            }
        }
    }
    assert forall|idx: usize| flip@.contains(idx) <==> signature_lines(hashtree@, ks, len as int).contains(idx) by {
        if signature_lines(hashtree@, ks, len as int).contains(idx) {
            let k = choose|k: usize|
                #![trigger ks.contains(k)]
                ks.contains(k) && decl_at(hashtree@, k) is Some && decl_at(hashtree@, k)->0.lines_signature.0 <= idx
                    <= decl_at(hashtree@, k)->0.lines_signature.1;
            let j = choose|j: int| 0 <= j < keys@.len() && keys@[j] == k;
            assert(decl_at(hashtree@, keys@[j]) is Some);
        }
        if flip@.contains(idx) {
            let j = choose|j: int|
                0 <= j < keys@.len() && decl_at(hashtree@, #[trigger] keys@[j]) is Some && decl_at(hashtree@, keys@[j])->0.lines_signature.0 <= idx
                    <= decl_at(hashtree@, keys@[j])->0.lines_signature.1;
            assert(ks.contains(keys@[j]));
        }
    }
    assert(flip@ =~= signature_lines(hashtree@, ks, len as int));
    assert forall|s: usize| starts@.to_set().contains(s) <==> signature_starts(hashtree@, ks).contains(s) by {
        if signature_starts(hashtree@, ks).contains(s) {
            let k = choose|k: usize| #![trigger ks.contains(k)] ks.contains(k) && decl_at(hashtree@, k) is Some && decl_at(hashtree@, k)->0.lines_signature.0 == s;
            let j = choose|j: int| 0 <= j < keys@.len() && keys@[j] == k;
            assert(decl_at(hashtree@, keys@[j]) is Some);
        }
        if starts@.contains(s) {
            let j = choose|j: int| 0 <= j < keys@.len() && decl_at(hashtree@, #[trigger] keys@[j]) is Some && decl_at(hashtree@, keys@[j])->0.lines_signature.0 == s;
            assert(ks.contains(keys@[j]));
        }
    }
    assert(starts@.to_set() =~= signature_starts(hashtree@, ks));
    assert forall|s: usize| ends@.to_set().contains(s) <==> signature_ends(hashtree@, ks).contains(s) by {
        if signature_ends(hashtree@, ks).contains(s) {
            let k = choose|k: usize| #![trigger ks.contains(k)] ks.contains(k) && decl_at(hashtree@, k) is Some && decl_at(hashtree@, k)->0.lines_signature.1 == s;
            let j = choose|j: int| 0 <= j < keys@.len() && keys@[j] == k;
            assert(decl_at(hashtree@, keys@[j]) is Some);
        }
        if ends@.contains(s) {
            let j = choose|j: int| 0 <= j < keys@.len() && decl_at(hashtree@, #[trigger] keys@[j]) is Some && decl_at(hashtree@, keys@[j])->0.lines_signature.1 == s;
            assert(ks.contains(keys@[j]));
        }
    }
    assert(ends@.to_set() =~= signature_ends(hashtree@, ks));
    (flip, starts, ends)
}

/// The body lines of a declaration that has a body.
pub open spec fn body_of(d: ParsedDeclarationsData) -> (usize, usize) {
    d.lines_body->0
}

/// The body lines of the declarations at the keys, cut to `0..len`.
pub open spec fn body_lines(h: Map<usize, Parsed>, keys: Set<usize>, len: int) -> Set<usize> {
    Set::new(
        |idx: usize|
            len > 0 && exists|k: usize|
                #![trigger keys.contains(k)]
                keys.contains(k) && decl_at(h, k) is Some && decl_at(h, k)->0.lines_body is Some && (if body_of(decl_at(h, k)->0).0 < len - 1 {
                    body_of(decl_at(h, k)->0).0 as int
                } else {
                    len - 1
                }) <= idx <= (if body_of(decl_at(h, k)->0).1 < len - 1 {
                    body_of(decl_at(h, k)->0).1 as int
                } else {
                    len - 1
                }),
    )
}

/// Makes visible the bodies of the declarations at the hits.
fn show_body_from_hashtree(hits: &Vec<usize>, lines: Vec<LineStatus>, hashtree: &HashMap<usize, Parsed>) -> (r: Vec<
    LineStatus,
>)
    ensures
        lines_view(r@) == show_views(lines_view(lines@), body_lines(hashtree@, hits@.to_set(), lines@.len() as int)),
{
    let ghost ks = hits@.to_set();
    let total = lines.len();
    let mut ctx: HashSet<usize> = HashSet::new();
    let mut m: usize = 0;
    while m < hits.len()
        invariant
            m <= hits@.len(),
            total == lines@.len(),
            ctx@ == Set::new(
                |idx: usize|
                    total > 0 && exists|j: int|
                        0 <= j < m && decl_at(hashtree@, #[trigger] hits@[j]) is Some && decl_at(hashtree@, hits@[j])->0.lines_body is Some
                            && (if body_of(decl_at(hashtree@, hits@[j])->0).0 < total - 1 {
                            body_of(decl_at(hashtree@, hits@[j])->0).0 as int
                        } else {
                            total - 1
                        }) <= idx <= (if body_of(decl_at(hashtree@, hits@[j])->0).1 < total - 1 {
                            body_of(decl_at(hashtree@, hits@[j])->0).1 as int
                        } else {
                            total - 1
                        }),
            ),
        decreases hits.len() - m,
    {
        let k = hits[m];
        let ghost cb = ctx@;
        let ghost dk = decl_at(hashtree@, k);
        let body: Option<(usize, usize)> = match declaration_at(hashtree, k) {
            Some(d) => d.lines_body,
            None => None,
        };
        assert(body == if dk is Some { dk->0.lines_body } else { None });
        if let Some((start, end)) = body {
            if total > 0 {
                let lo = if start < total - 1 { start } else { total - 1 };
                let hi = if end < total - 1 { end } else { total - 1 };
                crate::utilities::insert_range(&mut ctx, lo, hi);
            }
        }
        m = m + 1;
        assert(ctx@ =~= Set::new(
            |idx: usize|
                total > 0 && exists|j: int|
                    0 <= j < m && decl_at(hashtree@, #[trigger] hits@[j]) is Some && decl_at(hashtree@, hits@[j])->0.lines_body is Some
                        && (if body_of(decl_at(hashtree@, hits@[j])->0).0 < total - 1 {
                        body_of(decl_at(hashtree@, hits@[j])->0).0 as int
                    } else {
                        total - 1
                    }) <= idx <= (if body_of(decl_at(hashtree@, hits@[j])->0).1 < total - 1 {
                        body_of(decl_at(hashtree@, hits@[j])->0).1 as int
                    } else {
                        total - 1
                    }),
        )) by {
            assert forall|idx: usize| #![auto] ctx@.contains(idx) ==> !cb.contains(idx) ==> hits@[m - 1] == k by {}
        }
    }
    assert forall|idx: usize| ctx@.contains(idx) <==> body_lines(hashtree@, ks, total as int).contains(idx) by {
        if body_lines(hashtree@, ks, total as int).contains(idx) {
            let k = choose|k: usize|
                #![trigger ks.contains(k)]
                ks.contains(k) && decl_at(hashtree@, k) is Some && decl_at(hashtree@, k)->0.lines_body is Some && (if body_of(decl_at(hashtree@, k)->0).0 < total - 1 {
                    body_of(decl_at(hashtree@, k)->0).0 as int
                } else {
                    total - 1
                }) <= idx <= (if body_of(decl_at(hashtree@, k)->0).1 < total - 1 {
                    body_of(decl_at(hashtree@, k)->0).1 as int
                } else {
                    total - 1
                });
            let j = choose|j: int| 0 <= j < hits@.len() && hits@[j] == k;
            assert(decl_at(hashtree@, hits@[j]) is Some);
        }
        if ctx@.contains(idx) {
            let j = choose|j: int|
                0 <= j < hits@.len() && decl_at(hashtree@, #[trigger] hits@[j]) is Some && decl_at(hashtree@, hits@[j])->0.lines_body is Some
                    && (if body_of(decl_at(hashtree@, hits@[j])->0).0 < total - 1 {
                    body_of(decl_at(hashtree@, hits@[j])->0).0 as int
                } else {
                    total - 1
                }) <= idx <= (if body_of(decl_at(hashtree@, hits@[j])->0).1 < total - 1 {
                    body_of(decl_at(hashtree@, hits@[j])->0).1 as int
                } else {
                    total - 1
                });
            assert(ks.contains(hits@[j]));
        }
    }
    assert(ctx@ =~= body_lines(hashtree@, ks, total as int));
    set_visibles(lines, &ctx)
}

/// The line shown for the `i`-th parent of `d`: the parent's signature lines when it is
/// a declaration, else the parent's key.
pub open spec fn shows_parent(h: Map<usize, Parsed>, d: ParsedDeclarationsData, i: int, idx: usize) -> bool {
    let pk = d.parents@[i];
    match decl_at(h, pk) {
        Some(pd) => pd.lines_signature.0 <= idx <= pd.lines_signature.1,
        None => idx == pk,
    }
}

/// The lines that show the owners of the declarations at the keys.
pub open spec fn owner_parent_lines(h: Map<usize, Parsed>, keys: Set<usize>) -> Set<usize> {
    Set::new(
        |idx: usize|
            exists|k: usize|
                #![trigger keys.contains(k)]
                keys.contains(k) && decl_at(h, k) is Some && exists|i: int|
                    0 <= i < decl_at(h, k)->0.parents@.len() && shows_parent(h, decl_at(h, k)->0, i, idx),
    )
}

/// The lines to show for the parents of one declaration.
fn parent_lines_of(hashtree: &HashMap<usize, Parsed>, parents: &Vec<usize>, ctx: &mut HashSet<usize>, Ghost(d): Ghost<ParsedDeclarationsData>)
    requires
        d.parents@ == parents@,
    ensures
        final(ctx)@ == old(ctx)@.union(Set::new(|idx: usize| exists|i: int| 0 <= i < parents@.len() && shows_parent(hashtree@, d, i, idx))),
{
    let ghost start = ctx@;
    let mut i: usize = 0;
    while i < parents.len()
        invariant
            i <= parents@.len(),
            d.parents@ == parents@,
            ctx@ == start.union(Set::new(|idx: usize| exists|i2: int| 0 <= i2 < i && shows_parent(hashtree@, d, i2, idx))),
        decreases parents.len() - i,
    {
        let pk = parents[i];
        let ghost before = ctx@;
        let sig: Option<(usize, usize)> = match declaration_at(hashtree, pk) {
            Some(pd) => Some(pd.lines_signature),
            None => None,
        };
        match sig {
            Some(s) => {
                crate::utilities::insert_range(ctx, s.0, s.1);
            },
            None => {
                ctx.insert(pk);
            },
        }
        assert(ctx@ == before.union(Set::new(|idx: usize| shows_parent(hashtree@, d, i as int, idx))));
        i = i + 1;
        assert(ctx@ =~= start.union(Set::new(|idx: usize| exists|i2: int| 0 <= i2 < i && shows_parent(hashtree@, d, i2, idx)))) by {
            assert forall|idx: usize| #![auto] ctx@.contains(idx) <==> start.union(Set::new(|idx: usize| exists|i2: int| 0 <= i2 < i && shows_parent(hashtree@, d, i2, idx))).contains(idx) by {
                if exists|i2: int| 0 <= i2 < i && shows_parent(hashtree@, d, i2, idx) {
                    let i2 = choose|i2: int| 0 <= i2 < i && shows_parent(hashtree@, d, i2, idx);
                    if i2 < i - 1 {
                        assert(before.contains(idx));
                    }
                }
            }
        }
    }
}

/// Makes visible the owners of the declarations at the hits: the signature of each
/// parent (or the parent's line when it is not a declaration).
fn show_owner_from_hashtree(hits: &Vec<usize>, lines: Vec<LineStatus>, hashtree: &HashMap<usize, Parsed>) -> (r: Vec<
    LineStatus,
>)
    ensures
        lines_view(r@) == show_views(lines_view(lines@), owner_parent_lines(hashtree@, hits@.to_set())),
{
    let ghost ks = hits@.to_set();
    let mut ctx: HashSet<usize> = HashSet::new();
    let mut m: usize = 0;
    while m < hits.len()
        invariant
            m <= hits@.len(),
            ctx@ == Set::new(
                |idx: usize|
                    exists|j: int|
                        0 <= j < m && decl_at(hashtree@, #[trigger] hits@[j]) is Some && exists|i: int|
                            0 <= i < decl_at(hashtree@, hits@[j])->0.parents@.len() && shows_parent(hashtree@, decl_at(hashtree@, hits@[j])->0, i, idx),
            ),
        decreases hits.len() - m,
    {
        let k = hits[m];
        let ghost cb = ctx@;
        let ghost dk = decl_at(hashtree@, k);
        match declaration_at(hashtree, k) {
            Some(d) => {
                parent_lines_of(hashtree, &d.parents, &mut ctx, Ghost(*d));
            },
            None => {},
        }
        assert(ctx@ == if dk is Some {
            cb.union(Set::new(|idx: usize| exists|i: int| 0 <= i < dk->0.parents@.len() && shows_parent(hashtree@, dk->0, i, idx)))
        } else {
            cb
        });
        m = m + 1;
        assert(ctx@ =~= Set::new(
            |idx: usize|
                exists|j: int|
                    0 <= j < m && decl_at(hashtree@, #[trigger] hits@[j]) is Some && exists|i: int|
                        0 <= i < decl_at(hashtree@, hits@[j])->0.parents@.len() && shows_parent(hashtree@, decl_at(hashtree@, hits@[j])->0, i, idx),
        )) by {
            assert forall|idx: usize| #![auto] ctx@.contains(idx) && !cb.contains(idx) ==> hits@[m - 1] == k by {}
        }
    }
    assert forall|idx: usize| ctx@.contains(idx) <==> owner_parent_lines(hashtree@, ks).contains(idx) by {
        if owner_parent_lines(hashtree@, ks).contains(idx) {
            let k = choose|k: usize|
                #![trigger ks.contains(k)]
                ks.contains(k) && decl_at(hashtree@, k) is Some && exists|i: int|
                    0 <= i < decl_at(hashtree@, k)->0.parents@.len() && shows_parent(hashtree@, decl_at(hashtree@, k)->0, i, idx);
            let j = choose|j: int| 0 <= j < hits@.len() && hits@[j] == k;
            assert(decl_at(hashtree@, hits@[j]) is Some);
        }
        if ctx@.contains(idx) {
            let j = choose|j: int|
                0 <= j < hits@.len() && decl_at(hashtree@, #[trigger] hits@[j]) is Some && exists|i: int|
                    0 <= i < decl_at(hashtree@, hits@[j])->0.parents@.len() && shows_parent(hashtree@, decl_at(hashtree@, hits@[j])->0, i, idx);
            assert(ks.contains(hits@[j]));
        }
    }
    assert(ctx@ =~= owner_parent_lines(hashtree@, ks));
    set_visibles(lines, &ctx)
}

/// The extensions for which `o` shows the owners of declarations.
pub open spec fn owner_extension(ext: Seq<char>) -> bool {
    ext == "py"@ || ext == "rs"@ || ext == "js"@ || ext == "mjs"@ || ext == "cjs"@
}

fn is_owner_extension(ext: &str) -> (b: bool)
    ensures
        b == owner_extension(ext@),
{
    crate::text::str_eq(ext, "py") || crate::text::str_eq(ext, "rs") || crate::text::str_eq(ext, "js")
        || crate::text::str_eq(ext, "mjs") || crate::text::str_eq(ext, "cjs")
}

/// The parent constraints of the qualifier (none when they were not built).
pub open spec fn matchers_of(q: DeclarationsCommandQualifier) -> Seq<DeclarationsParentMatcher> {
    match q.parent_matchers {
        Some(v) => v@,
        None => Seq::empty(),
    }
}

impl CDeclarations {
    /// The declarations whose names are hits, after the `wt=` filter.
    pub open spec fn typed_hits(self, h: Map<usize, Parsed>) -> Set<usize> {
        let h0 = name_hits(self.searcher, self.qualifier.searchqualifier, h);
        match self.qualifier.where_type {
            Some(t) => nodetype_filter(t@, h, h0),
            None => h0,
        }
    }

    /// The declarations shown: the typed hits, kept by the parent constraints when there
    /// are any.
    pub open spec fn shown_hits(self, h: Map<usize, Parsed>) -> Set<usize> {
        if self.qualifier.parents is Some {
            kept_by_parents(h, matchers_of(self.qualifier), self.typed_hits(h))
        } else {
            self.typed_hits(h)
        }
    }

    /// The signature lines of the accepted parents.
    pub open spec fn parents_shown(self, h: Map<usize, Parsed>) -> Set<usize> {
        if self.qualifier.parents is Some {
            parent_lines(h, matchers_of(self.qualifier), self.typed_hits(h))
        } else {
            Set::empty()
        }
    }

    /// What `apply` gives: the parents' and the hits' signatures shown (with context),
    /// keys set, bodies and owners shown as asked.
    pub open spec fn applied(self, lines: Seq<LineStatus>, h: Map<usize, Parsed>, out: Seq<LineStatus>) -> bool {
        let q = self.qualifier.searchqualifier;
        let len = lines.len() as int;
        let k = self.shown_hits(h);
        let sig = signature_lines(h, k, len);
        let before = if q.before > 0 {
            extend_set(signature_starts(h, k), -q.before, len)
        } else {
            Set::empty()
        };
        let after = if q.after > 0 {
            extend_set(signature_ends(h, k), q.after as int, len)
        } else {
            Set::empty()
        };
        let v1 = show_views(lines_view(lines), self.parents_shown(h));
        let v2 = show_views(v1, sig.union(before).union(after));
        let v3 = match q.set_key {
            Some(key) => key_views(v2, sig, key@),
            None => v2,
        };
        let v4 = if self.qualifier.showbody {
            show_views(v3, body_lines(h, k, len))
        } else {
            v3
        };
        let v5 = if q.showowner && owner_extension(self.qualifier.extension@) {
            show_views(v4, owner_parent_lines(h, k))
        } else {
            v4
        };
        lines_view(out) == v5
    }
}

impl CommandActions for CDeclarations {
    fn apply(&self, lines: Vec<LineStatus>, hashtree: &HashMap<usize, Parsed>) -> (r: Vec<LineStatus>)
        ensures
            self.applied(lines@, hashtree@, r@),
    {
        let sq = &self.qualifier.searchqualifier;
        let mut hit_keys = declaration_hits(&self.searcher, sq, hashtree);
        match &self.qualifier.where_type {
            Some(types_) => {
                hit_keys = filter_by_nodetype(types_.as_str(), hashtree, hit_keys);
            },
            None => {},
        }
        assert(hit_keys@.to_set() == self.typed_hits(hashtree@));
        let parents_to_show: HashSet<usize> = if self.qualifier.parents.is_some() {
            let (keeps, parent_indices) = match &self.qualifier.parent_matchers {
                Some(ms) => filter_parent_where(hashtree, ms.as_slice(), &hit_keys),
                None => {
                    let empty: Vec<DeclarationsParentMatcher> = Vec::new();
                    filter_parent_where(hashtree, empty.as_slice(), &hit_keys)
                },
            };
            hit_keys = keeps;
            parent_indices
        } else {
            HashSet::new()
        };
        assert(hit_keys@.to_set() == self.shown_hits(hashtree@));
        assert(parents_to_show@ == self.parents_shown(hashtree@));
        let (mut flip_to_visibles, signature_starts, signature_ends) = signatures(hashtree, &hit_keys, lines.len());
        let ghost saved = flip_to_visibles@;
        if sq.before > 0 {
            bounded_extend(&mut flip_to_visibles, signature_starts.as_slice(), -sq.before, lines.as_slice());
        }
        if sq.after > 0 {
            bounded_extend(&mut flip_to_visibles, signature_ends.as_slice(), sq.after, lines.as_slice());
        }
        let ghost len = lines@.len() as int;
        assert(flip_to_visibles@ =~= saved.union(if sq.before > 0 {
            extend_set(signature_starts@.to_set(), -sq.before, len)
        } else {
            Set::empty()
        }).union(if sq.after > 0 {
            extend_set(signature_ends@.to_set(), sq.after as int, len)
        } else {
            Set::empty()
        }));
        let mut result_lines = set_visibles(lines, &parents_to_show);
        result_lines = set_visibles(result_lines, &flip_to_visibles);
        match &sq.set_key {
            Some(set_key) => {
                let (saved_set, _, _) = signatures(hashtree, &hit_keys, result_lines.len());
                result_lines = update_meta_key(result_lines, &saved_set, set_key.as_str());
            },
            None => {},
        }
        if self.qualifier.showbody {
            result_lines = show_body_from_hashtree(&hit_keys, result_lines, hashtree);
        }
        if sq.showowner && is_owner_extension(self.qualifier.extension.as_str()) {
            result_lines = show_owner_from_hashtree(&hit_keys, result_lines, hashtree);
        }
        result_lines
    }

    fn get_constant_definition(&self) -> (r: CommandDefinition)
        ensures
            r.name@ == command_prefix::DECLARATIONS@,
            !r.mutates_line_text,
    {
        get_constant_definition()
    }
}

/// The extension of the configured file when a grammar parses it.
pub open spec fn declaration_extension(file_path: Seq<char>, plugin_extensions: Seq<String>) -> Option<Seq<char>> {
    match crate::utilities::extension_spec(file_path) {
        Some(ext) => if crate::treesitterparser::parses_extension(ext, plugin_extensions) {
            Some(ext)
        } else {
            None
        },
        None => None,
    }
}

/// The extension named in the report of a file without a grammar (empty when the file
/// has none).
pub open spec fn reported_extension(file_path: Seq<char>) -> Seq<char> {
    match crate::utilities::extension_spec(file_path) {
        Some(e) => e,
        None => Seq::empty(),
    }
}

/// The no-op that `declarations` becomes for a file without a grammar.
pub open spec fn no_grammar_noop(r: crate::Command, pattern: Seq<char>, flags: Seq<char>, file_path: Seq<char>) -> bool {
    r matches crate::Command::CNoop(n) && n.text@ == "pattern="@ + pattern + ",flags="@ + flags
        && n.message@ == "declarations:  no grammar found for extension="@ + reported_extension(file_path)
}

/// What the flags left over after the search flags give to `declarations`: `b` shows bodies,
/// `wt=<letters>.` filters by declaration type, and the rest is not understood.
pub open spec fn declaration_flags_spec(unused: Seq<char>) -> (Seq<char>, bool, Option<Seq<char>>) {
    let b = crate::flag_utilities::contains_consume_spec(commandflags::show_body_def().value@, unused);
    let wt = crate::flag_utilities::flag_capture_spec(commandflags::wheretype_def().value@, b.0);
    (wt.0, b.1, wt.1)
}

/// What `from_declarations` builds: the declarations command, or a no-op when the file has
/// no grammar or a pattern is not a valid regex.
pub open spec fn declarations_command_spec(r: crate::Command, pattern: Seq<char>, flags: Seq<char>, arg: Seq<char>, config: crate::common::AppConfig, plugin_extensions: Seq<String>) -> bool {
    let ext = declaration_extension(config.file_path@, plugin_extensions);
    let split = crate::utilities::search_parents_spec(pattern);
    let parts = crate::utilities::negation_spec(split.0);
    let g = crate::flag_utilities::grep_flags_spec(flags, commandflags::searchflags_seq(), config.grep_shortcodes);
    let codes = crate::constants::grep_shortcodes::name_searchfield_seq();
    let p = crate::preformat_spec(parts.0, g.preformat, codes);
    let k = crate::preformat_opt(parts.1, g.preformat, codes);
    match ext {
        None => no_grammar_noop(r, pattern, flags, config.file_path@),
        Some(e) => match crate::searcher_error(g, p, k) {
            Some(err) => r matches crate::Command::CNoop(n) && n.text@ == arg && n.message@ == err,
            None => {
                let perr = match split.1 {
                    Some(ps) => matchers_error(ps, g.fixed_string, g.case_insensitive),
                    None => None,
                };
                match perr {
                    Some(err) => r matches crate::Command::CNoop(n) && n.text@ == arg && n.message@ == err,
                    None => {
                        let rest = declaration_flags_spec(g.unrecognized);
                        &&& r is CDeclarations
                        &&& crate::searcher_built(r->CDeclarations_0.searcher, g, p, k)
                        &&& crate::flag_utilities::qualifier_matches(r->CDeclarations_0.qualifier.searchqualifier, g)
                        &&& r->CDeclarations_0.qualifier.extension@ == e
                        &&& crate::text::opt_view(r->CDeclarations_0.qualifier.where_type) == rest.2
                        &&& r->CDeclarations_0.qualifier.showbody == rest.1
                        &&& r->CDeclarations_0.qualifier.unrecognized@ == rest.0
                        &&& (r->CDeclarations_0.qualifier.parents is Some) == (split.1 is Some)
                        &&& (r->CDeclarations_0.qualifier.parent_matchers is Some) == (split.1 is Some)
                    },
                }
            },
        },
    }
}

/// What `from_declarations` builds and reports, `ev` being the event it appends: a no-op
/// with the no-grammar notice for a file without a grammar; a no-op with the error for an
/// invalid pattern or parent filter; otherwise the command and its description.
pub open spec fn declarations_built(
    r: crate::Command,
    pattern: Seq<char>,
    flags: Seq<char>,
    arg: Seq<char>,
    config: crate::common::AppConfig,
    plugin_extensions: Seq<String>,
    ev: (int, Seq<Seq<char>>),
) -> bool {
    let ext = declaration_extension(config.file_path@, plugin_extensions);
    let split = crate::utilities::search_parents_spec(pattern);
    let parts = crate::utilities::negation_spec(split.0);
    let g = crate::flag_utilities::grep_flags_spec(flags, commandflags::searchflags_seq(), config.grep_shortcodes);
    let codes = crate::constants::grep_shortcodes::name_searchfield_seq();
    let p = crate::preformat_spec(parts.0, g.preformat, codes);
    let k = crate::preformat_opt(parts.1, g.preformat, codes);
    match ext {
        None => {
            &&& no_grammar_noop(r, pattern, flags, config.file_path@)
            &&& ev == (3int, seq![reported_extension(config.file_path@), "declarations"@, arg, flags])
        },
        Some(e) => match crate::searcher_error(g, p, k) {
            Some(err) => r matches crate::Command::CNoop(n) && n.text@ == arg && n.message@ == err && ev == (0int, seq![pattern, arg, err]),
            None => ({
                let perr = match split.1 {
                    Some(ps) => matchers_error(ps, g.fixed_string, g.case_insensitive),
                    None => None,
                };
                match perr {
                    Some(err) => r matches crate::Command::CNoop(n) && n.text@ == arg && n.message@ == err && ev == (0int, seq![pattern, arg, err]),
                    None => {
                        let rest = declaration_flags_spec(g.unrecognized);
                        &&& r is CDeclarations
                        &&& crate::searcher_built(r->CDeclarations_0.searcher, g, p, k)
                        &&& crate::flag_utilities::qualifier_matches(r->CDeclarations_0.qualifier.searchqualifier, g)
                        &&& r->CDeclarations_0.qualifier.extension@ == e
                        &&& crate::text::opt_view(r->CDeclarations_0.qualifier.where_type) == rest.2
                        &&& r->CDeclarations_0.qualifier.showbody == rest.1
                        &&& r->CDeclarations_0.qualifier.unrecognized@ == rest.0
                        &&& (r->CDeclarations_0.qualifier.parents is Some) == (split.1 is Some)
                        &&& (r->CDeclarations_0.qualifier.parent_matchers is Some) == (split.1 is Some)
                        &&& ev == (4int, seq![
                            arg,
                            pattern,
                            flags,
                            e,
                            crate::formatters::declarations_qualifier_text(r->CDeclarations_0.qualifier),
                            crate::formatters::searcher_text(r->CDeclarations_0.searcher),
                            r->CDeclarations_0.qualifier.unrecognized@,
                        ])
                    },
                }
            }),
        },
    }
}

/// Builds a `declarations` command. Without a grammar for the configured file it is a
/// no-op (with a telemetry event); so is it when a pattern is not a valid regex.
pub fn from_declarations(state: &mut crate::common::AppState, pattern: &str, flags: &str, arg: &str) -> (r: crate::Command)
    ensures
        declarations_command_spec(r, pattern@, flags@, arg@, old(state).config, old(state).plugin_extensions@),
        final(state).config == old(state).config,
        final(state).plugin_extensions == old(state).plugin_extensions,
        final(state).telemetry.explain_requests == old(state).telemetry.explain_requests,
        final(state).telemetry.events@.len() == old(state).telemetry.events@.len() + 1,
        final(state).telemetry.events@.drop_last() == old(state).telemetry.events@,
        declarations_built(r, pattern@, flags@, arg@, old(state).config, old(state).plugin_extensions@, crate::telemetry::event_view(final(state).telemetry.events@.last())),
{
    let ext = crate::utilities::path_extension(state.config.file_path.as_str());
    let supported = match &ext {
        Some(e) => crate::treesitterparser::supports_extension_for_parsing(e.as_str(), &state.plugin_extensions),
        None => false,
    };
    if !supported {
        let extension_text = match ext {
            Some(e) => e,
            None => String::new(),
        };
        let text = crate::text::concat3("pattern=", pattern, ",flags=");
        let text = crate::text::concat2(text.as_str(), flags);
        let message = crate::text::concat2("declarations:  no grammar found for extension=", extension_text.as_str());
        crate::telemetry::append_telemetry(
            &mut state.telemetry,
            crate::telemetry::TelemetryEvent::NoGrammarNotification(crate::telemetry::NoGrammarNotification {
                extension: extension_text,
                source: crate::text::owned("declarations"),
                payload: crate::text::owned(arg),
                flags: crate::text::owned(flags),
            }),
        );
        return crate::Command::CNoop(crate::commands::noop::CNoop { text, message });
    }
    let extension = match ext {
        Some(e) => e,
        None => String::new(),
    };
    let (declaration_pattern, parents) = crate::utilities::split_search_parents(pattern);
    let (keep_pattern, skip_pattern) = crate::utilities::split_name_negation(declaration_pattern.as_str());
    let flagset = commandflags::searchflags();
    let codes = crate::constants::grep_shortcodes::name_searchfield();
    let skip: Option<&str> = match &skip_pattern {
        Some(s) => Some(s.as_str()),
        None => None,
    };
    let result = crate::new_searcher(keep_pattern.as_str(), skip, flags, flagset.as_slice(), codes.as_slice(), &state.config);
    match result {
        Ok(seed) => {
            let grep = match seed.qualifier {
                Some(q) => q,
                None => {
                    proof {
                        assert(false);
                    }
                    return crate::Command::CInvert(crate::commands::invert::CInvert);
                },
            };
            let case_insensitive = match &grep.regex_flags {
                Some(f) => crate::text::char_in(&crate::text::chars_of(f.as_str()), 'i'),
                None => false,
            };
            proof {
                if grep.regex_flags is Some {
                    assert(grep.regex_flags->0@ =~= seq!['i']);
                    assert(seq!['i'][0] == 'i');
                    assert(seq!['i'].contains('i'));
                }
            }
            let ghost g = crate::flag_utilities::grep_flags_spec(flags@, commandflags::searchflags_seq(), state.config.grep_shortcodes);
            assert(case_insensitive == g.case_insensitive);
            assert(grep.fixed_string == g.fixed_string);
            let parent_matchers = match build_parent_matchers(&parents, grep.fixed_string, case_insensitive) {
                Ok(m) => m,
                Err(error_message) => {
                    crate::telemetry::append_telemetry(
                        &mut state.telemetry,
                        crate::telemetry::TelemetryEvent::NoopNotification {
                            payload: crate::text::owned(pattern),
                            received: crate::text::owned(arg),
                            cause: error_message.clone(),
                        },
                    );
                    return crate::Command::CNoop(crate::commands::noop::CNoop { text: crate::text::owned(arg), message: error_message });
                },
            };
            let (unrecognized, showbody) = crate::flag_utilities::return_contains_and_consume(commandflags::show_body().value, seed.unused.as_str());
            let (unrecognized, where_type) = match crate::regexes::compile_regex(commandflags::wheretype().value, false) {
                Ok(re) => crate::flag_utilities::return_capture_and_consume(&re, unrecognized.as_str()),
                Err(_) => (unrecognized, None),
            };
            let qualifier = DeclarationsCommandQualifier {
                searchqualifier: grep,
                extension,
                showdoc: false,
                showbody,
                unrecognized,
                parents,
                parent_matchers,
                where_type,
            };
            let s_qualifier = crate::formatters::describe_declarations_qualifier(&qualifier);
            let s_searcher = crate::formatters::describe_searcher(&seed.searcher);
            crate::telemetry::append_telemetry(
                &mut state.telemetry,
                crate::telemetry::TelemetryEvent::DeclarationsNotification {
                    arg: crate::text::owned(arg),
                    pattern: crate::text::owned(pattern),
                    flags: crate::text::owned(flags),
                    extension: qualifier.extension.clone(),
                    qualifier: s_qualifier,
                    searcher: s_searcher,
                    unrecognized: qualifier.unrecognized.clone(),
                },
            );
            crate::Command::CDeclarations(CDeclarations { searcher: seed.searcher, qualifier })
        },
        Err(error_message) => {
            crate::telemetry::append_telemetry(
                &mut state.telemetry,
                crate::telemetry::TelemetryEvent::NoopNotification {
                    payload: crate::text::owned(pattern),
                    received: crate::text::owned(arg),
                    cause: error_message.clone(),
                },
            );
            crate::Command::CNoop(crate::commands::noop::CNoop { text: crate::text::owned(arg), message: error_message })
        },
    }
}

} // verus!
