//! How commands are described to the user by `explain`: the searcher, the qualifier and
//! the line ranges, each as text.
use vstd::prelude::*;
use std::collections::HashSet;

use crate::base::{Condition, DeclarationsCommandQualifier, GrepCommandQualifier};
use crate::commands::search::Searcher;
use crate::common::CheckLineRange;
use crate::constants::commandflags::{show_body_def, show_owner_def, use_grep_shortcodes_def, user_confirm_def};
use crate::telemetry::{NoGrammarNotification, TelemetryEvent};
use crate::text::decimal_seq;
use crate::utilities::vec_lines::listing;
use vstd::std_specs::iter::IteratorSpec;

verus! {

broadcast use vstd::std_specs::hash::group_hash_axioms;

/// What `explain` shows of a command.
#[derive(Debug)]
pub struct CommandExplainRepresentation {
    /// Command name.
    pub name: String,
    /// The command text.
    pub arg: String,
    /// What of the flags was not understood.
    pub unrecognized: String,
    /// The searcher, described.
    pub searcher: String,
    /// The lines of the description.
    pub lines: Vec<String>,
}

/// The pieces joined with `sep` between them.
pub open spec fn join_seq(pieces: Seq<Seq<char>>, sep: Seq<char>) -> Seq<char>
    decreases pieces.len(),
{
    if pieces.len() == 0 {
        Seq::empty()
    } else if pieces.len() == 1 {
        pieces[0]
    } else {
        join_seq(pieces.drop_last(), sep) + sep + pieces.last()
    }
}

/// The non-empty pieces, in order.
pub open spec fn non_empty(pieces: Seq<Seq<char>>) -> Seq<Seq<char>>
    decreases pieces.len(),
{
    if pieces.len() == 0 {
        Seq::empty()
    } else if pieces.last().len() == 0 {
        non_empty(pieces.drop_last())
    } else {
        non_empty(pieces.drop_last()).push(pieces.last())
    }
}

/// The non-empty pieces joined with `sep`.
pub open spec fn join_indents_spec(pieces: Seq<Seq<char>>, sep: Seq<char>) -> Seq<char> {
    join_seq(non_empty(pieces), sep)
}

/// Joins the pieces with `sep` between them.
pub fn join(pieces: &Vec<String>, sep: &str) -> (r: String)
    ensures
        r@ == join_seq(pieces@.map_values(|x: String| x@), sep@),
{
    let ghost pv = pieces@.map_values(|x: String| x@);
    let mut out: Vec<char> = Vec::new();
    let sepc = crate::text::chars_of(sep);
    let mut i: usize = 0;
    while i < pieces.len()
        invariant
            i <= pieces@.len(),
            pv == pieces@.map_values(|x: String| x@),
            sepc@ == sep@,
            out@ == join_seq(pv.take(i as int), sep@),
        decreases pieces.len() - i,
    {
        assert(pv.take(i + 1).drop_last() =~= pv.take(i as int));
        assert(pv.take(i + 1).last() == pieces@[i as int]@);
        let ghost before = out@;
        if i > 0 {
            crate::text::append_chars(&mut out, &sepc);
        }
        let cs = crate::text::chars_of(pieces[i].as_str());
        crate::text::append_chars(&mut out, &cs);
        proof {
            if i == 0 {
                assert(out@ =~= pv.take(1)[0]);
            } else {
                assert(out@ =~= before + sep@ + pv.take(i + 1).last());
            }
        }
        i = i + 1;
    }
    assert(pv.take(pieces@.len() as int) =~= pv);
    crate::text::string_from_chars(out.as_slice())
}

/// Joins the non-empty pieces with `sep` between them.
pub fn join_indents(pieces: Vec<String>, sep: &str) -> (r: String)
    ensures
        r@ == join_indents_spec(pieces@.map_values(|x: String| x@), sep@),
{
    let ghost pv = pieces@.map_values(|x: String| x@);
    let mut kept: Vec<String> = Vec::new();
    let mut i: usize = 0;
    while i < pieces.len()
        invariant
            i <= pieces@.len(),
            pv == pieces@.map_values(|x: String| x@),
            kept@.map_values(|x: String| x@) == non_empty(pv.take(i as int)),
        decreases pieces.len() - i,
    {
        assert(pv.take(i + 1).drop_last() =~= pv.take(i as int));
        assert(pv.take(i + 1).last() == pieces@[i as int]@);
        let ghost before = kept@.map_values(|x: String| x@);
        if !crate::text::is_empty_text(pieces[i].as_str()) {
            kept.push(pieces[i].clone());
            assert(kept@.map_values(|x: String| x@) =~= before.push(pieces@[i as int]@));
        }
        i = i + 1;
    }
    assert(pv.take(pieces@.len() as int) =~= pv);
    join(&kept, sep)
}

/// `true` or `false`.
pub open spec fn bool_text(b: bool) -> Seq<char> {
    if b {
        "true"@
    } else {
        "false"@
    }
}

pub(crate) fn bool_string(b: bool) -> (r: String)
    ensures
        r@ == bool_text(b),
{
    if b {
        crate::text::owned("true")
    } else {
        crate::text::owned("false")
    }
}

/// How a searcher is described.
pub open spec fn searcher_text(s: Searcher) -> Seq<char> {
    match s {
        Searcher::RegexSearcher(c) => "regex: `"@ + c.patre.source() + "`"@,
        Searcher::RegexKeepSkip(c) => "regex: `"@ + c.rekeep.source() + "` but not `"@ + c.reskip.source() + "`"@,
        Searcher::ContainsSearcher(c) => "contains: `"@ + c.pattern@ + "` case sensitive: "@ + bool_text(
            !c.insensitive,
        ),
        Searcher::ContainsKeepSkip(c) => "contains: `"@ + c.keep@ + "` but not `"@ + c.skip@
            + "` case sensitive: "@ + bool_text(!c.insensitive),
    }
}

/// Describes a searcher: what it looks for.
pub fn describe_searcher(s: &Searcher) -> (r: String)
    ensures
        r@ == searcher_text(*s),
{
    match s {
        Searcher::RegexSearcher(c) => crate::text::concat3("regex: `", c.patre.as_str(), "`"),
        Searcher::RegexKeepSkip(c) => {
            let a = crate::text::concat3("regex: `", c.rekeep.as_str(), "` but not `");
            crate::text::concat3(a.as_str(), c.reskip.as_str(), "`")
        },
        Searcher::ContainsSearcher(c) => {
            let a = crate::text::concat3("contains: `", c.pattern.as_str(), "` case sensitive: ");
            let b = bool_string(!c.insensitive);
            crate::text::concat2(a.as_str(), b.as_str())
        },
        Searcher::ContainsKeepSkip(c) => {
            let a = crate::text::concat3("contains: `", c.keep.as_str(), "` but not `");
            let b = crate::text::concat3(a.as_str(), c.skip.as_str(), "` case sensitive: ");
            let t = bool_string(!c.insensitive);
            crate::text::concat2(b.as_str(), t.as_str())
        },
    }
}

/// The elements of a finite set of numbers, in increasing order.
pub open spec fn sorted_elements(s: Set<usize>) -> Seq<usize> {
    if s.len() == 0 {
        Seq::empty()
    } else {
        let m = choose|m: usize| s.contains(m) && forall|x: usize| s.contains(x) ==> x <= m;
        listing(s, (m + 1) as nat)
    }
}

/// `{a, b, c}`, as `Debug` writes a set, the elements in increasing order.
pub open spec fn set_text(s: Set<usize>) -> Seq<char> {
    "{"@ + join_seq(sorted_elements(s).map_values(|x: usize| decimal_seq(x as nat)), ", "@) + "}"@
}

/// Lists a set of numbers in increasing order.
fn sorted_elements_of(set: &HashSet<usize>) -> (r: Vec<usize>)
    ensures
        r@ == sorted_elements(set@),
{
    let mut found = false;
    let mut max: usize = 0;
    let ghost seen = vstd::std_specs::hash::spec_hash_keys_iter(set).remaining();
    for x in it: set.iter()
        invariant
            it.seq() == seen,
            found == (it.index() > 0),
            found ==> exists|j: int| 0 <= j < it.index() && *it.seq()[j] == max,
            forall|j: int| 0 <= j < it.index() ==> *it.seq()[j] <= max,
    {
        if !found || *x > max {
            max = *x;
        }
        found = true;
    }
    assert(seen.unref().to_set() == set@);
    if !found {
        assert(set@.len() == 0);
        return Vec::new();
    }
    proof {
        let j = choose|j: int| 0 <= j < seen.len() && *seen[j] == max;
        assert(seen.unref()[j] == max);
        assert(set@.contains(max));
        assert forall|y: usize| set@.contains(y) implies y <= max by {
            assert(seen.unref().to_set().contains(y));
            let k = choose|k: int| 0 <= k < seen.unref().len() && seen.unref()[k] == y;
            assert(*seen[k] == y);
        }
        assert(set@.len() > 0) by {
            assert(set@.contains(max));
        }
        let m = choose|m: usize| set@.contains(m) && forall|x: usize| set@.contains(x) ==> x <= m;
        assert(m <= max && max <= m);
    }
    let mut out: Vec<usize> = Vec::new();
    let mut i: usize = 0;
    loop
        invariant_except_break
            i <= max,
            out@ == listing(set@, i as nat),
        ensures
            out@ == listing(set@, (max + 1) as nat),
        decreases max - i,
    {
        if set.contains(&i) {
            out.push(i);
        }
        if i == max {
            break;
        }
        i = i + 1;
    }
    out
}

/// Writes a set of numbers as `{a, b, c}`, in increasing order.
pub fn describe_set(set: &HashSet<usize>) -> (r: String)
    ensures
        r@ == set_text(set@),
{
    let elems = sorted_elements_of(set);
    let mut texts: Vec<String> = Vec::new();
    let mut i: usize = 0;
    while i < elems.len()
        invariant
            i <= elems@.len(),
            texts@.len() == i,
            forall|j: int| 0 <= j < i ==> #[trigger] texts@[j]@ == decimal_seq(elems@[j] as nat),
        decreases elems.len() - i,
    {
        texts.push(crate::text::usize_to_string(elems[i]));
        i = i + 1;
    }
    assert(texts@.map_values(|x: String| x@) =~= elems@.map_values(|x: usize| decimal_seq(x as nat)));
    let body = join(&texts, ", ");
    crate::text::concat3("{", body.as_str(), "}")
}

/// How a line range is described.
pub open spec fn line_range_text(c: CheckLineRange) -> Seq<char> {
    let a: Seq<Seq<char>> = if c.until_ != 0 {
        seq!["1-"@ + decimal_seq(c.until_ as nat)]
    } else {
        Seq::empty()
    };
    let b: Seq<Seq<char>> = if c.wanted@.len() > 0 {
        seq!["wanted "@ + set_text(c.wanted@)]
    } else {
        Seq::empty()
    };
    let d: Seq<Seq<char>> = if c.from_ != 9_999_999 {
        seq![decimal_seq(c.from_ as nat) + "-"@]
    } else {
        Seq::empty()
    };
    let parts = a + b + d;
    let all = if parts.len() > 0 {
        seq!["lines "@] + parts
    } else {
        parts
    };
    join_indents_spec(all, "/ "@)
}

fn push_text(v: &mut Vec<String>, s: String)
    ensures
        final(v)@.map_values(|x: String| x@) == old(v)@.map_values(|x: String| x@).push(s@),
{
    let ghost before = v@.map_values(|x: String| x@);
    v.push(s);
    assert(v@.map_values(|x: String| x@) =~= before.push(s@));
}

/// Describes a line range: `lines / 1-5/ wanted {7, 9}/ 20-`.
pub fn describe_line_range(c: &CheckLineRange) -> (r: String)
    ensures
        r@ == line_range_text(*c),
{
    let ghost ca: Seq<Seq<char>> = if c.until_ != 0 {
        seq!["1-"@ + decimal_seq(c.until_ as nat)]
    } else {
        Seq::empty()
    };
    let ghost cb: Seq<Seq<char>> = if c.wanted@.len() > 0 {
        seq!["wanted "@ + set_text(c.wanted@)]
    } else {
        Seq::empty()
    };
    let ghost cd: Seq<Seq<char>> = if c.from_ != 9_999_999 {
        seq![decimal_seq(c.from_ as nat) + "-"@]
    } else {
        Seq::empty()
    };
    let mut parts: Vec<String> = Vec::new();
    assert(parts@.map_values(|x: String| x@) =~= Seq::<Seq<char>>::empty());
    if c.until_ != 0 {
        push_text(&mut parts, crate::text::concat2("1-", crate::text::usize_to_string(c.until_).as_str()));
    }
    if c.wanted.len() > 0 {
        push_text(&mut parts, crate::text::concat2("wanted ", describe_set(&c.wanted).as_str()));
    }
    if c.from_ != 9_999_999 {
        push_text(&mut parts, crate::text::concat2(crate::text::usize_to_string(c.from_).as_str(), "-"));
    }
    let ghost pv = parts@.map_values(|x: String| x@);
    assert(pv =~= ca + cb + cd);
    let mut all: Vec<String> = Vec::new();
    assert(all@.map_values(|x: String| x@) =~= Seq::<Seq<char>>::empty());
    if parts.len() > 0 {
        push_text(&mut all, crate::text::owned("lines "));
    }
    let mut i: usize = 0;
    let ghost head = all@.map_values(|x: String| x@);
    while i < parts.len()
        invariant
            i <= parts@.len(),
            pv == parts@.map_values(|x: String| x@),
            all@.map_values(|x: String| x@) == head + pv.take(i as int),
        decreases parts.len() - i,
    {
        push_text(&mut all, parts[i].clone());
        assert(head + pv.take(i + 1) =~= (head + pv.take(i as int)).push(parts@[i as int]@));
        i = i + 1;
    }
    assert(pv.take(parts@.len() as int) =~= pv);
    proof {
        reveal_strlit("");
    }
    join_indents(all, "/ ")
}

/// How a `wl=` range is described among the conditions.
pub open spec fn range_condition_text(c: CheckLineRange) -> Seq<Seq<char>> {
    let a: Seq<Seq<char>> = if c.until_ != 0 {
        seq!["1-"@ + decimal_seq(c.until_ as nat)]
    } else {
        Seq::empty()
    };
    let b: Seq<Seq<char>> = if c.wanted@.len() > 0 {
        seq![" in "@ + set_text(c.wanted@)]
    } else {
        Seq::empty()
    };
    let d: Seq<Seq<char>> = if c.from_ != 9_999_999 {
        seq![decimal_seq(c.from_ as nat) + "-..."@]
    } else {
        Seq::empty()
    };
    let parts = a + b + d;
    if parts.len() > 0 {
        seq![join_indents_spec(seq!["lines:"@] + parts, " "@)]
    } else {
        Seq::empty()
    }
}

/// How the conditions are described, one text each (none for a range without bounds).
pub open spec fn conditions_text(conds: Seq<Condition>) -> Seq<Seq<char>>
    decreases conds.len(),
{
    if conds.len() == 0 {
        Seq::empty()
    } else {
        conditions_text(conds.drop_last()) + match conds.last() {
            Condition::Key(k) => seq!["where key = `"@ + k.required_key@ + "`"@],
            Condition::LineRange(r) => range_condition_text(r),
        }
    }
}

/// How a qualifier is described: context counts, switches, conditions and effects.
pub open spec fn qualifier_text(q: GrepCommandQualifier) -> Seq<char> {
    let flags: Seq<Seq<char>> = (if q.before > 0 {
        seq!["-B "@ + decimal_seq(q.before as nat)]
    } else {
        Seq::<Seq<char>>::empty()
    }) + (if q.after > 0 {
        seq!["-A "@ + decimal_seq(q.after as nat)]
    } else {
        Seq::<Seq<char>>::empty()
    });
    let res = if flags.len() > 0 {
        "\"grep\": "@ + join_seq(flags, " "@)
    } else {
        Seq::empty()
    };
    let switches: Seq<Seq<char>> = (if q.showowner {
        seq![show_owner_def().name@]
    } else {
        Seq::<Seq<char>>::empty()
    }) + (if q.user_confirmation {
        seq![user_confirm_def().name@]
    } else {
        Seq::<Seq<char>>::empty()
    }) + (if q.preformat {
        seq![use_grep_shortcodes_def().name@]
    } else {
        Seq::<Seq<char>>::empty()
    });
    let wheres = conditions_text(q.conditions_checker.conds@);
    let tmp: Seq<Seq<char>> = seq![res] + (if switches.len() > 0 {
        seq![join_indents_spec(switches, " "@)]
    } else {
        Seq::<Seq<char>>::empty()
    }) + (if wheres.len() > 0 {
        seq![join_indents_spec(wheres, ","@)]
    } else {
        Seq::<Seq<char>>::empty()
    }) + (if q.set_key is Some {
        seq!["--- effects --- :"@]
    } else {
        Seq::<Seq<char>>::empty()
    });
    let head = join_indents_spec(tmp, "\n     "@);
    match q.set_key {
        Some(k) => head + join_indents_spec(seq![" "@, "set key = `"@ + k@ + "`"@], "\n       "@),
        None => head,
    }
}

fn describe_range_condition(c: &CheckLineRange) -> (r: Vec<String>)
    ensures
        r@.map_values(|x: String| x@) == range_condition_text(*c),
{
    let ghost ca: Seq<Seq<char>> = if c.until_ != 0 {
        seq!["1-"@ + decimal_seq(c.until_ as nat)]
    } else {
        Seq::empty()
    };
    let ghost cb: Seq<Seq<char>> = if c.wanted@.len() > 0 {
        seq![" in "@ + set_text(c.wanted@)]
    } else {
        Seq::empty()
    };
    let ghost cd: Seq<Seq<char>> = if c.from_ != 9_999_999 {
        seq![decimal_seq(c.from_ as nat) + "-..."@]
    } else {
        Seq::empty()
    };
    let mut parts: Vec<String> = Vec::new();
    push_text(&mut parts, crate::text::owned("lines:"));
    let ghost head = parts@.map_values(|x: String| x@);
    if c.until_ != 0 {
        push_text(&mut parts, crate::text::concat2("1-", crate::text::usize_to_string(c.until_).as_str()));
    }
    if c.wanted.len() > 0 {
        push_text(&mut parts, crate::text::concat2(" in ", describe_set(&c.wanted).as_str()));
    }
    if c.from_ != 9_999_999 {
        push_text(&mut parts, crate::text::concat2(crate::text::usize_to_string(c.from_).as_str(), "-..."));
    }
    assert(parts@.map_values(|x: String| x@) =~= head + (ca + cb + cd));
    assert(head =~= seq!["lines:"@]);
    let mut out: Vec<String> = Vec::new();
    if parts.len() > 1 {
        let s = join_indents(parts, " ");
        push_text(&mut out, s);
    } else {
        assert(out@.map_values(|x: String| x@) =~= Seq::<Seq<char>>::empty());
    }
    out
}

/// Describes a qualifier for `explain`.
pub fn describe_qualifier(q: &GrepCommandQualifier) -> (r: String)
    ensures
        r@ == qualifier_text(*q),
{
    let mut flags: Vec<String> = Vec::new();
    assert(flags@.map_values(|x: String| x@) =~= Seq::<Seq<char>>::empty());
    if q.before > 0 {
        push_text(&mut flags, crate::text::concat2("-B ", crate::text::usize_to_string(q.before as usize).as_str()));
    }
    if q.after > 0 {
        push_text(&mut flags, crate::text::concat2("-A ", crate::text::usize_to_string(q.after as usize).as_str()));
    }
    let ghost sflags: Seq<Seq<char>> = (if q.before > 0 {
        seq!["-B "@ + decimal_seq(q.before as nat)]
    } else {
        Seq::<Seq<char>>::empty()
    }) + (if q.after > 0 {
        seq!["-A "@ + decimal_seq(q.after as nat)]
    } else {
        Seq::<Seq<char>>::empty()
    });
    assert(flags@.map_values(|x: String| x@) =~= sflags);
    let res = if flags.len() > 0 {
        let j = join(&flags, " ");
        crate::text::concat2("\"grep\": ", j.as_str())
    } else {
        String::new()
    };
    let ghost sres = if sflags.len() > 0 {
        "\"grep\": "@ + join_seq(sflags, " "@)
    } else {
        Seq::<char>::empty()
    };
    assert(res@ == sres);
    let mut tmp: Vec<String> = Vec::new();
    push_text(&mut tmp, res);
    let mut switches: Vec<String> = Vec::new();
    assert(switches@.map_values(|x: String| x@) =~= Seq::<Seq<char>>::empty());
    if q.showowner {
        push_text(&mut switches, crate::text::owned(crate::constants::commandflags::show_owner().name));
    }
    if q.user_confirmation {
        push_text(&mut switches, crate::text::owned(crate::constants::commandflags::user_confirm().name));
    }
    if q.preformat {
        push_text(&mut switches, crate::text::owned(crate::constants::commandflags::use_grep_shortcodes().name));
    }
    let ghost ssw: Seq<Seq<char>> = (if q.showowner {
        seq![show_owner_def().name@]
    } else {
        Seq::<Seq<char>>::empty()
    }) + (if q.user_confirmation {
        seq![user_confirm_def().name@]
    } else {
        Seq::<Seq<char>>::empty()
    }) + (if q.preformat {
        seq![use_grep_shortcodes_def().name@]
    } else {
        Seq::<Seq<char>>::empty()
    });
    assert(switches@.map_values(|x: String| x@) =~= ssw);
    let ghost t1 = seq![sres] + (if ssw.len() > 0 {
        seq![join_indents_spec(ssw, " "@)]
    } else {
        Seq::<Seq<char>>::empty()
    });
    if switches.len() > 0 {
        push_text(&mut tmp, join_indents(switches, " "));
    }
    assert(tmp@.map_values(|x: String| x@) =~= t1);
    let mut wheres: Vec<String> = Vec::new();
    let mut i: usize = 0;
    assert(q.conditions_checker.conds@.take(0) =~= Seq::<Condition>::empty());
    while i < q.conditions_checker.conds.len()
        invariant
            i <= q.conditions_checker.conds@.len(),
            wheres@.map_values(|x: String| x@) == conditions_text(q.conditions_checker.conds@.take(i as int)),
        decreases q.conditions_checker.conds.len() - i,
    {
        let ghost cs = q.conditions_checker.conds@;
        assert(cs.take(i + 1).drop_last() =~= cs.take(i as int));
        assert(cs.take(i + 1).last() == cs[i as int]);
        match &q.conditions_checker.conds[i] {
            Condition::Key(k) => {
                push_text(&mut wheres, crate::text::concat3("where key = `", k.required_key.as_str(), "`"));
            },
            Condition::LineRange(r) => {
                let more = describe_range_condition(r);
                let ghost before = wheres@.map_values(|x: String| x@);
                let mut j: usize = 0;
                while j < more.len()
                    invariant
                        j <= more@.len(),
                        wheres@.map_values(|x: String| x@) == before + more@.map_values(|x: String| x@).take(j as int),
                    decreases more.len() - j,
                {
                    push_text(&mut wheres, more[j].clone());
                    assert(before + more@.map_values(|x: String| x@).take(j + 1) =~= (before + more@.map_values(|x: String| x@).take(j as int)).push(more@[j as int]@));
                    j = j + 1;
                }
                assert(more@.map_values(|x: String| x@).take(more@.len() as int) =~= more@.map_values(|x: String| x@));
            },
        }
        i = i + 1;
    }
    assert(q.conditions_checker.conds@.take(q.conditions_checker.conds@.len() as int) =~= q.conditions_checker.conds@);
    let ghost sw = conditions_text(q.conditions_checker.conds@);
    if wheres.len() > 0 {
        push_text(&mut tmp, join_indents(wheres, ","));
    }
    let ghost t2 = t1 + (if sw.len() > 0 {
        seq![join_indents_spec(sw, ","@)]
    } else {
        Seq::<Seq<char>>::empty()
    });
    assert(tmp@.map_values(|x: String| x@) =~= t2);
    if q.set_key.is_some() {
        push_text(&mut tmp, crate::text::owned("--- effects --- :"));
    }
    assert(tmp@.map_values(|x: String| x@) =~= t2 + (if q.set_key is Some {
        seq!["--- effects --- :"@]
    } else {
        Seq::<Seq<char>>::empty()
    }));
    let head = join_indents(tmp, "\n     ");
    match &q.set_key {
        Some(k) => {
            let mut outcomes: Vec<String> = Vec::new();
            push_text(&mut outcomes, crate::text::owned(" "));
            push_text(&mut outcomes, crate::text::concat3("set key = `", k.as_str(), "`"));
            assert(outcomes@.map_values(|x: String| x@) =~= seq![" "@, "set key = `"@ + k@ + "`"@]);
            let o = join_indents(outcomes, "\n       ");
            crate::text::concat2(head.as_str(), o.as_str())
        },
        None => head,
    }
}

/// How a declarations qualifier is described.
pub open spec fn declarations_qualifier_text(q: DeclarationsCommandQualifier) -> Seq<char> {
    let parents: Seq<Seq<char>> = if q.parents is Some {
        seq![join_seq(seq!["parents:"@] + q.parents->0@.map_values(|v: String| v@ + "/"@), " "@)]
    } else {
        Seq::empty()
    };
    let flags = join_indents_spec(if q.showbody {
        seq![show_body_def().name@]
    } else {
        Seq::empty()
    }, " "@);
    join_indents_spec(seq![qualifier_text(q.searchqualifier)] + parents + seq![flags], "\n     "@)
}

/// Describes a declarations qualifier for `explain`.
pub fn describe_declarations_qualifier(q: &DeclarationsCommandQualifier) -> (r: String)
    ensures
        r@ == declarations_qualifier_text(*q),
{
    let mut tmp: Vec<String> = Vec::new();
    push_text(&mut tmp, describe_qualifier(&q.searchqualifier));
    let ghost t0 = tmp@.map_values(|x: String| x@);
    match &q.parents {
        Some(ps) => {
            let mut items: Vec<String> = Vec::new();
            push_text(&mut items, crate::text::owned("parents:"));
            let mut i: usize = 0;
            while i < ps.len()
                invariant
                    i <= ps@.len(),
                    items@.map_values(|x: String| x@) == seq!["parents:"@] + ps@.map_values(|v: String| v@ + "/"@).take(i as int),
                decreases ps.len() - i,
            {
                push_text(&mut items, crate::text::concat2(ps[i].as_str(), "/"));
                assert(seq!["parents:"@] + ps@.map_values(|v: String| v@ + "/"@).take(i + 1) =~= (seq!["parents:"@] + ps@.map_values(|v: String| v@ + "/"@).take(i as int)).push(ps@[i as int]@ + "/"@));
                i = i + 1;
            }
            assert(ps@.map_values(|v: String| v@ + "/"@).take(ps@.len() as int) =~= ps@.map_values(|v: String| v@ + "/"@));
            push_text(&mut tmp, join(&items, " "));
        },
        None => {
            assert(tmp@.map_values(|x: String| x@) =~= t0 + Seq::<Seq<char>>::empty());
        },
    }
    let mut fl: Vec<String> = Vec::new();
    assert(fl@.map_values(|x: String| x@) =~= Seq::<Seq<char>>::empty());
    if q.showbody {
        push_text(&mut fl, crate::text::owned(crate::constants::commandflags::show_body().name));
    }
    assert(fl@.map_values(|x: String| x@) =~= if q.showbody {
        seq![show_body_def().name@]
    } else {
        Seq::<Seq<char>>::empty()
    });
    let flags = join_indents(fl, " ");
    let ghost sparents: Seq<Seq<char>> = if q.parents is Some {
        seq![join_seq(seq!["parents:"@] + q.parents->0@.map_values(|v: String| v@ + "/"@), " "@)]
    } else {
        Seq::empty()
    };
    assert(tmp@.map_values(|x: String| x@) =~= seq![qualifier_text(q.searchqualifier)] + sparents);
    let ghost sflags = join_indents_spec(if q.showbody {
        seq![show_body_def().name@]
    } else {
        Seq::empty()
    }, " "@);
    assert(flags@ == sflags);
    push_text(&mut tmp, flags);
    assert(tmp@.map_values(|x: String| x@) =~= seq![qualifier_text(q.searchqualifier)] + sparents + seq![sflags]);
    join_indents(tmp, "\n     ")
}


/// What a command that does nothing says: what was received, and why.
pub open spec fn noop_text(received: Seq<char>, cause: Seq<char>) -> Seq<char> {
    "\n"@ + received + " => [no-operation] so buffer passthrough.  Caused by: "@ + cause + ".  \n\n"@
}

/// `noop_text`.
pub fn noop_message(received: &str, cause: &str) -> (r: String)
    ensures
        r@ == noop_text(received@, cause@),
{
    let a = crate::text::concat3("\n", received, " => [no-operation] so buffer passthrough.  Caused by: ");
    crate::text::concat3(a.as_str(), cause, ".  \n\n")
}

/// What a command on a file without a grammar says.
pub open spec fn no_grammar_text(extension: Seq<char>, payload: Seq<char>) -> Seq<char> {
    noop_text(payload, "extension `"@ + extension + "` is not a supported grammar"@)
}

/// `no_grammar_text` of a notification.
pub fn no_grammar_message(n: &NoGrammarNotification) -> (r: String)
    ensures
        r@ == no_grammar_text(n.extension@, n.payload@),
{
    let cause = crate::text::concat3("extension `", n.extension.as_str(), "` is not a supported grammar");
    noop_message(n.payload.as_str(), cause.as_str())
}

/// What of the flags was not understood, as shown: nothing when all was.
pub open spec fn unrecognized_text(u: Seq<char>) -> Seq<char> {
    if u.len() == 0 {
        Seq::empty()
    } else {
        " /?ignored: `"@ + u + "` "@
    }
}

/// `unrecognized_text`.
pub fn fmt_unrecognized(unrecognized: &str) -> (r: String)
    ensures
        r@ == unrecognized_text(unrecognized@),
{
    if crate::text::is_empty_text(unrecognized) {
        String::new()
    } else {
        crate::text::concat3(" /?ignored: `", unrecognized, "` ")
    }
}

/// What `explain` shows of a built command: its name, text, what was not understood, the
/// searcher, and the qualifier as its one line.
pub fn explain_representation(name: &str, arg: &str, qualifier: &str, unrecognized: &str, searcher: &str) -> (r: CommandExplainRepresentation)
    ensures
        r.name@ == name@,
        r.arg@ == arg@,
        r.unrecognized@ == unrecognized_text(unrecognized@),
        r.searcher@ == searcher@,
        r.lines@.map_values(|l: String| l@) == seq![qualifier@],
{
    let mut lines: Vec<String> = Vec::new();
    lines.push(crate::text::owned(qualifier));
    assert(lines@.map_values(|l: String| l@) =~= seq![qualifier@]);
    CommandExplainRepresentation {
        name: crate::text::owned(name),
        arg: crate::text::owned(arg),
        unrecognized: fmt_unrecognized(unrecognized),
        searcher: crate::text::owned(searcher),
        lines,
    }
}

/// How an event is shown: as text, or as an `explain` description to render.
#[derive(Debug)]
pub enum EventDisplay {
    /// Shown as it is.
    Text(String),
    /// Rendered by the `explain` template.
    Explain(CommandExplainRepresentation),
}

/// An `explain` description as plain values: name, text, unrecognized part shown, searcher,
/// lines.
pub open spec fn representation_view(r: CommandExplainRepresentation) -> (Seq<char>, Seq<char>, Seq<char>, Seq<char>, Seq<Seq<char>>) {
    (r.name@, r.arg@, r.unrecognized@, r.searcher@, r.lines@.map_values(|l: String| l@))
}

/// How each event is shown: a command that did nothing by its received text and cause; a
/// built command, and a `declarations` command (named `declare`), by an `explain`
/// description; a file without a grammar by its notice; an explain request by nothing.
pub open spec fn event_display_spec(e: TelemetryEvent, d: EventDisplay) -> bool {
    match e {
        TelemetryEvent::NoopNotification { received, cause, .. } => d matches EventDisplay::Text(t) && t@ == noop_text(received@, cause@),
        TelemetryEvent::GenericCommandNotification { name, arg, qualifier, searcher, unrecognized } => d matches EventDisplay::Explain(r)
            && representation_view(r) == (name@, arg@, unrecognized_text(unrecognized@), searcher@, seq![qualifier@]),
        TelemetryEvent::NoGrammarNotification(n) => d matches EventDisplay::Text(t) && t@ == no_grammar_text(n.extension@, n.payload@),
        TelemetryEvent::ExplainNotification { .. } => d matches EventDisplay::Text(t) && t@.len() == 0,
        TelemetryEvent::DeclarationsNotification { arg, qualifier, searcher, unrecognized, .. } => d matches EventDisplay::Explain(r)
            && representation_view(r) == ("declare"@, arg@, unrecognized_text(unrecognized@), searcher@, seq![qualifier@]),
    }
}

/// How an event is shown (see `event_display_spec`).
pub fn describe_event(e: &TelemetryEvent) -> (d: EventDisplay)
    ensures
        event_display_spec(*e, d),
{
    match e {
        TelemetryEvent::NoopNotification { received, cause, .. } => EventDisplay::Text(
            noop_message(received.as_str(), cause.as_str()),
        ),
        TelemetryEvent::GenericCommandNotification { name, arg, qualifier, searcher, unrecognized } => {
            EventDisplay::Explain(
                explain_representation(
                    name.as_str(),
                    arg.as_str(),
                    qualifier.as_str(),
                    unrecognized.as_str(),
                    searcher.as_str(),
                ),
            )
        },
        TelemetryEvent::NoGrammarNotification(n) => EventDisplay::Text(no_grammar_message(n)),
        TelemetryEvent::ExplainNotification { .. } => EventDisplay::Text(String::new()),
        TelemetryEvent::DeclarationsNotification { arg, qualifier, searcher, unrecognized, .. } => {
            EventDisplay::Explain(
                explain_representation(
                    "declare",
                    arg.as_str(),
                    qualifier.as_str(),
                    unrecognized.as_str(),
                    searcher.as_str(),
                ),
            )
        },
    }
}

/// The template of a command's description: name, text and unrecognized part, then the
/// searcher and each non-empty line, indented.
pub const EXPLAIN_TEMPLATE: &'static str = "{{ command.name }}: {{ command.arg }}{{ command.unrecognized }}{% if command.searcher %}\n     {{ command.searcher }}{% endif %}{% for line in command.lines %}{% if line %}\n       {{ line }}{% endif %}{% endfor %}";

/// What `minijinja::Environment::render_str` gives for `template` with `command` set to a
/// map of `name`, `arg`, `unrecognized`, `searcher` and `lines`: the text, or the error's
/// message.
pub uninterp spec fn rendered_explain(
    template: Seq<char>,
    name: Seq<char>,
    arg: Seq<char>,
    unrecognized: Seq<char>,
    searcher: Seq<char>,
    lines: Seq<Seq<char>>,
) -> Result<Seq<char>, Seq<char>>;

/// `minijinja::Environment::render_str` on a new environment, with the values of the
/// description under `command` (`rendered_explain`).
#[verifier::external_body]
fn render_explain(template: &str, r: &CommandExplainRepresentation) -> (out: Result<String, String>)
    ensures
        match out {
            Ok(t) => rendered_explain(template@, r.name@, r.arg@, r.unrecognized@, r.searcher@, r.lines@.map_values(|l: String| l@))
                == Ok::<Seq<char>, Seq<char>>(t@),
            Err(e) => rendered_explain(template@, r.name@, r.arg@, r.unrecognized@, r.searcher@, r.lines@.map_values(|l: String| l@))
                == Err::<Seq<char>, Seq<char>>(e@),
        },
{
    let command = minijinja::Value::from_pairs([
        ("name", minijinja::Value::from(r.name.as_str())),
        ("arg", minijinja::Value::from(r.arg.as_str())),
        ("unrecognized", minijinja::Value::from(r.unrecognized.as_str())),
        ("searcher", minijinja::Value::from(r.searcher.as_str())),
        ("lines", minijinja::Value::from(r.lines.clone())),
    ]);
    let ctx = minijinja::Value::from_pairs([("command", command)]);
    minijinja::Environment::new().render_str(template, ctx).map_err(|e| e.to_string())
}

/// What an event shows, as `explain` prints it: the event's text, or its description
/// rendered by `EXPLAIN_TEMPLATE` and ended by a line feed; the template's error when it
/// fails to render.
pub open spec fn event_text_spec(d: EventDisplay) -> Result<Seq<char>, Seq<char>> {
    match d {
        EventDisplay::Text(t) => Ok(t@),
        EventDisplay::Explain(r) => match rendered_explain(
            EXPLAIN_TEMPLATE@,
            r.name@,
            r.arg@,
            r.unrecognized@,
            r.searcher@,
            r.lines@.map_values(|l: String| l@),
        ) {
            Ok(t) => Ok(t + seq!['\n']),
            Err(e) => Err(e),
        },
    }
}

/// What an event shows (see `describe_event` and `event_text_spec`).
pub fn event_text(e: &TelemetryEvent) -> (r: Result<String, String>)
    ensures
        exists|d: EventDisplay|
            event_display_spec(*e, d) && match event_text_spec(d) {
                Ok(t) => r matches Ok(x) && x@ == t,
                Err(m) => r matches Err(x) && x@ == m,
            },
{
    let d = describe_event(e);
    proof {
        reveal_strlit("\n");
    }
    let r = match &d {
        EventDisplay::Text(t) => Ok(crate::text::owned(t.as_str())),
        EventDisplay::Explain(rep) => match render_explain(EXPLAIN_TEMPLATE, rep) {
            Ok(t) => Ok(crate::text::concat2(t.as_str(), "\n")),
            Err(e) => Err(e),
        },
    };
    assert(event_display_spec(*e, d) && match event_text_spec(d) {
        Ok(t) => r matches Ok(x) && x@ == t,
        Err(m) => r matches Err(x) && x@ == m,
    });
    r
}

} // verus!
