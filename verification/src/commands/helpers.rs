//! What the search commands do after the search: show context lines around hits, and
//! the signature of the declaration that owns each hit.
use vstd::prelude::*;
use std::collections::HashMap;
use std::collections::HashSet;

use crate::base::{conditions_hold, lines_view, GrepCommandQualifier, LineStatus, LineView};
use crate::commands::search::{Search, Searcher};
use crate::common::{set_visibles, show_views};
use crate::hashtree::{decl_at, declaration_at, hashtree_keys};
use crate::language_api::{Parsed, ParsedDeclarationsData};
use crate::utilities::vec_lines::{bounded_extend, extend_set};

verus! {

broadcast use vstd::std_specs::hash::group_hash_axioms;

/// `out` is `lines` with the lines at the indices in `idx` made visible.
pub open spec fn shows(lines: Seq<LineStatus>, idx: Set<usize>, out: Seq<LineStatus>) -> bool {
    &&& out.len() == lines.len()
    &&& lines_view(out) == show_views(lines_view(lines), idx)
}

/// The context lines around `hits`: `before` lines before each (when positive) and
/// `after` lines after each (when positive), within `0..len`.
pub open spec fn context_spec(before: i32, after: i32, hits: Set<usize>, len: int) -> Set<usize> {
    let b = if before > 0 {
        extend_set(hits, -before, len)
    } else {
        Set::empty()
    };
    let a = if after > 0 {
        extend_set(hits, after as int, len)
    } else {
        Set::empty()
    };
    b.union(a)
}

/// Makes visible the context that the qualifier asks for around the hits.
pub fn post_search(qualifier: &GrepCommandQualifier, hits: &[usize], lines: Vec<LineStatus>) -> (r: Vec<
    LineStatus,
>)
    ensures
        shows(lines@, context_spec(qualifier.before, qualifier.after, hits@.to_set(), lines@.len() as int), r@),
{
    let mut context_indices: HashSet<usize> = HashSet::new();
    if qualifier.before > 0 {
        bounded_extend(&mut context_indices, hits, -qualifier.before, lines.as_slice());
    }
    if qualifier.after > 0 {
        bounded_extend(&mut context_indices, hits, qualifier.after, lines.as_slice());
    }
    assert(context_indices@ =~= context_spec(qualifier.before, qualifier.after, hits@.to_set(), lines@.len() as int));
    set_visibles(lines, &context_indices)
}

/// Some entry of the hashtree is a declaration.
pub open spec fn has_declarations(h: Map<usize, Parsed>) -> bool {
    exists|k: usize| #[trigger] decl_at(h, k) is Some
}

/// Whether the hashtree holds any declaration (a grammar was applied).
pub fn has_valid_treesitter(hashtree: &HashMap<usize, Parsed>) -> (b: bool)
    ensures
        b == has_declarations(hashtree@),
{
    let keys = hashtree_keys(hashtree);
    let mut i: usize = 0;
    while i < keys.len()
        invariant
            i <= keys@.len(),
            keys@.to_set() == hashtree@.dom(),
            forall|j: int| 0 <= j < i ==> decl_at(hashtree@, #[trigger] keys@[j]) is None,
        decreases keys.len() - i,
    {
        if declaration_at(hashtree, keys[i]).is_some() {
            return true;
        }
        i = i + 1;
    }
    assert forall|k: usize| #[trigger] decl_at(hashtree@, k) is None by {
        if hashtree@.dom().contains(k) {
            assert(keys@.to_set().contains(k));
            let j = choose|j: int| 0 <= j < keys@.len() && keys@[j] == k;
        }
    }
    false
}

/// The last line a declaration covers: the end of its body, or its end line.
pub open spec fn owner_end(d: ParsedDeclarationsData) -> usize {
    match d.lines_body {
        Some(b) => b.1,
        None => d.end_line,
    }
}

/// The declaration covers the line: from its signature to `owner_end`.
pub open spec fn owns(d: ParsedDeclarationsData, line: usize) -> bool {
    d.lines_signature.0 <= line <= owner_end(d)
}

/// How many lines past its start the declaration covers (0 when it ends before it starts).
pub open spec fn span(d: ParsedDeclarationsData) -> int {
    if owner_end(d) >= d.lines_signature.0 {
        owner_end(d) - d.lines_signature.0
    } else {
        0
    }
}

/// The declaration at `a` is at least as inner as the one at `b`: it spans less, or as
/// much and starts later, or both alike and its key is not larger.
pub open spec fn no_outer(h: Map<usize, Parsed>, a: usize, b: usize) -> bool {
    let da = decl_at(h, a)->0;
    let db = decl_at(h, b)->0;
    ||| span(da) < span(db)
    ||| span(da) == span(db) && da.lines_signature.0 > db.lines_signature.0
    ||| span(da) == span(db) && da.lines_signature.0 == db.lines_signature.0 && a <= b
}

/// The declaration at `k` owns `line` and is the innermost of those that do.
pub open spec fn is_owner(h: Map<usize, Parsed>, line: usize, k: usize) -> bool {
    &&& decl_at(h, k) is Some
    &&& owns(decl_at(h, k)->0, line)
    &&& forall|k2: usize|
        #![trigger decl_at(h, k2)]
        decl_at(h, k2) is Some && owns(decl_at(h, k2)->0, line) ==> no_outer(h, k, k2)
}

/// The key of the innermost declaration that owns `line`, if any does.
pub open spec fn owner_of(h: Map<usize, Parsed>, line: usize) -> Option<usize> {
    if exists|k: usize| is_owner(h, line, k) {
        Some(choose|k: usize| is_owner(h, line, k))
    } else {
        None
    }
}

proof fn lemma_owner_unique(h: Map<usize, Parsed>, line: usize, k1: usize, k2: usize)
    requires
        is_owner(h, line, k1),
        is_owner(h, line, k2),
    ensures
        k1 == k2,
{
    assert(no_outer(h, k1, k2));
    assert(no_outer(h, k2, k1));
}

/// The key of the innermost declaration owning the line: the one spanning the fewest
/// lines, then the one starting last, then the one with the smallest key.
fn innermost_declaration_for_line(line_idx: usize, hashtree: &HashMap<usize, Parsed>) -> (r: Option<usize>)
    ensures
        r == owner_of(hashtree@, line_idx),
{
    let keys = hashtree_keys(hashtree);
    let mut best: Option<usize> = None;
    let mut best_span: usize = 0;
    let mut best_start: usize = 0;
    let mut i: usize = 0;
    while i < keys.len()
        invariant
            i <= keys@.len(),
            keys@.to_set() == hashtree@.dom(),
            match best {
                Some(b) => {
                    &&& decl_at(hashtree@, b) is Some
                    &&& owns(decl_at(hashtree@, b)->0, line_idx)
                    &&& best_span == span(decl_at(hashtree@, b)->0)
                    &&& best_start == decl_at(hashtree@, b)->0.lines_signature.0
                    &&& forall|j: int|
                        0 <= j < i && decl_at(hashtree@, #[trigger] keys@[j]) is Some && owns(
                            decl_at(hashtree@, keys@[j])->0,
                            line_idx,
                        ) ==> no_outer(hashtree@, b, keys@[j])
                },
                None => forall|j: int|
                    0 <= j < i ==> !(decl_at(hashtree@, #[trigger] keys@[j]) is Some && owns(
                        decl_at(hashtree@, keys@[j])->0,
                        line_idx,
                    )),
            },
        decreases keys.len() - i,
    {
        let k = keys[i];
        if let Some(d) = declaration_at(hashtree, k) {
            let start = d.lines_signature.0;
            let end = match d.lines_body {
                Some(b) => b.1,
                None => d.end_line,
            };
            if start <= line_idx && line_idx <= end {
                let sp = if end >= start {
                    end - start
                } else {
                    0
                };
                let better = match best {
                    None => true,
                    Some(b) => sp < best_span || (sp == best_span && start > best_start) || (sp
                        == best_span && start == best_start && k < b),
                };
                if better {
                    best = Some(k);
                    best_span = sp;
                    best_start = start;
                }
            }
        }
        i = i + 1;
    }
    proof {
        match best {
            Some(b) => {
                assert forall|k2: usize|
                    #![trigger decl_at(hashtree@, k2)]
                    decl_at(hashtree@, k2) is Some && owns(decl_at(hashtree@, k2)->0, line_idx) implies no_outer(
                    hashtree@,
                    b,
                    k2,
                ) by {
                    assert(hashtree@.dom().contains(k2));
                    assert(keys@.to_set().contains(k2));
                    let j = choose|j: int| 0 <= j < keys@.len() && keys@[j] == k2;
                }
                assert(is_owner(hashtree@, line_idx, b));
                lemma_owner_unique(hashtree@, line_idx, b, choose|k: usize| is_owner(hashtree@, line_idx, k));
            },
            None => {
                if exists|k: usize| is_owner(hashtree@, line_idx, k) {
                    let k = choose|k: usize| is_owner(hashtree@, line_idx, k);
                    assert(hashtree@.dom().contains(k));
                    assert(keys@.to_set().contains(k));
                    let j = choose|j: int| 0 <= j < keys@.len() && keys@[j] == k;
                    assert(decl_at(hashtree@, keys@[j]) is Some);
                }
            },
        }
    }
    best
}

/// The lines of the signature of the declaration owning `hit`, cut to `0..len`.
pub open spec fn owner_range(h: Map<usize, Parsed>, hit: usize, len: int) -> Set<usize> {
    match owner_of(h, hit) {
        Some(k) => {
            let d = decl_at(h, k)->0;
            Set::new(
                |i: usize|
                    0 <= len - 1 && (if d.lines_signature.0 < len - 1 {
                        d.lines_signature.0 as int
                    } else {
                        len - 1
                    }) <= i && i <= (if d.lines_signature.1 < len - 1 {
                        d.lines_signature.1 as int
                    } else {
                        len - 1
                    }),
            )
        },
        None => Set::empty(),
    }
}

/// The signature lines of the owners of all the hits.
pub open spec fn owner_indices(h: Map<usize, Parsed>, hits: Set<usize>, len: int) -> Set<usize> {
    Set::new(|i: usize| exists|hit: usize| #[trigger] hits.contains(hit) && owner_range(h, hit, len).contains(i))
}

/// Makes visible the signature of the innermost declaration owning each hit.
pub fn show_owner_from_hits(hits: &[usize], lines: Vec<LineStatus>, hashtree: &HashMap<usize, Parsed>) -> (r:
    Vec<LineStatus>)
    ensures
        shows(lines@, owner_indices(hashtree@, hits@.to_set(), lines@.len() as int), r@),
{
    let len = lines.len();
    let ghost target = owner_indices(hashtree@, hits@.to_set(), len as int);
    if hits.len() == 0 || len == 0 {
        assert(target =~= Set::<usize>::empty());
        let ghost old_lines = lines@;
        let out = set_visibles(lines, &HashSet::new());
        return out;
    }
    let mut owner_set: HashSet<usize> = HashSet::new();
    let mut j: usize = 0;
    while j < hits.len()
        invariant
            j <= hits@.len(),
            len == lines@.len(),
            len > 0,
            owner_set@ == Set::new(
                |i: usize| exists|jj: int| 0 <= jj < j && owner_range(hashtree@, #[trigger] hits@[jj], len as int).contains(i),
            ),
        decreases hits.len() - j,
    {
        let ghost before = owner_set@;
        let hit = hits[j];
        match innermost_declaration_for_line(hit, hashtree) {
            Some(k) => {
                let d = declaration_at(hashtree, k).unwrap();
                let (sig_start, sig_end) = d.lines_signature;
                let lo = if sig_start < len - 1 {
                    sig_start
                } else {
                    len - 1
                };
                let hi = if sig_end < len - 1 {
                    sig_end
                } else {
                    len - 1
                };
                let mut ix = lo;
                while ix <= hi
                    invariant
                        lo <= ix,
                        ix <= if lo <= hi {
                            hi + 1
                        } else {
                            lo as int
                        },
                        hi < len,
                        owner_set@ == before.union(Set::new(|x: usize| lo <= x < ix)),
                    decreases hi + 1 - ix,
                {
                    owner_set.insert(ix);
                    assert(before.union(Set::new(|x: usize| lo <= x < ix + 1)) =~= before.union(Set::new(|x: usize| lo <= x < ix)).insert(ix));
                    ix = ix + 1;
                }
                proof {
                    assert(owner_range(hashtree@, hit, len as int) =~= Set::new(|x: usize| lo <= x < ix));
                }
            },
            None => {
                assert(owner_range(hashtree@, hit, len as int) =~= Set::<usize>::empty());
            },
        }
        proof {
            let nxt = Set::new(
                |i: usize| exists|jj: int| 0 <= jj < j + 1 && owner_range(hashtree@, #[trigger] hits@[jj], len as int).contains(i),
            );
            assert forall|x: usize| nxt.contains(x) <==> owner_set@.contains(x) by {
                if nxt.contains(x) {
                    let jj = choose|jj: int| 0 <= jj < j + 1 && owner_range(hashtree@, #[trigger] hits@[jj], len as int).contains(x);
                    if jj < j {
                        assert(before.contains(x));
                    }
                }
                if owner_range(hashtree@, hit, len as int).contains(x) {
                    assert(owner_range(hashtree@, hits@[j as int], len as int).contains(x));
                }
            }
            assert(owner_set@ =~= nxt);
        }
        j = j + 1;
    }
    assert forall|x: usize| target.contains(x) <==> owner_set@.contains(x) by {
        if target.contains(x) {
            let hit = choose|hit: usize| #[trigger] hits@.to_set().contains(hit) && owner_range(hashtree@, hit, len as int).contains(x);
            let jj = choose|jj: int| 0 <= jj < hits@.len() && hits@[jj] == hit;
            assert(owner_range(hashtree@, hits@[jj], len as int).contains(x));
        }
        if owner_set@.contains(x) {
            let jj = choose|jj: int| 0 <= jj < hits@.len() && owner_range(hashtree@, #[trigger] hits@[jj], len as int).contains(x);
            assert(hits@.to_set().contains(hits@[jj]));
        }
    }
    assert(owner_set@ =~= target);
    set_visibles(lines, &owner_set)
}

/// How a search-type command sets visibility from the line's visibility and whether it
/// is a hit.
#[derive(Debug, Clone, Copy)]
pub enum Visibility {
    /// Visible exactly when a hit (`all`).
    Hit,
    /// Visible when visible and a hit (`and`).
    VisibleAndHit,
    /// Visible when visible and not a hit (`less`).
    VisibleAndNotHit,
    /// Visible when visible or a hit (`more`, `declarations`).
    VisibleOrHit,
}

/// The visibility a rule gives.
pub open spec fn rule_visible(rule: Visibility, visible: bool, hit: bool) -> bool {
    match rule {
        Visibility::Hit => hit,
        Visibility::VisibleAndHit => visible && hit,
        Visibility::VisibleAndNotHit => visible && !hit,
        Visibility::VisibleOrHit => visible || hit,
    }
}

fn calculate_visibility(rule: Visibility, visible: bool, hit: bool) -> (b: bool)
    ensures
        b == rule_visible(rule, visible, hit),
{
    match rule {
        Visibility::Hit => hit,
        Visibility::VisibleAndHit => visible && hit,
        Visibility::VisibleAndNotHit => visible && !hit,
        Visibility::VisibleOrHit => visible || hit,
    }
}

/// The line is a hit: its text matches and the qualifier's conditions hold.
pub open spec fn line_hit(searcher: Searcher, q: GrepCommandQualifier, l: LineView) -> bool {
    searcher.matches(l.line) && conditions_hold(q.conditions_checker.conds@, l)
}

/// The line after the search: visibility by the rule, and the key set on a hit when the
/// qualifier sets one.
pub open spec fn searched_view(rule: Visibility, searcher: Searcher, q: GrepCommandQualifier, l: LineView) -> LineView {
    let hit = line_hit(searcher, q, l);
    LineView {
        visible: rule_visible(rule, l.visible, hit),
        key: if hit && q.set_key is Some {
            q.set_key->0@
        } else {
            l.key
        },
        ..l
    }
}

/// All lines after the search.
pub open spec fn search_views(rule: Visibility, searcher: Searcher, q: GrepCommandQualifier, views: Seq<LineView>) -> Seq<
    LineView,
> {
    Seq::new(views.len(), |i: int| searched_view(rule, searcher, q, views[i]))
}

/// The positions of the hits, in increasing order.
pub open spec fn hit_positions(searcher: Searcher, q: GrepCommandQualifier, views: Seq<LineView>) -> Seq<usize>
    decreases views.len(),
{
    if views.len() == 0 {
        Seq::empty()
    } else if line_hit(searcher, q, views.last()) {
        hit_positions(searcher, q, views.drop_last()).push((views.len() - 1) as usize)
    } else {
        hit_positions(searcher, q, views.drop_last())
    }
}

/// Searches every line: sets visibility by `rule` and the key on hits (when the
/// qualifier has `sk=`), and returns the positions of the hits with the new lines.
pub fn search_vector(rule: Visibility, searcher: &Searcher, lines: Vec<LineStatus>, qualifier: &GrepCommandQualifier) -> (r: (
    Vec<usize>,
    Vec<LineStatus>,
))
    ensures
        r.0@ == hit_positions(*searcher, *qualifier, lines_view(lines@)),
        r.1@.len() == lines@.len(),
        lines_view(r.1@) == search_views(rule, *searcher, *qualifier, lines_view(lines@)),
{
    let mut hits: Vec<usize> = Vec::new();
    let mut out: Vec<LineStatus> = Vec::new();
    let mut i: usize = 0;
    while i < lines.len()
        invariant
            i <= lines@.len(),
            out@.len() == i,
            hits@ == hit_positions(*searcher, *qualifier, lines_view(lines@).take(i as int)),
            forall|j: int| 0 <= j < i ==> #[trigger] out@[j]@ == searched_view(rule, *searcher, *qualifier, lines@[j]@),
        decreases lines.len() - i,
    {
        let mut l = lines[i].duplicate();
        let hit = searcher.search(l.line.as_str()) && qualifier.conditions_checker.check(&l);
        assert(lines_view(lines@).take(i + 1).drop_last() =~= lines_view(lines@).take(i as int));
        assert(lines_view(lines@).take(i + 1).last() == lines@[i as int]@);
        if hit {
            hits.push(i);
            match &qualifier.set_key {
                Some(key) => {
                    l.meta.key = key.clone();
                },
                None => {},
            }
        }
        l.visible = calculate_visibility(rule, l.visible, hit);
        out.push(l);
        i = i + 1;
    }
    assert(lines_view(lines@).take(lines@.len() as int) =~= lines_view(lines@));
    assert(lines_view(out@) =~= search_views(rule, *searcher, *qualifier, lines_view(lines@)));
    (hits, out)
}

} // verus!
