//! Operations on vectors of source lines.
use vstd::prelude::*;
use std::collections::HashSet;
use sha2::{Digest, Sha256};

use crate::base::LineStatus;
use crate::constants::Direction;
use crate::text::all_ws;

verus! {

broadcast use vstd::std_specs::hash::group_hash_axioms;

/// Index `ix` lies within `radius` of the hit `h` on the side the sign of `radius` gives,
/// and (going forward) before `len`: `h + radius <= ix < h` for a negative radius,
/// `h < ix <= h + radius` with `ix < len` for a positive one.
pub open spec fn in_radius(h: int, ix: int, radius: int, len: int) -> bool {
    if radius < 0 {
        h + radius <= ix < h && 0 <= ix
    } else if radius > 0 {
        h < ix <= h + radius && ix < len
    } else {
        false
    }
}

/// The indices that `bounded_extend` adds around the hits.
pub open spec fn extend_set(hits: Set<usize>, radius: int, len: int) -> Set<usize> {
    Set::new(|ix: usize| exists|h: usize| #[trigger] hits.contains(h) && in_radius(h as int, ix as int, radius, len))
}

/// Adds to `extends` the indices within `radius` of each hit: before it for a negative
/// radius (down to 0), after it for a positive one (up to the last index of `vec`).
pub fn bounded_extend<T>(extends: &mut HashSet<usize>, hits: &[usize], radius: i32, vec: &[T])
    ensures
        final(extends)@ == old(extends)@.union(extend_set(hits@.to_set(), radius as int, vec@.len() as int)),
{
    let ghost start = extends@;
    let ghost target = extend_set(hits@.to_set(), radius as int, vec@.len() as int);
    if radius == 0 {
        assert(extends@ =~= start.union(target));
        return;
    }
    let mut k: usize = 0;
    while k < hits.len()
        invariant
            k <= hits@.len(),
            radius != 0,
            target == extend_set(hits@.to_set(), radius as int, vec@.len() as int),
            extends@ == start.union(Set::new(|ix: usize| exists|j: int| 0 <= j < k && in_radius(#[trigger] hits@[j] as int, ix as int, radius as int, vec@.len() as int))),
        decreases hits.len() - k,
    {
        let h = hits[k];
        let ghost before = extends@;
        let (lo, hi): (usize, usize) = if radius < 0 {
            let back = (-(radius as i64)) as usize;
            let lo = if h >= back { h - back } else { 0 };
            (lo, h)
        } else {
            let fwd = radius as usize;
            let top = if vec.len() == 0 { 0 } else if h <= usize::MAX - fwd { if h + fwd < vec.len() { h + fwd + 1 } else { vec.len() } } else { vec.len() };
            let lo = if h < usize::MAX { h + 1 } else { h };
            (lo, if top < lo { lo } else { top })
        };
        assert forall|ix: int| lo <= ix < hi <==> in_radius(h as int, ix, radius as int, vec@.len() as int) && 0 <= ix by {
        }
        let mut ix = lo;
        while ix < hi
            invariant
                lo <= ix <= hi,
                extends@ == before.union(Set::new(|x: usize| lo <= x < ix)),
            decreases hi - ix,
        {
            extends.insert(ix);
            assert(before.union(Set::new(|x: usize| lo <= x < ix + 1)) =~= before.union(Set::new(|x: usize| lo <= x < ix)).insert(ix));
            ix = ix + 1;
        }
        proof {
            let old_set = Set::new(|ix: usize| exists|j: int| 0 <= j < k && in_radius(#[trigger] hits@[j] as int, ix as int, radius as int, vec@.len() as int));
            let new_set = Set::new(|ix: usize| exists|j: int| 0 <= j < k + 1 && in_radius(#[trigger] hits@[j] as int, ix as int, radius as int, vec@.len() as int));
            assert forall|x: usize| new_set.contains(x) <==> old_set.contains(x) || (lo <= x < hi) by {
                if new_set.contains(x) {
                    let j = choose|j: int| 0 <= j < k + 1 && in_radius(#[trigger] hits@[j] as int, x as int, radius as int, vec@.len() as int);
                    if j < k {
                        assert(old_set.contains(x));
                    }
                }
                if lo <= x < hi {
                    assert(in_radius(hits@[k as int] as int, x as int, radius as int, vec@.len() as int));
                }
            }
            assert(extends@ =~= start.union(new_set));
        }
        k = k + 1;
    }
    assert forall|ix: usize| target.contains(ix) <==> Set::new(|ix: usize| exists|j: int| 0 <= j < hits@.len() && in_radius(#[trigger] hits@[j] as int, ix as int, radius as int, vec@.len() as int)).contains(ix) by {
        if target.contains(ix) {
            let h = choose|h: usize| #[trigger] hits@.to_set().contains(h) && in_radius(h as int, ix as int, radius as int, vec@.len() as int);
            let j = choose|j: int| 0 <= j < hits@.len() && hits@[j] == h;
        }
        if exists|j: int| 0 <= j < hits@.len() && in_radius(#[trigger] hits@[j] as int, ix as int, radius as int, vec@.len() as int) {
            let j = choose|j: int| 0 <= j < hits@.len() && in_radius(#[trigger] hits@[j] as int, ix as int, radius as int, vec@.len() as int);
            assert(hits@.to_set().contains(hits@[j]));
        }
    }
    assert(extends@ =~= start.union(target));
}

/// How many of the last entries of `sorted` name blank lines, counted from the end up to
/// the first that does not.
pub open spec fn trailing_blank_count(lines: Seq<LineStatus>, sorted: Seq<usize>) -> nat
    decreases sorted.len(),
{
    if sorted.len() == 0 {
        0
    } else if all_ws(lines[sorted.last() as int].line@) {
        1 + trailing_blank_count(lines, sorted.drop_last())
    } else {
        0
    }
}

/// How many of the first entries of `sorted` name blank lines, counted from the start up
/// to the first that does not.
pub open spec fn leading_blank_count(lines: Seq<LineStatus>, sorted: Seq<usize>) -> nat
    decreases sorted.len(),
{
    if sorted.len() == 0 {
        0
    } else if all_ws(lines[sorted[0] as int].line@) {
        1 + leading_blank_count(lines, sorted.drop_first())
    } else {
        0
    }
}

/// The elements of `set` below `n`, in increasing order.
pub open spec fn listing(set: Set<usize>, n: nat) -> Seq<usize>
    decreases n,
{
    if n == 0 {
        Seq::empty()
    } else if set.contains((n - 1) as usize) {
        listing(set, (n - 1) as nat).push((n - 1) as usize)
    } else {
        listing(set, (n - 1) as nat)
    }
}

/// What `trim_outer_blanks` keeps of `indices`: listed in increasing order, the entries
/// after the leading run of blank lines (when `LEADING` or `BOTH`) and before the
/// trailing run (when `TRAILING` or `BOTH`).
pub open spec fn trimmed_spec(lines: Seq<LineStatus>, indices: Set<usize>, sides: Direction) -> Set<usize> {
    let sorted = listing(indices, lines.len());
    let t = if sides == Direction::TRAILING || sides == Direction::BOTH {
        trailing_blank_count(lines, sorted)
    } else {
        0
    };
    let l = if sides == Direction::LEADING || sides == Direction::BOTH {
        leading_blank_count(lines, sorted)
    } else {
        0
    };
    Set::new(|x: usize| exists|i: int| l <= i < sorted.len() - t && sorted[i] == x)
}

proof fn lemma_listing(set: Set<usize>, n: nat)
    requires
        n <= usize::MAX + 1,
    ensures
        forall|i: int| 0 <= i < listing(set, n).len() ==> (#[trigger] listing(set, n)[i]) < n && set.contains(listing(set, n)[i]),
        forall|x: usize| x < n && set.contains(x) ==> listing(set, n).contains(x),
    decreases n,
{
    if n > 0 {
        lemma_listing(set, (n - 1) as nat);
        let prev = listing(set, (n - 1) as nat);
        if set.contains((n - 1) as usize) {
            assert forall|x: usize| x < n && set.contains(x) implies listing(set, n).contains(x) by {
                if x < n - 1 {
                    let i = choose|i: int| 0 <= i < prev.len() && prev[i] == x;
                    assert(listing(set, n)[i] == x);
                } else {
                    assert(listing(set, n)[prev.len() as int] == x);
                }
            }
        }
    }
}

/// Lists the elements of `indices` below `n`, in increasing order.
fn sorted_indices(indices: &HashSet<usize>, n: usize) -> (r: Vec<usize>)
    ensures
        r@ == listing(indices@, n as nat),
{
    let mut out: Vec<usize> = Vec::new();
    let mut i: usize = 0;
    while i < n
        invariant
            i <= n,
            out@ == listing(indices@, i as nat),
        decreases n - i,
    {
        if indices.contains(&i) {
            out.push(i);
        }
        i = i + 1;
    }
    out
}

proof fn lemma_trailing_count(lines: Seq<LineStatus>, sorted: Seq<usize>)
    ensures
        trailing_blank_count(lines, sorted) <= sorted.len(),
    decreases sorted.len(),
{
    if sorted.len() > 0 {
        lemma_trailing_count(lines, sorted.drop_last());
    }
}

proof fn lemma_leading_count(lines: Seq<LineStatus>, sorted: Seq<usize>)
    ensures
        leading_blank_count(lines, sorted) <= sorted.len(),
    decreases sorted.len(),
{
    if sorted.len() > 0 {
        lemma_leading_count(lines, sorted.drop_first());
    }
}

/// Removes the blank lines at the outer ends of a selection: going in from the end (for
/// `TRAILING` or `BOTH`) and from the start (for `LEADING` or `BOTH`) through the
/// selected indices in order, every blank line met before the first non-blank one.
pub fn trim_outer_blanks(lines: &[LineStatus], indices: HashSet<usize>, sides: Direction) -> (r: HashSet<usize>)
    requires
        forall|x: usize| indices@.contains(x) ==> x < lines@.len(),
    ensures
        r@ == trimmed_spec(lines@, indices@, sides),
{
    let sorted = sorted_indices(&indices, lines.len());
    proof {
        lemma_listing(indices@, lines@.len());
        lemma_trailing_count(lines@, sorted@);
        lemma_leading_count(lines@, sorted@);
    }
    let n = sorted.len();
    let mut t: usize = 0;
    assert(sorted@.take(n as int) =~= sorted@);
    assert(sorted@.skip(0) =~= sorted@);
    if sides == Direction::TRAILING || sides == Direction::BOTH {
        while t < n && crate::text::is_blank(lines[sorted[n - 1 - t]].line.as_str())
            invariant
                n == sorted@.len(),
                t <= n,
                forall|i: int| 0 <= i < sorted@.len() ==> (#[trigger] sorted@[i]) < lines@.len(),
                trailing_blank_count(lines@, sorted@) == t + trailing_blank_count(lines@, sorted@.take(n - t)),
            decreases n - t,
        {
            let ghost prefix = sorted@.take(n - t);
            assert(prefix.drop_last() =~= sorted@.take(n - t - 1));
            t = t + 1;
        }
        proof {
            let prefix = sorted@.take(n - t);
            if t < n {
                assert(prefix.last() == sorted@[n - 1 - t]);
            } else {
                assert(prefix.len() == 0);
            }
        }
    }
    let mut l: usize = 0;
    if sides == Direction::LEADING || sides == Direction::BOTH {
        while l < n && crate::text::is_blank(lines[sorted[l]].line.as_str())
            invariant
                n == sorted@.len(),
                l <= n,
                forall|i: int| 0 <= i < sorted@.len() ==> (#[trigger] sorted@[i]) < lines@.len(),
                leading_blank_count(lines@, sorted@) == l + leading_blank_count(lines@, sorted@.skip(l as int)),
            decreases n - l,
        {
            let ghost suffix = sorted@.skip(l as int);
            assert(suffix.drop_first() =~= sorted@.skip(l + 1));
            l = l + 1;
        }
        proof {
            let suffix = sorted@.skip(l as int);
            if l < n {
                assert(suffix[0] == sorted@[l as int]);
            } else {
                assert(suffix.len() == 0);
            }
        }
    }
    let ghost target = trimmed_spec(lines@, indices@, sides);
    let mut out: HashSet<usize> = HashSet::new();
    let mut k: usize = l;
    let hi: usize = if t <= n { n - t } else { 0 };
    if k < hi {
        while k < hi
            invariant
                l <= k <= hi <= n,
                n == sorted@.len(),
                out@ == Set::new(|x: usize| exists|i: int| l <= i < k && sorted@[i] == x),
            decreases hi - k,
        {
            let ix = sorted[k];
            out.insert(ix);
            assert(out@ =~= Set::new(|x: usize| exists|i: int| l <= i < k + 1 && sorted@[i] == x));
            k = k + 1;
        }
    }
    assert(out@ =~= target);
    out
}

/// The lines joined with `\n` between them.
pub open spec fn joined(lines: Seq<LineStatus>) -> Seq<char>
    decreases lines.len(),
{
    if lines.len() == 0 {
        Seq::empty()
    } else if lines.len() == 1 {
        lines[0].line@
    } else {
        joined(lines.drop_last()) + seq!['\n'] + lines.last().line@
    }
}

/// The lines each followed by `\n`, one after the other.
pub open spec fn terminated(lines: Seq<LineStatus>) -> Seq<char>
    decreases lines.len(),
{
    if lines.len() == 0 {
        Seq::empty()
    } else {
        terminated(lines.drop_last()) + lines.last().line@ + seq!['\n']
    }
}

/// The lines put back together as the text of a file, joined with `\n`.
pub fn vec_lines_to_text(v_lines: &[LineStatus]) -> (r: String)
    ensures
        r@ == joined(v_lines@),
{
    let mut out: Vec<char> = Vec::new();
    let mut i: usize = 0;
    while i < v_lines.len()
        invariant
            i <= v_lines@.len(),
            out@ == joined(v_lines@.take(i as int)),
        decreases v_lines.len() - i,
    {
        let ghost before = out@;
        assert(v_lines@.take(i + 1).drop_last() =~= v_lines@.take(i as int));
        if i > 0 {
            out.push('\n');
        }
        let cs = crate::text::chars_of(v_lines[i].line.as_str());
        crate::text::append_chars(&mut out, &cs);
        proof {
            if i == 0 {
                assert(out@ =~= v_lines@[0].line@);
            } else {
                assert(out@ =~= before + seq!['\n'] + v_lines@[i as int].line@);
            }
        }
        i = i + 1;
    }
    assert(v_lines@.take(v_lines@.len() as int) =~= v_lines@);
    crate::text::string_from_chars(out.as_slice())
}

/// The SHA-256 digest of the UTF-8 bytes of a text.
pub uninterp spec fn sha256_spec(text: Seq<char>) -> Seq<u8>;

/// `Sha256::digest` of the UTF-8 bytes of `text`: the digest is `sha256_spec` of the text
/// and is 32 bytes long.
#[verifier::external_body]
fn sha256_of(text: &str) -> (r: Vec<u8>)
    ensures
        r@ == sha256_spec(text@),
        r@.len() == 32,
{
    Sha256::digest(text.as_bytes()).to_vec()
}

/// The lower-case hexadecimal digit of `d`.
pub open spec fn hex_digit(d: u8) -> char {
    if d < 10 {
        ((d + 48) as u8) as char
    } else {
        ((d + 87) as u8) as char
    }
}

/// Each byte as two lower-case hexadecimal digits.
pub open spec fn hex_of(bytes: Seq<u8>) -> Seq<char>
    decreases bytes.len(),
{
    if bytes.len() == 0 {
        Seq::empty()
    } else {
        hex_of(bytes.drop_last()) + seq![hex_digit(bytes.last() / 16), hex_digit(bytes.last() % 16)]
    }
}

fn hex_char(d: u8) -> (c: char)
    requires
        d < 16,
    ensures
        c == hex_digit(d),
{
    if d < 10 {
        (d + 48) as char
    } else {
        (d + 87) as char
    }
}

/// The SHA-256 digest, in lower-case hexadecimal, of the lines each followed by `\n`
/// (so that both the boundaries and the order of the lines count).
pub fn digest_lines(lines: &[LineStatus]) -> (r: String)
    ensures
        r@ == hex_of(sha256_spec(terminated(lines@))),
{
    let mut text: Vec<char> = Vec::new();
    let mut i: usize = 0;
    while i < lines.len()
        invariant
            i <= lines@.len(),
            text@ == terminated(lines@.take(i as int)),
        decreases lines.len() - i,
    {
        assert(lines@.take(i + 1).drop_last() =~= lines@.take(i as int));
        let cs = crate::text::chars_of(lines[i].line.as_str());
        crate::text::append_chars(&mut text, &cs);
        text.push('\n');
        i = i + 1;
    }
    assert(lines@.take(lines@.len() as int) =~= lines@);
    let s = crate::text::string_from_chars(text.as_slice());
    let digest = sha256_of(s.as_str());
    let mut out: Vec<char> = Vec::new();
    let mut k: usize = 0;
    while k < digest.len()
        invariant
            k <= digest@.len(),
            out@ == hex_of(digest@.take(k as int)),
        decreases digest.len() - k,
    {
        assert(digest@.take(k + 1).drop_last() =~= digest@.take(k as int));
        let b = digest[k];
        out.push(hex_char(b / 16));
        out.push(hex_char(b % 16));
        k = k + 1;
    }
    assert(digest@.take(digest@.len() as int) =~= digest@);
    crate::text::string_from_chars(out.as_slice())
}

} // verus!
