//! Helpers over lines and payload texts.
use vstd::prelude::*;
use std::collections::HashSet;

use crate::regexes::{compile_regex, regex_build_error, regex_split_once, split_once};
use crate::text::{parse_usize_spec, split_seq, trim_seq};

pub mod vec_lines;

verus! {

broadcast use vstd::std_specs::hash::group_hash_axioms;

/// The pieces of a `lines` payload part, split at `-` and trimmed.
pub open spec fn range_pieces(part: Seq<char>) -> Seq<Seq<char>> {
    split_seq(part, seq!['-']).map_values(|x: Seq<char>| trim_seq(x))
}

/// The numbers `a..=b`.
pub open spec fn closed_range(a: int, b: int) -> Set<usize> {
    Set::new(|i: usize| a <= i <= b)
}

/// How one comma-separated part of a `lines` payload changes `(until, wanted, from)`:
/// `n-` lowers `from` to `n`, `-n` raises `until` to `n`, `a-b` adds `a..=b`, and `n`
/// adds `n`; a part whose numbers do not parse changes nothing.
pub open spec fn apply_lines_part(acc: (usize, Set<usize>, usize), part: Seq<char>) -> (usize, Set<usize>, usize) {
    let sub = range_pieces(part);
    if sub.len() >= 2 && sub[1].len() == 0 {
        match parse_usize_spec(sub[0]) {
            Some(pos) => if pos < acc.2 {
                (acc.0, acc.1, pos as usize)
            } else {
                acc
            },
            None => acc,
        }
    } else if sub.len() >= 2 && sub[0].len() == 0 {
        match parse_usize_spec(sub[1]) {
            Some(pos) => if pos > acc.0 {
                (pos as usize, acc.1, acc.2)
            } else {
                acc
            },
            None => acc,
        }
    } else if sub.len() >= 2 {
        match (parse_usize_spec(sub[0]), parse_usize_spec(sub[1])) {
            (Some(a), Some(b)) => (acc.0, acc.1.union(closed_range(a, b)), acc.2),
            _ => acc,
        }
    } else {
        match parse_usize_spec(sub[0]) {
            Some(i) => (acc.0, acc.1.insert(i as usize), acc.2),
            None => acc,
        }
    }
}

/// Applies the parts in order, starting from `(0, {}, 9999999)`.
pub open spec fn lines_parts_fold(parts: Seq<Seq<char>>) -> (usize, Set<usize>, usize)
    decreases parts.len(),
{
    if parts.len() == 0 {
        (0, Set::empty(), 9_999_999)
    } else {
        apply_lines_part(lines_parts_fold(parts.drop_last()), parts.last())
    }
}

/// What `parse_lines_payload` gives for `arg`.
pub open spec fn lines_payload_spec(arg: Seq<char>) -> (usize, Set<usize>, usize) {
    lines_parts_fold(split_seq(arg, seq![',']))
}

/// Reads a `lines` payload: comma-separated parts, each `n1` (that line), `-n` (lines up
/// to n), `n-` (lines from n on) or `n1-n2` (that range). Returns `(until, wanted, from)`.
pub fn parse_lines_payload(arg1: &str) -> (r: (usize, HashSet<usize>, usize))
    ensures
        (r.0, r.1@, r.2) == lines_payload_spec(arg1@),
{
    let mut res: HashSet<usize> = HashSet::new();
    let mut until_: usize = 0;
    let mut from_: usize = 9_999_999;
    let commas = vec![','];
    assert(commas@ =~= seq![',']);
    let parts = crate::text::split_chars(arg1, &commas);
    let ghost pv = parts@.map_values(|x: String| x@);
    let mut k: usize = 0;
    assert(pv.take(0) =~= Seq::<Seq<char>>::empty());
    while k < parts.len()
        invariant
            k <= parts@.len(),
            pv == parts@.map_values(|x: String| x@),
            pv == split_seq(arg1@, seq![',']),
            (until_, res@, from_) == lines_parts_fold(pv.take(k as int)),
        decreases parts.len() - k,
    {
        proof {
            assert(pv.take(k + 1).drop_last() =~= pv.take(k as int));
            assert(pv.take(k + 1).last() == parts@[k as int]@);
        }
        let (u, f) = apply_part(&parts[k], until_, &mut res, from_);
        until_ = u;
        from_ = f;
        k = k + 1;
    }
    assert(pv.take(parts@.len() as int) =~= pv);
    (until_, res, from_)
}

/// Applies one part of a `lines` payload; see `apply_lines_part`.
fn apply_part(part: &String, until_: usize, res: &mut HashSet<usize>, from_: usize) -> (r: (usize, usize))
    ensures
        (r.0, final(res)@, r.1) == apply_lines_part((until_, old(res)@, from_), part@),
{
    let dash = vec!['-'];
    assert(dash@ =~= seq!['-']);
    let raw = crate::text::split_chars(part.as_str(), &dash);
    let mut sub: Vec<String> = Vec::new();
    let mut i: usize = 0;
    while i < raw.len()
        invariant
            i <= raw@.len(),
            sub@.len() == i,
            forall|j: int| 0 <= j < i ==> #[trigger] sub@[j]@ == trim_seq(raw@[j]@),
        decreases raw.len() - i,
    {
        sub.push(crate::text::trim(raw[i].as_str()));
        i = i + 1;
    }
    proof {
        crate::text::lemma_split_seq_nonempty(part@, seq!['-']);
        let rv = raw@.map_values(|x: String| x@);
        assert(rv == split_seq(part@, seq!['-']));
        assert(rv.len() == raw@.len());
        assert(range_pieces(part@).len() == rv.len());
        assert forall|j: int| 0 <= j < raw@.len() implies #[trigger] range_pieces(part@)[j] == sub@[j]@ by {
            assert(rv[j] == raw@[j]@);
            assert(range_pieces(part@)[j] == trim_seq(rv[j]));
        }
    }
    let ghost sv = range_pieces(part@);
    assert(sv.len() == sub@.len());
    if sub.len() >= 2 && sub[1].as_str().is_empty() {
        assert(sv[1] == sub@[1]@);
        match crate::text::parse_usize(sub[0].as_str()) {
            Some(pos) => {
                if pos < from_ {
                    (until_, pos)
                } else {
                    (until_, from_)
                }
            },
            None => (until_, from_),
        }
    } else if sub.len() >= 2 && sub[0].as_str().is_empty() {
        assert(sv[0] == sub@[0]@);
        match crate::text::parse_usize(sub[1].as_str()) {
            Some(pos) => {
                if pos > until_ {
                    (pos, from_)
                } else {
                    (until_, from_)
                }
            },
            None => (until_, from_),
        }
    } else if sub.len() >= 2 {
        assert(sv[0] == sub@[0]@ && sv[1] == sub@[1]@);
        match (crate::text::parse_usize(sub[0].as_str()), crate::text::parse_usize(sub[1].as_str())) {
            (Some(a), Some(b)) => {
                insert_range(res, a, b);
                (until_, from_)
            },
            _ => (until_, from_),
        }
    } else {
        assert(sv[0] == sub@[0]@);
        match crate::text::parse_usize(sub[0].as_str()) {
            Some(idx) => {
                res.insert(idx);
                (until_, from_)
            },
            None => (until_, from_),
        }
    }
}

/// Inserts `a..=b` into `res`.
pub(crate) fn insert_range(res: &mut HashSet<usize>, a: usize, b: usize)
    ensures
        final(res)@ == old(res)@.union(closed_range(a as int, b as int)),
{
    if a > b {
        assert(old(res)@.union(closed_range(a as int, b as int)) =~= old(res)@);
        return;
    }
    let mut i = a;
    loop
        invariant_except_break
            a <= i <= b,
            res@ == old(res)@.union(closed_range(a as int, i as int - 1)),
        ensures
            res@ == old(res)@.union(closed_range(a as int, b as int)),
        decreases b - i,
    {
        res.insert(i);
        assert(res@ =~= old(res)@.union(closed_range(a as int, i as int)));
        if i == b {
            break;
        }
        i = i + 1;
    }
}

/// What `split_search_parents` gives: the last `/`-separated piece, and the pieces
/// before it from the nearest to the farthest when there is more than one.
pub open spec fn search_parents_spec(value: Seq<char>) -> (Seq<char>, Option<Seq<Seq<char>>>) {
    let rev = split_seq(value, seq!['/']).reverse();
    if rev.len() == 1 {
        (rev[0], None)
    } else {
        (rev[0], Some(rev.skip(1)))
    }
}

/// Splits a nested search: `Foo/__init__` looks for `__init__` under a parent matching
/// `Foo`.
pub fn split_search_parents(value: &str) -> (r: (String, Option<Vec<String>>))
    ensures
        r.0@ == search_parents_spec(value@).0,
        match r.1 {
            Some(v) => search_parents_spec(value@).1 == Some(v@.map_values(|x: String| x@)),
            None => search_parents_spec(value@).1 is None,
        },
{
    let slash = vec!['/'];
    assert(slash@ =~= seq!['/']);
    let pieces = crate::text::split_chars(value, &slash);
    proof {
        crate::text::lemma_split_seq_nonempty(value@, seq!['/']);
    }
    let ghost pv = pieces@.map_values(|x: String| x@);
    let ghost rev = pv.reverse();
    let n = pieces.len();
    let first = pieces[n - 1].clone();
    assert(rev[0] == pv[n - 1]);
    if n == 1 {
        return (first, None);
    }
    let mut rest: Vec<String> = Vec::new();
    let mut k: usize = n - 1;
    while k > 0
        invariant
            n == pieces@.len(),
            k <= n - 1,
            pv == pieces@.map_values(|x: String| x@),
            rev == pv.reverse(),
            rest@.map_values(|x: String| x@) == rev.skip(1).take(n - 1 - k),
        decreases k,
    {
        let ghost before = rest@.map_values(|x: String| x@);
        let c = pieces[k - 1].clone();
        assert(c@ == pv[k - 1]);
        assert(rev[n - k] == pv[k - 1]);
        rest.push(c);
        assert(rest@.map_values(|x: String| x@) =~= before.push(c@));
        assert(rest@.map_values(|x: String| x@) =~= rev.skip(1).take(n - k));
        k = k - 1;
    }
    assert(rev.skip(1).take(n - 1) =~= rev.skip(1));
    (first, Some(rest))
}

/// The pattern that separates the wanted part of a name search from the unwanted part.
pub open spec fn negation_source() -> Seq<char> {
    crate::constants::commandflags::NAME_NEGATIVE_SPLITTER_VALUE@
}

/// What `split_name_negation` gives: the text before the first `--` or `!` and the text
/// after it, both trimmed; no unwanted part when there is no separator or nothing after it.
pub open spec fn negation_spec(arg: Seq<char>) -> (Seq<char>, Option<Seq<char>>) {
    if regex_build_error(negation_source(), false) is Some {
        (trim_seq(arg), None)
    } else {
        let (first, rest) = regex_split_once(negation_source(), false, arg);
        (
            trim_seq(first),
            match rest {
                Some(n) => if trim_seq(n).len() == 0 {
                    None
                } else {
                    Some(trim_seq(n))
                },
                None => None,
            },
        )
    }
}

/// Splits a name search into what must match and what must not: `Url--^_` and `Url!^_`
/// both match `Url` but not names that start with `_`.
pub fn split_name_negation(arg1: &str) -> (r: (String, Option<String>))
    ensures
        (r.0@, crate::text::opt_view(r.1)) == negation_spec(arg1@),
{
    match compile_regex(crate::constants::commandflags::NAME_NEGATIVE_SPLITTER_VALUE, false) {
        Err(_) => (crate::text::trim(arg1), None),
        Ok(re) => {
            let (first, rest) = split_once(&re, arg1);
            let neg = match rest {
                Some(n) => {
                    let tn = crate::text::trim(n.as_str());
                    if crate::text::is_empty_text(tn.as_str()) {
                        None
                    } else {
                        Some(tn)
                    }
                },
                None => None,
            };
            (crate::text::trim(first.as_str()), neg)
        },
    }
}

/// The patterns of a name search (`negation_spec`) with each `,` turned into `|`: the
/// wanted names, and the unwanted ones when there are any.
pub open spec fn negation_sources(arg: Seq<char>) -> (Seq<char>, Option<Seq<char>>) {
    let (pos, neg) = negation_spec(arg);
    (
        crate::text::replace_all_seq(pos, ","@, "|"@),
        match neg {
            Some(n) => Some(crate::text::replace_all_seq(n, ","@, "|"@)),
            None => None,
        },
    )
}

/// The patterns of a name search compile.
pub open spec fn negation_sources_compile(arg: Seq<char>) -> bool {
    let (pos, neg) = negation_sources(arg);
    &&& regex_build_error(pos, false) is None
    &&& match neg {
        Some(n) => regex_build_error(n, false) is None,
        None => true,
    }
}

/// Splits a name search as `split_name_negation` does and compiles both parts, a list
/// `a,b` standing for the alternatives `a|b`.
pub fn split_name_negation_regex(arg1: &str) -> (r: (crate::regexes::CompiledRegex, Option<crate::regexes::CompiledRegex>))
    requires
        negation_sources_compile(arg1@),
    ensures
        r.0.source() == negation_sources(arg1@).0 && !r.0.insensitive(),
        match r.1 {
            Some(n) => negation_sources(arg1@).1 == Some(n.source()) && !n.insensitive(),
            None => negation_sources(arg1@).1 is None,
        },
{
    let (pos, neg) = split_name_negation(arg1);
    let rneg = match neg {
        Some(n) => Some(compile_regex(crate::text::replace(n.as_str(), ",", "|").as_str(), false).unwrap()),
        None => None,
    };
    (compile_regex(crate::text::replace(pos.as_str(), ",", "|").as_str(), false).unwrap(), rneg)
}

/// `split_name_negation_regex` when both patterns compile; `None` otherwise.
pub fn try_split_name_negation_regex(arg1: &str) -> (r: Option<(crate::regexes::CompiledRegex, Option<crate::regexes::CompiledRegex>)>)
    ensures
        match r {
            Some(p) => negation_sources_compile(arg1@) && p.0.source() == negation_sources(arg1@).0 && match p.1 {
                Some(n) => negation_sources(arg1@).1 == Some(n.source()),
                None => negation_sources(arg1@).1 is None,
            },
            None => !negation_sources_compile(arg1@),
        },
{
    let (pos, neg) = split_name_negation(arg1);
    let pos_ok = compile_regex(crate::text::replace(pos.as_str(), ",", "|").as_str(), false).is_ok();
    let neg_ok = match &neg {
        Some(n) => compile_regex(crate::text::replace(n.as_str(), ",", "|").as_str(), false).is_ok(),
        None => true,
    };
    if pos_ok && neg_ok {
        Some(split_name_negation_regex(arg1))
    } else {
        None
    }
}

/// `s` without the slashes at its end.
pub open spec fn strip_trailing_slashes(s: Seq<char>) -> Seq<char>
    decreases s.len(),
{
    if s.len() > 0 && s.last() == '/' {
        strip_trailing_slashes(s.drop_last())
    } else {
        s
    }
}

/// The part of `s` after the last `c` (all of `s` when there is none).
pub open spec fn after_last(s: Seq<char>, c: char) -> Seq<char>
    decreases s.len(),
{
    if s.len() == 0 {
        s
    } else if s.last() == c {
        Seq::empty()
    } else {
        after_last(s.drop_last(), c).push(s.last())
    }
}

/// The file name of a path: its last component.
pub open spec fn file_name_spec(path: Seq<char>) -> Seq<char> {
    after_last(strip_trailing_slashes(path), '/')
}

/// The extension of a path, as `Path::extension` gives it for an ordinary file path: the
/// part of the file name after its last `.`, unless the name has no `.` other than a
/// leading one, or is `..`.
pub open spec fn extension_spec(path: Seq<char>) -> Option<Seq<char>> {
    let f = file_name_spec(path);
    if f == seq!['.', '.'] || !f.contains('.') {
        None
    } else {
        let ext = after_last(f, '.');
        if ext.len() + 1 == f.len() {
            None
        } else {
            Some(ext)
        }
    }
}

proof fn lemma_after_last(s: Seq<char>, c: char)
    ensures
        after_last(s, c).len() <= s.len(),
        after_last(s, c) == s.skip(s.len() - after_last(s, c).len()),
        after_last(s, c).len() < s.len() ==> s[s.len() - after_last(s, c).len() - 1] == c,
        !after_last(s, c).contains(c),
        after_last(s, c).len() == s.len() <==> !s.contains(c),
    decreases s.len(),
{
    if s.len() > 0 {
        lemma_after_last(s.drop_last(), c);
        let a = after_last(s.drop_last(), c);
        if s.last() != c {
            assert(after_last(s, c) =~= s.skip(s.len() - after_last(s, c).len()));
            if s.contains(c) {
                let i = choose|i: int| 0 <= i < s.len() && s[i] == c;
                assert(s.drop_last()[i] == c);
            }
            if after_last(s, c).contains(c) {
                let i = choose|i: int| 0 <= i < after_last(s, c).len() && after_last(s, c)[i] == c;
                if i < a.len() {
                    assert(a[i] == c);
                }
            }
            if s.drop_last().contains(c) {
                let i = choose|i: int| 0 <= i < s.drop_last().len() && s.drop_last()[i] == c;
                assert(s[i] == c);
            }
        } else {
            assert(s.skip(s.len() as int) =~= Seq::<char>::empty());
            assert(s.contains(c)) by {
                assert(s[s.len() - 1] == c);
            }
        }
    } else {
        assert(s.skip(0) =~= s);
    }
}

/// The index just past the last `c` in `cs` (0 when there is none).
fn after_last_index(cs: &Vec<char>, end: usize, c: char) -> (r: usize)
    requires
        end <= cs@.len(),
    ensures
        r <= end,
        cs@.subrange(r as int, end as int) == after_last(cs@.take(end as int), c),
{
    let mut i = end;
    while i > 0 && cs[i - 1] != c
        invariant
            i <= end <= cs@.len(),
            after_last(cs@.take(end as int), c) == after_last(cs@.take(i as int), c) + cs@.subrange(i as int, end as int),
        decreases i,
    {
        assert(cs@.take(i as int).drop_last() =~= cs@.take(i - 1));
        assert(cs@.subrange(i - 1, end as int) =~= seq![cs@[i - 1]] + cs@.subrange(i as int, end as int));
        i = i - 1;
    }
    if i > 0 {
        assert(cs@.take(i as int).last() == c);
    } else {
        assert(cs@.take(0) =~= Seq::<char>::empty());
    }
    assert(after_last(cs@.take(i as int), c) =~= Seq::<char>::empty());
    i
}

/// The extension of a file path (see `extension_spec`).
pub fn path_extension(path: &str) -> (r: Option<String>)
    ensures
        crate::text::opt_view(r) == extension_spec(path@),
{
    let cs = crate::text::chars_of(path);
    let mut end = cs.len();
    assert(cs@.take(end as int) =~= cs@);
    while end > 0 && cs[end - 1] == '/'
        invariant
            end <= cs@.len(),
            strip_trailing_slashes(cs@) == strip_trailing_slashes(cs@.take(end as int)),
        decreases end,
    {
        assert(cs@.take(end as int).drop_last() =~= cs@.take(end - 1));
        end = end - 1;
    }
    let ghost stripped = cs@.take(end as int);
    assert(strip_trailing_slashes(stripped) == stripped);
    let start = after_last_index(&cs, end, '/');
    let ghost f = cs@.subrange(start as int, end as int);
    assert(f == file_name_spec(path@));
    let file = crate::text::sub_chars(&cs, start, end);
    assert(file@ == f);
    if file.len() == 2 && file[0] == '.' && file[1] == '.' {
        assert(f =~= seq!['.', '.']);
        return None;
    }
    assert(f != seq!['.', '.']);
    let dot = after_last_index(&file, file.len(), '.');
    assert(file@.take(file@.len() as int) =~= file@);
    proof {
        lemma_after_last(f, '.');
    }
    if dot == 0 || dot == 1 {
        return None;
    }
    let ext = crate::text::sub_chars(&file, dot, file.len());
    Some(crate::text::string_from_chars(ext.as_slice()))
}


/// The quote characters that a command line in a commands file may be wrapped in.
pub open spec fn is_quote(c: char) -> bool {
    c == '"' || c == '\''
}

/// Number of leading quote characters of `s`.
pub open spec fn quote_prefix_len(s: Seq<char>) -> nat
    decreases s.len(),
{
    if s.len() > 0 && is_quote(s[0]) {
        1 + quote_prefix_len(s.drop_first())
    } else {
        0
    }
}

/// Number of trailing quote characters of `s`.
pub open spec fn quote_suffix_len(s: Seq<char>) -> nat
    decreases s.len(),
{
    if s.len() > 0 && is_quote(s.last()) {
        1 + quote_suffix_len(s.drop_last())
    } else {
        0
    }
}

/// `s` without its leading and trailing quote characters (`str::trim_matches`).
pub open spec fn strip_quotes_seq(s: Seq<char>) -> Seq<char> {
    let t = s.skip(quote_prefix_len(s) as int);
    t.take(t.len() - quote_suffix_len(t))
}

/// `s` without one trailing carriage return.
pub open spec fn strip_cr(s: Seq<char>) -> Seq<char> {
    if s.len() > 0 && s.last() == '\r' {
        s.drop_last()
    } else {
        s
    }
}

/// The lines of a text (`str::lines`): split at `\n`, a `\r` before the `\n` dropped, and
/// no line after a final `\n`.
pub open spec fn text_lines(s: Seq<char>) -> Seq<Seq<char>> {
    let p = split_seq(s, seq!['\n']);
    let k = p.len() - 1;
    Seq::new(
        if p[k].len() == 0 {
            k as nat
        } else {
            p.len()
        },
        |i: int|
            if i < k {
                strip_cr(p[i])
            } else {
                p[i]
            },
    )
}

/// A line of a commands file as a command: unquoted, then trimmed.
pub open spec fn command_line_text(line: Seq<char>) -> Seq<char> {
    trim_seq(strip_quotes_seq(line))
}

/// A cleaned line holds a command unless it is empty or a `#` comment.
pub open spec fn is_command_line(c: Seq<char>) -> bool {
    c.len() > 0 && c[0] != '#'
}

/// The commands of a commands file, in order.
pub open spec fn commands_text_spec(content: Seq<char>) -> Seq<Seq<char>> {
    text_lines(content).map_values(|l: Seq<char>| command_line_text(l)).filter(
        |c: Seq<char>| is_command_line(c),
    )
}

proof fn lemma_quote_prefix_len(s: Seq<char>)
    ensures
        quote_prefix_len(s) <= s.len(),
        forall|i: int| 0 <= i < quote_prefix_len(s) ==> is_quote(#[trigger] s[i]),
        quote_prefix_len(s) < s.len() ==> !is_quote(s[quote_prefix_len(s) as int]),
    decreases s.len(),
{
    if s.len() > 0 && is_quote(s[0]) {
        lemma_quote_prefix_len(s.drop_first());
        assert forall|i: int| 0 <= i < quote_prefix_len(s) implies is_quote(#[trigger] s[i]) by {
            if i > 0 {
                assert(s[i] == s.drop_first()[i - 1]);
            }
        }
    }
}

proof fn lemma_quote_suffix_len(s: Seq<char>)
    ensures
        quote_suffix_len(s) <= s.len(),
        forall|i: int| s.len() - quote_suffix_len(s) <= i < s.len() ==> is_quote(#[trigger] s[i]),
        quote_suffix_len(s) < s.len() ==> !is_quote(s[s.len() - quote_suffix_len(s) - 1]),
    decreases s.len(),
{
    if s.len() > 0 && is_quote(s.last()) {
        lemma_quote_suffix_len(s.drop_last());
        assert forall|i: int| s.len() - quote_suffix_len(s) <= i < s.len() implies is_quote(
            #[trigger] s[i],
        ) by {
            if i < s.len() - 1 {
                assert(s[i] == s.drop_last()[i]);
            }
        }
    }
}

fn leading_quotes(cs: &Vec<char>) -> (n: usize)
    ensures
        n == quote_prefix_len(cs@),
        n <= cs.len(),
{
    proof {
        lemma_quote_prefix_len(cs@);
    }
    let mut i: usize = 0;
    while i < cs.len() && (cs[i] == '"' || cs[i] == '\'')
        invariant
            i <= cs.len(),
            forall|j: int| 0 <= j < i ==> is_quote(#[trigger] cs@[j]),
            quote_prefix_len(cs@) <= cs.len(),
            forall|j: int| 0 <= j < quote_prefix_len(cs@) ==> is_quote(#[trigger] cs@[j]),
            quote_prefix_len(cs@) < cs.len() ==> !is_quote(cs@[quote_prefix_len(cs@) as int]),
        decreases cs.len() - i,
    {
        i = i + 1;
    }
    proof {
        if i < quote_prefix_len(cs@) {
            assert(is_quote(cs@[i as int]));
        }
        if i > quote_prefix_len(cs@) {
            assert(is_quote(cs@[quote_prefix_len(cs@) as int]));
        }
    }
    i
}

fn trailing_quotes(cs: &Vec<char>) -> (n: usize)
    ensures
        n == quote_suffix_len(cs@),
        n <= cs.len(),
{
    proof {
        lemma_quote_suffix_len(cs@);
    }
    let mut i: usize = 0;
    while i < cs.len() && (cs[cs.len() - 1 - i] == '"' || cs[cs.len() - 1 - i] == '\'')
        invariant
            i <= cs.len(),
            forall|j: int| cs.len() - i <= j < cs.len() ==> is_quote(#[trigger] cs@[j]),
            quote_suffix_len(cs@) <= cs.len(),
            forall|j: int| cs.len() - quote_suffix_len(cs@) <= j < cs.len() ==> is_quote(
                #[trigger] cs@[j],
            ),
            quote_suffix_len(cs@) < cs.len() ==> !is_quote(cs@[cs.len() - quote_suffix_len(cs@) - 1]),
        decreases cs.len() - i,
    {
        i = i + 1;
    }
    proof {
        if i < quote_suffix_len(cs@) {
            assert(is_quote(cs@[cs.len() - i - 1]));
        }
        if i > quote_suffix_len(cs@) {
            assert(is_quote(cs@[cs.len() - quote_suffix_len(cs@) - 1]));
        }
    }
    i
}

pub proof fn lemma_filter_step(s: Seq<Seq<char>>, i: int, pred: spec_fn(Seq<char>) -> bool)
    requires
        0 <= i < s.len(),
    ensures
        s.take(i + 1).filter(pred) == if pred(s[i]) {
            s.take(i).filter(pred).push(s[i])
        } else {
            s.take(i).filter(pred)
        },
{
    reveal(Seq::filter);
    assert(s.take(i + 1).drop_last() =~= s.take(i));
    assert(s.take(i + 1).last() == s[i]);
}

/// `s` without its leading and trailing quote characters.
pub fn strip_quotes(s: &str) -> (r: String)
    ensures
        r@ == strip_quotes_seq(s@),
{
    let cs = crate::text::chars_of(s);
    let n = leading_quotes(&cs);
    let rest = crate::text::sub_chars(&cs, n, cs.len());
    let m = trailing_quotes(&rest);
    crate::text::string_from_chars(crate::text::sub_chars(&rest, 0, rest.len() - m).as_slice())
}

/// `text_lines`: the lines of a text, as `str::lines` gives them.
pub fn text_lines_of(content: &str) -> (r: Vec<String>)
    ensures
        r@.map_values(|x: String| x@) == text_lines(content@),
{
    let mut seps: Vec<char> = Vec::new();
    seps.push('\n');
    let pieces = crate::text::split_chars(content, &seps);
    let ghost p = split_seq(content@, seq!['\n']);
    proof {
        assert(seps@ =~= seq!['\n']);
        crate::text::lemma_split_seq_nonempty(content@, seq!['\n']);
        assert(pieces@.len() == p.len());
        assert(forall|i: int| 0 <= i < p.len() ==> #[trigger] p[i] == pieces@[i]@);
    }
    let k = pieces.len() - 1;
    let count = if crate::text::is_empty_text(pieces[k].as_str()) {
        k
    } else {
        pieces.len()
    };
    let ghost lines = text_lines(content@);
    assert(lines.len() == count);
    let mut out: Vec<String> = Vec::new();
    let mut i: usize = 0;
    while i < count
        invariant
            i <= count <= pieces.len(),
            k == pieces.len() - 1,
            p == split_seq(content@, seq!['\n']),
            p.len() == pieces@.len(),
            forall|j: int| 0 <= j < p.len() ==> #[trigger] p[j] == pieces@[j]@,
            lines == text_lines(content@),
            lines.len() == count,
            out@.map_values(|x: String| x@) == lines.take(i as int),
        decreases count - i,
    {
        let piece = pieces[i].as_str();
        let line = if i < k {
            let cs = crate::text::chars_of(piece);
            if cs.len() > 0 && cs[cs.len() - 1] == '\r' {
                crate::text::string_from_chars(crate::text::sub_chars(&cs, 0, cs.len() - 1).as_slice())
            } else {
                crate::text::owned(piece)
            }
        } else {
            crate::text::owned(piece)
        };
        assert(line@ == lines[i as int]);
        let ghost before = out@.map_values(|x: String| x@);
        out.push(line);
        assert(out@.map_values(|x: String| x@) =~= before.push(lines[i as int]));
        assert(lines.take(i + 1) =~= lines.take(i as int).push(lines[i as int]));
        i = i + 1;
    }
    assert(lines.take(count as int) =~= lines);
    out
}

/// The commands written in the text of a commands file, one per line: each line is
/// unquoted and trimmed; empty lines and lines that start with `#` are skipped.
pub fn parse_commands_text(content: &str) -> (r: Vec<String>)
    ensures
        r@.map_values(|x: String| x@) == commands_text_spec(content@),
{
    let lines = text_lines_of(content);
    let ghost lv = lines@.map_values(|x: String| x@);
    let ghost cleaned = lv.map_values(|l: Seq<char>| command_line_text(l));
    let mut commands: Vec<String> = Vec::new();
    let mut i: usize = 0;
    assert(cleaned.take(0) =~= Seq::<Seq<char>>::empty());
    while i < lines.len()
        invariant
            i <= lines@.len(),
            lv == lines@.map_values(|x: String| x@),
            lv == text_lines(content@),
            cleaned == lv.map_values(|l: Seq<char>| command_line_text(l)),
            commands@.map_values(|x: String| x@) == cleaned.take(i as int).filter(
                |c: Seq<char>| is_command_line(c),
            ),
        decreases lines.len() - i,
    {
        let unquoted = strip_quotes(lines[i].as_str());
        let text = crate::text::trim(unquoted.as_str());
        assert(text@ == cleaned[i as int]);
        let tcs = crate::text::chars_of(text.as_str());
        let keep = tcs.len() > 0 && tcs[0] != '#';
        assert(keep == is_command_line(cleaned[i as int]));
        let ghost before = commands@.map_values(|x: String| x@);
        proof {
            lemma_filter_step(cleaned, i as int, |c: Seq<char>| is_command_line(c));
        }
        if keep {
            commands.push(text);
            assert(commands@.map_values(|x: String| x@) =~= before.push(cleaned[i as int]));
        } else {
            assert(commands@.map_values(|x: String| x@) =~= before);
        }
        i = i + 1;
    }
    assert(cleaned.take(lines@.len() as int) =~= cleaned);
    commands
}

} // verus!
