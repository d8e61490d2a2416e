//! Character-level text primitives: whitespace, trimming, substring search and
//! replacement, all stated over the `Seq<char>` view of strings.
use vstd::prelude::*;

verus! {

broadcast use vstd::string::group_string_axioms;

/// The characters that `char::is_whitespace` accepts (the Unicode `White_Space` property).
pub open spec fn is_ws(c: char) -> bool {
    let u = c as u32;
    ||| 0x09 <= u <= 0x0D
    ||| u == 0x20
    ||| u == 0x85
    ||| u == 0xA0
    ||| u == 0x1680
    ||| 0x2000 <= u <= 0x200A
    ||| u == 0x2028
    ||| u == 0x2029
    ||| u == 0x202F
    ||| u == 0x205F
    ||| u == 0x3000
}

/// Decides `is_ws` for one character.
pub fn is_whitespace_char(c: char) -> (b: bool)
    ensures
        b == is_ws(c),
{
    let u = c as u32;
    (0x09 <= u && u <= 0x0D) || u == 0x20 || u == 0x85 || u == 0xA0 || u == 0x1680 || (0x2000
        <= u && u <= 0x200A) || u == 0x2028 || u == 0x2029 || u == 0x202F || u == 0x205F || u
        == 0x3000
}

/// Number of leading whitespace characters of `s`.
pub open spec fn ws_prefix_len(s: Seq<char>) -> nat
    decreases s.len(),
{
    if s.len() > 0 && is_ws(s[0]) {
        1 + ws_prefix_len(s.drop_first())
    } else {
        0
    }
}

/// Number of trailing whitespace characters of `s`.
pub open spec fn ws_suffix_len(s: Seq<char>) -> nat
    decreases s.len(),
{
    if s.len() > 0 && is_ws(s.last()) {
        1 + ws_suffix_len(s.drop_last())
    } else {
        0
    }
}

/// Whether `s` is the empty string.
pub fn is_empty_text(s: &str) -> (b: bool)
    ensures
        b == (s@.len() == 0),
{
    chars_of(s).len() == 0
}

/// Whether `s` holds nothing but whitespace (`s.trim() == ""`).
pub fn is_blank(s: &str) -> (b: bool)
    ensures
        b == all_ws(s@),
{
    let cs = chars_of(s);
    let n = leading_ws(&cs);
    proof {
        lemma_ws_prefix_len(s@);
    }
    n == cs.len()
}

/// `str::trim_start`.
pub open spec fn trim_start_seq(s: Seq<char>) -> Seq<char> {
    s.skip(ws_prefix_len(s) as int)
}

/// `str::trim_end`.
pub open spec fn trim_end_seq(s: Seq<char>) -> Seq<char> {
    s.take(s.len() - ws_suffix_len(s))
}

/// `str::trim`.
pub open spec fn trim_seq(s: Seq<char>) -> Seq<char> {
    trim_end_seq(trim_start_seq(s))
}

/// True when every character of `s` is whitespace.
pub open spec fn all_ws(s: Seq<char>) -> bool {
    forall|i: int| 0 <= i < s.len() ==> is_ws(#[trigger] s[i])
}

pub proof fn lemma_ws_prefix_len(s: Seq<char>)
    ensures
        ws_prefix_len(s) <= s.len(),
        forall|i: int| 0 <= i < ws_prefix_len(s) ==> is_ws(#[trigger] s[i]),
        ws_prefix_len(s) < s.len() ==> !is_ws(s[ws_prefix_len(s) as int]),
    decreases s.len(),
{
    if s.len() > 0 && is_ws(s[0]) {
        lemma_ws_prefix_len(s.drop_first());
        assert forall|i: int| 0 <= i < ws_prefix_len(s) implies is_ws(#[trigger] s[i]) by {
            if i > 0 {
                assert(s[i] == s.drop_first()[i - 1]);
            }
        }
    }
}

pub proof fn lemma_ws_suffix_len(s: Seq<char>)
    ensures
        ws_suffix_len(s) <= s.len(),
        forall|i: int| s.len() - ws_suffix_len(s) <= i < s.len() ==> is_ws(#[trigger] s[i]),
        ws_suffix_len(s) < s.len() ==> !is_ws(s[s.len() - ws_suffix_len(s) - 1]),
    decreases s.len(),
{
    if s.len() > 0 && is_ws(s.last()) {
        lemma_ws_suffix_len(s.drop_last());
        assert forall|i: int| s.len() - ws_suffix_len(s) <= i < s.len() implies is_ws(
            #[trigger] s[i],
        ) by {
            if i < s.len() - 1 {
                assert(s[i] == s.drop_last()[i]);
            }
        }
    }
}

/// The characters of `s`, in order (`str::chars` collected into a `Vec`).
#[verifier::external_body]
pub(crate) fn chars_of(s: &str) -> (v: Vec<char>)
    ensures
        v@ == s@,
{
    s.chars().collect()
}

/// The view of an optional string.
pub open spec fn opt_view(o: Option<String>) -> Option<Seq<char>> {
    match o {
        Some(s) => Some(s@),
        None => None,
    }
}

/// Builds a `String` from characters (`FromIterator<&char>` for `String`).
#[verifier::external_body]
pub(crate) fn string_from_chars(v: &[char]) -> (s: String)
    ensures
        s@ == v@,
{
    v.iter().collect()
}

/// Copies a string slice into an owned `String`.
pub fn owned(s: &str) -> (r: String)
    ensures
        r@ == s@,
{
    s.to_owned()
}

/// Concatenation of two strings.
pub fn concat2(a: &str, b: &str) -> (r: String)
    ensures
        r@ == a@ + b@,
{
    let mut r = a.to_owned();
    r.append(b);
    r
}

/// Concatenation of three strings.
pub fn concat3(a: &str, b: &str, c: &str) -> (r: String)
    ensures
        r@ == a@ + b@ + c@,
{
    let mut r = a.to_owned();
    r.append(b);
    r.append(c);
    r
}

/// Equality of two strings by their characters.
pub fn str_eq(a: &str, b: &str) -> (r: bool)
    ensures
        r == (a@ == b@),
{
    let ca = chars_of(a);
    let cb = chars_of(b);
    if ca.len() != cb.len() {
        return false;
    }
    let mut i: usize = 0;
    while i < ca.len()
        invariant
            ca@ == a@,
            cb@ == b@,
            ca.len() == cb.len(),
            i <= ca.len(),
            forall|j: int| 0 <= j < i ==> ca@[j] == cb@[j],
        decreases ca.len() - i,
    {
        if ca[i] != cb[i] {
            return false;
        }
        i = i + 1;
    }
    assert(ca@ =~= cb@);
    true
}

/// `str::trim_start`.
pub fn trim_start(s: &str) -> (r: String)
    ensures
        r@ == trim_start_seq(s@),
{
    let cs = chars_of(s);
    let n = leading_ws(&cs);
    string_from_chars(sub_chars(&cs, n, cs.len()).as_slice())
}

/// The characters `from..to` of `cs`.
pub fn sub_chars(cs: &Vec<char>, from: usize, to: usize) -> (r: Vec<char>)
    requires
        from <= to <= cs.len(),
    ensures
        r@ == cs@.subrange(from as int, to as int),
{
    let mut r: Vec<char> = Vec::new();
    let mut i = from;
    while i < to
        invariant
            from <= i <= to <= cs.len(),
            r@ == cs@.subrange(from as int, i as int),
        decreases to - i,
    {
        r.push(cs[i]);
        assert(cs@.subrange(from as int, i + 1) == cs@.subrange(from as int, i as int).push(cs@[i as int]));
        i = i + 1;
    }
    r
}

/// Counts the leading whitespace characters.
pub fn leading_ws(cs: &Vec<char>) -> (n: usize)
    ensures
        n == ws_prefix_len(cs@),
        n <= cs.len(),
{
    proof {
        lemma_ws_prefix_len(cs@);
    }
    let mut i: usize = 0;
    while i < cs.len() && is_whitespace_char(cs[i])
        invariant
            i <= cs.len(),
            forall|j: int| 0 <= j < i ==> is_ws(#[trigger] cs@[j]),
            ws_prefix_len(cs@) <= cs.len(),
            forall|j: int| 0 <= j < ws_prefix_len(cs@) ==> is_ws(#[trigger] cs@[j]),
            ws_prefix_len(cs@) < cs.len() ==> !is_ws(cs@[ws_prefix_len(cs@) as int]),
        decreases cs.len() - i,
    {
        i = i + 1;
    }
    proof {
        if i < ws_prefix_len(cs@) {
            assert(is_ws(cs@[i as int]));
        }
        if i > ws_prefix_len(cs@) {
            assert(is_ws(cs@[ws_prefix_len(cs@) as int]));
        }
    }
    i
}

/// Counts the trailing whitespace characters.
pub fn trailing_ws(cs: &Vec<char>) -> (n: usize)
    ensures
        n == ws_suffix_len(cs@),
        n <= cs.len(),
{
    proof {
        lemma_ws_suffix_len(cs@);
    }
    let mut i: usize = 0;
    while i < cs.len() && is_whitespace_char(cs[cs.len() - 1 - i])
        invariant
            i <= cs.len(),
            forall|j: int| cs.len() - i <= j < cs.len() ==> is_ws(#[trigger] cs@[j]),
            ws_suffix_len(cs@) <= cs.len(),
            forall|j: int| cs.len() - ws_suffix_len(cs@) <= j < cs.len() ==> is_ws(
                #[trigger] cs@[j],
            ),
            ws_suffix_len(cs@) < cs.len() ==> !is_ws(cs@[cs.len() - ws_suffix_len(cs@) - 1]),
        decreases cs.len() - i,
    {
        i = i + 1;
    }
    proof {
        if i < ws_suffix_len(cs@) {
            assert(is_ws(cs@[cs.len() - i - 1]));
        }
        if i > ws_suffix_len(cs@) {
            assert(is_ws(cs@[cs.len() - ws_suffix_len(cs@) - 1]));
        }
    }
    i
}

/// `str::trim`.
pub fn trim(s: &str) -> (r: String)
    ensures
        r@ == trim_seq(s@),
{
    let cs = chars_of(s);
    let n = leading_ws(&cs);
    let rest = string_from_chars(sub_chars(&cs, n, cs.len()).as_slice());
    let cr = chars_of(rest.as_str());
    let m = trailing_ws(&cr);
    string_from_chars(sub_chars(&cr, 0, cr.len() - m).as_slice())
}


/// `p` occurs in `s` starting at character `i`.
pub open spec fn matches_at(s: Seq<char>, p: Seq<char>, i: int) -> bool {
    0 <= i && i + p.len() <= s.len() && s.subrange(i, i + p.len()) == p
}

/// `str::contains` with a string pattern.
pub open spec fn contains_seq(s: Seq<char>, p: Seq<char>) -> bool {
    exists|i: int| matches_at(s, p, i)
}

/// Decides `matches_at` on character vectors.
pub fn chars_match_at(s: &Vec<char>, p: &Vec<char>, i: usize) -> (b: bool)
    ensures
        b == matches_at(s@, p@, i as int),
{
    if i > s.len() || p.len() > s.len() - i {
        return false;
    }
    let mut j: usize = 0;
    while j < p.len()
        invariant
            i + p.len() <= s.len(),
            j <= p.len(),
            forall|k: int| 0 <= k < j ==> s@[i + k] == p@[k],
        decreases p.len() - j,
    {
        if s[i + j] != p[j] {
            assert(s@.subrange(i as int, i + p.len())[j as int] != p@[j as int]);
            return false;
        }
        j = j + 1;
    }
    assert(s@.subrange(i as int, i + p.len()) =~= p@);
    true
}

/// Decides `contains_seq` on character vectors.
pub fn chars_contains(s: &Vec<char>, p: &Vec<char>) -> (b: bool)
    ensures
        b == contains_seq(s@, p@),
{
    if p.len() > s.len() {
        assert(!contains_seq(s@, p@));
        return false;
    }
    let mut i: usize = 0;
    loop
        invariant
            p.len() <= s.len(),
            i <= s.len() - p.len(),
            forall|k: int| 0 <= k < i ==> !matches_at(s@, p@, k),
        ensures
            forall|k: int| 0 <= k <= s.len() - p.len() ==> !matches_at(s@, p@, k),
        decreases s.len() - p.len() - i,
    {
        if chars_match_at(s, p, i) {
            return true;
        }
        if i == s.len() - p.len() {
            break;
        }
        i = i + 1;
    }
    assert forall|k: int| !matches_at(s@, p@, k) by {
        if 0 <= k <= s.len() - p.len() {
        }
    }
    false
}

/// `str::contains` with a string pattern.
pub fn contains(s: &str, p: &str) -> (b: bool)
    ensures
        b == contains_seq(s@, p@),
{
    chars_contains(&chars_of(s), &chars_of(p))
}

/// `str::starts_with` with a string pattern.
pub fn starts_with(s: &str, p: &str) -> (b: bool)
    ensures
        b == matches_at(s@, p@, 0),
{
    chars_match_at(&chars_of(s), &chars_of(p), 0)
}

/// What `str::replacen(p, r, n)` (with `all == false`) or `str::replace(p, r)` (with
/// `all == true`) gives on `s`: matches are found left to right without overlap; an
/// empty pattern matches before every character and at the end.
pub open spec fn replace_seq(s: Seq<char>, p: Seq<char>, r: Seq<char>, all: bool, n: nat) -> Seq<
    char,
>
    decreases s.len(),
{
    if !all && n == 0 {
        s
    } else if p.len() == 0 {
        if s.len() == 0 {
            r
        } else {
            r + seq![s[0]] + replace_seq(s.drop_first(), p, r, all, dec(n))
        }
    } else if s.len() < p.len() {
        s
    } else if s.take(p.len() as int) == p {
        r + replace_seq(s.skip(p.len() as int), p, r, all, dec(n))
    } else {
        seq![s[0]] + replace_seq(s.drop_first(), p, r, all, n)
    }
}

/// One less, stopping at zero.
pub open spec fn dec(n: nat) -> nat {
    if n > 0 {
        (n - 1) as nat
    } else {
        0
    }
}

/// `str::replace(p, r)`.
pub open spec fn replace_all_seq(s: Seq<char>, p: Seq<char>, r: Seq<char>) -> Seq<char> {
    replace_seq(s, p, r, true, 0)
}

proof fn lemma_replace_step_match(s: Seq<char>, p: Seq<char>, r: Seq<char>, all: bool, n: nat, i: int)
    requires
        0 <= i,
        i + p.len() <= s.len(),
        p.len() > 0,
        matches_at(s, p, i),
        all || n > 0,
    ensures
        replace_seq(s.skip(i), p, r, all, n) == r + replace_seq(
            s.skip(i + p.len()),
            p,
            r,
            all,
            dec(n),
        ),
{
    assert(s.skip(i).take(p.len() as int) =~= s.subrange(i, i + p.len()));
    assert(s.skip(i).skip(p.len() as int) =~= s.skip(i + p.len()));
}

proof fn lemma_replace_step_nomatch(s: Seq<char>, p: Seq<char>, r: Seq<char>, all: bool, n: nat, i: int)
    requires
        0 <= i,
        i + p.len() <= s.len(),
        p.len() > 0,
        !matches_at(s, p, i),
        all || n > 0,
    ensures
        replace_seq(s.skip(i), p, r, all, n) == seq![s[i]] + replace_seq(
            s.skip(i + 1),
            p,
            r,
            all,
            n,
        ),
{
    assert(s.skip(i).take(p.len() as int) =~= s.subrange(i, i + p.len()));
    assert(s.skip(i).drop_first() =~= s.skip(i + 1));
}

/// Replaces matches of `p` by `r` in `s`, all of them when `all`, else the first `n`.
pub fn chars_replace(s: &Vec<char>, p: &Vec<char>, r: &Vec<char>, all: bool, n: usize) -> (out: Vec<char>)
    ensures
        out@ == replace_seq(s@, p@, r@, all, n as nat),
{
    let mut out: Vec<char> = Vec::new();
    let mut i: usize = 0;
    let mut left: usize = n;
    assert(s@.skip(0) =~= s@);
    if p.len() == 0 {
        while i < s.len() && (all || left > 0)
            invariant
                p@.len() == 0,
                i <= s.len(),
                replace_seq(s@, p@, r@, all, n as nat) == out@ + replace_seq(
                    s@.skip(i as int),
                    p@,
                    r@,
                    all,
                    left as nat,
                ),
            decreases s.len() - i,
        {
            proof {
                assert(s@.skip(i as int).drop_first() =~= s@.skip(i + 1));
                assert(s@.skip(i as int)[0] == s@[i as int]);
            }
            let ghost before = out@;
            append_chars(&mut out, r);
            out.push(s[i]);
            i = i + 1;
            if left > 0 {
                left = left - 1;
            }
            proof {
                assert(before + (r@ + seq![s@[i - 1]] + replace_seq(s@.skip(i as int), p@, r@, all, left as nat))
                    =~= out@ + replace_seq(s@.skip(i as int), p@, r@, all, left as nat));
            }
        }
        if all || left > 0 {
            assert(s@.skip(i as int) =~= Seq::<char>::empty());
            append_chars(&mut out, r);
        } else {
            append_chars(&mut out, &sub_chars(s, i, s.len()));
        }
        return out;
    }
    while i <= s.len() && p.len() <= s.len() - i && (all || left > 0)
        invariant
            p@.len() > 0,
            i <= s.len(),
            replace_seq(s@, p@, r@, all, n as nat) == out@ + replace_seq(
                s@.skip(i as int),
                p@,
                r@,
                all,
                left as nat,
            ),
        decreases s.len() - i,
    {
        if chars_match_at(s, p, i) {
            proof {
                lemma_replace_step_match(s@, p@, r@, all, left as nat, i as int);
            }
            let ghost before = out@;
            append_chars(&mut out, r);
            i = i + p.len();
            if left > 0 {
                left = left - 1;
            }
            proof {
                assert(before + (r@ + replace_seq(s@.skip(i as int), p@, r@, all, left as nat))
                    =~= out@ + replace_seq(s@.skip(i as int), p@, r@, all, left as nat));
            }
        } else {
            proof {
                lemma_replace_step_nomatch(s@, p@, r@, all, left as nat, i as int);
            }
            let ghost before = out@;
            out.push(s[i]);
            i = i + 1;
            proof {
                assert(before + (seq![s@[i - 1]] + replace_seq(s@.skip(i as int), p@, r@, all, left as nat))
                    =~= out@ + replace_seq(s@.skip(i as int), p@, r@, all, left as nat));
            }
        }
    }
    let tail = sub_chars(s, i, s.len());
    assert(tail@ =~= s@.skip(i as int));
    append_chars(&mut out, &tail);
    out
}

/// Appends the characters of `more` to `out`.
pub fn append_chars(out: &mut Vec<char>, more: &Vec<char>)
    ensures
        final(out)@ == old(out)@ + more@,
{
    let mut i: usize = 0;
    let ghost start = out@;
    while i < more.len()
        invariant
            i <= more.len(),
            out@ == start + more@.take(i as int),
        decreases more.len() - i,
    {
        out.push(more[i]);
        i = i + 1;
        assert(start + more@.take(i as int) =~= (start + more@.take(i - 1)).push(more@[i - 1]));
    }
    assert(more@.take(more.len() as int) =~= more@);
}

/// `str::replace(p, r)`.
pub fn replace(s: &str, p: &str, r: &str) -> (out: String)
    ensures
        out@ == replace_all_seq(s@, p@, r@),
{
    let v = chars_replace(&chars_of(s), &chars_of(p), &chars_of(r), true, 0);
    string_from_chars(v.as_slice())
}

/// `str::replacen(p, r, n)`.
pub fn replacen(s: &str, p: &str, r: &str, n: usize) -> (out: String)
    ensures
        out@ == replace_seq(s@, p@, r@, false, n as nat),
{
    let v = chars_replace(&chars_of(s), &chars_of(p), &chars_of(r), false, n);
    string_from_chars(v.as_slice())
}


/// What `str::split` gives with a separator that matches any character for which
/// `is_sep` holds: the pieces between separators, in order, empty ones included.
pub open spec fn split_seq(s: Seq<char>, seps: Seq<char>) -> Seq<Seq<char>>
    decreases s.len(),
{
    if s.len() == 0 {
        seq![Seq::<char>::empty()]
    } else {
        let init = split_seq(s.drop_last(), seps);
        if seps.contains(s.last()) {
            init.push(Seq::<char>::empty())
        } else {
            init.update(init.len() - 1, init.last().push(s.last()))
        }
    }
}

pub proof fn lemma_split_seq_nonempty(s: Seq<char>, seps: Seq<char>)
    ensures
        split_seq(s, seps).len() >= 1,
    decreases s.len(),
{
    if s.len() > 0 {
        lemma_split_seq_nonempty(s.drop_last(), seps);
    }
}

/// Splits `s` at every character that occurs in `seps`.
pub fn split_chars(s: &str, seps: &Vec<char>) -> (pieces: Vec<String>)
    ensures
        pieces@.map_values(|x: String| x@) == split_seq(s@, seps@),
{
    let cs = chars_of(s);
    let mut pieces: Vec<String> = Vec::new();
    let mut current: Vec<char> = Vec::new();
    let mut i: usize = 0;
    assert(cs@.take(0) =~= Seq::<char>::empty());
    while i < cs.len()
        invariant
            cs@ == s@,
            i <= cs.len(),
            pieces@.map_values(|x: String| x@).push(current@) == split_seq(cs@.take(i as int), seps@),
        decreases cs.len() - i,
    {
        let c = cs[i];
        let is_sep = char_in(seps, c);
        proof {
            assert(cs@.take(i + 1).drop_last() =~= cs@.take(i as int));
            assert(cs@.take(i + 1).last() == c);
            lemma_split_seq_nonempty(cs@.take(i as int), seps@);
        }
        let ghost old_pieces = pieces@.map_values(|x: String| x@);
        let ghost old_current = current@;
        if is_sep {
            let piece = string_from_chars(current.as_slice());
            pieces.push(piece);
            current = Vec::new();
            proof {
                assert(pieces@.map_values(|x: String| x@) =~= old_pieces.push(old_current));
                assert(pieces@.map_values(|x: String| x@).push(current@) =~= old_pieces.push(old_current).push(Seq::<char>::empty()));
            }
        } else {
            current.push(c);
            proof {
                assert(pieces@.map_values(|x: String| x@) =~= old_pieces);
                assert(old_pieces.push(current@) =~= old_pieces.push(old_current).update(
                    old_pieces.len() as int,
                    old_current.push(c),
                ));
            }
        }
        i = i + 1;
    }
    let last = string_from_chars(current.as_slice());
    let ghost old_pieces = pieces@.map_values(|x: String| x@);
    pieces.push(last);
    assert(cs@.take(cs.len() as int) =~= cs@);
    assert(pieces@.map_values(|x: String| x@) =~= old_pieces.push(current@));
    pieces
}

/// Whether `c` occurs in `cs`.
pub fn char_in(cs: &Vec<char>, c: char) -> (b: bool)
    ensures
        b == cs@.contains(c),
{
    let mut i: usize = 0;
    while i < cs.len()
        invariant
            i <= cs.len(),
            forall|j: int| 0 <= j < i ==> cs@[j] != c,
        decreases cs.len() - i,
    {
        if cs[i] == c {
            assert(cs@[i as int] == c);
            return true;
        }
        i = i + 1;
    }
    false
}

/// `char::to_ascii_lowercase`.
pub open spec fn ascii_lower_char(c: char) -> char {
    if 'A' <= c <= 'Z' {
        ((c as u32) + 32) as char
    } else {
        c
    }
}

/// `str::to_ascii_lowercase`.
pub open spec fn ascii_lower_seq(s: Seq<char>) -> Seq<char> {
    s.map_values(|c: char| ascii_lower_char(c))
}

/// `str::to_ascii_lowercase`.
pub fn to_ascii_lowercase(s: &str) -> (r: String)
    ensures
        r@ == ascii_lower_seq(s@),
{
    let cs = chars_of(s);
    let mut out: Vec<char> = Vec::new();
    let mut i: usize = 0;
    while i < cs.len()
        invariant
            cs@ == s@,
            i <= cs.len(),
            out@ == ascii_lower_seq(cs@.take(i as int)),
        decreases cs.len() - i,
    {
        let c = cs[i];
        let l = if 'A' <= c && c <= 'Z' {
            let u = (c as u32) + 32;
            char_from_ascii(u)
        } else {
            c
        };
        out.push(l);
        assert(ascii_lower_seq(cs@.take(i + 1)) =~= ascii_lower_seq(cs@.take(i as int)).push(
            ascii_lower_char(c),
        ));
        i = i + 1;
    }
    assert(cs@.take(cs.len() as int) =~= cs@);
    string_from_chars(out.as_slice())
}

/// The character with ASCII code `u`.
fn char_from_ascii(u: u32) -> (c: char)
    requires
        u < 128,
    ensures
        c as u32 == u,
{
    let b = u as u8;
    b as char
}

/// What `str::to_lowercase` gives (the Unicode lowercase mapping).
pub uninterp spec fn lowercase_spec(s: Seq<char>) -> Seq<char>;

/// `str::to_lowercase`: the result is `lowercase_spec` of the argument; on ASCII text the
/// Unicode lowercase mapping is the ASCII one (`A`-`Z` to `a`-`z`, the rest unchanged).
#[verifier::external_body]
pub(crate) fn to_lowercase(s: &str) -> (r: String)
    ensures
        r@ == lowercase_spec(s@),
        (forall|i: int| 0 <= i < s@.len() ==> (#[trigger] s@[i] as u32) < 128) ==> r@ == ascii_lower_seq(s@),
{
    s.to_lowercase()
}

/// Value of an ASCII digit.
pub open spec fn digit_value(c: char) -> int {
    (c as u32) - 48
}

/// `c` is an ASCII digit.
pub open spec fn is_digit(c: char) -> bool {
    '0' <= c <= '9'
}

/// Value of a sequence of ASCII digits.
pub open spec fn digits_value(s: Seq<char>) -> int
    decreases s.len(),
{
    if s.len() == 0 {
        0
    } else {
        digits_value(s.drop_last()) * 10 + digit_value(s.last())
    }
}

/// All characters are ASCII digits and there is at least one.
pub open spec fn is_digits(s: Seq<char>) -> bool {
    s.len() > 0 && forall|i: int| 0 <= i < s.len() ==> is_digit(#[trigger] s[i])
}

/// What `str::parse::<usize>` gives: an optional `+`, then ASCII digits, in range.
pub open spec fn parse_usize_spec(s: Seq<char>) -> Option<int> {
    let body = if s.len() > 0 && s[0] == '+' {
        s.drop_first()
    } else {
        s
    };
    if is_digits(body) && digits_value(body) <= usize::MAX {
        Some(digits_value(body))
    } else {
        None
    }
}

/// What `str::parse::<i32>` gives: an optional sign, then ASCII digits, in range.
pub open spec fn parse_i32_spec(s: Seq<char>) -> Option<int> {
    let neg = s.len() > 0 && s[0] == '-';
    let body = if s.len() > 0 && (s[0] == '+' || s[0] == '-') {
        s.drop_first()
    } else {
        s
    };
    let v = if neg {
        -digits_value(body)
    } else {
        digits_value(body)
    };
    if is_digits(body) && i32::MIN <= v <= i32::MAX {
        Some(v)
    } else {
        None
    }
}

proof fn lemma_digits_value_nonneg(s: Seq<char>)
    requires
        forall|i: int| 0 <= i < s.len() ==> is_digit(#[trigger] s[i]),
    ensures
        digits_value(s) >= 0,
    decreases s.len(),
{
    if s.len() > 0 {
        lemma_digits_value_nonneg(s.drop_last());
    }
}

proof fn lemma_digits_value_mono(s: Seq<char>, k: int)
    requires
        0 <= k <= s.len(),
        forall|i: int| 0 <= i < s.len() ==> is_digit(#[trigger] s[i]),
    ensures
        digits_value(s.take(k)) <= digits_value(s),
    decreases s.len() - k,
{
    if k < s.len() {
        assert(s.drop_last().take(k) =~= s.take(k));
        lemma_digits_value_mono(s.drop_last(), k);
        lemma_digits_value_nonneg(s.drop_last());
        assert(s.drop_last() =~= s.take(s.len() - 1));
    } else {
        assert(s.take(k) =~= s);
    }
}

/// Value of the digits `cs[from..]`, or `None` when one is not a digit, there are none,
/// or the value exceeds `limit`.
fn digits_up_to(cs: &Vec<char>, from: usize, limit: u64) -> (r: Option<u64>)
    requires
        from <= cs.len(),
        limit >= 9,
    ensures
        ({
            let body = cs@.skip(from as int);
            match r {
                Some(v) => is_digits(body) && v == digits_value(body) && v <= limit,
                None => !(is_digits(body) && digits_value(body) <= limit),
            }
        }),
{
    let ghost body = cs@.skip(from as int);
    if from == cs.len() {
        return None;
    }
    let mut acc: u64 = 0;
    let mut i = from;
    assert(body.take(0) =~= Seq::<char>::empty());
    while i < cs.len()
        invariant
            from <= i <= cs.len(),
            from < cs.len(),
            limit >= 9,
            body == cs@.skip(from as int),
            forall|j: int| 0 <= j < i - from ==> is_digit(#[trigger] body[j]),
            acc == digits_value(body.take(i - from)),
            acc <= limit,
        decreases cs.len() - i,
    {
        let c = cs[i];
        assert(body[i - from] == c);
        if !('0' <= c && c <= '9') {
            return None;
        }
        let d = (c as u32 - 48) as u64;
        assert(body.take(i - from + 1).drop_last() =~= body.take(i - from));
        assert(body.take(i - from + 1).last() == c);
        if acc > (limit - d) / 10 {
            proof {
                assert(acc * 10 + d > limit) by (nonlinear_arith)
                    requires
                        acc > (limit - d) / 10,
                        d <= 9,
                        limit >= 9,
                ;
                if is_digits(body) {
                    lemma_digits_value_mono(body, i - from + 1);
                }
            }
            return None;
        }
        assert(acc * 10 + d <= limit) by (nonlinear_arith)
            requires
                acc <= (limit - d) / 10,
                d <= 9,
                limit >= 9,
        ;
        acc = acc * 10 + d;
        i = i + 1;
    }
    assert(body.take(i - from) =~= body);
    Some(acc)
}

/// `str::parse::<usize>`.
pub fn parse_usize(s: &str) -> (r: Option<usize>)
    ensures
        match r {
            Some(v) => parse_usize_spec(s@) == Some(v as int),
            None => parse_usize_spec(s@) is None,
        },
{
    let cs = chars_of(s);
    let from: usize = if cs.len() > 0 && cs[0] == '+' {
        1
    } else {
        0
    };
    assert(from == 1 ==> cs@.skip(1) =~= s@.drop_first());
    assert(cs@.skip(0) =~= s@);
    let limit: u64 = if usize::MAX as u64 >= u64::MAX { u64::MAX } else { usize::MAX as u64 };
    assert(limit == usize::MAX);
    match digits_up_to(&cs, from, limit) {
        Some(v) => Some(v as usize),
        None => None,
    }
}

/// `str::parse::<i32>`.
pub fn parse_i32(s: &str) -> (r: Option<i32>)
    ensures
        match r {
            Some(v) => parse_i32_spec(s@) == Some(v as int),
            None => parse_i32_spec(s@) is None,
        },
{
    let cs = chars_of(s);
    let neg = cs.len() > 0 && cs[0] == '-';
    let from: usize = if cs.len() > 0 && (cs[0] == '+' || cs[0] == '-') {
        1
    } else {
        0
    };
    assert(from == 1 ==> cs@.skip(1) =~= s@.drop_first());
    assert(cs@.skip(0) =~= s@);
    let limit: u64 = if neg { 2147483648 } else { 2147483647 };
    match digits_up_to(&cs, from, limit) {
        Some(v) => {
            if neg {
                if v == 2147483648 {
                    Some(i32::MIN)
                } else {
                    Some(-(v as i32))
                }
            } else {
                Some(v as i32)
            }
        },
        None => None,
    }
}

/// Decimal digits of `n`, most significant first, as `Display` for integers writes them.
pub open spec fn decimal_seq(n: nat) -> Seq<char>
    decreases n,
{
    if n < 10 {
        seq![((n + 48) as u32) as char]
    } else {
        decimal_seq(n / 10).push((((n % 10) + 48) as u32) as char)
    }
}

/// `usize::to_string`.
pub fn usize_to_string(n: usize) -> (r: String)
    ensures
        r@ == decimal_seq(n as nat),
{
    let mut digits: Vec<char> = Vec::new();
    let mut m = n;
    let ghost mut rest: Seq<char> = Seq::empty();
    while m >= 10
        invariant
            decimal_seq(n as nat) == decimal_seq(m as nat) + rest,
            digits@ == rest.reverse(),
        decreases m,
    {
        let c = char_from_ascii((m % 10) as u32 + 48);
        digits.push(c);
        proof {
            let old_rest = rest;
            rest = seq![c] + rest;
            assert(decimal_seq(m as nat) == decimal_seq((m / 10) as nat).push(c));
            assert(decimal_seq((m / 10) as nat).push(c) + old_rest =~= decimal_seq((m / 10) as nat) + rest);
            assert(digits@ =~= rest.reverse());
        }
        m = m / 10;
    }
    let c = char_from_ascii(m as u32 + 48);
    digits.push(c);
    proof {
        assert(decimal_seq(m as nat) =~= seq![c]);
        rest = seq![c] + rest;
        assert(digits@ =~= rest.reverse());
    }
    assert(decimal_seq(n as nat) =~= rest);
    let mut out: Vec<char> = Vec::new();
    let mut i = digits.len();
    while i > 0
        invariant
            i <= digits.len(),
            out@ == digits@.subrange(i as int, digits.len() as int).reverse(),
        decreases i,
    {
        i = i - 1;
        out.push(digits[i]);
        assert(digits@.subrange(i as int, digits.len() as int).reverse() =~= digits@.subrange(i + 1, digits.len() as int).reverse().push(digits@[i as int]));
    }
    assert(digits@.subrange(0, digits.len() as int) =~= digits@);
    assert(out@ =~= rest.reverse().reverse());
    string_from_chars(out.as_slice())
}


/// Number of bytes of `c` in UTF-8 (`char::len_utf8`).
pub open spec fn utf8_width(c: char) -> nat {
    let u = c as u32;
    if u < 0x80 {
        1
    } else if u < 0x800 {
        2
    } else if u < 0x10000 {
        3
    } else {
        4
    }
}

/// Number of bytes of `s` in UTF-8.
pub open spec fn utf8_len(s: Seq<char>) -> nat
    decreases s.len(),
{
    if s.len() == 0 {
        0
    } else {
        utf8_len(s.drop_last()) + utf8_width(s.last())
    }
}

/// `char::len_utf8`.
pub fn char_utf8_width(c: char) -> (n: usize)
    ensures
        n == utf8_width(c),
{
    let u = c as u32;
    if u < 0x80 {
        1
    } else if u < 0x800 {
        2
    } else if u < 0x10000 {
        3
    } else {
        4
    }
}

} // verus!
