//! Compiled regular expressions (from the `regex` crate) and what the library uses of them.
//!
//! A `CompiledRegex` keeps the pattern text it was compiled from, so that every result
//! the library takes from the `regex` crate is stated as a function of that text and
//! of the haystack.
use vstd::prelude::*;
use regex::Regex;
use crate::text::opt_view;

verus! {

/// `regex::Regex`, carried opaquely.
#[verifier::external_type_specification]
#[verifier::external_body]
pub struct ExRegex(Regex);

/// A regular expression together with the pattern text and the case-insensitivity
/// option it was compiled with. Only `compile_regex` builds one.
#[derive(Debug)]
pub struct CompiledRegex {
    source: String,
    insensitive: bool,
    re: Regex,
}

impl CompiledRegex {
    /// The pattern text.
    pub closed spec fn source(&self) -> Seq<char> {
        self.source@
    }

    /// Whether it matches case-insensitively.
    pub closed spec fn insensitive(&self) -> bool {
        self.insensitive
    }

    /// Compiles `source`, case-insensitively when asked; the error message of the regex
    /// crate when it does not compile.
    pub fn new(source: &str, insensitive: bool) -> (r: Result<CompiledRegex, String>)
        ensures
            match r {
                Ok(c) => c.source() == source@ && c.insensitive() == insensitive && regex_build_error(source@, insensitive) is None,
                Err(e) => regex_build_error(source@, insensitive) == Some(e@),
            },
    {
        compile_regex(source, insensitive)
    }

    /// The pattern text.
    pub fn as_str(&self) -> (r: &str)
        ensures
            r@ == self.source(),
    {
        self.source.as_str()
    }
}

/// The error message of `RegexBuilder::new(source).case_insensitive(insensitive).build()`,
/// or `None` when it compiles.
pub uninterp spec fn regex_build_error(source: Seq<char>, insensitive: bool) -> Option<Seq<char>>;

/// Whether `Regex::is_match` finds a match in `haystack`.
pub uninterp spec fn regex_is_match(source: Seq<char>, insensitive: bool, haystack: Seq<char>) -> bool;

/// What `Regex::find` gives on `haystack`: the text before, of and after the leftmost-first
/// match.
pub uninterp spec fn regex_find(source: Seq<char>, insensitive: bool, haystack: Seq<char>) -> Option<
    (Seq<char>, Seq<char>, Seq<char>),
>;

/// What `Regex::captures` gives on `haystack`: the text before, of and after the whole
/// match, and the text of capture group 1 when it took part.
pub uninterp spec fn regex_captures(
    source: Seq<char>,
    insensitive: bool,
    haystack: Seq<char>,
) -> Option<(Seq<char>, Seq<char>, Seq<char>, Option<Seq<char>>)>;

/// What `Regex::splitn(haystack, 2)` gives: the first piece, and the rest when there was
/// a match.
pub uninterp spec fn regex_split_once(source: Seq<char>, insensitive: bool, haystack: Seq<char>) -> (
    Seq<char>,
    Option<Seq<char>>,
);

/// What `Regex::replace_all(haystack, replacement)` gives.
pub uninterp spec fn regex_replace_all(
    source: Seq<char>,
    insensitive: bool,
    haystack: Seq<char>,
    replacement: Seq<char>,
) -> Seq<char>;

/// What `Regex::replacen(haystack, 1, replacement)` gives.
pub uninterp spec fn regex_replace_first(
    source: Seq<char>,
    insensitive: bool,
    haystack: Seq<char>,
    replacement: Seq<char>,
) -> Seq<char>;

/// `RegexBuilder::new(source).case_insensitive(insensitive).build()`: compiles, or gives
/// the error's message; either way the outcome is `regex_build_error` of the arguments.
#[verifier::external_body]
pub(crate) fn compile_regex(source: &str, insensitive: bool) -> (r: Result<CompiledRegex, String>)
    ensures
        match r {
            Ok(c) => {
                &&& c.source() == source@
                &&& c.insensitive() == insensitive
                &&& regex_build_error(source@, insensitive) is None
            },
            Err(e) => regex_build_error(source@, insensitive) == Some(e@),
        },
{
    match regex::RegexBuilder::new(source).case_insensitive(insensitive).build() {
        Ok(re) => Ok(CompiledRegex { source: source.to_string(), insensitive, re }),
        Err(e) => Err(e.to_string()),
    }
}

/// `Regex::is_match`: the result is `regex_is_match` of the pattern and the haystack.
#[verifier::external_body]
pub(crate) fn is_match(c: &CompiledRegex, haystack: &str) -> (b: bool)
    ensures
        b == regex_is_match(c.source(), c.insensitive(), haystack@),
{
    c.re.is_match(haystack)
}

/// `Regex::find`, as the text around and of the match. The match is a piece of the
/// haystack, so the three parts put together give the haystack back.
#[verifier::external_body]
pub(crate) fn find(c: &CompiledRegex, haystack: &str) -> (r: Option<(String, String, String)>)
    ensures
        match r {
            Some((b, m, a)) => {
                &&& regex_find(c.source(), c.insensitive(), haystack@) == Some((b@, m@, a@))
                &&& b@ + m@ + a@ == haystack@
            },
            None => regex_find(c.source(), c.insensitive(), haystack@) is None,
        },
{
    c.re.find(haystack).map(
        |m|
            (
                haystack[..m.start()].to_string(),
                m.as_str().to_string(),
                haystack[m.end()..].to_string(),
            ),
    )
}

/// `Regex::captures`, as the text around and of the whole match and of group 1. The whole
/// match is a piece of the haystack, so the three parts put together give it back.
#[verifier::external_body]
pub(crate) fn captures(c: &CompiledRegex, haystack: &str) -> (r: Option<
    (String, String, String, Option<String>),
>)
    ensures
        match r {
            Some((b, m, a, g)) => {
                &&& regex_captures(c.source(), c.insensitive(), haystack@) == Some(
                    (b@, m@, a@, opt_view(g)),
                )
                &&& b@ + m@ + a@ == haystack@
            },
            None => regex_captures(c.source(), c.insensitive(), haystack@) is None,
        },
{
    c.re.captures(haystack).map(
        |caps| {
            let m = caps.get(0).unwrap();
            (
                haystack[..m.start()].to_string(),
                m.as_str().to_string(),
                haystack[m.end()..].to_string(),
                caps.get(1).map(|g| g.as_str().to_string()),
            )
        },
    )
}

/// `Regex::splitn(haystack, 2)`, as the first piece and the optional rest. With no match
/// the first piece is the whole haystack.
#[verifier::external_body]
pub(crate) fn split_once(c: &CompiledRegex, haystack: &str) -> (r: (String, Option<String>))
    ensures
        regex_split_once(c.source(), c.insensitive(), haystack@) == (r.0@, opt_view(r.1)),
        r.1 is None ==> r.0@ == haystack@,
{
    let mut pieces = c.re.splitn(haystack, 2);
    let first = pieces.next().unwrap_or("").to_string();
    (first, pieces.next().map(|s| s.to_string()))
}

/// `Regex::replace_all`: the result is `regex_replace_all` of the arguments.
#[verifier::external_body]
pub(crate) fn replace_all(c: &CompiledRegex, haystack: &str, replacement: &str) -> (r: String)
    ensures
        r@ == regex_replace_all(c.source(), c.insensitive(), haystack@, replacement@),
{
    c.re.replace_all(haystack, replacement).to_string()
}

/// `Regex::replacen(haystack, 1, replacement)`: the result is `regex_replace_first` of the
/// arguments.
#[verifier::external_body]
pub(crate) fn replace_first(c: &CompiledRegex, haystack: &str, replacement: &str) -> (r: String)
    ensures
        r@ == regex_replace_first(c.source(), c.insensitive(), haystack@, replacement@),
{
    c.re.replacen(haystack, 1, replacement).to_string()
}

/// `regex::escape`: each regex meta character of the text preceded by a backslash
/// (`regex_escape_spec`).
#[verifier::external_body]
pub(crate) fn escape(text: &str) -> (r: String)
    ensures
        r@ == regex_escape_spec(text@),
{
    regex::escape(text)
}

/// The characters that `regex_syntax::is_meta_character` names.
pub open spec fn is_meta_character(c: char) -> bool {
    c == '\\' || c == '.' || c == '+' || c == '*' || c == '?' || c == '(' || c == ')' || c == '|' || c == '['
        || c == ']' || c == '{' || c == '}' || c == '^' || c == '$' || c == '#' || c == '&' || c == '-' || c == '~'
}

/// What `regex::escape` gives: `text` with a backslash before every meta character.
pub open spec fn regex_escape_spec(text: Seq<char>) -> Seq<char>
    decreases text.len(),
{
    if text.len() == 0 {
        Seq::empty()
    } else {
        let c = text.last();
        regex_escape_spec(text.drop_last()) + if is_meta_character(c) {
            seq!['\\', c]
        } else {
            seq![c]
        }
    }
}

} // verus!
