//! Reading the flags field of a command. Each flag is either a switch or carries data
//! (`A` must be followed by digits, `sk=` by a key). As each flag is found it is taken
//! out of the field; what is left over is kept so that `explain` can show it.
use vstd::prelude::*;

use crate::base::{Condition, GrepCommandQualifier};
use crate::common::{AppConfig, CheckConditions, CheckKey, CheckLineRange};
use crate::constants::FlagDef;
use crate::constants::commandflags;
use crate::constants::commandflags::{
    after_context_def, before_context_def, case_insensitive_def, context_def, fixed_string_def,
    no_grep_shortcodes_def, setkey_def, show_owner_def, use_grep_shortcodes_def, user_confirm_def,
    where_linenum_def, wherekey_def,
};
use crate::regexes::{compile_regex, regex_build_error, regex_captures, regex_find, CompiledRegex};
use crate::text::{contains_seq, parse_i32_spec, replace_all_seq};
use crate::utilities::lines_payload_spec;

verus! {

/// Some flag of `allowed` has the name `name`.
pub open spec fn allows(allowed: Seq<FlagDef>, name: Seq<char>) -> bool {
    exists|i: int| 0 <= i < allowed.len() && (#[trigger] allowed[i]).name@ == name
}

/// Whether a flag named `flag_name` is among `allowed_flags`.
pub(crate) fn allows_flag(allowed_flags: &[FlagDef], flag_name: &str) -> (b: bool)
    ensures
        b == allows(allowed_flags@, flag_name@),
{
    let mut i: usize = 0;
    while i < allowed_flags.len()
        invariant
            i <= allowed_flags@.len(),
            forall|j: int| 0 <= j < i ==> (#[trigger] allowed_flags@[j]).name@ != flag_name@,
        decreases allowed_flags.len() - i,
    {
        if crate::text::str_eq(allowed_flags[i].name, flag_name) {
            return true;
        }
        i = i + 1;
    }
    false
}

/// What `return_match_and_consume` gives: with a match, the haystack without it and the
/// match; without one, the haystack and the empty string.
pub open spec fn match_consume_spec(source: Seq<char>, insensitive: bool, haystack: Seq<char>) -> (
    Seq<char>,
    Seq<char>,
) {
    match regex_find(source, insensitive, haystack) {
        Some(t) => (t.0 + t.2, t.1),
        None => (haystack, Seq::empty()),
    }
}

/// If the regex matches, takes the match out of the haystack and returns
/// `(remaining, match)`; else `(haystack, "")`. With `A(\d+)`, `A5B123` gives
/// `("B123", "A5")`.
pub fn return_match_and_consume(patre: &CompiledRegex, haystack: &str) -> (r: (String, String))
    ensures
        (r.0@, r.1@) == match_consume_spec(patre.source(), patre.insensitive(), haystack@),
{
    match crate::regexes::find(patre, haystack) {
        None => (crate::text::owned(haystack), String::new()),
        Some((before, matched, after)) => {
            (crate::text::concat2(before.as_str(), after.as_str()), matched)
        },
    }
}

/// What `return_contains_and_consume` gives: the haystack with every occurrence of the
/// pattern removed, and whether there was one.
pub open spec fn contains_consume_spec(pat: Seq<char>, haystack: Seq<char>) -> (Seq<char>, bool) {
    (replace_all_seq(haystack, pat, Seq::empty()), contains_seq(haystack, pat))
}

/// For a switch flag: removes every occurrence of `pat` from the flags field and tells
/// whether there was one.
pub fn return_contains_and_consume(pat: &str, haystack: &str) -> (r: (String, bool))
    ensures
        (r.0@, r.1) == contains_consume_spec(pat@, haystack@),
{
    let found = crate::text::contains(haystack, pat);
    proof {
        reveal_strlit("");
        assert(""@ =~= Seq::<char>::empty());
    }
    let remain = crate::text::replace(haystack, pat, "");
    (remain, found)
}

/// What `return_capture_and_consume` gives: with a match, the haystack without the whole
/// match and capture group 1; without one, the haystack and `None`.
pub open spec fn capture_consume_spec(source: Seq<char>, insensitive: bool, haystack: Seq<char>) -> (
    Seq<char>,
    Option<Seq<char>>,
) {
    match regex_captures(source, insensitive, haystack) {
        Some(t) => (t.0 + t.2, t.3),
        None => (haystack, None),
    }
}

/// If the regex matches, takes the whole match out of the haystack and returns capture
/// group 1. `sk=exc.` with `sk=([a-z]+)\.` gives `(remaining, Some("exc"))`.
pub fn return_capture_and_consume(patre: &CompiledRegex, haystack: &str) -> (r: (
    String,
    Option<String>,
))
    ensures
        (r.0@, crate::text::opt_view(r.1)) == capture_consume_spec(
            patre.source(),
            patre.insensitive(),
            haystack@,
        ),
{
    match crate::regexes::captures(patre, haystack) {
        None => (crate::text::owned(haystack), None),
        Some((before, _whole, after, group)) => {
            (crate::text::concat2(before.as_str(), after.as_str()), group)
        },
    }
}

/// A flag pattern that fails to compile matches nothing; otherwise as
/// `match_consume_spec`.
pub open spec fn flag_match_spec(source: Seq<char>, haystack: Seq<char>) -> (Seq<char>, Seq<char>) {
    if regex_build_error(source, false) is Some {
        (haystack, Seq::empty())
    } else {
        match_consume_spec(source, false, haystack)
    }
}

/// A flag pattern that fails to compile matches nothing; otherwise as
/// `capture_consume_spec`.
pub open spec fn flag_capture_spec(source: Seq<char>, haystack: Seq<char>) -> (
    Seq<char>,
    Option<Seq<char>>,
) {
    if regex_build_error(source, false) is Some {
        (haystack, None)
    } else {
        capture_consume_spec(source, false, haystack)
    }
}

fn consume_flag_match(source: &str, haystack: String) -> (r: (String, String))
    ensures
        (r.0@, r.1@) == flag_match_spec(source@, haystack@),
{
    match compile_regex(source, false) {
        Ok(re) => return_match_and_consume(&re, haystack.as_str()),
        Err(_) => (haystack, String::new()),
    }
}

fn consume_flag_capture(source: &str, haystack: String) -> (r: (String, Option<String>))
    ensures
        (r.0@, crate::text::opt_view(r.1)) == flag_capture_spec(source@, haystack@),
{
    match compile_regex(source, false) {
        Ok(re) => return_capture_and_consume(&re, haystack.as_str()),
        Err(_) => (haystack, None),
    }
}

/// The count carried by a context flag such as `A5`: the number after the letter, or
/// `default` when the flag is absent or its number does not fit an `i32`.
pub open spec fn counter_spec(m: Seq<char>, letter: char, default: int) -> int {
    if m.len() > 0 && m[0] == letter {
        match parse_i32_spec(m.drop_first()) {
            Some(v) => v,
            None => default,
        }
    } else {
        default
    }
}

fn counter_of(m: &str, letter: char, default: i32) -> (r: i32)
    ensures
        r == counter_spec(m@, letter, default as int),
{
    let cs = crate::text::chars_of(m);
    if cs.len() > 0 && cs[0] == letter {
        let rest = crate::text::string_from_chars(crate::text::sub_chars(&cs, 1, cs.len()).as_slice());
        assert(rest@ =~= m@.drop_first());
        match crate::text::parse_i32(rest.as_str()) {
            Some(v) => v,
            None => default,
        }
    } else {
        default
    }
}

/// What the flags field asks of a search-type command, step by step in the order the
/// flags are read: each step reads its flag (when the command allows it) from what the
/// earlier steps left.
pub struct GrepFlags {
    pub after: int,
    pub before: int,
    pub preformat: bool,
    pub fixed_string: bool,
    pub case_insensitive: bool,
    pub set_key: Option<Seq<char>>,
    pub where_key: Option<Seq<char>>,
    pub where_linenum: Option<Seq<char>>,
    pub showowner: bool,
    pub user_confirmation: bool,
    pub unrecognized: Seq<char>,
}

/// Step of a regex flag: its match and what is left, when allowed.
pub open spec fn step_match(allowed: bool, source: Seq<char>, s: Seq<char>) -> (Seq<char>, Seq<char>) {
    if allowed {
        flag_match_spec(source, s)
    } else {
        (s, Seq::empty())
    }
}

/// Step of a capturing flag: its capture and what is left, when allowed.
pub open spec fn step_capture(allowed: bool, source: Seq<char>, s: Seq<char>) -> (
    Seq<char>,
    Option<Seq<char>>,
) {
    if allowed {
        flag_capture_spec(source, s)
    } else {
        (s, None)
    }
}

/// Step of a switch flag: whether it was there and what is left, when allowed.
pub open spec fn step_switch(allowed: bool, token: Seq<char>, s: Seq<char>) -> (Seq<char>, bool) {
    if allowed {
        contains_consume_spec(token, s)
    } else {
        (s, false)
    }
}

/// How `build_with_flags` reads `arg` with the flags `allowed`, when grep shortcodes are
/// on by default exactly when `config_shortcodes` holds. The order matters: `A`, `wl=`,
/// `B`, `C`, `sk=`, `wk=` first (so that a key holding `i` or `F` is not cut up), then
/// `F`, `i`, `u`, `G`/`g` and `o`.
pub open spec fn grep_flags_spec(arg: Seq<char>, allowed: Seq<FlagDef>, config_shortcodes: bool) -> GrepFlags {
    let a = step_match(allows(allowed, after_context_def().name@), after_context_def().value@, arg);
    let wl = step_capture(allows(allowed, where_linenum_def().name@), where_linenum_def().value@, a.0);
    let b = step_match(allows(allowed, before_context_def().name@), before_context_def().value@, wl.0);
    let c = step_match(allows(allowed, context_def().name@), context_def().value@, b.0);
    let sk = step_capture(allows(allowed, setkey_def().name@), setkey_def().value@, c.0);
    let wk = step_capture(allows(allowed, wherekey_def().name@), wherekey_def().value@, sk.0);
    let context = counter_spec(c.1, 'C', 0);
    let after = counter_spec(a.1, 'A', context);
    let before = counter_spec(b.1, 'B', context);
    let f = step_switch(allows(allowed, fixed_string_def().name@), fixed_string_def().value@, wk.0);
    let ci = step_switch(allows(allowed, case_insensitive_def().name@), case_insensitive_def().value@, f.0);
    let u = step_switch(allows(allowed, user_confirm_def().name@), user_confirm_def().value@, ci.0);
    let allow_pre = allows(allowed, use_grep_shortcodes_def().name@);
    let no = step_switch(allow_pre, no_grep_shortcodes_def().value@, u.0);
    let yes = step_switch(allow_pre, use_grep_shortcodes_def().value@, no.0);
    let shortcodes = if !allow_pre {
        false
    } else if no.1 || yes.1 {
        yes.1 && !no.1
    } else {
        config_shortcodes
    };
    let o = step_switch(allows(allowed, show_owner_def().name@), show_owner_def().value@, yes.0);
    GrepFlags {
        after,
        before,
        preformat: shortcodes && !f.1,
        fixed_string: f.1,
        case_insensitive: ci.1,
        set_key: sk.1,
        where_key: wk.1,
        where_linenum: wl.1,
        showowner: o.1,
        user_confirmation: u.1,
        unrecognized: o.0,
    }
}

/// The conditions that the `wl=` and `wk=` flags put on lines, in that order.
pub open spec fn conditions_match(conds: Seq<Condition>, g: GrepFlags) -> bool {
    let n_wl: int = if g.where_linenum is Some { 1 } else { 0 };
    &&& conds.len() == n_wl + if g.where_key is Some { 1int } else { 0int }
    &&& g.where_linenum is Some ==> (conds[0] matches Condition::LineRange(r) && (
        r.until_,
        r.wanted@,
        r.from_,
    ) == lines_payload_spec(g.where_linenum->0))
    &&& g.where_key is Some ==> (conds[n_wl] matches Condition::Key(k) && k.required_key@
        == g.where_key->0)
}

/// The qualifier `q` records what `g` asks for.
pub open spec fn qualifier_matches(q: GrepCommandQualifier, g: GrepFlags) -> bool {
    &&& q.after == g.after
    &&& q.before == g.before
    &&& q.preformat == g.preformat
    &&& q.fixed_string == g.fixed_string
    &&& crate::text::opt_view(q.regex_flags) == if g.case_insensitive {
        Some(seq!['i'])
    } else {
        None
    }
    &&& crate::text::opt_view(q.set_key) == g.set_key
    &&& q.showowner == g.showowner
    &&& q.user_confirmation == g.user_confirmation
    &&& q.unrecognized@ == g.unrecognized
    &&& conditions_match(q.conditions_checker.conds@, g)
}

/// The regex flags of a search: `Some("i")` when it ignores case.
fn insensitive_regex_flags(case_insensitive: bool) -> (r: Option<String>)
    ensures
        crate::text::opt_view(r) == if case_insensitive {
            Some(seq!['i'])
        } else {
            None
        },
{
    proof {
        reveal_strlit("i");
        assert("i"@ =~= seq!['i']);
    }
    if case_insensitive {
        Some(crate::text::owned("i"))
    } else {
        None
    }
}

impl GrepCommandQualifier {
    /// Builds a qualifier with the search flags and the default configuration (grep
    /// shortcodes off unless a flag turns them on).
    pub fn build(argstring: &str) -> (r: (GrepCommandQualifier, String))
        ensures
            qualifier_matches(r.0, grep_flags_spec(argstring@, commandflags::searchflags_seq(), false)),
            r.1@ == r.0.unrecognized@,
    {
        let flags = commandflags::searchflags();
        let config = AppConfig::default();
        Self::build_with_flags(argstring, flags.as_slice(), &config)
    }

    /// Reads the flags field `argstring` of a command that accepts `allowed_flags`, with
    /// `config` deciding whether grep shortcodes are on by default. Returns the qualifier
    /// and what was not understood: `build("A5XYZ")` gives `after == 5` and `"XYZ"`.
    #[verifier::rlimit(40)]
    pub fn build_with_flags(argstring: &str, allowed_flags: &[FlagDef], config: &AppConfig) -> (r: (
        GrepCommandQualifier,
        String,
    ))
        ensures
            qualifier_matches(r.0, grep_flags_spec(argstring@, allowed_flags@, config.grep_shortcodes)),
            r.1@ == r.0.unrecognized@,
    {
        let ghost g = grep_flags_spec(argstring@, allowed_flags@, config.grep_shortcodes);
        let allow_setkey = allows_flag(allowed_flags, commandflags::setkey().name);
        let allow_after = allows_flag(allowed_flags, commandflags::after_context().name);
        let allow_before = allows_flag(allowed_flags, commandflags::before_context().name);
        let allow_context = allows_flag(allowed_flags, commandflags::context().name);
        let allow_fixed = allows_flag(allowed_flags, commandflags::fixed_string().name);
        let allow_case_insensitive = allows_flag(allowed_flags, commandflags::case_insensitive().name);
        let allow_preformat = allows_flag(allowed_flags, commandflags::use_grep_shortcodes().name);
        let allow_wherekey = allows_flag(allowed_flags, commandflags::wherekey().name);
        let allow_showowner = allows_flag(allowed_flags, commandflags::show_owner().name);
        let allow_where_linenum = allows_flag(allowed_flags, commandflags::where_linenum().name);
        let allow_user_confirm = allows_flag(allowed_flags, commandflags::user_confirm().name);

        let start = crate::text::owned(argstring);
        let (remaining, after_match) = if allow_after {
            consume_flag_match(commandflags::after_context().value, start)
        } else {
            (start, String::new())
        };

        let mut conditions_checker = CheckConditions::new();

        let (remaining, where_linenum) = if allow_where_linenum {
            consume_flag_capture(commandflags::where_linenum().value, remaining)
        } else {
            (remaining, None)
        };
        let ghost wl = where_linenum;
        if let Some(where_linenum) = where_linenum {
            let checker = CheckLineRange::new(where_linenum);
            conditions_checker.add_condition(Condition::LineRange(checker));
        }

        let (remaining, before_match) = if allow_before {
            consume_flag_match(commandflags::before_context().value, remaining)
        } else {
            (remaining, String::new())
        };
        let (remaining, context_match) = if allow_context {
            consume_flag_match(commandflags::context().value, remaining)
        } else {
            (remaining, String::new())
        };

        let (remaining, set_key) = if allow_setkey {
            consume_flag_capture(commandflags::setkey().value, remaining)
        } else {
            (remaining, None)
        };
        let (remaining, where_key) = if allow_wherekey {
            consume_flag_capture(commandflags::wherekey().value, remaining)
        } else {
            (remaining, None)
        };
        let ghost n_before_key = conditions_checker.conds@.len();
        if let Some(key) = where_key {
            conditions_checker.add_condition(Condition::Key(CheckKey::new(key)));
        }

        let context_counter = counter_of(context_match.as_str(), 'C', 0);
        let after_counter = counter_of(after_match.as_str(), 'A', context_counter);
        let before_counter = counter_of(before_match.as_str(), 'B', context_counter);

        let (remaining, fixed_string) = if allow_fixed {
            return_contains_and_consume(commandflags::fixed_string().value, remaining.as_str())
        } else {
            (remaining, false)
        };
        let (remaining, case_insensitive) = if allow_case_insensitive {
            return_contains_and_consume(commandflags::case_insensitive().value, remaining.as_str())
        } else {
            (remaining, false)
        };
        let (remaining, user_confirmation) = if allow_user_confirm {
            return_contains_and_consume(commandflags::user_confirm().value, remaining.as_str())
        } else {
            (remaining, false)
        };
        let (remaining, preformat) = if allow_preformat {
            let (remaining, command_no_use_shortcodes) = return_contains_and_consume(
                commandflags::no_grep_shortcodes().value,
                remaining.as_str(),
            );
            let (remaining, command_use_shortcodes) = return_contains_and_consume(
                commandflags::use_grep_shortcodes().value,
                remaining.as_str(),
            );
            let shortcodes: bool = if command_use_shortcodes || command_no_use_shortcodes {
                command_use_shortcodes && !command_no_use_shortcodes
            } else {
                config.grep_shortcodes
            };
            (remaining, shortcodes)
        } else {
            (remaining, false)
        };
        let (remaining, showowner) = if allow_showowner {
            return_contains_and_consume(commandflags::show_owner().value, remaining.as_str())
        } else {
            (remaining, false)
        };

        let preformat = preformat && !fixed_string;
        let regex_flags = insensitive_regex_flags(case_insensitive);
        let unconsumed = remaining.clone();
        assert(after_counter == g.after);
        assert(before_counter == g.before);
        assert(fixed_string == g.fixed_string);
        assert(crate::text::opt_view(set_key) == g.set_key);
        assert(showowner == g.showowner);
        assert(user_confirmation == g.user_confirmation);
        assert(preformat == g.preformat);
        assert(remaining@ == g.unrecognized);
        assert(conditions_match(conditions_checker.conds@, g));
        let qualifier = GrepCommandQualifier {
            after: after_counter,
            before: before_counter,
            preformat,
            fixed_string,
            regex_flags,
            set_key,
            showowner,
            user_confirmation,
            unrecognized: remaining,
            conditions_checker,
        };
        (qualifier, unconsumed)
    }
}

} // verus!
