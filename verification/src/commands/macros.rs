//! `macro::path`: loads commands from a file. The loading happens before the commands are
//! built; at run time the command itself passes the lines through.
use vstd::prelude::*;
use std::collections::HashMap;

use crate::base::{CommandDefinition, LineStatus};
use crate::constants::command_prefix;
use crate::language_api::Parsed;
use crate::telemetry::TelemetryEvent;
use crate::CommandActions;

verus! {

/// The place of a command file in the command list.
#[derive(Debug)]
pub struct CMacro;

/// The command for `macro::payload` and its telemetry.
pub fn from_arg(arg: &str, payload: &str) -> (r: (TelemetryEvent, crate::Command))
    ensures
        r.1 is CMacro,
        r.0 matches TelemetryEvent::GenericCommandNotification { name, arg: a, qualifier, searcher, unrecognized }
            && name@ == "macro"@ && a@ == arg@ && qualifier@ == Seq::<char>::empty() && searcher@ == payload@
            && unrecognized@ == Seq::<char>::empty(),
{
    let telemetry_event = TelemetryEvent::GenericCommandNotification {
        name: crate::text::owned("macro"),
        arg: crate::text::owned(arg),
        qualifier: String::new(),
        searcher: crate::text::owned(payload),
        unrecognized: String::new(),
    };
    (telemetry_event, crate::Command::CMacro(CMacro))
}

impl CommandActions for CMacro {
    fn apply(&self, lines: Vec<LineStatus>, hashtree: &HashMap<usize, Parsed>) -> (r: Vec<LineStatus>)
        ensures
            r@ == lines@,
    {
        lines
    }

    fn get_constant_definition(&self) -> (r: CommandDefinition)
        ensures
            r.name@ == command_prefix::MACROS@,
            !r.mutates_line_text,
            r.flags@.len() == 0,
    {
        CommandDefinition { name: command_prefix::MACROS, mutates_line_text: false, flags: Vec::new() }
    }
}


/// `s` split at each `::`, leftmost first (`str::split("::")`).
pub open spec fn split_double_colon(s: Seq<char>) -> Seq<Seq<char>>
    decreases s.len(),
{
    if s.len() < 2 {
        seq![s]
    } else if s[0] == ':' && s[1] == ':' {
        seq![Seq::<char>::empty()] + split_double_colon(s.skip(2))
    } else {
        let rest = split_double_colon(s.skip(1));
        rest.update(0, seq![s[0]] + rest[0])
    }
}

proof fn lemma_split_double_colon_nonempty(s: Seq<char>)
    ensures
        split_double_colon(s).len() >= 1,
    decreases s.len(),
{
    if s.len() >= 2 {
        if s[0] == ':' && s[1] == ':' {
            lemma_split_double_colon_nonempty(s.skip(2));
        } else {
            lemma_split_double_colon_nonempty(s.skip(1));
        }
    }
}

/// What a command text says of a commands file to load.
pub enum MacroRef {
    /// Not a `macro::` text.
    Plain,
    /// `macro::path` or `macro::path::extra`: the file to load.
    File(String),
    /// A `macro::` text of another shape.
    Malformed,
}

/// The prefix of a text that loads a commands file.
pub open spec fn macro_prefix() -> Seq<char> {
    seq!['m', 'a', 'c', 'r', 'o', ':', ':']
}

/// What `macro_ref` finds in a command text.
pub open spec fn macro_ref_spec(arg: Seq<char>) -> Option<Option<Seq<char>>> {
    if arg.len() >= 7 && arg.take(7) == macro_prefix() {
        let parts = split_double_colon(arg);
        if parts.len() == 2 || parts.len() == 3 {
            Some(Some(parts[1]))
        } else {
            Some(None)
        }
    } else {
        None
    }
}

/// The view of a `MacroRef`: `None` for a plain text, `Some(Some(path))` for a file,
/// `Some(None)` for a malformed one.
pub open spec fn macro_ref_view(m: MacroRef) -> Option<Option<Seq<char>>> {
    match m {
        MacroRef::Plain => None,
        MacroRef::File(p) => Some(Some(p@)),
        MacroRef::Malformed => Some(None),
    }
}

pub(crate) fn split_double_colon_from(cs: &Vec<char>, from: usize) -> (r: Vec<String>)
    requires
        from <= cs.len(),
    ensures
        r@.map_values(|x: String| x@) == split_double_colon(cs@.skip(from as int)),
    decreases cs.len() - from,
{
    let ghost s = cs@.skip(from as int);
    if cs.len() - from < 2 {
        let mut r: Vec<String> = Vec::new();
        r.push(crate::text::string_from_chars(crate::text::sub_chars(cs, from, cs.len()).as_slice()));
        assert(cs@.subrange(from as int, cs.len() as int) =~= s);
        assert(r@.map_values(|x: String| x@) =~= seq![s]);
        r
    } else if cs[from] == ':' && cs[from + 1] == ':' {
        let rest = split_double_colon_from(cs, from + 2);
        assert(cs@.skip(from + 2) =~= s.skip(2));
        let mut r: Vec<String> = Vec::new();
        r.push(String::new());
        let ghost rv = rest@.map_values(|x: String| x@);
        let mut j: usize = 0;
        while j < rest.len()
            invariant
                j <= rest.len(),
                rv == rest@.map_values(|x: String| x@),
                r@.map_values(|x: String| x@) == seq![Seq::<char>::empty()] + rv.take(j as int),
            decreases rest.len() - j,
        {
            let ghost before = r@.map_values(|x: String| x@);
            r.push(crate::text::owned(rest[j].as_str()));
            assert(r@.map_values(|x: String| x@) =~= before.push(rv[j as int]));
            assert(rv.take(j + 1) =~= rv.take(j as int).push(rv[j as int]));
            j = j + 1;
        }
        assert(rv.take(rest.len() as int) =~= rv);
        r
    } else {
        let mut rest = split_double_colon_from(cs, from + 1);
        assert(cs@.skip(from + 1) =~= s.skip(1));
        proof {
            lemma_split_double_colon_nonempty(s.skip(1));
        }
        let ghost rv = rest@.map_values(|x: String| x@);
        let head_cs = crate::text::chars_of(rest[0].as_str());
        let mut joined: Vec<char> = Vec::new();
        joined.push(cs[from]);
        crate::text::append_chars(&mut joined, &head_cs);
        let head = crate::text::string_from_chars(joined.as_slice());
        assert(head@ =~= seq![s[0]] + rv[0]);
        rest.set(0, head);
        assert(rest@.map_values(|x: String| x@) =~= rv.update(0, seq![s[0]] + rv[0]));
        rest
    }
}

/// Finds the commands file that a `macro::path` text names (the second of its `::`
/// fields, when it has two or three).
pub fn macro_ref(arg: &str) -> (r: MacroRef)
    ensures
        macro_ref_view(r) == macro_ref_spec(arg@),
{
    let cs = crate::text::chars_of(arg);
    let prefix = crate::text::chars_of("macro::");
    proof {
        reveal_strlit("macro::");
        assert(prefix@ =~= macro_prefix());
    }
    if !(cs.len() >= 7 && crate::text::chars_match_at(&cs, &prefix, 0)) {
        proof {
            if arg@.len() >= 7 {
                assert(cs@.subrange(0, 7) =~= cs@.take(7));
            }
        }
        return MacroRef::Plain;
    }
    assert(cs@.subrange(0, 7) =~= cs@.take(7));
    let parts = split_double_colon_from(&cs, 0);
    assert(cs@.skip(0) =~= cs@);
    if parts.len() == 2 || parts.len() == 3 {
        let p = crate::text::owned(parts[1].as_str());
        MacroRef::File(p)
    } else {
        MacroRef::Malformed
    }
}

} // verus!
