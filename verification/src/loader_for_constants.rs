//! The user-facing constants loaded from configuration: values addressed by section, entry
//! and attribute, the built-in definitions first and the user's file after them, so that
//! a user's value replaces a built-in one.
use vstd::prelude::*;

use crate::text::{decimal_seq, split_seq};

verus! {

/// One configured value: `section.entry.attr = value`.
#[derive(Debug, Clone)]
pub struct ConfigValue {
    /// The section (`commandflags`, `grep_shortcodes`).
    pub section: String,
    /// The entry in the section.
    pub entry: String,
    /// The attribute of the entry.
    pub attr: String,
    /// The value.
    pub value: String,
}

/// The configured values, later ones replacing earlier ones with the same address, and
/// the help topics.
#[derive(Debug, Clone)]
pub struct LoadedConstants {
    /// The values in the order they were loaded.
    pub values: Vec<ConfigValue>,
    /// The help topic list.
    pub topics: Vec<String>,
}

/// The sections that configuration may set.
pub open spec fn is_configured_section(s: Seq<char>) -> bool {
    s == "commandflags"@ || s == "grep_shortcodes"@
}

/// The value at an address: the last one loaded there.
pub open spec fn lookup_spec(vals: Seq<ConfigValue>, section: Seq<char>, entry: Seq<char>, attr: Seq<char>) -> Option<Seq<char>>
    decreases vals.len(),
{
    if vals.len() == 0 {
        None
    } else {
        let v = vals.last();
        if v.section@ == section && v.entry@ == entry && v.attr@ == attr {
            Some(v.value@)
        } else {
            lookup_spec(vals.drop_last(), section, entry, attr)
        }
    }
}

/// The values of configured sections, in order (what a loaded file contributes).
pub fn configured_values(raw: &Vec<ConfigValue>) -> (r: Vec<ConfigValue>)
    ensures
        r@.len() <= raw@.len(),
        forall|s: Seq<char>, e: Seq<char>, a: Seq<char>|
            #[trigger] lookup_spec(r@, s, e, a) == if is_configured_section(s) {
                lookup_spec(raw@, s, e, a)
            } else {
                None
            },
{
    let mut out: Vec<ConfigValue> = Vec::new();
    let mut i: usize = 0;
    while i < raw.len()
        invariant
            i <= raw@.len(),
            out@.len() <= i,
            forall|s: Seq<char>, e: Seq<char>, a: Seq<char>|
                #[trigger] lookup_spec(out@, s, e, a) == if is_configured_section(s) {
                    lookup_spec(raw@.take(i as int), s, e, a)
                } else {
                    None
                },
        decreases raw.len() - i,
    {
        let v = &raw[i];
        let ghost before = out@;
        assert(raw@.take(i + 1).drop_last() =~= raw@.take(i as int));
        assert(raw@.take(i + 1).last() == raw@[i as int]);
        let keep = crate::text::str_eq(v.section.as_str(), "commandflags") || crate::text::str_eq(
            v.section.as_str(),
            "grep_shortcodes",
        );
        if keep {
            let c = ConfigValue {
                section: crate::text::owned(v.section.as_str()),
                entry: crate::text::owned(v.entry.as_str()),
                attr: crate::text::owned(v.attr.as_str()),
                value: crate::text::owned(v.value.as_str()),
            };
            out.push(c);
            assert(out@.drop_last() =~= before);
            assert forall|s: Seq<char>, e: Seq<char>, a: Seq<char>|
                #[trigger] lookup_spec(out@, s, e, a) == if is_configured_section(s) {
                    lookup_spec(raw@.take(i + 1), s, e, a)
                } else {
                    None
                } by {
                assert(lookup_spec(before, s, e, a) == if is_configured_section(s) {
                    lookup_spec(raw@.take(i as int), s, e, a)
                } else {
                    None
                });
            }
        } else {
            assert forall|s: Seq<char>, e: Seq<char>, a: Seq<char>|
                #[trigger] lookup_spec(out@, s, e, a) == if is_configured_section(s) {
                    lookup_spec(raw@.take(i + 1), s, e, a)
                } else {
                    None
                } by {
                assert(lookup_spec(before, s, e, a) == if is_configured_section(s) {
                    lookup_spec(raw@.take(i as int), s, e, a)
                } else {
                    None
                });
            }
        }
        i = i + 1;
    }
    assert(raw@.take(raw@.len() as int) =~= raw@);
    out
}

/// The values of `base` with those of `overlay` after them: an overlay value replaces the
/// base value at its address.
pub fn merge_nested_maps(base: Vec<ConfigValue>, overlay: Vec<ConfigValue>) -> (r: Vec<ConfigValue>)
    ensures
        r@ == base@ + overlay@,
{
    let mut out = base;
    let mut more = overlay;
    out.append(&mut more);
    out
}

/// The value at `section.entry.attr`, if one was loaded.
pub fn get_optional(constants: &LoadedConstants, section: &str, entry: &str, attr: &str) -> (r: Option<String>)
    ensures
        crate::text::opt_view(r) == lookup_spec(constants.values@, section@, entry@, attr@),
{
    let vals = &constants.values;
    let mut k = vals.len();
    assert(vals@.take(k as int) =~= vals@);
    while k > 0
        invariant
            k <= vals@.len(),
            vals@ == constants.values@,
            lookup_spec(vals@, section@, entry@, attr@) == lookup_spec(vals@.take(k as int), section@, entry@, attr@),
        decreases k,
    {
        let v = &vals[k - 1];
        assert(vals@.take(k as int).drop_last() =~= vals@.take(k - 1));
        assert(vals@.take(k as int).last() == vals@[k - 1]);
        if crate::text::str_eq(v.section.as_str(), section) && crate::text::str_eq(v.entry.as_str(), entry)
            && crate::text::str_eq(v.attr.as_str(), attr) {
            assert(lookup_spec(vals@.take(k as int), section@, entry@, attr@) == Some(v.value@));
            return Some(crate::text::owned(v.value.as_str()));
        }
        k = k - 1;
    }
    None
}

/// The error for a missing required value.
pub open spec fn missing_key_error(section: Seq<char>, entry: Seq<char>, attr: Seq<char>) -> Seq<char> {
    "Missing required config key '"@ + section + "."@ + entry + "."@ + attr + "' in merged config"@
}

/// The value at `section.entry.attr`, which must have been loaded.
pub fn get_required(constants: &LoadedConstants, section: &str, entry: &str, attr: &str) -> (r: String)
    requires
        lookup_spec(constants.values@, section@, entry@, attr@) is Some,
    ensures
        Some(r@) == lookup_spec(constants.values@, section@, entry@, attr@),
{
    get_optional(constants, section, entry, attr).unwrap()
}

/// `get_required` where the value was loaded; the error for a missing key otherwise.
pub fn try_get_required(constants: &LoadedConstants, section: &str, entry: &str, attr: &str) -> (r: Result<String, String>)
    ensures
        match lookup_spec(constants.values@, section@, entry@, attr@) {
            Some(v) => r matches Ok(s) && s@ == v,
            None => r matches Err(e) && e@ == missing_key_error(section@, entry@, attr@),
        },
{
    match get_optional(constants, section, entry, attr) {
        Some(v) => Ok(v),
        None => {
            let a = crate::text::concat3("Missing required config key '", section, ".");
            let b = crate::text::concat3(a.as_str(), entry, ".");
            let c = crate::text::concat3(b.as_str(), attr, "' in merged config");
            Err(c)
        },
    }
}

/// The error for a path that is not `section.entry.attribute`.
pub open spec fn bad_path_error(path: Seq<char>, parts: nat) -> Seq<char> {
    "Invalid config path '"@ + path + "': expected format 'section.entry.attribute' (got "@ + decimal_seq(parts)
        + " parts)"@
}

/// The path names a loaded value: it has three parts, and a value was loaded there.
pub open spec fn resolvable(constants: LoadedConstants, path: Seq<char>) -> bool {
    let parts = split_seq(path, seq!['.']);
    parts.len() == 3 && lookup_spec(constants.values@, parts[0], parts[1], parts[2]) is Some
}

/// The value at a dotted path `section.entry.attribute`, which must name a loaded value.
pub fn resolve(constants: &LoadedConstants, path: &str) -> (r: String)
    requires
        resolvable(*constants, path@),
    ensures
        ({
            let parts = split_seq(path@, seq!['.']);
            Some(r@) == lookup_spec(constants.values@, parts[0], parts[1], parts[2])
        }),
{
    try_resolve(constants, path).unwrap()
}

/// `resolve` where the path names a loaded value; otherwise the error for a path that has
/// another number of parts, or for a missing key.
pub fn try_resolve(constants: &LoadedConstants, path: &str) -> (r: Result<String, String>)
    ensures
        ({
            let parts = split_seq(path@, seq!['.']);
            if parts.len() != 3 {
                r matches Err(e) && e@ == bad_path_error(path@, parts.len())
            } else {
                match lookup_spec(constants.values@, parts[0], parts[1], parts[2]) {
                    Some(v) => r matches Ok(s) && s@ == v,
                    None => r matches Err(e) && e@ == missing_key_error(parts[0], parts[1], parts[2]),
                }
            }
        }),
{
    let mut seps: Vec<char> = Vec::new();
    seps.push('.');
    assert(seps@ =~= seq!['.']);
    let parts = crate::text::split_chars(path, &seps);
    let ghost pv = parts@.map_values(|x: String| x@);
    if parts.len() != 3 {
        let n = crate::text::usize_to_string(parts.len());
        let a = crate::text::concat3("Invalid config path '", path, "': expected format 'section.entry.attribute' (got ");
        let b = crate::text::concat3(a.as_str(), n.as_str(), " parts)");
        return Err(b);
    }
    assert(pv[0] == parts@[0]@ && pv[1] == parts@[1]@ && pv[2] == parts@[2]@);
    try_get_required(constants, parts[0].as_str(), parts[1].as_str(), parts[2].as_str())
}

/// The help topic list: the user's, when the user's file has one, else the built-in one;
/// an error when the built-in configuration has none.
pub fn effective_help_topics(built_in: Option<Vec<String>>, user: Option<Vec<String>>) -> (r: Result<Vec<String>, String>)
    ensures
        match (built_in, user) {
            (None, _) => r matches Err(e) && e@ == "Missing required config key 'help.topics_help' in src/defaultconfig.toml"@,
            (Some(_), Some(u)) => r == Ok::<Vec<String>, String>(u),
            (Some(d), None) => r == Ok::<Vec<String>, String>(d),
        },
{
    match built_in {
        None => Err(crate::text::owned("Missing required config key 'help.topics_help' in src/defaultconfig.toml")),
        Some(d) => match user {
            Some(u) => Ok(u),
            None => Ok(d),
        },
    }
}

/// The help topic list.
pub fn help_topics(constants: &LoadedConstants) -> (r: &Vec<String>)
    ensures
        r == &constants.topics,
{
    &constants.topics
}

} // verus!
