//! The user's configuration: where its file is, what a new one holds, the environment
//! overrides, and where language plugins are looked for. Reading the environment and the
//! files is the application's; what is made of what was read is here.
use vstd::prelude::*;

use crate::text::{ascii_lower_seq, split_seq, trim_seq};

verus! {

/// Options read from the user's config file.
#[derive(Debug, Default)]
pub struct UserConfigFile {
    /// Whether to include spacing between declarations.
    pub spacer: Option<bool>,
    /// Whether to include line numbers.
    pub line_number: Option<bool>,
    /// Whether to enable grep shortcode expansion.
    pub grep_shortcodes: Option<bool>,
}

/// Options read from the environment.
#[derive(Debug, Default)]
pub struct EnvConfig {
    /// Whether to include spacing between declarations.
    pub spacer: Option<bool>,
    /// Whether to include line numbers.
    pub line_number: Option<bool>,
    /// Whether to enable grep shortcode expansion.
    pub grep_shortcodes: Option<bool>,
}

/// `Path::join` on text: a relative part goes after the base, with one `/` between; an
/// absolute part replaces the base.
pub open spec fn join_spec(base: Seq<char>, rel: Seq<char>) -> Seq<char> {
    if rel.len() > 0 && rel[0] == '/' {
        rel
    } else if base.len() == 0 {
        rel
    } else if base.last() == '/' {
        base + rel
    } else {
        base + seq!['/'] + rel
    }
}

/// `join_spec`.
pub fn join_path(base: &str, rel: &str) -> (r: String)
    ensures
        r@ == join_spec(base@, rel@),
{
    let bc = crate::text::chars_of(base);
    let rc = crate::text::chars_of(rel);
    proof {
        reveal_strlit("/");
        assert("/"@ =~= seq!['/']);
    }
    if rc.len() > 0 && rc[0] == '/' {
        crate::text::owned(rel)
    } else if bc.len() == 0 {
        crate::text::owned(rel)
    } else if bc[bc.len() - 1] == '/' {
        crate::text::concat2(base, rel)
    } else {
        crate::text::concat3(base, "/", rel)
    }
}

/// Where the config file is under the home directory.
pub open spec fn config_file_rel() -> Seq<char> {
    ".config/rxedit/config.toml"@
}

/// The user's config file under the home directory `home`, when it is known.
pub fn user_config_path(home: Option<&str>) -> (r: Option<String>)
    ensures
        crate::text::opt_view(r) == match home {
            Some(h) => Some(join_spec(h@, config_file_rel())),
            None => None::<Seq<char>>,
        },
{
    match home {
        Some(h) => Some(join_path(h, ".config/rxedit/config.toml")),
        None => None,
    }
}

/// The user's config file for display: its path, or `~/.config/rxedit/config.toml` when
/// the home directory is not known.
pub fn user_config_path_display(home: Option<&str>) -> (r: String)
    ensures
        r@ == match home {
            Some(h) => join_spec(h@, config_file_rel()),
            None => "~/.config/rxedit/config.toml"@,
        },
{
    match user_config_path(home) {
        Some(p) => p,
        None => crate::text::owned("~/.config/rxedit/config.toml"),
    }
}

/// The text of a new user config file.
pub open spec fn default_user_config_spec() -> Seq<char> {
    "# rxedit user config\n# all keys are optional; values are booleans\n\nspacer = false\nline_number = false\ngrep_shortcodes = false\ninitial_hide = true\n"@
}

/// The text of a new user config file.
pub fn default_user_config_text() -> (r: &'static str)
    ensures
        r@ == default_user_config_spec(),
{
    "# rxedit user config\n# all keys are optional; values are booleans\n\nspacer = false\nline_number = false\ngrep_shortcodes = false\ninitial_hide = true\n"
}

/// The boolean that an environment value spells, case and surrounding whitespace aside.
pub open spec fn env_bool_spec(value: Seq<char>) -> Option<bool> {
    let v = ascii_lower_seq(trim_seq(value));
    if v == "1"@ || v == "true"@ || v == "yes"@ || v == "on"@ {
        Some(true)
    } else if v == "0"@ || v == "false"@ || v == "no"@ || v == "off"@ {
        Some(false)
    } else {
        None
    }
}

/// The error for an environment value that spells no boolean.
pub open spec fn env_bool_error(var_name: Seq<char>, value: Seq<char>) -> Seq<char> {
    "Invalid boolean value '"@ + ascii_lower_seq(trim_seq(value)) + "' for env var "@ + var_name
        + ". Use one of: true/false, 1/0, yes/no, on/off"@
}

/// The boolean of an environment variable whose value (if set) is `raw`: `1`, `true`,
/// `yes`, `on` or `0`, `false`, `no`, `off`, in any case; anything else is an error.
pub fn parse_env_bool(var_name: &str, raw: Option<&str>) -> (r: Result<Option<bool>, String>)
    ensures
        match raw {
            None => r == Ok::<Option<bool>, String>(None),
            Some(v) => match env_bool_spec(v@) {
                Some(b) => r == Ok::<Option<bool>, String>(Some(b)),
                None => r matches Err(e) && e@ == env_bool_error(var_name@, v@),
            },
        },
{
    let v = match raw {
        Some(v) => v,
        None => {
            return Ok(None);
        },
    };
    let trimmed = crate::text::trim(v);
    let value = crate::text::to_ascii_lowercase(trimmed.as_str());
    let s = value.as_str();
    if crate::text::str_eq(s, "1") || crate::text::str_eq(s, "true") || crate::text::str_eq(s, "yes")
        || crate::text::str_eq(s, "on") {
        Ok(Some(true))
    } else if crate::text::str_eq(s, "0") || crate::text::str_eq(s, "false") || crate::text::str_eq(s, "no")
        || crate::text::str_eq(s, "off") {
        Ok(Some(false))
    } else {
        let a = crate::text::concat3("Invalid boolean value '", s, "' for env var ");
        let b = crate::text::concat3(a.as_str(), var_name, ". Use one of: true/false, 1/0, yes/no, on/off");
        Err(b)
    }
}

/// An unset variable, or one whose value spells a boolean.
pub open spec fn env_ok(raw: Option<&str>) -> bool {
    match raw {
        Some(v) => env_bool_spec(v@) is Some,
        None => true,
    }
}

/// The variable is set to a value that spells no boolean, and `e` is its error.
pub open spec fn env_error_is(raw: Option<&str>, var_name: Seq<char>, e: Seq<char>) -> bool {
    match raw {
        Some(v) => env_bool_spec(v@) is None && e == env_bool_error(var_name, v@),
        None => false,
    }
}

/// The options set in the environment, from the values of `rxedit_spacer`,
/// `rxedit_line_number` and `rxedit_grep_shortcodes` (each `None` when unset); the first
/// value that spells no boolean is the error.
pub fn read_env_config(spacer: Option<&str>, line_number: Option<&str>, grep_shortcodes: Option<&str>) -> (r: Result<EnvConfig, String>)
    ensures
        match r {
            Ok(c) => {
                &&& (match spacer { Some(v) => c.spacer == env_bool_spec(v@) && c.spacer is Some, None => c.spacer is None })
                &&& (match line_number { Some(v) => c.line_number == env_bool_spec(v@) && c.line_number is Some, None => c.line_number is None })
                &&& (match grep_shortcodes { Some(v) => c.grep_shortcodes == env_bool_spec(v@) && c.grep_shortcodes is Some, None => c.grep_shortcodes is None })
            },
            Err(e) => {
                ||| env_error_is(spacer, crate::constants::env_vars::SPACER@, e@)
                ||| (env_ok(spacer) && env_error_is(line_number, crate::constants::env_vars::LINE_NUMBER@, e@))
                ||| (env_ok(spacer) && env_ok(line_number) && env_error_is(
                    grep_shortcodes,
                    crate::constants::env_vars::GREP_SHORTCODES@,
                    e@,
                ))
            },
        },
        r is Err <==> !(env_ok(spacer) && env_ok(line_number) && env_ok(grep_shortcodes)),
{
    let s = match parse_env_bool(crate::constants::env_vars::SPACER, spacer) {
        Ok(b) => b,
        Err(e) => {
            return Err(e);
        },
    };
    let l = match parse_env_bool(crate::constants::env_vars::LINE_NUMBER, line_number) {
        Ok(b) => b,
        Err(e) => {
            return Err(e);
        },
    };
    let g = match parse_env_bool(crate::constants::env_vars::GREP_SHORTCODES, grep_shortcodes) {
        Ok(b) => b,
        Err(e) => {
            return Err(e);
        },
    };
    Ok(EnvConfig { spacer: s, line_number: l, grep_shortcodes: g })
}

/// A path with a leading `~/` (or `~` alone) taken under the home directory, when it is
/// known; any other path as it is.
pub open spec fn expand_tilde_spec(raw: Seq<char>, home: Option<Seq<char>>) -> Seq<char> {
    match home {
        Some(h) => if raw.len() >= 2 && raw[0] == '~' && raw[1] == '/' {
            join_spec(h, raw.skip(2))
        } else if raw == seq!['~'] {
            h
        } else {
            raw
        },
        None => raw,
    }
}

/// `expand_tilde_spec`.
pub fn expand_tilde_path(raw: &str, home: Option<&str>) -> (r: String)
    ensures
        r@ == expand_tilde_spec(raw@, match home {
            Some(h) => Some(h@),
            None => None,
        }),
{
    let h = match home {
        Some(h) => h,
        None => {
            return crate::text::owned(raw);
        },
    };
    let cs = crate::text::chars_of(raw);
    if cs.len() >= 2 && cs[0] == '~' && cs[1] == '/' {
        let rest = crate::text::string_from_chars(crate::text::sub_chars(&cs, 2, cs.len()).as_slice());
        assert(cs@.subrange(2, cs@.len() as int) =~= raw@.skip(2));
        join_path(h, rest.as_str())
    } else if cs.len() == 1 && cs[0] == '~' {
        assert(raw@ =~= seq!['~']);
        crate::text::owned(h)
    } else {
        proof {
            if raw@ == seq!['~'] {
                assert(cs@.len() == 1 && cs@[0] == '~');
            }
        }
        crate::text::owned(raw)
    }
}

/// The components of a path, as `Path::components` gives them on Unix: whether it starts
/// at the root, whether it starts with `.`, and its other parts, without empty and `.`
/// parts.
pub open spec fn path_components(p: Seq<char>) -> (bool, bool, Seq<Seq<char>>) {
    let rooted = p.len() > 0 && p[0] == '/';
    let dotted = !rooted && (p == seq!['.'] || (p.len() >= 2 && p[0] == '.' && p[1] == '/'));
    (rooted, dotted, split_seq(p, seq!['/']).filter(|c: Seq<char>| c.len() > 0 && c != seq!['.']))
}

/// Two paths are the same path (`Path` equality: same components).
pub open spec fn same_path(a: Seq<char>, b: Seq<char>) -> bool {
    path_components(a) == path_components(b)
}

fn components_of(p: &str) -> (r: (bool, bool, Vec<String>))
    ensures
        (r.0, r.1, r.2@.map_values(|x: String| x@)) == path_components(p@),
{
    let cs = crate::text::chars_of(p);
    let rooted = cs.len() > 0 && cs[0] == '/';
    let dotted = !rooted && ((cs.len() == 1 && cs[0] == '.') || (cs.len() >= 2 && cs[0] == '.' && cs[1] == '/'));
    proof {
        if p@ == seq!['.'] {
            assert(cs@.len() == 1 && cs@[0] == '.');
        }
        if cs@.len() == 1 && cs@[0] == '.' {
            assert(p@ =~= seq!['.']);
        }
    }
    let mut seps: Vec<char> = Vec::new();
    seps.push('/');
    assert(seps@ =~= seq!['/']);
    let pieces = crate::text::split_chars(p, &seps);
    let ghost pv = pieces@.map_values(|x: String| x@);
    let mut out: Vec<String> = Vec::new();
    let mut i: usize = 0;
    assert(pv.take(0) =~= Seq::<Seq<char>>::empty());
    while i < pieces.len()
        invariant
            i <= pieces@.len(),
            pv == pieces@.map_values(|x: String| x@),
            out@.map_values(|x: String| x@) == pv.take(i as int).filter(|c: Seq<char>| c.len() > 0 && c != seq!['.']),
        decreases pieces.len() - i,
    {
        let piece = pieces[i].as_str();
        assert(piece@ == pv[i as int]);
        let ghost before = out@.map_values(|x: String| x@);
        proof {
            crate::utilities::lemma_filter_step(pv, i as int, |c: Seq<char>| c.len() > 0 && c != seq!['.']);
        }
        let pc = crate::text::chars_of(piece);
        let is_dot = pc.len() == 1 && pc[0] == '.';
        proof {
            if piece@ == seq!['.'] {
                assert(pc@.len() == 1 && pc@[0] == '.');
            }
            if is_dot {
                assert(piece@ =~= seq!['.']);
            }
        }
        if pc.len() > 0 && !is_dot {
            out.push(crate::text::owned(piece));
            assert(out@.map_values(|x: String| x@) =~= before.push(pv[i as int]));
        } else {
            assert(out@.map_values(|x: String| x@) =~= before);
        }
        i = i + 1;
    }
    assert(pv.take(pieces@.len() as int) =~= pv);
    (rooted, dotted, out)
}

fn same_texts(a: &Vec<String>, b: &Vec<String>) -> (r: bool)
    ensures
        r == (a@.map_values(|x: String| x@) == b@.map_values(|x: String| x@)),
{
    let ghost av = a@.map_values(|x: String| x@);
    let ghost bv = b@.map_values(|x: String| x@);
    if a.len() != b.len() {
        assert(av.len() != bv.len());
        return false;
    }
    let mut i: usize = 0;
    while i < a.len()
        invariant
            i <= a@.len(),
            a@.len() == b@.len(),
            av == a@.map_values(|x: String| x@),
            bv == b@.map_values(|x: String| x@),
            forall|j: int| 0 <= j < i ==> av[j] == bv[j],
        decreases a.len() - i,
    {
        if !crate::text::str_eq(a[i].as_str(), b[i].as_str()) {
            assert(av[i as int] != bv[i as int]);
            return false;
        }
        i = i + 1;
    }
    assert(av =~= bv);
    true
}

/// `same_path`.
pub fn paths_equal(a: &str, b: &str) -> (r: bool)
    ensures
        r == same_path(a@, b@),
{
    let ca = components_of(a);
    let cb = components_of(b);
    ca.0 == cb.0 && ca.1 == cb.1 && same_texts(&ca.2, &cb.2)
}

/// Puts `path` at the end of `candidates` unless the same path is there already.
pub fn push_unique(candidates: &mut Vec<String>, path: String)
    ensures
        (exists|i: int| 0 <= i < old(candidates)@.len() && same_path(#[trigger] old(candidates)@[i]@, path@))
            ==> final(candidates)@ == old(candidates)@,
        !(exists|i: int| 0 <= i < old(candidates)@.len() && same_path(#[trigger] old(candidates)@[i]@, path@))
            ==> final(candidates)@ == old(candidates)@.push(path),
{
    let mut i: usize = 0;
    while i < candidates.len()
        invariant
            i <= candidates@.len(),
            candidates@ == old(candidates)@,
            forall|j: int| 0 <= j < i ==> !same_path(#[trigger] candidates@[j]@, path@),
        decreases candidates.len() - i,
    {
        if paths_equal(candidates[i].as_str(), path.as_str()) {
            return;
        }
        i = i + 1;
    }
    candidates.push(path);
}

/// The directories searched for language plugins, in order: the one named by the
/// environment (trimmed, unless empty; with `~` expanded), then the one named in the
/// config file, unless it is the same path.
pub open spec fn plugin_search_spec(env_dir: Option<Seq<char>>, config_dir: Option<Seq<char>>, home: Option<Seq<char>>) -> Seq<Seq<char>> {
    let first: Seq<Seq<char>> = match env_dir {
        Some(p) => if trim_seq(p).len() > 0 {
            seq![expand_tilde_spec(trim_seq(p), home)]
        } else {
            Seq::empty()
        },
        None => Seq::empty(),
    };
    match config_dir {
        Some(c) => if first.len() > 0 && same_path(first[0], c) {
            first
        } else {
            first.push(c)
        },
        None => first,
    }
}

/// The directories searched for language plugins (see `plugin_search_spec`), from the value
/// of `rxedit_plugins_directory`, the `[plugins] directory` of the config file and the home
/// directory.
pub fn plugin_library_search_paths_from_sources(env_plugins_directory: Option<&str>, config_plugin_directory: Option<String>, home: Option<&str>) -> (r: Vec<String>)
    ensures
        r@.map_values(|x: String| x@) == plugin_search_spec(
            match env_plugins_directory {
                Some(p) => Some(p@),
                None => None,
            },
            crate::text::opt_view(config_plugin_directory),
            match home {
                Some(h) => Some(h@),
                None => None,
            },
        ),
{
    let ghost env_v: Option<Seq<char>> = match env_plugins_directory {
        Some(p) => Some(p@),
        None => None,
    };
    let ghost home_v: Option<Seq<char>> = match home {
        Some(h) => Some(h@),
        None => None,
    };
    let ghost first: Seq<Seq<char>> = match env_v {
        Some(p) => if trim_seq(p).len() > 0 {
            seq![expand_tilde_spec(trim_seq(p), home_v)]
        } else {
            Seq::empty()
        },
        None => Seq::empty(),
    };
    let mut candidates: Vec<String> = Vec::new();
    match env_plugins_directory {
        Some(p) => {
            let trimmed = crate::text::trim(p);
            if !crate::text::is_empty_text(trimmed.as_str()) {
                let path = expand_tilde_path(trimmed.as_str(), home);
                candidates.push(path);
            }
        },
        None => {},
    }
    assert(candidates@.map_values(|x: String| x@) =~= first);
    let ghost before = candidates@;
    match config_plugin_directory {
        Some(c) => {
            let ghost cv = c@;
            proof {
                if first.len() > 0 && same_path(first[0], cv) {
                    assert(same_path(before[0]@, cv));
                } else {
                    assert forall|i: int| 0 <= i < before.len() implies !same_path(#[trigger] before[i]@, cv) by {
                        assert(before[i]@ == first[i]);
                    }
                }
            }
            push_unique(&mut candidates, c);
            assert(candidates@.map_values(|x: String| x@) =~= if first.len() > 0 && same_path(first[0], cv) {
                first
            } else {
                first.push(cv)
            });
        },
        None => {},
    }
    candidates
}


/// An argument is the flag: its short form, its long form, or `long=value`.
pub open spec fn is_flag_arg(a: Seq<char>, short: Seq<char>, long: Seq<char>) -> bool {
    a == short || a == long || (a.len() >= long.len() + 1 && a.take(long.len() + 1int) == long + seq!['='])
}

/// Whether a flag was given on the command line, in its short or long form or as
/// `long=value`.
pub fn arg_present(args: &[String], short: &str, long: &str) -> (b: bool)
    ensures
        b == exists|i: int| 0 <= i < args@.len() && is_flag_arg(#[trigger] args@[i]@, short@, long@),
{
    let with_eq = crate::text::concat2(long, "=");
    let wc = crate::text::chars_of(with_eq.as_str());
    proof {
        reveal_strlit("=");
        assert("="@ =~= seq!['=']);
    }
    let mut i: usize = 0;
    while i < args.len()
        invariant
            i <= args@.len(),
            wc@ == long@ + seq!['='],
            forall|j: int| 0 <= j < i ==> !is_flag_arg(#[trigger] args@[j]@, short@, long@),
        decreases args.len() - i,
    {
        let a = args[i].as_str();
        let ac = crate::text::chars_of(a);
        let prefixed = crate::text::chars_match_at(&ac, &wc, 0);
        proof {
            if prefixed {
                assert(ac@.subrange(0, wc@.len() as int) =~= a@.take(long@.len() + 1int));
            }
            if a@.len() >= long@.len() + 1 && a@.take(long@.len() + 1int) == long@ + seq!['='] {
                assert(ac@.subrange(0, wc@.len() as int) =~= a@.take(long@.len() + 1int));
            }
        }
        if crate::text::str_eq(a, short) || crate::text::str_eq(a, long) || prefixed {
            return true;
        }
        i = i + 1;
    }
    false
}

/// A setting's value: what the command line said, else the environment, else the user's
/// config file, else the fallback.
pub open spec fn setting_spec(explicit: Option<bool>, env: Option<bool>, user: Option<bool>, fallback: bool) -> bool {
    match explicit {
        Some(b) => b,
        None => match env {
            Some(b) => b,
            None => match user {
                Some(b) => b,
                None => fallback,
            },
        },
    }
}

/// `setting_spec`.
pub fn choose_setting(explicit: Option<bool>, env: Option<bool>, user: Option<bool>, fallback: bool) -> (b: bool)
    ensures
        b == setting_spec(explicit, env, user, fallback),
{
    match explicit {
        Some(b) => b,
        None => match env {
            Some(b) => b,
            None => match user {
                Some(b) => b,
                None => fallback,
            },
        },
    }
}

/// What the command line says of a switch with an "on" and an "off" form: on when "on"
/// was given and "off" was not; nothing when neither was.
pub fn switch_given(on: bool, off: bool) -> (r: Option<bool>)
    ensures
        r == if on || off {
            Some(on && !off)
        } else {
            None::<bool>
        },
{
    if on || off {
        Some(on && !off)
    } else {
        None
    }
}

} // verus!
