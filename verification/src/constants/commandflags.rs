//! Command flag definitions and grouped flag sets.
use vstd::prelude::*;
use crate::constants::FlagDef;

verus! {

/// A flag definition, as plain values for display.
#[derive(Debug, Clone, Copy)]
pub struct EffectiveFlagDef {
    /// Logical flag name.
    pub name: &'static str,
    /// Effective token or regex.
    pub value: &'static str,
    /// Effective help text.
    pub help: &'static str,
    /// Effective example text.
    pub example: &'static str,
}

/// The search flags as plain values.
pub fn searchflags_effective() -> (r: Vec<EffectiveFlagDef>)
    ensures
        r@.len() == searchflags_seq().len(),
        forall|j: int| 0 <= j < r@.len() ==> {
            &&& (#[trigger] r@[j]).name == searchflags_seq()[j].name
            &&& r@[j].value == searchflags_seq()[j].value
            &&& r@[j].help == searchflags_seq()[j].help
            &&& r@[j].example == searchflags_seq()[j].example
        },
{
    let flags = searchflags();
    let mut out: Vec<EffectiveFlagDef> = Vec::new();
    let mut i: usize = 0;
    while i < flags.len()
        invariant
            flags@ == searchflags_seq(),
            i <= flags@.len(),
            out@.len() == i,
            forall|j: int| 0 <= j < i ==> {
                &&& (#[trigger] out@[j]).name == flags@[j].name
                &&& out@[j].value == flags@[j].value
                &&& out@[j].help == flags@[j].help
                &&& out@[j].example == flags@[j].example
            },
        decreases flags.len() - i,
    {
        let f = flags[i];
        out.push(EffectiveFlagDef { name: f.name, value: f.value, help: f.help, example: f.example });
        i = i + 1;
    }
    out
}

/// The definition that `name_negative_splitter` returns.
pub open spec fn name_negative_splitter_def() -> FlagDef {
    FlagDef {
        name: "name_negative_splitter",
        value: NAME_NEGATIVE_SPLITTER_VALUE,
        help: "split a search into a positive and negative component",
        example: "Url--^_",
    }
}

/// Separator between the positive and the negative part of a name search.
pub fn name_negative_splitter() -> (r: FlagDef)
    ensures
        r == name_negative_splitter_def(),
{
    FlagDef {
        name: "name_negative_splitter",
        value: NAME_NEGATIVE_SPLITTER_VALUE,
        help: "split a search into a positive and negative component",
        example: "Url--^_",
    }
}

/// Regex of the name negation separator: `--` or `!`.
pub const NAME_NEGATIVE_SPLITTER_VALUE: &'static str = "--|!";
/// Token of the case-insensitive flag.
pub const CASE_INSENSITIVE_VALUE: &'static str = "i";
/// Regex of the after-context flag.
pub const AFTER_CONTEXT_VALUE: &'static str = r"A\d+";
/// Regex of the before-context flag.
pub const BEFORE_CONTEXT_VALUE: &'static str = r"B\d+";
/// Regex of the context flag.
pub const CONTEXT_VALUE: &'static str = r"C\d+";
/// Regex of the set-key flag; group 1 is the key.
pub const SETKEY_VALUE: &'static str = r"sk=([A-Za-z0-9_]+)\.?";
/// Regex of the where-key flag; group 1 is the key.
pub const WHEREKEY_VALUE: &'static str = r"wk=([A-Za-z0-9_]+)\.?";
/// Regex of the where-type flag; group 1 is the list of type letters.
pub const WHERETYPE_VALUE: &'static str = r"wt=([A-Za-z]+)\.?";
/// Regex of the line-number range flag; group 1 is the range payload.
pub const WHERE_LINENUM_VALUE: &'static str = r"wl=([0-9,\-]+)\.?";
/// Token of the fixed-string flag.
pub const FIXED_STRING_VALUE: &'static str = "F";
/// Token of the user-confirmation flag.
pub const USER_CONFIRM_VALUE: &'static str = "u";
/// Token of the change-all flag.
pub const CHANGE_ALL_VALUE: &'static str = "a";
/// Token of the flag that turns grep shortcodes on.
pub const USE_GREP_SHORTCODES_VALUE: &'static str = "g";
/// Token of the flag that turns grep shortcodes off.
pub const NO_GREP_SHORTCODES_VALUE: &'static str = "G";
/// Token of the indent-keeping flag.
pub const INDENT_KEEP_VALUE: &'static str = "I";
/// Token of the raw-string flag.
pub const RAW_STRING_VALUE: &'static str = "r";
/// Token of the show-body flag.
pub const SHOW_BODY_VALUE: &'static str = "b";
/// Token of the show-owner flag.
pub const SHOW_OWNER_VALUE: &'static str = "o";

/// The definition that `case_insensitive` returns.
pub open spec fn case_insensitive_def() -> FlagDef {
    FlagDef { name: "insensitive", value: CASE_INSENSITIVE_VALUE, help: "case-insentive search", example: "i" }
}

/// Case-insensitive matching.
pub fn case_insensitive() -> (r: FlagDef)
    ensures
        r == case_insensitive_def(),
{
    FlagDef { name: "insensitive", value: CASE_INSENSITIVE_VALUE, help: "case-insentive search", example: "i" }
}

/// The definition that `after_context` returns.
pub open spec fn after_context_def() -> FlagDef {
    FlagDef { name: "after", value: AFTER_CONTEXT_VALUE, help: "Show NUM lines after each match.", example: "A3" }
}

/// After-context line count.
pub fn after_context() -> (r: FlagDef)
    ensures
        r == after_context_def(),
{
    FlagDef { name: "after", value: AFTER_CONTEXT_VALUE, help: "Show NUM lines after each match.", example: "A3" }
}

/// The definition that `before_context` returns.
pub open spec fn before_context_def() -> FlagDef {
    FlagDef { name: "before", value: BEFORE_CONTEXT_VALUE, help: "Show NUM lines before each match.", example: "B3" }
}

/// Before-context line count.
pub fn before_context() -> (r: FlagDef)
    ensures
        r == before_context_def(),
{
    FlagDef { name: "before", value: BEFORE_CONTEXT_VALUE, help: "Show NUM lines before each match.", example: "B3" }
}

/// The definition that `context` returns.
pub open spec fn context_def() -> FlagDef {
    FlagDef { name: "context", value: CONTEXT_VALUE, help: "Show NUM lines before and after each match.", example: "C3" }
}

/// Symmetric context line count.
pub fn context() -> (r: FlagDef)
    ensures
        r == context_def(),
{
    FlagDef { name: "context", value: CONTEXT_VALUE, help: "Show NUM lines before and after each match.", example: "C3" }
}

/// The definition that `setkey` returns.
pub open spec fn setkey_def() -> FlagDef {
    FlagDef {
        name: "set key",
        value: SETKEY_VALUE,
        help: "set key to a value that can be used with wk=<key>. in later commands",
        example: "sk=init.",
    }
}

/// Assigns a key to matched lines.
pub fn setkey() -> (r: FlagDef)
    ensures
        r == setkey_def(),
{
    FlagDef {
        name: "set key",
        value: SETKEY_VALUE,
        help: "set key to a value that can be used with wk=<key>. in later commands",
        example: "sk=init.",
    }
}

/// The definition that `wherekey` returns.
pub open spec fn wherekey_def() -> FlagDef {
    FlagDef { name: "where_key", value: WHEREKEY_VALUE, help: "puts an extra criteria to other commands", example: "wk=init." }
}

/// Filters by a previously set key.
pub fn wherekey() -> (r: FlagDef)
    ensures
        r == wherekey_def(),
{
    FlagDef { name: "where_key", value: WHEREKEY_VALUE, help: "puts an extra criteria to other commands", example: "wk=init." }
}

/// The definition that `wheretype` returns.
pub open spec fn wheretype_def() -> FlagDef {
    FlagDef { name: "where_type", value: WHERETYPE_VALUE, help: "only show some types of declarations", example: "wt=f." }
}

/// Filters declaration types.
pub fn wheretype() -> (r: FlagDef)
    ensures
        r == wheretype_def(),
{
    FlagDef { name: "where_type", value: WHERETYPE_VALUE, help: "only show some types of declarations", example: "wt=f." }
}

/// The definition that `where_linenum` returns.
pub open spec fn where_linenum_def() -> FlagDef {
    FlagDef { name: "where_linenum", value: WHERE_LINENUM_VALUE, help: "limit line number range", example: "wl=1-20." }
}

/// Filters by line-number range.
pub fn where_linenum() -> (r: FlagDef)
    ensures
        r == where_linenum_def(),
{
    FlagDef { name: "where_linenum", value: WHERE_LINENUM_VALUE, help: "limit line number range", example: "wl=1-20." }
}

/// The definition that `fixed_string` returns.
pub open spec fn fixed_string_def() -> FlagDef {
    FlagDef { name: "fixed_string", value: FIXED_STRING_VALUE, help: "treat search as regular string, not a regex", example: "F" }
}

/// Treats the pattern as fixed text.
pub fn fixed_string() -> (r: FlagDef)
    ensures
        r == fixed_string_def(),
{
    FlagDef { name: "fixed_string", value: FIXED_STRING_VALUE, help: "treat search as regular string, not a regex", example: "F" }
}

/// The definition that `user_confirm` returns.
pub open spec fn user_confirm_def() -> FlagDef {
    FlagDef { name: "user_confirm", value: USER_CONFIRM_VALUE, help: "user confirmation", example: "u" }
}

/// Requires user confirmation.
pub fn user_confirm() -> (r: FlagDef)
    ensures
        r == user_confirm_def(),
{
    FlagDef { name: "user_confirm", value: USER_CONFIRM_VALUE, help: "user confirmation", example: "u" }
}

/// The definition that `change_all` returns.
pub open spec fn change_all_def() -> FlagDef {
    FlagDef { name: "change_all", value: CHANGE_ALL_VALUE, help: "change every match on the line", example: "a" }
}

/// Changes every match on a line, not only the first.
pub fn change_all() -> (r: FlagDef)
    ensures
        r == change_all_def(),
{
    FlagDef { name: "change_all", value: CHANGE_ALL_VALUE, help: "change every match on the line", example: "a" }
}

/// The definition that `use_grep_shortcodes` returns.
pub open spec fn use_grep_shortcodes_def() -> FlagDef {
    FlagDef {
        name: "use_grep_shortcodes",
        value: USE_GREP_SHORTCODES_VALUE,
        help: "expands shortcodes (`..`→`.*`, `~~s.`→` +`)",
        example: "g",
    }
}

/// Expands grep shortcodes.
pub fn use_grep_shortcodes() -> (r: FlagDef)
    ensures
        r == use_grep_shortcodes_def(),
{
    FlagDef {
        name: "use_grep_shortcodes",
        value: USE_GREP_SHORTCODES_VALUE,
        help: "expands shortcodes (`..`→`.*`, `~~s.`→` +`)",
        example: "g",
    }
}

/// The definition that `no_grep_shortcodes` returns.
pub open spec fn no_grep_shortcodes_def() -> FlagDef {
    FlagDef { name: "no_use_grep_shortcodes", value: NO_GREP_SHORTCODES_VALUE, help: "does not expand grep shortcodes", example: "G" }
}

/// Does not expand grep shortcodes.
pub fn no_grep_shortcodes() -> (r: FlagDef)
    ensures
        r == no_grep_shortcodes_def(),
{
    FlagDef { name: "no_use_grep_shortcodes", value: NO_GREP_SHORTCODES_VALUE, help: "does not expand grep shortcodes", example: "G" }
}

/// The definition that `indent_keep` returns.
pub open spec fn indent_keep_def() -> FlagDef {
    FlagDef { name: "indent_keep", value: INDENT_KEEP_VALUE, help: "keep matching line's indentation", example: "I" }
}

/// Keeps the matching line's indentation on inserted text.
pub fn indent_keep() -> (r: FlagDef)
    ensures
        r == indent_keep_def(),
{
    FlagDef { name: "indent_keep", value: INDENT_KEEP_VALUE, help: "keep matching line's indentation", example: "I" }
}

/// The definition that `raw_string` returns.
pub open spec fn raw_string_def() -> FlagDef {
    FlagDef { name: "raw_string", value: RAW_STRING_VALUE, help: r"ignore string escapes like `\n`", example: "r" }
}

/// Takes replacement text as it is, without escapes.
pub fn raw_string() -> (r: FlagDef)
    ensures
        r == raw_string_def(),
{
    FlagDef { name: "raw_string", value: RAW_STRING_VALUE, help: r"ignore string escapes like `\n`", example: "r" }
}

/// The definition that `show_body` returns.
pub open spec fn show_body_def() -> FlagDef {
    FlagDef { name: "show_body", value: SHOW_BODY_VALUE, help: "body of the definition", example: "b" }
}

/// Shows declaration bodies.
pub fn show_body() -> (r: FlagDef)
    ensures
        r == show_body_def(),
{
    FlagDef { name: "show_body", value: SHOW_BODY_VALUE, help: "body of the definition", example: "b" }
}

/// The definition that `show_owner` returns.
pub open spec fn show_owner_def() -> FlagDef {
    FlagDef { name: "show_owner", value: SHOW_OWNER_VALUE, help: "show \"owner\" of the line", example: "o" }
}

/// Shows the owner of a line.
pub fn show_owner() -> (r: FlagDef)
    ensures
        r == show_owner_def(),
{
    FlagDef { name: "show_owner", value: SHOW_OWNER_VALUE, help: "show \"owner\" of the line", example: "o" }
}

/// The definition that `name_negation_splitter` returns.
pub open spec fn name_negation_splitter_def() -> FlagDef {
    FlagDef {
        name: "name_negation_splitter",
        value: NAME_NEGATIVE_SPLITTER_VALUE,
        help: "filters out unwanted values on the right",
        example: "Url!^_",
    }
}

/// Splits name filters into a wanted and an unwanted part.
pub fn name_negation_splitter() -> (r: FlagDef)
    ensures
        r == name_negation_splitter_def(),
{
    FlagDef {
        name: "name_negation_splitter",
        value: NAME_NEGATIVE_SPLITTER_VALUE,
        help: "filters out unwanted values on the right",
        example: "Url!^_",
    }
}

/// What `linesflags` returns.
pub open spec fn linesflags_seq() -> Seq<FlagDef> {
    seq![setkey_def(), wherekey_def()]
}

/// Flags accepted by the `lines` command.
pub fn linesflags() -> (r: Vec<FlagDef>)
    ensures
        r@ == linesflags_seq(),
{
    vec![setkey(), wherekey()]
}

/// The flags accepted by the search commands, in order.
pub open spec fn searchflags_seq() -> Seq<FlagDef> {
    seq![case_insensitive_def(), after_context_def(), before_context_def(), context_def(), fixed_string_def(), use_grep_shortcodes_def(), no_grep_shortcodes_def(), show_owner_def(), setkey_def(), wherekey_def(), where_linenum_def()]
}

/// Flags accepted by the search commands.
pub fn searchflags() -> (r: Vec<FlagDef>)
    ensures
        r@ == searchflags_seq(),
{
    vec![
        case_insensitive(),
        after_context(),
        before_context(),
        context(),
        fixed_string(),
        use_grep_shortcodes(),
        no_grep_shortcodes(),
        show_owner(),
        setkey(),
        wherekey(),
        where_linenum(),
    ]
}

/// What `and_flags` returns.
pub open spec fn and_flags_seq() -> Seq<FlagDef> {
    seq![after_context_def(), before_context_def(), context_def(), case_insensitive_def(), fixed_string_def(), use_grep_shortcodes_def(), no_grep_shortcodes_def(), setkey_def(), wherekey_def(), where_linenum_def()]
}

/// Flags accepted by the `and` command.
pub fn and_flags() -> (r: Vec<FlagDef>)
    ensures
        r@ == and_flags_seq(),
{
    vec![
        after_context(),
        before_context(),
        context(),
        case_insensitive(),
        fixed_string(),
        use_grep_shortcodes(),
        no_grep_shortcodes(),
        setkey(),
        wherekey(),
        where_linenum(),
    ]
}

/// What `delete_flags` returns.
pub open spec fn delete_flags_seq() -> Seq<FlagDef> {
    seq![case_insensitive_def(), fixed_string_def(), use_grep_shortcodes_def(), no_grep_shortcodes_def(), wherekey_def(), user_confirm_def()]
}

/// Flags accepted by the `delete` command.
pub fn delete_flags() -> (r: Vec<FlagDef>)
    ensures
        r@ == delete_flags_seq(),
{
    vec![
        case_insensitive(),
        fixed_string(),
        use_grep_shortcodes(),
        no_grep_shortcodes(),
        wherekey(),
        user_confirm(),
    ]
}

/// What `change_flags` returns.
pub open spec fn change_flags_seq() -> Seq<FlagDef> {
    seq![change_all_def(), case_insensitive_def(), fixed_string_def(), use_grep_shortcodes_def(), no_grep_shortcodes_def(), wherekey_def(), user_confirm_def()]
}

/// Flags accepted by the `change` command.
pub fn change_flags() -> (r: Vec<FlagDef>)
    ensures
        r@ == change_flags_seq(),
{
    vec![
        change_all(),
        case_insensitive(),
        fixed_string(),
        use_grep_shortcodes(),
        no_grep_shortcodes(),
        wherekey(),
        user_confirm(),
    ]
}

/// What `insert_flags` returns.
pub open spec fn insert_flags_seq() -> Seq<FlagDef> {
    seq![case_insensitive_def(), indent_keep_def(), fixed_string_def(), use_grep_shortcodes_def(), no_grep_shortcodes_def(), wherekey_def(), user_confirm_def()]
}

/// Flags accepted by the `prepend` and `append` commands.
pub fn insert_flags() -> (r: Vec<FlagDef>)
    ensures
        r@ == insert_flags_seq(),
{
    vec![
        case_insensitive(),
        indent_keep(),
        fixed_string(),
        use_grep_shortcodes(),
        no_grep_shortcodes(),
        wherekey(),
        user_confirm(),
    ]
}

/// What `for_regex` returns.
pub open spec fn for_regex_seq() -> Seq<FlagDef> {
    seq![case_insensitive_def()]
}

/// Flags that only go to regex compilation.
pub fn for_regex() -> (r: Vec<FlagDef>)
    ensures
        r@ == for_regex_seq(),
{
    vec![case_insensitive()]
}

/// What `declaration_flags` returns.
pub open spec fn declaration_flags_seq() -> Seq<FlagDef> {
    seq![show_body_def(), show_owner_def(), wheretype_def()]
}

/// Flags accepted by the `declarations` command besides the search flags.
pub fn declaration_flags() -> (r: Vec<FlagDef>)
    ensures
        r@ == declaration_flags_seq(),
{
    vec![show_body(), show_owner(), wheretype()]
}

} // verus!
