//! Grep shortcode definitions and grouped shortcode sets.
use vstd::prelude::*;

verus! {

/// A grep shortcode: a token typed by the user and what it expands to.
#[derive(Debug, Copy, Clone)]
pub struct GrepShortCodeDef {
    /// Logical shortcode key.
    pub key: &'static str,
    /// Token typed by the user.
    pub macrocode: &'static str,
    /// Regex or text it expands to.
    pub expansion: &'static str,
    /// Human-readable description.
    pub description: &'static str,
}

/// The definition that `wildcard` returns.
pub open spec fn wildcard_def() -> GrepShortCodeDef {
    GrepShortCodeDef { key: "wildcard", macrocode: "..", expansion: ".*", description: "matches any string" }
}

/// `..` matches any string.
pub fn wildcard() -> (r: GrepShortCodeDef)
    ensures
        r == wildcard_def(),
{
    GrepShortCodeDef { key: "wildcard", macrocode: "..", expansion: ".*", description: "matches any string" }
}

/// The definition that `spaces` returns.
pub open spec fn spaces_def() -> GrepShortCodeDef {
    GrepShortCodeDef { key: "spaces", macrocode: "~~s.", expansion: " +", description: "matches one or more space character" }
}

/// `~~s.` matches one or more spaces.
pub fn spaces() -> (r: GrepShortCodeDef)
    ensures
        r == spaces_def(),
{
    GrepShortCodeDef { key: "spaces", macrocode: "~~s.", expansion: " +", description: "matches one or more space character" }
}

/// The definition that `or` returns.
pub open spec fn or_def() -> GrepShortCodeDef {
    GrepShortCodeDef { key: "or", macrocode: "~~o.", expansion: "|", description: "standard grep OR/pipe a|b" }
}

/// `~~o.` is the regex alternation.
pub fn or() -> (r: GrepShortCodeDef)
    ensures
        r == or_def(),
{
    GrepShortCodeDef { key: "or", macrocode: "~~o.", expansion: "|", description: "standard grep OR/pipe a|b" }
}

/// The definition that `or_comma` returns.
pub open spec fn or_comma_def() -> GrepShortCodeDef {
    GrepShortCodeDef { key: "or_comma", macrocode: ",", expansion: "|", description: "standard grep OR/pipe alternative for a|b" }
}

/// `,` is the regex alternation in name searches.
pub fn or_comma() -> (r: GrepShortCodeDef)
    ensures
        r == or_comma_def(),
{
    GrepShortCodeDef { key: "or_comma", macrocode: ",", expansion: "|", description: "standard grep OR/pipe alternative for a|b" }
}

/// The definition that `quotes` returns.
pub open spec fn quotes_def() -> GrepShortCodeDef {
    GrepShortCodeDef { key: "quotes", macrocode: "~~q.", expansion: "[\"']", description: "matches either a single or double quote character" }
}

/// `~~q.` matches a single or a double quote.
pub fn quotes() -> (r: GrepShortCodeDef)
    ensures
        r == quotes_def(),
{
    GrepShortCodeDef { key: "quotes", macrocode: "~~q.", expansion: "[\"']", description: "matches either a single or double quote character" }
}

/// The definition that `left_parenthesis` returns.
pub open spec fn left_parenthesis_def() -> GrepShortCodeDef {
    GrepShortCodeDef { key: "left_parenthesis", macrocode: "~~pl.", expansion: r"\(", description: "matches `(`" }
}

/// `~~pl.` matches `(`.
pub fn left_parenthesis() -> (r: GrepShortCodeDef)
    ensures
        r == left_parenthesis_def(),
{
    GrepShortCodeDef { key: "left_parenthesis", macrocode: "~~pl.", expansion: r"\(", description: "matches `(`" }
}

/// The definition that `right_parenthesis` returns.
pub open spec fn right_parenthesis_def() -> GrepShortCodeDef {
    GrepShortCodeDef { key: "right_parenthesis", macrocode: "~~pr.", expansion: r"\)", description: "matches `)`" }
}

/// `~~pr.` matches `)`.
pub fn right_parenthesis() -> (r: GrepShortCodeDef)
    ensures
        r == right_parenthesis_def(),
{
    GrepShortCodeDef { key: "right_parenthesis", macrocode: "~~pr.", expansion: r"\)", description: "matches `)`" }
}

/// The definition that `less_than` returns.
pub open spec fn less_than_def() -> GrepShortCodeDef {
    GrepShortCodeDef { key: "less_than", macrocode: "~~lt.", expansion: "<", description: "matches `<`" }
}

/// `~~lt.` matches `<`.
pub fn less_than() -> (r: GrepShortCodeDef)
    ensures
        r == less_than_def(),
{
    GrepShortCodeDef { key: "less_than", macrocode: "~~lt.", expansion: "<", description: "matches `<`" }
}

/// The definition that `field_separator` returns.
pub open spec fn field_separator_def() -> GrepShortCodeDef {
    GrepShortCodeDef { key: "field_separator", macrocode: "~~fs.", expansion: "::", description: "matches `::`" }
}

/// `~~fs.` matches `::`.
pub fn field_separator() -> (r: GrepShortCodeDef)
    ensures
        r == field_separator_def(),
{
    GrepShortCodeDef { key: "field_separator", macrocode: "~~fs.", expansion: "::", description: "matches `::`" }
}

/// The definition that `colon` returns.
pub open spec fn colon_def() -> GrepShortCodeDef {
    GrepShortCodeDef { key: "colon", macrocode: "~~c.", expansion: ":", description: "matches `:`" }
}

/// `~~c.` matches `:`.
pub fn colon() -> (r: GrepShortCodeDef)
    ensures
        r == colon_def(),
{
    GrepShortCodeDef { key: "colon", macrocode: "~~c.", expansion: ":", description: "matches `:`" }
}

/// What `replacefield` returns.
pub open spec fn replacefield_seq() -> Seq<GrepShortCodeDef> {
    seq![field_separator_def()]
}

/// Shortcodes expanded in replacement fields.
pub fn replacefield() -> (r: Vec<GrepShortCodeDef>)
    ensures
        r@ == replacefield_seq(),
{
    vec![field_separator()]
}

/// What `searchfield` returns.
pub open spec fn searchfield_seq() -> Seq<GrepShortCodeDef> {
    seq![wildcard_def(), spaces_def(), or_def(), quotes_def(), less_than_def(), left_parenthesis_def(), right_parenthesis_def(), field_separator_def(), colon_def()]
}

/// Shortcodes expanded in general search fields, in the order they are applied.
pub fn searchfield() -> (r: Vec<GrepShortCodeDef>)
    ensures
        r@ == searchfield_seq(),
{
    vec![
        wildcard(),
        spaces(),
        or(),
        quotes(),
        less_than(),
        left_parenthesis(),
        right_parenthesis(),
        field_separator(),
        colon(),
    ]
}

/// What `name_searchfield` returns.
pub open spec fn name_searchfield_seq() -> Seq<GrepShortCodeDef> {
    seq![wildcard_def(), or_def(), or_comma_def()]
}

/// Shortcodes expanded in name searches, in the order they are applied.
pub fn name_searchfield() -> (r: Vec<GrepShortCodeDef>)
    ensures
        r@ == name_searchfield_seq(),
{
    vec![wildcard(), or(), or_comma()]
}

} // verus!
