//! Shared types and helpers: the application state, command qualifiers, line
//! conditions, and the operations that set visibility and keys on lines.
use vstd::prelude::*;
use std::collections::HashSet;

use crate::base::{lines_view, CheckCondition, LineStatus, LineView};
pub use crate::base::{
    CheckConditions, Condition, DeclarationsCommandQualifier, GrepCommandQualifier, MetaInfo,
};
use crate::text::{utf8_len, ws_prefix_len};

verus! {

broadcast use vstd::std_specs::hash::group_hash_axioms;

/// Global runtime configuration shared by commands.
#[derive(Debug, Clone)]
pub struct AppConfig {
    /// Active source file path.
    pub file_path: String,
    /// Whether to print spacing between blocks.
    pub spacer: bool,
    /// Whether to show line numbers.
    pub line_number: bool,
    /// Whether grep shortcodes are enabled.
    pub grep_shortcodes: bool,
    /// Whether verbose output is enabled.
    pub verbose: bool,
    /// Whether debug mode is enabled.
    pub debug: bool,
}

/// The value of an `AppConfig`.
pub struct AppConfigView {
    pub file_path: Seq<char>,
    pub spacer: bool,
    pub line_number: bool,
    pub grep_shortcodes: bool,
    pub verbose: bool,
    pub debug: bool,
}

impl View for AppConfig {
    type V = AppConfigView;

    open spec fn view(&self) -> AppConfigView {
        AppConfigView {
            file_path: self.file_path@,
            spacer: self.spacer,
            line_number: self.line_number,
            grep_shortcodes: self.grep_shortcodes,
            verbose: self.verbose,
            debug: self.debug,
        }
    }
}

/// The configuration everything starts from: every switch off, no file.
pub open spec fn default_config_view() -> AppConfigView {
    AppConfigView {
        file_path: Seq::empty(),
        spacer: false,
        line_number: false,
        grep_shortcodes: false,
        verbose: false,
        debug: false,
    }
}

impl Default for AppConfig {
    fn default() -> (r: Self)
        ensures
            r@ == default_config_view(),
    {
        AppConfig {
            file_path: String::new(),
            spacer: false,
            line_number: false,
            grep_shortcodes: false,
            verbose: false,
            debug: false,
        }
    }
}

impl AppConfig {
    /// A copy of this configuration.
    pub fn duplicate(&self) -> (r: AppConfig)
        ensures
            r@ == self@,
    {
        AppConfig {
            file_path: self.file_path.clone(),
            spacer: self.spacer,
            line_number: self.line_number,
            grep_shortcodes: self.grep_shortcodes,
            verbose: self.verbose,
            debug: self.debug,
        }
    }
}

/// The state of a run: its configuration, the telemetry gathered so far, and the file
/// extensions that a language plugin can parse.
#[derive(Debug)]
pub struct AppState {
    /// Current configuration.
    pub config: AppConfig,
    /// Telemetry gathered while building and running commands.
    pub telemetry: crate::telemetry::AppTelemetryState,
    /// Extensions (lower case) that a language plugin found at start-up can parse.
    pub plugin_extensions: Vec<String>,
}

impl Default for AppState {
    fn default() -> (r: Self)
        ensures
            r.config@ == default_config_view(),
            r.telemetry.events@.len() == 0,
            r.telemetry.explain_requests == 0,
            r.plugin_extensions@.len() == 0,
    {
        AppState {
            config: AppConfig::default(),
            telemetry: crate::telemetry::AppTelemetryState::default(),
            plugin_extensions: Vec::new(),
        }
    }
}

/// Returns a copy of the current configuration.
pub fn get_global_config(state: &AppState) -> (r: AppConfig)
    ensures
        r@ == state.config@,
{
    state.config.duplicate()
}

/// Replaces the current configuration.
pub fn set_global_config(state: &mut AppState, config: AppConfig)
    ensures
        final(state).config@ == config@,
        final(state).telemetry == old(state).telemetry,
        final(state).plugin_extensions == old(state).plugin_extensions,
{
    state.config = config;
}

/// Replaces the configuration by what `f` makes of it.
pub fn with_global_config<F: FnOnce(AppConfig) -> AppConfig>(state: &mut AppState, f: F)
    requires
        forall|c: AppConfig| f.requires((c,)),
    ensures
        exists|before: AppConfig| before@ == old(state).config@ && f.ensures((before,), final(state).config),
        final(state).telemetry == old(state).telemetry,
        final(state).plugin_extensions == old(state).plugin_extensions,
{
    let before = state.config.duplicate();
    let ghost b = before;
    state.config = f(before);
    assert(b@ == old(state).config@ && f.ensures((b,), state.config));
}

/// Resets the configuration and the telemetry to their initial values.
pub fn reset_global_state_for_tests(state: &mut AppState)
    ensures
        final(state).config@ == default_config_view(),
        final(state).telemetry.events@.len() == 0,
        final(state).telemetry.explain_requests == 0,
        final(state).plugin_extensions == old(state).plugin_extensions,
{
    state.config = AppConfig::default();
    crate::telemetry::clear_telemetry(&mut state.telemetry);
}

/// A searcher built from a command's pattern, with the qualifier read from its flags.
#[derive(Debug)]
pub struct SearchSeed {
    /// The searcher.
    pub searcher: crate::commands::search::Searcher,
    /// The qualifier read from the flags.
    pub qualifier: Option<GrepCommandQualifier>,
    /// What of the flags was not understood.
    pub unused: String,
}

/// Union of command qualifier kinds.
#[derive(Debug)]
pub enum CommandQualifier {
    /// Qualifier for grep-like commands.
    GrepQualifier(GrepCommandQualifier),
    /// Qualifier for declarations commands.
    DeclareQualifier(DeclarationsCommandQualifier),
}

/// Result of a stop-or-add line evaluation.
pub enum ConditionResult {
    /// Stop scanning without adding the line.
    Stop,
    /// Add the line and continue scanning.
    True,
    /// Skip the line and continue scanning.
    False,
    /// Add the line and then stop scanning.
    StopAndTrue,
}

/// Line evaluators that can stop a traversal.
pub trait StopOrAddChecker {
    /// Evaluates one line and returns the traversal action.
    fn is_match(&mut self, pos: i32, line: &LineStatus) -> ConditionResult;
}

/// Observers of a line traversal.
pub trait StateWatcher {
    /// Consumes one line event.
    fn feed(&mut self, pos: i32, line: &LineStatus);
}

/// Types that expose line text.
pub trait GetLine {
    /// The underlying line text.
    fn line(&self) -> &str;
}

impl GetLine for LineStatus {
    fn line(&self) -> (r: &str)
        ensures
            r@ == self.line@,
    {
        self.line.as_str()
    }
}

/// `l` with its key replaced by `key`.
pub open spec fn with_key(l: LineView, key: Seq<char>) -> LineView {
    LineView { key: key, ..l }
}

/// `l`, made visible.
pub open spec fn made_visible(l: LineView) -> LineView {
    LineView { visible: true, ..l }
}

/// Sets `meta.key` to `key` on the lines at the positions in `context_indices`.
pub fn update_meta_key(lines: Vec<LineStatus>, context_indices: &HashSet<usize>, key: &str) -> (r: Vec<
    LineStatus,
>)
    ensures
        lines_view(r@) == key_views(lines_view(lines@), context_indices@, key@),
        r@.len() == lines@.len(),
        forall|i: int|
            0 <= i < lines@.len() ==> #[trigger] r@[i]@ == if context_indices@.contains(i as usize) {
                with_key(lines@[i]@, key@)
            } else {
                lines@[i]@
            },
{
    let mut out: Vec<LineStatus> = Vec::new();
    let mut i: usize = 0;
    while i < lines.len()
        invariant
            i <= lines@.len(),
            out@.len() == i,
            forall|j: int|
                0 <= j < i ==> #[trigger] out@[j]@ == if context_indices@.contains(j as usize) {
                    with_key(lines@[j]@, key@)
                } else {
                    lines@[j]@
                },
        decreases lines.len() - i,
    {
        let mut l = lines[i].duplicate();
        if context_indices.contains(&i) {
            l.meta.key = key.to_owned();
        }
        out.push(l);
        i = i + 1;
    }
    assert(lines_view(out@) =~= key_views(lines_view(lines@), context_indices@, key@));
    out
}

/// `views` with the lines at the indices in `idx` made visible.
pub open spec fn show_views(views: Seq<LineView>, idx: Set<usize>) -> Seq<LineView> {
    Seq::new(views.len(), |i: int| if idx.contains(i as usize) { made_visible(views[i]) } else { views[i] })
}

/// `views` with the key of the lines at the indices in `idx` set to `key`.
pub open spec fn key_views(views: Seq<LineView>, idx: Set<usize>, key: Seq<char>) -> Seq<LineView> {
    Seq::new(views.len(), |i: int| if idx.contains(i as usize) { with_key(views[i], key) } else { views[i] })
}

/// Makes visible the lines at the positions in `context_indices`.
pub fn set_visibles(lines: Vec<LineStatus>, context_indices: &HashSet<usize>) -> (r: Vec<LineStatus>)
    ensures
        lines_view(r@) == show_views(lines_view(lines@), context_indices@),
        r@.len() == lines@.len(),
        forall|i: int|
            0 <= i < lines@.len() ==> #[trigger] r@[i]@ == if context_indices@.contains(i as usize) {
                made_visible(lines@[i]@)
            } else {
                lines@[i]@
            },
{
    let mut out: Vec<LineStatus> = Vec::new();
    let mut i: usize = 0;
    while i < lines.len()
        invariant
            i <= lines@.len(),
            out@.len() == i,
            forall|j: int|
                0 <= j < i ==> #[trigger] out@[j]@ == if context_indices@.contains(j as usize) {
                    made_visible(lines@[j]@)
                } else {
                    lines@[j]@
                },
        decreases lines.len() - i,
    {
        let mut l = lines[i].duplicate();
        if context_indices.contains(&i) {
            l.visible = true;
        }
        out.push(l);
        i = i + 1;
    }
    assert(lines_view(out@) =~= show_views(lines_view(lines@), context_indices@));
    out
}

/// What `calc_indent` gives: the number of bytes of leading whitespace, or -1 when the
/// line holds nothing but whitespace.
pub open spec fn indent_of(line: Seq<char>) -> i32 {
    if ws_prefix_len(line) < line.len() {
        utf8_len(line.take(ws_prefix_len(line) as int)) as i32
    } else {
        -1i32
    }
}

/// The number of bytes of leading whitespace of `line`, or -1 when the line is all
/// whitespace (or empty).
pub fn calc_indent(line: &str) -> (r: i32)
    ensures
        r == indent_of(line@),
{
    let cs = crate::text::chars_of(line);
    let n = crate::text::leading_ws(&cs);
    if n < cs.len() {
        let mut bytes: u128 = 0;
        let mut i: usize = 0;
        while i < n
            invariant
                i <= n <= cs.len(),
                bytes == utf8_len(cs@.take(i as int)),
                bytes <= 4 * i,
            decreases n - i,
        {
            let w = crate::text::char_utf8_width(cs[i]);
            assert(cs@.take(i + 1).drop_last() =~= cs@.take(i as int));
            bytes = bytes + w as u128;
            i = i + 1;
        }
        #[verifier::truncate]
        (bytes as i32)
    } else {
        -1i32
    }
}

/// A condition on line numbers: up to `until_`, exactly those in `wanted`, or from
/// `from_` on.
#[derive(Debug)]
pub struct CheckLineRange {
    /// Inclusive upper bound for accepted line numbers.
    pub until_: usize,
    /// Explicit line numbers that are accepted.
    pub wanted: HashSet<usize>,
    /// Inclusive lower bound for accepted line numbers.
    pub from_: usize,
}

impl CheckLineRange {
    /// Whether the line's number is accepted.
    pub open spec fn holds(self, l: LineView) -> bool {
        l.line_number <= self.until_ || self.wanted@.contains(l.line_number) || l.line_number
            >= self.from_
    }

    /// Builds a line-range condition from payload text such as `1,3,10-12,20-`.
    pub fn new(where_linenum: String) -> (r: Self)
        ensures
            (r.until_, r.wanted@, r.from_) == crate::utilities::lines_payload_spec(where_linenum@),
    {
        let (until_, wanted, from_) = crate::utilities::parse_lines_payload(where_linenum.as_str());
        CheckLineRange { until_, wanted, from_ }
    }
}

impl Default for CheckLineRange {
    fn default() -> (r: Self)
        ensures
            r.until_ == 0,
            r.from_ == 9_999_999,
            r.wanted@ == Set::<usize>::empty(),
    {
        CheckLineRange { until_: 0, from_: 9_999_999, wanted: HashSet::new() }
    }
}

impl CheckCondition for CheckLineRange {
    fn check(&self, line: &LineStatus) -> (b: bool)
        ensures
            b == self.holds(line@),
    {
        line.line_number <= self.until_ || self.wanted.contains(&line.line_number)
            || line.line_number >= self.from_
    }
}

/// A condition on the line's key.
#[derive(Debug, Clone)]
pub struct CheckKey {
    /// Required metadata key value.
    pub required_key: String,
}

impl CheckKey {
    /// Creates a key-matching condition.
    pub fn new(key: String) -> (r: Self)
        ensures
            r.required_key@ == key@,
    {
        CheckKey { required_key: key }
    }
}

impl CheckCondition for CheckKey {
    fn check(&self, line: &LineStatus) -> (b: bool)
        ensures
            b == (line@.key == self.required_key@),
    {
        crate::text::str_eq(line.meta.key.as_str(), self.required_key.as_str())
    }
}

} // verus!
