//! A run: the lines of a file, the commands applied to them one after the other (each with
//! the hashtree of the text as it then stands), what `explain` asks to be shown along the
//! way, and what is printed or written at the end.
use vstd::prelude::*;
use std::collections::HashMap;

use crate::base::{lines_view, LineStatus, LineView};
use crate::common::AppConfig;
use crate::formatters::bool_text;
use crate::language_api::Parsed;
use crate::text::decimal_seq;
use crate::utilities::text_lines;
use crate::utilities::vec_lines::{hex_of, joined, sha256_spec, terminated};
use crate::{command_applied_with, command_prompts, Command};

verus! {

/// The lines of a file as read: numbered from 1, all hidden.
pub open spec fn initial_views(contents: Seq<char>) -> Seq<LineView> {
    Seq::new(
        text_lines(contents).len(),
        |i: int| LineView { line_number: (i + 1) as usize, visible: false, line: text_lines(contents)[i], key: Seq::empty(), groupid: 0 },
    )
}

/// The lines of a file's text, numbered from 1, all hidden.
pub fn initial_lines(contents: &str) -> (r: Vec<LineStatus>)
    ensures
        lines_view(r@) == initial_views(contents@),
{
    let texts = crate::utilities::text_lines_of(contents);
    let ghost tv = texts@.map_values(|x: String| x@);
    let mut out: Vec<LineStatus> = Vec::new();
    let mut i: usize = 0;
    while i < texts.len()
        invariant
            i <= texts@.len(),
            tv == texts@.map_values(|x: String| x@),
            tv == text_lines(contents@),
            lines_view(out@) == initial_views(contents@).take(i as int),
        decreases texts.len() - i,
    {
        let mut l = LineStatus::default();
        l.line_number = i + 1;
        l.line = crate::text::owned(texts[i].as_str());
        let ghost before = lines_view(out@);
        out.push(l);
        assert(lines_view(out@) =~= before.push(l@));
        assert(initial_views(contents@).take(i + 1) =~= initial_views(contents@).take(i as int).push(l@));
        i = i + 1;
    }
    assert(initial_views(contents@).take(texts@.len() as int) =~= initial_views(contents@));
    out
}

/// `s` with zeros in front up to `width` characters (`{:0width$}`).
pub open spec fn zero_padded(s: Seq<char>, width: nat) -> Seq<char> {
    if s.len() >= width {
        s
    } else {
        Seq::new((width - s.len()) as nat, |i: int| '0') + s
    }
}

/// How a visible line is printed: with its number in six digits when numbers are shown.
pub open spec fn printed_line(l: LineView, numbers: bool) -> Seq<char> {
    if numbers {
        zero_padded(decimal_seq(l.line_number as nat), 6) + seq![' '] + l.line
    } else {
        l.line
    }
}

/// What is printed of the lines, one entry per printed line: the visible lines in order,
/// with an empty line before one that follows hidden lines when `spacer` is on. `hidden`
/// counts the hidden lines met since the last printed one.
pub open spec fn printed_from(views: Seq<LineView>, hidden: nat, spacer: bool, numbers: bool) -> Seq<Seq<char>>
    decreases views.len(),
{
    if views.len() == 0 {
        Seq::empty()
    } else if views[0].visible {
        let gap: Seq<Seq<char>> = if hidden > 0 && spacer {
            seq![Seq::<char>::empty()]
        } else {
            Seq::empty()
        };
        gap + seq![printed_line(views[0], numbers)] + printed_from(views.drop_first(), 0, spacer, numbers)
    } else {
        printed_from(views.drop_first(), hidden + 1, spacer, numbers)
    }
}

fn zero_padded_number(n: usize) -> (r: String)
    ensures
        r@ == zero_padded(decimal_seq(n as nat), 6),
{
    let digits = crate::text::usize_to_string(n);
    let cs = crate::text::chars_of(digits.as_str());
    if cs.len() >= 6 {
        return digits;
    }
    let mut out: Vec<char> = Vec::new();
    let pad = 6 - cs.len();
    let mut k: usize = 0;
    while k < pad
        invariant
            k <= pad,
            out@ == Seq::new(k as nat, |i: int| '0'),
        decreases pad - k,
    {
        out.push('0');
        assert(out@ =~= Seq::new((k + 1) as nat, |i: int| '0'));
        k = k + 1;
    }
    crate::text::append_chars(&mut out, &cs);
    crate::text::string_from_chars(out.as_slice())
}

/// What is printed of the visible lines (see `printed_from`), one entry per line printed.
pub fn visible_output(lines: &[LineStatus], spacer: bool, show_line_numbers: bool) -> (r: Vec<String>)
    ensures
        r@.map_values(|x: String| x@) == printed_from(lines_view(lines@), 0, spacer, show_line_numbers),
{
    let ghost all = lines_view(lines@);
    let mut out: Vec<String> = Vec::new();
    let mut hidden: usize = 0;
    let mut i: usize = 0;
    assert(all.skip(0) =~= all);
    while i < lines.len()
        invariant
            i <= lines@.len(),
            hidden <= i,
            all == lines_view(lines@),
            out@.map_values(|x: String| x@) + printed_from(all.skip(i as int), hidden as nat, spacer, show_line_numbers)
                == printed_from(all, 0, spacer, show_line_numbers),
        decreases lines.len() - i,
    {
        let l = &lines[i];
        let ghost rest = all.skip(i as int);
        let ghost before = out@.map_values(|x: String| x@);
        assert(rest[0] == l@);
        assert(rest.drop_first() =~= all.skip(i + 1));
        if l.visible {
            if hidden > 0 && spacer {
                out.push(String::new());
            }
            let text = if show_line_numbers {
                let num = zero_padded_number(l.line_number);
                crate::text::concat3(num.as_str(), " ", l.line.as_str())
            } else {
                crate::text::owned(l.line.as_str())
            };
            proof {
                reveal_strlit(" ");
                assert(" "@ =~= seq![' ']);
            }
            out.push(text);
            let ghost gap: Seq<Seq<char>> = if hidden > 0 && spacer {
                seq![Seq::<char>::empty()]
            } else {
                Seq::empty()
            };
            assert(out@.map_values(|x: String| x@) =~= before + gap + seq![printed_line(l@, show_line_numbers)]);
            hidden = 0;
        } else {
            hidden = hidden + 1;
        }
        i = i + 1;
    }
    assert(all.skip(lines@.len() as int) =~= Seq::<LineView>::empty());
    assert(out@.map_values(|x: String| x@) + Seq::<Seq<char>>::empty() =~= out@.map_values(|x: String| x@));
    out
}

/// What is written to an output file: every line (visible or not), each followed by a line
/// feed; nothing for no lines.
pub open spec fn written_text(lines: Seq<LineStatus>) -> Seq<char> {
    if lines.len() == 0 {
        Seq::empty()
    } else {
        crate::utilities::vec_lines::joined(lines) + seq!['\n']
    }
}

/// `written_text`.
pub fn output_contents(lines: &[LineStatus]) -> (r: String)
    ensures
        r@ == written_text(lines@),
{
    if lines.len() == 0 {
        return String::new();
    }
    let text = crate::utilities::vec_lines::vec_lines_to_text(lines);
    proof {
        reveal_strlit("\n");
        assert("\n"@ =~= seq!['\n']);
    }
    crate::text::concat2(text.as_str(), "\n")
}

/// A command that does something to the lines: not `macro`, `explain` or one not
/// understood.
pub open spec fn is_active(c: Command) -> bool {
    !(c is CMacro || c is CExplain || c is CNoop)
}

/// The number of active commands among the first `k`.
pub open spec fn active_count(cs: Seq<Command>, k: int) -> nat
    decreases k,
{
    if k <= 0 || k > cs.len() {
        0
    } else {
        active_count(cs, k - 1) + if is_active(cs[k - 1]) {
            1nat
        } else {
            0nat
        }
    }
}

/// The number of active commands.
pub fn count_active_commands(commands: &[Command]) -> (r: usize)
    ensures
        r == active_count(commands@, commands@.len() as int),
{
    let mut n: usize = 0;
    let mut i: usize = 0;
    while i < commands.len()
        invariant
            i <= commands@.len(),
            n == active_count(commands@, i as int),
            n <= i,
        decreases commands.len() - i,
    {
        let active = match &commands[i] {
            Command::CMacro(_) | Command::CExplain(_) | Command::CNoop(_) => false,
            _ => true,
        };
        if active {
            n = n + 1;
        }
        i = i + 1;
    }
    n
}

/// How the configuration is described by `explain`.
pub open spec fn config_description(c: AppConfig) -> Seq<char> {
    "Global configuration:\n  space between blocks="@ + bool_text(c.spacer) + ", show line numbers="@ + bool_text(
        c.line_number,
    ) + ", grep shortcode substitution:"@ + bool_text(c.grep_shortcodes) + "\n  file="@ + c.file_path@ + "\n"@
}

/// `config_description`.
pub fn describe_config(c: &AppConfig) -> (r: String)
    ensures
        r@ == config_description(*c),
{
    let spacer = crate::formatters::bool_string(c.spacer);
    let numbers = crate::formatters::bool_string(c.line_number);
    let shortcodes = crate::formatters::bool_string(c.grep_shortcodes);
    let a = crate::text::concat3("Global configuration:\n  space between blocks=", spacer.as_str(), ", show line numbers=");
    let b = crate::text::concat3(a.as_str(), numbers.as_str(), ", grep shortcode substitution:");
    let d = crate::text::concat3(b.as_str(), shortcodes.as_str(), "\n  file=");
    crate::text::concat3(d.as_str(), c.file_path.as_str(), "\n")
}


/// What an `explain` shows of the lines: what is printed of them once the commands before
/// it have run.
#[derive(Debug)]
pub struct ExplainStep {
    /// The position of the `explain` among the commands.
    pub after_command: usize,
    /// What is printed of the lines at that point.
    pub visible: Vec<String>,
}

/// The end of a run: the lines, what each `explain` showed, and whether the last command
/// was an `explain` (whose output then stands for the final one).
#[derive(Debug)]
pub struct RunOutcome {
    /// The lines after the last command.
    pub lines: Vec<LineStatus>,
    /// One entry per `explain`, in order.
    pub explains: Vec<ExplainStep>,
    /// The last command was an `explain`.
    pub explained_at_end: bool,
}

/// The two sequences of lines have the same texts, line by line.
pub open spec fn same_texts(a: Seq<LineStatus>, b: Seq<LineStatus>) -> bool {
    &&& a.len() == b.len()
    &&& forall|i: int| 0 <= i < a.len() ==> (#[trigger] a[i]).line@ == b[i].line@
}

/// The digest of the lines that the run compares (`digest_lines`).
pub open spec fn lines_digest(lines: Seq<LineStatus>) -> Seq<char> {
    hex_of(sha256_spec(terminated(lines)))
}

/// The lines `b` stand for the same source as `a`: the same texts, or the same digest.
pub open spec fn same_source(a: Seq<LineStatus>, b: Seq<LineStatus>) -> bool {
    same_texts(a, b) || lines_digest(a) == lines_digest(b)
}

/// `h` is what `parse` gave for the text of the lines (joined with `\n`).
pub open spec fn parsed_from<F: Fn(&str) -> HashMap<usize, Parsed>>(parse: F, lines: Seq<LineStatus>, h: HashMap<usize, Parsed>) -> bool {
    exists|t: &str| t@ == joined(lines) && #[trigger] call_ensures(parse, (t,), h)
}

/// `b` is what `confirm` answered to the question `p`.
pub open spec fn answered<G: Fn(&str) -> bool>(confirm: G, p: Seq<char>, b: bool) -> bool {
    exists|t: &str| t@ == p && #[trigger] call_ensures(confirm, (t,), b)
}

/// `answers` are, in order, what `confirm` answered to each of the questions.
pub open spec fn confirmed<G: Fn(&str) -> bool>(confirm: G, prompts: Seq<Seq<char>>, answers: Seq<bool>) -> bool {
    &&& answers.len() == prompts.len()
    &&& forall|m: int| 0 <= m < answers.len() ==> answered(confirm, prompts[m], #[trigger] answers[m])
}

/// Step `j` of a run: command `j`, given the hashtree `hs[j]` and the answers `ans[j]`,
/// turns `states[j]` into `states[j + 1]`; the answers are what `confirm` said to its
/// questions, in order; and `hs[j]` is what `parse` gave for the text of an earlier state
/// (`k <= j`) that stands for the same source as `states[j]`.
pub open spec fn step_ran<F: Fn(&str) -> HashMap<usize, Parsed>, G: Fn(&str) -> bool>(
    cs: Seq<Command>,
    states: Seq<Seq<LineStatus>>,
    hs: Seq<HashMap<usize, Parsed>>,
    ans: Seq<Seq<bool>>,
    parse: F,
    confirm: G,
    j: int,
) -> bool {
    &&& command_applied_with(cs[j], states[j], hs[j]@, ans[j], states[j + 1])
    &&& confirmed(confirm, command_prompts(cs[j], states[j]), ans[j])
    &&& exists|k: int| 0 <= k <= j && same_source(states[k], states[j]) && #[trigger] parsed_from(parse, states[k], hs[j])
}

/// `states` are the lines before each command and after the last, `hs` the hashtree each
/// command got and `ans` the answers each command got; every step ran (`step_ran`).
pub open spec fn ran<F: Fn(&str) -> HashMap<usize, Parsed>, G: Fn(&str) -> bool>(
    cs: Seq<Command>,
    states: Seq<Seq<LineStatus>>,
    hs: Seq<HashMap<usize, Parsed>>,
    ans: Seq<Seq<bool>>,
    parse: F,
    confirm: G,
) -> bool {
    &&& states.len() == cs.len() + 1
    &&& hs.len() == cs.len()
    &&& ans.len() == cs.len()
    &&& forall|j: int| 0 <= j < cs.len() ==> #[trigger] step_ran(cs, states, hs, ans, parse, confirm, j)
}

proof fn lemma_same_texts_same_text(a: Seq<LineStatus>, b: Seq<LineStatus>)
    requires
        same_texts(a, b),
    ensures
        joined(a) == joined(b),
        terminated(a) == terminated(b),
    decreases a.len(),
{
    if a.len() > 0 {
        assert(same_texts(a.drop_last(), b.drop_last())) by {
            assert forall|i: int| 0 <= i < a.drop_last().len() implies (#[trigger] a.drop_last()[i]).line@ == b.drop_last()[i].line@ by {
                assert(a.drop_last()[i] == a[i]);
                assert(b.drop_last()[i] == b[i]);
            }
        }
        lemma_same_texts_same_text(a.drop_last(), b.drop_last());
        assert(a.last().line@ == b.last().line@);
    }
}

proof fn lemma_same_source_step(c: Seq<LineStatus>, a: Seq<LineStatus>, b: Seq<LineStatus>)
    requires
        same_source(c, a),
        same_texts(a, b),
    ensures
        same_source(c, b),
{
    lemma_same_texts_same_text(a, b);
    if same_texts(c, a) {
        assert forall|i: int| 0 <= i < c.len() implies (#[trigger] c[i]).line@ == b[i].line@ by {
            assert(c[i].line@ == a[i].line@);
        }
    }
}

proof fn lemma_same_source_refl(a: Seq<LineStatus>)
    ensures
        same_source(a, a),
{
}

/// The `explain` steps are those of the `explain` commands among the first `k`, in order,
/// each with what is printed of the lines after it.
pub open spec fn explains_ok(cs: Seq<Command>, states: Seq<Seq<LineStatus>>, steps: Seq<ExplainStep>, k: int, spacer: bool, numbers: bool) -> bool {
    &&& steps.len() == explain_count(cs, k)
    &&& forall|j: int|
        0 <= j < steps.len() ==> {
            let a = (#[trigger] steps[j]).after_command as int;
            &&& 0 <= a < k
            &&& cs[a] is CExplain
            &&& steps[j].visible@.map_values(|x: String| x@) == printed_from(lines_view(states[a + 1]), 0, spacer, numbers)
        }
}

/// The number of `explain` commands among the first `k`.
pub open spec fn explain_count(cs: Seq<Command>, k: int) -> nat
    decreases k,
{
    if k <= 0 || k > cs.len() {
        0
    } else {
        explain_count(cs, k - 1) + if cs[k - 1] is CExplain {
            1nat
        } else {
            0nat
        }
    }
}

fn same_digest(a: &Option<String>, b: &Option<String>) -> (r: bool)
    ensures
        r == (crate::text::opt_view(*a) == crate::text::opt_view(*b)),
{
    match (a, b) {
        (Some(x), Some(y)) => crate::text::str_eq(x.as_str(), y.as_str()),
        (None, None) => true,
        _ => false,
    }
}

/// Runs the commands on the lines, in order. Each command gets the hashtree that `parse`
/// gives for the text of the lines; the hashtree is parsed again only after a command that
/// can change the text did change it (the digest of the lines tells). A command that asks
/// for confirmation puts each of its questions, in order, to `confirm`. What each
/// `explain` shows is kept.
pub fn run_commands<F: Fn(&str) -> HashMap<usize, Parsed>, G: Fn(&str) -> bool>(commands: &Vec<Command>, lines: Vec<LineStatus>, spacer: bool, show_line_numbers: bool, parse: &F, confirm: &G) -> (r: RunOutcome)
    requires
        forall|t: &str| parse.requires((t,)),
        forall|t: &str| confirm.requires((t,)),
    ensures
        exists|states: Seq<Seq<LineStatus>>, hs: Seq<HashMap<usize, Parsed>>, ans: Seq<Seq<bool>>|
            #[trigger] ran(commands@, states, hs, ans, *parse, *confirm) && states[0] == lines@ && states.last()
                == r.lines@ && explains_ok(commands@, states, r.explains@, commands@.len() as int, spacer, show_line_numbers),
        r.explained_at_end == (commands@.len() > 0 && commands@.last() is CExplain),
{
    let mut lines = lines;
    let ghost start = lines@;
    let ghost mut states: Seq<Seq<LineStatus>> = seq![lines@];
    let ghost mut hs: Seq<HashMap<usize, Parsed>> = Seq::empty();
    let ghost mut ans: Seq<Seq<bool>> = Seq::empty();
    let ghost mut cache_k: int = 0;
    let mut cache: Option<HashMap<usize, Parsed>> = None;
    let mut cache_digest: Option<String> = None;
    let mut previous_mutated = true;
    let mut explains: Vec<ExplainStep> = Vec::new();
    let mut explained_at_end = false;
    let mut i: usize = 0;
    while i < commands.len()
        invariant
            i <= commands@.len(),
            forall|t: &str| parse.requires((t,)),
            forall|t: &str| confirm.requires((t,)),
            states.len() == i + 1,
            hs.len() == i,
            ans.len() == i,
            states[0] == start,
            states[i as int] == lines@,
            forall|j: int| 0 <= j < i ==> #[trigger] step_ran(commands@, states, hs, ans, *parse, *confirm, j),
            explains_ok(commands@, states, explains@, i as int, spacer, show_line_numbers),
            explained_at_end == (i > 0 && commands@[i - 1] is CExplain),
            cache is None ==> i == 0,
            match cache {
                Some(h) => {
                    &&& 0 <= cache_k <= i
                    &&& parsed_from(*parse, states[cache_k], h)
                    &&& crate::text::opt_view(cache_digest) == Some(lines_digest(states[cache_k]))
                    &&& !previous_mutated ==> same_source(states[cache_k], lines@)
                },
                None => true,
            },
        decreases commands.len() - i,
    {
        let current_digest = if cache.is_none() || previous_mutated {
            Some(crate::utilities::vec_lines::digest_lines(lines.as_slice()))
        } else {
            None
        };
        let recompute = match &cache {
            None => true,
            Some(_) => previous_mutated && !same_digest(&cache_digest, &current_digest),
        };
        if recompute {
            let content = crate::utilities::vec_lines::vec_lines_to_text(lines.as_slice());
            let h = parse(content.as_str());
            proof {
                assert(parsed_from(*parse, lines@, h));
                cache_k = i as int;
            }
            cache = Some(h);
            cache_digest = match current_digest {
                Some(d) => Some(d),
                None => Some(crate::utilities::vec_lines::digest_lines(lines.as_slice())),
            };
        }
        let hashtree: HashMap<usize, Parsed> = match cache {
            Some(h) => h,
            None => {
                proof {
                    assert(false);
                }
                HashMap::new()
            },
        };
        proof {
            lemma_same_source_refl(lines@);
            assert(same_source(states[cache_k], lines@));
            assert(parsed_from(*parse, states[cache_k], hashtree));
        }
        let command = &commands[i];
        let ghost before = lines@;
        let prompts = command.confirmation_prompts(&lines);
        let mut answers: Vec<bool> = Vec::new();
        let mut k: usize = 0;
        while k < prompts.len()
            invariant
                k <= prompts@.len(),
                answers@.len() == k,
                prompts@.map_values(|s: String| s@) == command_prompts(commands@[i as int], before),
                forall|m: int| 0 <= m < k ==> answered(*confirm, command_prompts(commands@[i as int], before)[m], #[trigger] answers@[m]),
                forall|t: &str| confirm.requires((t,)),
            decreases prompts.len() - k,
        {
            let q = prompts[k].as_str();
            let yes = confirm(q);
            proof {
                assert(q@ == command_prompts(commands@[i as int], before)[k as int]);
                assert(answered(*confirm, command_prompts(commands@[i as int], before)[k as int], yes));
            }
            answers.push(yes);
            k = k + 1;
        }
        proof {
            assert(prompts@.map_values(|s: String| s@).len() == prompts@.len());
        }
        let next = command.apply_with_answers(lines, &hashtree, answers.as_slice());
        let mutated = command.mutates_line_text();
        proof {
            if !mutated {
                crate::laws::law_non_mutating_commands_keep_texts(commands@[i as int], before, hashtree@, next@);
                assert(same_texts(before, next@));
                lemma_same_source_step(states[cache_k], before, next@);
            }
        }
        lines = next;
        cache = Some(hashtree);
        let ghost old_states = states;
        let ghost old_hs = hs;
        let ghost old_ans = ans;
        proof {
            states = states.push(lines@);
            hs = hs.push(hashtree);
            ans = ans.push(answers@);
            assert(step_ran(commands@, states, hs, ans, *parse, *confirm, i as int)) by {
                assert(states[i as int] == before);
                assert(states[i + 1] == lines@);
                assert(hs[i as int] == hashtree);
                assert(ans[i as int] == answers@);
                assert(states[cache_k] == old_states[cache_k]);
                assert(confirmed(*confirm, command_prompts(commands@[i as int], before), answers@));
            }
            assert forall|j: int| 0 <= j < i + 1 implies #[trigger] step_ran(commands@, states, hs, ans, *parse, *confirm, j) by {
                if j < i {
                    assert(step_ran(commands@, old_states, old_hs, old_ans, *parse, *confirm, j));
                    assert(states[j] == old_states[j] && states[j + 1] == old_states[j + 1]);
                    assert(hs[j] == old_hs[j] && ans[j] == old_ans[j]);
                    let kk = choose|kk: int| 0 <= kk <= j && same_source(old_states[kk], old_states[j]) && #[trigger] parsed_from(*parse, old_states[kk], old_hs[j]);
                    assert(states[kk] == old_states[kk]);
                }
            }
            assert(states[cache_k] == old_states[cache_k]);
        }
        let ghost old_explains = explains@;
        let is_explain = match command {
            Command::CExplain(_) => true,
            _ => false,
        };
        if is_explain {
            let visible = visible_output(lines.as_slice(), spacer, show_line_numbers);
            explains.push(ExplainStep { after_command: i, visible });
        }
        proof {
            assert forall|j: int| 0 <= j < explains@.len() implies {
                let a = (#[trigger] explains@[j]).after_command as int;
                &&& 0 <= a < i + 1
                &&& commands@[a] is CExplain
                &&& explains@[j].visible@.map_values(|x: String| x@) == printed_from(lines_view(states[a + 1]), 0, spacer, show_line_numbers)
            } by {
                if j < old_explains.len() {
                    assert(explains@[j] == old_explains[j]);
                    let a = old_explains[j].after_command as int;
                    assert(states[a + 1] == old_states[a + 1]);
                }
            }
        }
        explained_at_end = is_explain;
        previous_mutated = mutated;
        i = i + 1;
    }
    let r = RunOutcome { lines, explains, explained_at_end };
    assert(ran(commands@, states, hs, ans, *parse, *confirm));
    r
}

} // verus!
