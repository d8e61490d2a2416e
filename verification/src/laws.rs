//! What holds of the commands and the hashtree whatever the input: the properties that
//! span several functions or every state, each proved.
use vstd::prelude::*;

use crate::base::{lines_view, GrepCommandQualifier, LineStatus, LineView};
use crate::commands::appendprepend::{inserted, AppendPrepend};
use crate::commands::change::{changed, changes, confirms, ChangeReplacer};
use crate::commands::delete::kept;
use crate::commands::helpers::{search_views, Visibility};
use crate::commands::search::Searcher;
use crate::common::{key_views, show_views, CommandQualifier};
use crate::language_api::{Parsed, ParsedView};
use crate::syntax::NodeView;
use crate::treesitterparser::{hashtree_of, Helper};
use crate::{command_applied, Command};
use crate::text::{parse_usize_spec, split_seq};

verus! {

/// The two sequences of lines have the same length, and line by line the same text and
/// number.
pub open spec fn same_texts(a: Seq<LineView>, b: Seq<LineView>) -> bool {
    &&& a.len() == b.len()
    &&& forall|i: int| 0 <= i < a.len() ==> (#[trigger] a[i]).line == b[i].line && a[i].line_number == b[i].line_number
}

proof fn lemma_show_views_same_texts(v: Seq<LineView>, idx: Set<usize>)
    ensures
        same_texts(show_views(v, idx), v),
{
}

proof fn lemma_key_views_same_texts(v: Seq<LineView>, idx: Set<usize>, key: Seq<char>)
    ensures
        same_texts(key_views(v, idx, key), v),
{
}

proof fn lemma_search_views_same_texts(rule: Visibility, s: Searcher, q: GrepCommandQualifier, v: Seq<LineView>)
    ensures
        same_texts(search_views(rule, s, q, v), v),
{
}

proof fn lemma_same_texts_trans(a: Seq<LineView>, b: Seq<LineView>, c: Seq<LineView>)
    requires
        same_texts(a, b),
        same_texts(b, c),
    ensures
        same_texts(a, c),
{
    assert forall|i: int| 0 <= i < a.len() implies (#[trigger] a[i]).line == c[i].line && a[i].line_number == c[i].line_number by {
        assert(b[i].line == c[i].line);
    }
}

/// A command that does not change line text (all but `change`, `delete` and the
/// inserters) gives back as many lines as it got, each with the same text and number;
/// only visibility and keys change.
pub proof fn law_non_mutating_commands_keep_texts(c: Command, lines: Seq<LineStatus>, h: Map<usize, Parsed>, out: Seq<LineStatus>)
    requires
        command_applied(c, lines, h, out),
        !(c is CChange || c is CDelete || c is CInserter),
    ensures
        out.len() == lines.len(),
        forall|i: int|
            0 <= i < lines.len() ==> (#[trigger] out[i]).line@ == lines[i].line@ && out[i].line_number
                == lines[i].line_number,
{
    let v0 = lines_view(lines);
    let vo = lines_view(out);
    match c {
        Command::CLines(x) => {
            assert(same_texts(vo, v0));
        },
        Command::CAnd(x) => {
            match x.qualifier {
                CommandQualifier::GrepQualifier(q) => {
                    let v1 = search_views(Visibility::VisibleAndHit, x.searcher, q, v0);
                    lemma_search_views_same_texts(Visibility::VisibleAndHit, x.searcher, q, v0);
                    assert(same_texts(vo, v1));
                    lemma_same_texts_trans(vo, v1, v0);
                },
                CommandQualifier::DeclareQualifier(_) => {},
            }
        },
        Command::CMore(x) => {
            match x.qualifier {
                CommandQualifier::GrepQualifier(q) => {
                    let v1 = search_views(Visibility::VisibleOrHit, x.searcher, q, v0);
                    lemma_search_views_same_texts(Visibility::VisibleOrHit, x.searcher, q, v0);
                    assert(same_texts(vo, v1)) by {
                        assert forall|i: int| 0 <= i < vo.len() implies (#[trigger] vo[i]).line == v1[i].line && vo[i].line_number == v1[i].line_number by {}
                    }
                    lemma_same_texts_trans(vo, v1, v0);
                },
                CommandQualifier::DeclareQualifier(_) => {},
            }
        },
        Command::CAll(x) => {
            match x.qualifier {
                CommandQualifier::GrepQualifier(q) => {
                    let v1 = search_views(Visibility::Hit, x.searcher, q, v0);
                    lemma_search_views_same_texts(Visibility::Hit, x.searcher, q, v0);
                    assert(same_texts(vo, v1)) by {
                        assert forall|i: int| 0 <= i < vo.len() implies (#[trigger] vo[i]).line == v1[i].line && vo[i].line_number == v1[i].line_number by {}
                    }
                    lemma_same_texts_trans(vo, v1, v0);
                },
                CommandQualifier::DeclareQualifier(_) => {},
            }
        },
        Command::CLess(x) => {
            match x.qualifier {
                CommandQualifier::GrepQualifier(q) => {
                    lemma_search_views_same_texts(Visibility::VisibleAndNotHit, x.searcher, q, v0);
                },
                CommandQualifier::DeclareQualifier(_) => {},
            }
        },
        Command::CImports(x) => {
            match x.qualifier {
                CommandQualifier::GrepQualifier(q) => {
                    assert(same_texts(vo, v0)) by {
                        assert forall|i: int| 0 <= i < vo.len() implies (#[trigger] vo[i]).line == v0[i].line && vo[i].line_number == v0[i].line_number by {}
                    }
                },
                CommandQualifier::DeclareQualifier(_) => {},
            }
        },
        Command::CDeclarations(x) => {
            assert(same_texts(vo, v0)) by {
                assert forall|i: int| 0 <= i < vo.len() implies (#[trigger] vo[i]).line == v0[i].line && vo[i].line_number == v0[i].line_number by {}
            }
        },
        Command::CInvert(_) => {},
        _ => {},
    }
    assert(vo.len() == out.len() && v0.len() == lines.len());
    assert forall|i: int| 0 <= i < lines.len() implies (#[trigger] out[i]).line@ == lines[i].line@ && out[i].line_number
        == lines[i].line_number by {
        assert(vo[i] == out[i]@);
        assert(v0[i] == lines[i]@);
    }
}


/// `invert` run twice gives back the lines it started from.
pub proof fn law_invert_twice_restores(lines: Seq<LineStatus>, h: Map<usize, Parsed>, mid: Seq<LineStatus>, out: Seq<LineStatus>)
    requires
        command_applied(Command::CInvert(crate::CInvert), lines, h, mid),
        command_applied(Command::CInvert(crate::CInvert), mid, h, out),
    ensures
        lines_view(out) == lines_view(lines),
{
    assert(lines_view(out) =~= lines_view(lines));
}

/// `more` never hides a line: a line visible before is visible after.
pub proof fn law_more_never_hides(c: crate::CMore, lines: Seq<LineStatus>, h: Map<usize, Parsed>, out: Seq<LineStatus>)
    requires
        command_applied(Command::CMore(c), lines, h, out),
    ensures
        out.len() == lines.len(),
        forall|i: int| 0 <= i < lines.len() && (#[trigger] lines[i]).visible ==> out[i].visible,
{
    let v0 = lines_view(lines);
    let vo = lines_view(out);
    assert(vo.len() == v0.len());
    assert forall|i: int| 0 <= i < lines.len() && (#[trigger] lines[i]).visible implies out[i].visible by {
        assert(v0[i] == lines[i]@);
        assert(vo[i] == out[i]@);
    }
}

/// `less` never shows a line: a line visible after was visible before.
pub proof fn law_less_never_shows(c: crate::CLess, lines: Seq<LineStatus>, h: Map<usize, Parsed>, out: Seq<LineStatus>)
    requires
        command_applied(Command::CLess(c), lines, h, out),
    ensures
        out.len() == lines.len(),
        forall|i: int| 0 <= i < lines.len() && (#[trigger] out[i]).visible ==> lines[i].visible,
{
    let v0 = lines_view(lines);
    let vo = lines_view(out);
    assert(vo.len() == v0.len());
    assert forall|i: int| 0 <= i < lines.len() && (#[trigger] out[i]).visible implies lines[i].visible by {
        assert(v0[i] == lines[i]@);
        assert(vo[i] == out[i]@);
    }
}

/// The line an entry of the hashtree starts on.
pub open spec fn entry_start(p: ParsedView) -> usize {
    match p {
        ParsedView::Declarations(d) => d.start_line,
        ParsedView::Imports(i) => i.start_line,
    }
}

/// Every entry of a hashtree is keyed by the line it starts on.
pub proof fn law_hashtree_keyed_by_start_line(h: Helper, src: Seq<u8>, ts: Seq<NodeView>, k: int)
    ensures
        forall|key: usize| #[trigger] hashtree_of(h, src, ts, k).contains_key(key) ==> entry_start(hashtree_of(h, src, ts, k)[key]) == key,
    decreases k,
{
    if k <= 0 || k > ts.len() {
    } else {
        law_hashtree_keyed_by_start_line(h, src, ts, k - 1);
        let m = hashtree_of(h, src, ts, k - 1);
        let m2 = hashtree_of(h, src, ts, k);
        let n = k - 1;
        let imp = if crate::treesitterparser::imports_of(h).contains(ts[n].kind) {
            crate::treesitterparser::helper_import(h, src, ts, n)
        } else {
            None
        };
        match imp {
            Some(iv) => {
                assert(m2 == m.insert(iv.start_line, ParsedView::Imports(iv)));
            },
            None => {
                if crate::treesitterparser::declares_of(h).contains(ts[n].kind) {
                    match crate::treesitterparser::helper_declaration(h, src, ts, n, crate::treesitterparser::declares_of(h)) {
                        Some(d) => {
                            assert(m2 == m.insert(d.start_line, ParsedView::Declarations(d)));
                        },
                        None => {
                            assert(m2 == m);
                        },
                    }
                } else {
                    assert(m2 == m);
                }
            },
        }
        assert forall|key: usize| #[trigger] m2.contains_key(key) implies entry_start(m2[key]) == key by {
            if m.contains_key(key) {
                assert(entry_start(m[key]) == key);
            }
        }
    }
}

/// Every answer is "no".
pub open spec fn all_declined(answers: Seq<bool>) -> bool {
    forall|i: int| 0 <= i < answers.len() ==> !(#[trigger] answers[i])
}

proof fn lemma_declined_rest(answers: Seq<bool>)
    requires
        all_declined(answers),
    ensures
        all_declined(crate::commands::delete::rest_answers(answers)),
        !crate::commands::delete::next_answer(answers),
{
    if answers.len() > 0 {
        assert forall|i: int| 0 <= i < answers.drop_first().len() implies !(#[trigger] answers.drop_first()[i]) by {
            assert(answers.drop_first()[i] == answers[i + 1]);
        }
    }
}

/// When confirmation is asked for and every answer is "no", `delete` keeps every line.
pub proof fn law_declined_delete_keeps_lines(searcher: Searcher, q: GrepCommandQualifier, views: Seq<LineView>, answers: Seq<bool>)
    requires
        q.user_confirmation,
        all_declined(answers),
    ensures
        kept(searcher, q, views, answers) == views,
    decreases views.len(),
{
    if views.len() > 0 {
        lemma_declined_rest(answers);
        law_declined_delete_keeps_lines(searcher, q, views.drop_first(), answers);
        law_declined_delete_keeps_lines(searcher, q, views.drop_first(), crate::commands::delete::rest_answers(answers));
        assert(seq![views[0]] + views.drop_first() =~= views);
    }
}

/// Without confirmation, running `delete` a second time removes nothing more: what it
/// keeps holds no visible line that it would remove.
pub proof fn law_delete_twice_same_as_once(searcher: Searcher, q: GrepCommandQualifier, views: Seq<LineView>, answers: Seq<bool>)
    requires
        !q.user_confirmation,
    ensures
        kept(searcher, q, kept(searcher, q, views, answers), answers) == kept(searcher, q, views, answers),
    decreases views.len(),
{
    if views.len() > 0 {
        let l = views[0];
        let rest = kept(searcher, q, views.drop_first(), answers);
        law_delete_twice_same_as_once(searcher, q, views.drop_first(), answers);
        if !(l.visible && crate::commands::helpers::line_hit(searcher, q, l)) {
            let once = seq![l] + rest;
            assert(once[0] == l);
            assert(once.drop_first() =~= rest);
        }
    }
}

/// `change` keeps each line's visibility: when it does not split lines at line feeds, it
/// gives back as many lines as it got, each with the visibility and number it had.
pub proof fn law_change_keeps_visibility(r: ChangeReplacer, g: Option<GrepCommandQualifier>, views: Seq<LineView>, answers: Seq<bool>)
    requires
        !r.splits(),
    ensures
        changed(r, g, views, answers).len() == views.len(),
        forall|i: int|
            0 <= i < views.len() ==> (#[trigger] changed(r, g, views, answers)[i]).visible == views[i].visible
                && changed(r, g, views, answers)[i].line_number == views[i].line_number,
    decreases views.len(),
{
    if views.len() > 0 {
        let l = views[0];
        let tail = views.drop_first();
        let next = if changes(r, g, l) && confirms(g) {
            crate::commands::delete::rest_answers(answers)
        } else {
            answers
        };
        law_change_keeps_visibility(r, g, tail, next);
        let out = changed(r, g, views, answers);
        let rest = changed(r, g, tail, next);
        assert(out.len() == 1 + rest.len());
        assert forall|i: int| 0 <= i < views.len() implies (#[trigger] out[i]).visible == views[i].visible
            && out[i].line_number == views[i].line_number by {
            if i > 0 {
                assert(out[i] == rest[i - 1]);
                assert(views[i] == tail[i - 1]);
            }
        }
    }
}

/// When confirmation is asked for and every answer is "no", `change` changes no line.
pub proof fn law_declined_change_keeps_lines(r: ChangeReplacer, g: Option<GrepCommandQualifier>, views: Seq<LineView>, answers: Seq<bool>)
    requires
        confirms(g),
        all_declined(answers),
    ensures
        changed(r, g, views, answers) == views,
    decreases views.len(),
{
    if views.len() > 0 {
        lemma_declined_rest(answers);
        law_declined_change_keeps_lines(r, g, views.drop_first(), answers);
        law_declined_change_keeps_lines(r, g, views.drop_first(), crate::commands::delete::rest_answers(answers));
        assert(seq![views[0]] + views.drop_first() =~= views);
    }
}

/// When confirmation is asked for and every answer is "no", `prepend` and `append` insert
/// nothing.
pub proof fn law_declined_insert_keeps_lines(ins: AppendPrepend, g: Option<GrepCommandQualifier>, views: Seq<LineView>, answers: Seq<bool>)
    requires
        confirms(g),
        all_declined(answers),
    ensures
        inserted(ins, g, views, answers) == views,
    decreases views.len(),
{
    if views.len() > 0 {
        lemma_declined_rest(answers);
        law_declined_insert_keeps_lines(ins, g, views.drop_first(), answers);
        law_declined_insert_keeps_lines(ins, g, views.drop_first(), crate::commands::delete::rest_answers(answers));
        assert(Seq::<LineView>::empty() + seq![views[0]] + Seq::<LineView>::empty() + views.drop_first() =~= views);
    }
}

/// A commands file yields no empty command and no comment.
pub proof fn law_commands_text_has_no_blank_or_comment(content: Seq<char>)
    ensures
        forall|i: int|
            0 <= i < crate::utilities::commands_text_spec(content).len() ==> crate::utilities::is_command_line(
                #[trigger] crate::utilities::commands_text_spec(content)[i],
            ),
{
    let cleaned = crate::utilities::text_lines(content).map_values(|l: Seq<char>| crate::utilities::command_line_text(l));
    assert forall|i: int|
        0 <= i < crate::utilities::commands_text_spec(content).len() implies crate::utilities::is_command_line(
        #[trigger] crate::utilities::commands_text_spec(content)[i],
    ) by {
        cleaned.lemma_filter_pred(|c: Seq<char>| crate::utilities::is_command_line(c), i);
    }
}


/// A field as written in a command text: each `::` in it (leftmost first) written `~::`.
pub open spec fn escaped(f: Seq<char>) -> Seq<char>
    decreases f.len(),
{
    if f.len() >= 2 && f[0] == ':' && f[1] == ':' {
        seq!['~', ':', ':'] + escaped(f.skip(2))
    } else if f.len() == 0 {
        Seq::empty()
    } else {
        seq![f[0]] + escaped(f.drop_first())
    }
}

/// A command text made of fields: each escaped, with `::` between them.
pub open spec fn joined_fields(fs: Seq<Seq<char>>) -> Seq<char>
    decreases fs.len(),
{
    if fs.len() == 0 {
        Seq::empty()
    } else if fs.len() == 1 {
        escaped(fs[0])
    } else {
        escaped(fs[0]) + seq![':', ':'] + joined_fields(fs.drop_first())
    }
}

/// A field that does not end with `:` or `~` (either would merge with a following `::`).
pub open spec fn ends_clear(f: Seq<char>) -> bool {
    f.len() == 0 || (f.last() != ':' && f.last() != '~')
}

/// `escaped` is `str::replace(f, "::", "~::")`.
pub proof fn lemma_escaped_is_replace(f: Seq<char>)
    ensures
        escaped(f) == crate::text::replace_all_seq(f, seq![':', ':'], seq!['~', ':', ':']),
    decreases f.len(),
{
    let p = seq![':', ':'];
    let r = seq!['~', ':', ':'];
    if f.len() >= 2 && f[0] == ':' && f[1] == ':' {
        assert(f.take(2) =~= p);
        lemma_escaped_is_replace(f.skip(2));
        assert(crate::text::dec(0) == 0);
    } else if f.len() == 0 {
    } else {
        lemma_escaped_is_replace(f.drop_first());
        if f.len() >= 2 {
            assert(f.take(2) != p) by {
                assert(f.take(2)[0] == f[0] && f.take(2)[1] == f[1]);
            }
        } else {
            assert(f.drop_first() =~= Seq::<char>::empty());
            assert(seq![f[0]] + Seq::<char>::empty() =~= f);
        }
    }
}

proof fn lemma_escaped_head(f: Seq<char>)
    ensures
        escaped(f).len() >= f.len(),
        f.len() >= 1 ==> escaped(f)[0] == if f.len() >= 2 && f[0] == ':' && f[1] == ':' {
            '~'
        } else {
            f[0]
        },
        (f.len() >= 2 && !(f[0] == ':' && f[1] == ':')) ==> escaped(f)[1] == if f.len() >= 3 && f[1] == ':' && f[2]
            == ':' {
            '~'
        } else {
            f[1]
        },
    decreases f.len(),
{
    if f.len() >= 2 && f[0] == ':' && f[1] == ':' {
        lemma_escaped_head(f.skip(2));
    } else if f.len() == 0 {
    } else {
        lemma_escaped_head(f.drop_first());
        let g = f.drop_first();
        if f.len() >= 2 {
            assert(g[0] == f[1]);
            if g.len() >= 2 {
                assert(g[1] == f[2]);
            }
        }
    }
}

/// Reading an escaped field gives the field back, up to what follows it: the end of the
/// text, or a `::` when the field does not end with `:` or `~`.
proof fn lemma_read_escaped(f: Seq<char>, rest: Seq<char>, cur: Seq<char>, done: Seq<Seq<char>>)
    requires
        rest.len() == 0 || (rest.len() >= 2 && rest[0] == ':' && rest[1] == ':' && ends_clear(f)),
    ensures
        crate::fields_from(escaped(f) + rest, cur, done) == crate::fields_from(rest, cur + f, done),
    decreases f.len(),
{
    let s = escaped(f) + rest;
    if f.len() >= 2 && f[0] == ':' && f[1] == ':' {
        let f2 = f.skip(2);
        assert(s.skip(3) =~= escaped(f2) + rest);
        assert(s[0] == '~' && s[1] == ':' && s[2] == ':');
        if rest.len() > 0 && f2.len() > 0 {
            assert(f2.last() == f.last());
        }
        lemma_read_escaped(f2, rest, cur + seq![':', ':'], done);
        assert(cur + seq![':', ':'] + f2 =~= cur + f);
    } else if f.len() == 0 {
        assert(s =~= rest);
        assert(cur + f =~= cur);
    } else {
        let f1 = f.drop_first();
        let t = escaped(f1) + rest;
        lemma_escaped_head(f1);
        assert(s =~= seq![f[0]] + t);
        assert(s.drop_first() =~= t);
        if f1.len() > 0 && rest.len() > 0 {
            assert(f1.last() == f.last());
        }
        if f1.len() >= 1 {
            assert(f1[0] == f[1]);
            assert(t[0] == escaped(f1)[0]);
        }
        if f1.len() >= 2 {
            assert(f1[1] == f[2]);
            assert(t[1] == escaped(f1)[1]);
        }
        if f1.len() == 0 && rest.len() > 0 {
            assert(f.last() == f[0]);
        }
        if f1.len() == 1 && rest.len() > 0 {
            assert(f.last() == f1[0]);
        }
        if f1.len() == 1 && rest.len() == 0 {
            assert(t.len() == escaped(f1).len());
            assert(escaped(f1) =~= seq![f1[0]] + escaped(f1.drop_first()));
            assert(f1.drop_first().len() == 0);
            assert(escaped(f1).len() == 1);
        }
        assert(!(s.len() >= 3 && s[0] == '~' && s[1] == ':' && s[2] == ':'));
        assert(!(s.len() >= 2 && s[0] == ':' && s[1] == ':'));
        lemma_read_escaped(f1, rest, cur.push(f[0]), done);
        assert(cur.push(f[0]) + f1 =~= cur + f);
    }
}

proof fn lemma_read_joined(fs: Seq<Seq<char>>, cur: Seq<char>, done: Seq<Seq<char>>)
    requires
        fs.len() >= 1,
        forall|i: int| 0 <= i < fs.len() - 1 ==> ends_clear(#[trigger] fs[i]),
    ensures
        crate::fields_from(joined_fields(fs), cur, done) == done.push(cur + fs[0]) + fs.drop_first(),
    decreases fs.len(),
{
    if fs.len() == 1 {
        lemma_read_escaped(fs[0], Seq::empty(), cur, done);
        assert(escaped(fs[0]) + Seq::<char>::empty() =~= escaped(fs[0]));
        assert(fs.drop_first() =~= Seq::<Seq<char>>::empty());
        assert(done.push(cur + fs[0]) + Seq::<Seq<char>>::empty() =~= done.push(cur + fs[0]));
    } else {
        let rest = seq![':', ':'] + joined_fields(fs.drop_first());
        assert(joined_fields(fs) =~= escaped(fs[0]) + rest);
        assert(ends_clear(fs[0]));
        lemma_read_escaped(fs[0], rest, cur, done);
        assert(rest.skip(2) =~= joined_fields(fs.drop_first()));
        let tail = fs.drop_first();
        assert forall|i: int| 0 <= i < tail.len() - 1 implies ends_clear(#[trigger] tail[i]) by {
            assert(tail[i] == fs[i + 1]);
        }
        lemma_read_joined(tail, Seq::empty(), done.push(cur + fs[0]));
        assert(Seq::<char>::empty() + tail[0] =~= tail[0]);
        assert(done.push(cur + fs[0]).push(tail[0]) + tail.drop_first() =~= done.push(cur + fs[0]) + tail);
    }
}

/// Splitting a command text undoes writing it: fields written with `~::` for each `::` in
/// them and joined with `::` are read back as they were, provided no field but the last
/// ends with `:` or `~`.
pub proof fn law_split_undoes_escaped_join(fs: Seq<Seq<char>>)
    requires
        fs.len() >= 1,
        forall|i: int| 0 <= i < fs.len() - 1 ==> ends_clear(#[trigger] fs[i]),
    ensures
        crate::split_fields_spec(joined_fields(fs)) == fs,
{
    lemma_read_joined(fs, Seq::empty(), Seq::empty());
    assert(Seq::<char>::empty() + fs[0] =~= fs[0]);
    assert(Seq::<Seq<char>>::empty().push(fs[0]) + fs.drop_first() =~= fs);
}

/// The text holds no `~::`.
pub open spec fn no_escaped_separator(s: Seq<char>) -> bool {
    forall|i: int| 0 <= i && i + 2 < s.len() ==> !(#[trigger] s[i] == '~' && s[i + 1] == ':' && s[i + 2] == ':')
}

/// The text holds no `::`.
pub open spec fn no_separator(s: Seq<char>) -> bool {
    forall|i: int| 0 <= i && i + 1 < s.len() ==> !(#[trigger] s[i] == ':' && s[i + 1] == ':')
}

proof fn lemma_join_push(done: Seq<Seq<char>>, cur: Seq<char>, c: char)
    ensures
        crate::formatters::join_seq(done.push(cur.push(c)), seq![':', ':'])
            == crate::formatters::join_seq(done.push(cur), seq![':', ':']) + seq![c],
{
    let sep = seq![':', ':'];
    assert(done.push(cur.push(c)).drop_last() =~= done);
    assert(done.push(cur).drop_last() =~= done);
    if done.len() == 0 {
        assert(cur.push(c) =~= cur + seq![c]);
    } else {
        assert(crate::formatters::join_seq(done, sep) + sep + cur.push(c) =~= crate::formatters::join_seq(done, sep) + sep + cur + seq![c]);
    }
}

proof fn lemma_fields_rejoin(s: Seq<char>, cur: Seq<char>, done: Seq<Seq<char>>)
    requires
        no_escaped_separator(s),
        no_separator(cur),
        forall|i: int| 0 <= i < done.len() ==> no_separator(#[trigger] done[i]),
        cur.len() > 0 && cur.last() == ':' ==> s.len() == 0 || s[0] != ':',
    ensures
        crate::formatters::join_seq(crate::fields_from(s, cur, done), seq![':', ':'])
            == crate::formatters::join_seq(done.push(cur), seq![':', ':']) + s,
        crate::fields_from(s, cur, done).len() >= 1,
        forall|i: int| 0 <= i < crate::fields_from(s, cur, done).len() ==> no_separator(#[trigger] crate::fields_from(s, cur, done)[i]),
    decreases s.len(),
{
    let sep = seq![':', ':'];
    if s.len() == 0 {
        let d = done.push(cur);
        assert forall|i: int| 0 <= i < d.len() implies no_separator(#[trigger] d[i]) by {
            if i < done.len() {
                assert(d[i] == done[i]);
            }
        }
        assert(crate::formatters::join_seq(d, sep) + s =~= crate::formatters::join_seq(d, sep));
    } else if s.len() >= 3 && s[0] == '~' && s[1] == ':' && s[2] == ':' {
        assert(!(s[0] == '~' && s[1] == ':' && s[2] == ':'));
    } else if s.len() >= 2 && s[0] == ':' && s[1] == ':' {
        let d = done.push(cur);
        assert(no_escaped_separator(s.skip(2))) by {
            assert forall|i: int| 0 <= i && i + 2 < s.skip(2).len() implies !(#[trigger] s.skip(2)[i] == '~' && s.skip(2)[i + 1] == ':' && s.skip(2)[i + 2] == ':') by {
                assert(s.skip(2)[i] == s[i + 2]);
                assert(s.skip(2)[i + 1] == s[i + 3]);
                assert(s.skip(2)[i + 2] == s[i + 4]);
            }
        }
        assert forall|i: int| 0 <= i < d.len() implies no_separator(#[trigger] d[i]) by {
            if i < done.len() {
                assert(d[i] == done[i]);
            }
        }
        lemma_fields_rejoin(s.skip(2), Seq::empty(), d);
        assert(d.push(Seq::<char>::empty()).drop_last() =~= d);
        assert(crate::formatters::join_seq(d.push(Seq::<char>::empty()), sep) == crate::formatters::join_seq(d, sep) + sep + Seq::<char>::empty());
        assert(crate::formatters::join_seq(d, sep) + sep + Seq::<char>::empty() + s.skip(2) =~= crate::formatters::join_seq(d, sep) + s);
    } else {
        let c = s[0];
        let rest = s.drop_first();
        assert(no_escaped_separator(rest)) by {
            assert forall|i: int| 0 <= i && i + 2 < rest.len() implies !(#[trigger] rest[i] == '~' && rest[i + 1] == ':' && rest[i + 2] == ':') by {
                assert(rest[i] == s[i + 1]);
                assert(rest[i + 1] == s[i + 2]);
                assert(rest[i + 2] == s[i + 3]);
            }
        }
        let nc = cur.push(c);
        assert(no_separator(nc)) by {
            assert forall|i: int| 0 <= i && i + 1 < nc.len() implies !(#[trigger] nc[i] == ':' && nc[i + 1] == ':') by {
                if i + 1 < cur.len() {
                    assert(nc[i] == cur[i] && nc[i + 1] == cur[i + 1]);
                } else {
                    assert(nc[i] == cur.last());
                }
            }
        }
        lemma_fields_rejoin(rest, nc, done);
        lemma_join_push(done, cur, c);
        assert(crate::formatters::join_seq(done.push(cur), sep) + seq![c] + rest =~= crate::formatters::join_seq(done.push(cur), sep) + s);
    }
}

/// A command text without `~::` is given back by joining its fields with `::`, and no field
/// holds `::`; there is always at least one field.
pub proof fn law_fields_join_back(s: Seq<char>)
    requires
        no_escaped_separator(s),
    ensures
        crate::split_fields_spec(s).len() >= 1,
        crate::formatters::join_seq(crate::split_fields_spec(s), seq![':', ':']) == s,
        forall|i: int| 0 <= i < crate::split_fields_spec(s).len() ==> no_separator(#[trigger] crate::split_fields_spec(s)[i]),
{
    lemma_fields_rejoin(s, Seq::empty(), Seq::empty());
    assert(Seq::<Seq<char>>::empty().push(Seq::<char>::empty()).len() == 1);
    assert(crate::formatters::join_seq(Seq::<Seq<char>>::empty().push(Seq::<char>::empty()), seq![':', ':']) + s =~= s);
}

/// `declarations` shows every line of the signature of each declaration it shows: after
/// `d::name`, a line whose index lies between the first and the last signature line of a
/// shown declaration is visible (whatever body, parents, owner or key options ask).
pub proof fn law_declarations_show_whole_signatures(
    c: crate::CDeclarations,
    lines: Seq<LineStatus>,
    h: Map<usize, Parsed>,
    out: Seq<LineStatus>,
    k: usize,
    idx: int,
)
    requires
        c.applied(lines, h, out),
        c.shown_hits(h).contains(k),
        crate::hashtree::decl_at(h, k) is Some,
        crate::hashtree::decl_at(h, k)->0.lines_signature.0 <= idx <= crate::hashtree::decl_at(h, k)->0.lines_signature.1,
        0 <= idx < lines.len(),
    ensures
        out.len() == lines.len(),
        out[idx].visible,
{
    let q = c.qualifier.searchqualifier;
    let len = lines.len() as int;
    let ks = c.shown_hits(h);
    let sig = crate::commands::declarations::signature_lines(h, ks, len);
    assert(sig.contains(idx as usize));
    let v1 = show_views(lines_view(lines), c.parents_shown(h));
    let before = if q.before > 0 {
        crate::utilities::vec_lines::extend_set(crate::commands::declarations::signature_starts(h, ks), -q.before, len)
    } else {
        Set::empty()
    };
    let after = if q.after > 0 {
        crate::utilities::vec_lines::extend_set(crate::commands::declarations::signature_ends(h, ks), q.after as int, len)
    } else {
        Set::empty()
    };
    let v2 = show_views(v1, sig.union(before).union(after));
    assert(sig.union(before).union(after).contains(idx as usize));
    assert(v2[idx].visible);
    let v3 = match q.set_key {
        Some(key) => key_views(v2, sig, key@),
        None => v2,
    };
    assert(v3[idx].visible);
    let v4 = if c.qualifier.showbody {
        show_views(v3, crate::commands::declarations::body_lines(h, ks, len))
    } else {
        v3
    };
    assert(v4[idx].visible);
    let v5 = if q.showowner && crate::commands::declarations::owner_extension(c.qualifier.extension@) {
        show_views(v4, crate::commands::declarations::owner_parent_lines(h, ks))
    } else {
        v4
    };
    assert(v5[idx].visible);
    assert(lines_view(lines).len() == len);
    assert(v1.len() == len && v2.len() == len && v3.len() == len && v4.len() == len && v5.len() == len);
    assert(lines_view(out) == v5);
    assert(lines_view(out).len() == out.len());
    assert(lines_view(out)[idx] == out[idx]@);
}

proof fn lemma_first_replace(pre: Seq<char>, p: Seq<char>, r: Seq<char>, rest: Seq<char>)
    requires
        p.len() > 0,
        forall|i: int| 0 <= i < pre.len() ==> !crate::text::matches_at(pre + p + rest, p, i),
    ensures
        crate::text::replace_seq(pre + p + rest, p, r, false, 1) == pre + r + rest,
    decreases pre.len(),
{
    let s = pre + p + rest;
    if pre.len() == 0 {
        assert(s =~= p + rest);
        assert(s.take(p.len() as int) =~= p);
        assert(s.skip(p.len() as int) =~= rest);
        assert(crate::text::replace_seq(rest, p, r, false, 0) == rest);
        assert(pre + r + rest =~= r + rest);
    } else {
        assert(!crate::text::matches_at(s, p, 0));
        assert(s.len() >= p.len());
        assert(s.take(p.len() as int) != p) by {
            if s.take(p.len() as int) == p {
                assert(s.subrange(0, p.len() as int) =~= s.take(p.len() as int));
            }
        }
        let pre2 = pre.drop_first();
        assert(s.drop_first() =~= pre2 + p + rest);
        assert forall|i: int| 0 <= i < pre2.len() implies !crate::text::matches_at(pre2 + p + rest, p, i) by {
            assert(!crate::text::matches_at(s, p, i + 1));
            if crate::text::matches_at(pre2 + p + rest, p, i) {
                assert((pre2 + p + rest).subrange(i, i + p.len()) =~= s.subrange(i + 1, i + 1 + p.len()));
            }
        }
        lemma_first_replace(pre2, p, r, rest);
        assert(seq![s[0]] + (pre2 + r + rest) =~= pre + r + rest);
    }
}

/// Without the change-all flag, a literal `change` rewrites only the first occurrence of
/// its pattern: a line made of a text with no occurrence, the pattern, and any rest becomes
/// that text, the replacement, and the rest unchanged (later occurrences stay).
pub proof fn law_literal_change_rewrites_first_occurrence_only(r: ChangeReplacer, pre: Seq<char>, rest: Seq<char>)
    requires
        r matches ChangeReplacer::Literal { global, .. } && !global,
        r->Literal_pattern@.len() > 0,
        forall|i: int| 0 <= i < pre.len() ==> !crate::text::matches_at(pre + r->Literal_pattern@ + rest, r->Literal_pattern@, i),
    ensures
        r.replaced(pre + r->Literal_pattern@ + rest) == pre + r->Literal_replace_with@ + rest,
{
    lemma_first_replace(pre, r->Literal_pattern@, r->Literal_replace_with@, rest);
}

/// The number of `true` among the answers.
pub open spec fn count_yes(answers: Seq<bool>) -> nat
    decreases answers.len(),
{
    if answers.len() == 0 {
        0
    } else {
        (if answers[0] {
            1nat
        } else {
            0nat
        }) + count_yes(answers.drop_first())
    }
}

/// The number of lines that get an insertion when it is not declined.
pub open spec fn insertion_sites(ins: AppendPrepend, g: Option<GrepCommandQualifier>, views: Seq<LineView>) -> nat
    decreases views.len(),
{
    if views.len() == 0 {
        0
    } else {
        (if crate::commands::appendprepend::gets_insert(ins, g, views[0]) {
            1nat
        } else {
            0nat
        }) + insertion_sites(ins, g, views.drop_first())
    }
}

/// With confirmation on, `prepend` / `append` asks once per line that would get an
/// insertion, in order, and inserts exactly where the answer is yes: the lines grow by the
/// number of yes answers among the first (one per such line; a missing answer is no).
pub proof fn law_confirmed_insert_follows_each_answer(ins: AppendPrepend, g: Option<GrepCommandQualifier>, views: Seq<LineView>, answers: Seq<bool>)
    requires
        confirms(g),
    ensures
        inserted(ins, g, views, answers).len() == views.len() + count_yes(
            answers.take(if answers.len() < insertion_sites(ins, g, views) {
                answers.len() as int
            } else {
                insertion_sites(ins, g, views) as int
            }),
        ),
    decreases views.len(),
{
    let n = insertion_sites(ins, g, views);
    let m = if answers.len() < n {
        answers.len() as int
    } else {
        n as int
    };
    if views.len() == 0 {
        assert(answers.take(0) =~= Seq::<bool>::empty());
    } else {
        let l = views[0];
        let tail = views.drop_first();
        if !crate::commands::appendprepend::gets_insert(ins, g, l) {
            law_confirmed_insert_follows_each_answer(ins, g, tail, answers);
        } else {
            let rest_ans = crate::commands::delete::rest_answers(answers);
            law_confirmed_insert_follows_each_answer(ins, g, tail, rest_ans);
            if answers.len() == 0 {
                assert(answers.take(m) =~= Seq::<bool>::empty());
                assert(rest_ans.take(0) =~= Seq::<bool>::empty());
            } else {
                let t = answers.take(m);
                assert(m >= 1);
                assert(t.drop_first() =~= rest_ans.take(m - 1));
                assert(t[0] == answers[0]);
            }
        }
    }
}

/// The lines that are not visible, in order.
pub open spec fn hidden_lines(views: Seq<LineView>) -> Seq<LineView>
    decreases views.len(),
{
    if views.len() == 0 {
        Seq::empty()
    } else {
        (if !views[0].visible {
            seq![views[0]]
        } else {
            Seq::empty()
        }) + hidden_lines(views.drop_first())
    }
}

/// `delete` removes only visible lines: the lines that were not visible are all still there,
/// in the same order, whatever the pattern and the answers.
pub proof fn law_delete_keeps_hidden_lines(searcher: Searcher, q: GrepCommandQualifier, views: Seq<LineView>, answers: Seq<bool>)
    ensures
        hidden_lines(kept(searcher, q, views, answers)) == hidden_lines(views),
    decreases views.len(),
{
    if views.len() > 0 {
        let l = views[0];
        let tail = views.drop_first();
        law_delete_keeps_hidden_lines(searcher, q, tail, answers);
        law_delete_keeps_hidden_lines(searcher, q, tail, crate::commands::delete::rest_answers(answers));
        let candidate = l.visible && crate::commands::helpers::line_hit(searcher, q, l);
        if !candidate || (q.user_confirmation && !crate::commands::delete::next_answer(answers)) {
            let rest = if !candidate {
                kept(searcher, q, tail, answers)
            } else {
                kept(searcher, q, tail, crate::commands::delete::rest_answers(answers))
            };
            let whole = seq![l] + rest;
            assert(whole[0] == l);
            assert(whole.drop_first() =~= rest);
        }
    }
}

proof fn lemma_payload_grows(acc: (usize, Set<usize>, usize), part: Seq<char>)
    ensures
        acc.1.subset_of(crate::utilities::apply_lines_part(acc, part).1),
{
}

proof fn lemma_fold_grows(parts: Seq<Seq<char>>, j: int)
    requires
        0 <= j <= parts.len(),
    ensures
        crate::utilities::lines_parts_fold(parts.take(j)).1.subset_of(crate::utilities::lines_parts_fold(parts).1),
    decreases parts.len() - j,
{
    if j < parts.len() {
        lemma_fold_grows(parts, j + 1);
        let t = parts.take(j + 1);
        assert(t.drop_last() =~= parts.take(j));
        lemma_payload_grows(crate::utilities::lines_parts_fold(parts.take(j)), t.last());
    } else {
        assert(parts.take(j) =~= parts);
    }
}

/// A `lines` payload part `a-b` whose numbers parse asks for every line from `a` to `b`:
/// each such number is in the set of wanted lines, whatever the other parts.
pub proof fn law_lines_range_part_wants_every_line(arg: Seq<char>, j: int, n: usize)
    requires
        0 <= j < split_seq(arg, seq![',']).len(),
        ({
            let sub = crate::utilities::range_pieces(split_seq(arg, seq![','])[j]);
            &&& sub.len() >= 2
            &&& sub[0].len() > 0
            &&& sub[1].len() > 0
            &&& parse_usize_spec(sub[0]) matches Some(a) && a <= n
            &&& parse_usize_spec(sub[1]) matches Some(b) && n <= b
        }),
    ensures
        crate::utilities::lines_payload_spec(arg).1.contains(n),
{
    let parts = split_seq(arg, seq![',']);
    let t = parts.take(j + 1);
    assert(t.drop_last() =~= parts.take(j));
    assert(t.last() == parts[j]);
    assert(crate::utilities::lines_parts_fold(t).1.contains(n));
    lemma_fold_grows(parts, j + 1);
}

} // verus!
