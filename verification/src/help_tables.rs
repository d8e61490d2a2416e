//! The tables of the help texts: flags, grep shortcodes and user messages, each column as
//! wide as its widest entry.
use vstd::prelude::*;

use crate::constants::grep_shortcodes::GrepShortCodeDef;
use crate::constants::FlagDef;
use crate::user_messages::UserMessageDef;
use vstd::string::StringSliceAdditionalSpecFns;
use crate::constants::commandflags as cf;
use crate::constants::env_vars as ev;
use crate::text::{concat2, concat3, str_eq};

verus! {

/// The width of a text as `str::len` measures it: its UTF-8 bytes.
pub open spec fn byte_width(s: &str) -> nat {
    (s.spec_bytes().len() as usize) as nat
}

/// The widest of the texts, by `byte_width`.
pub open spec fn widest(cells: Seq<&str>) -> nat
    decreases cells.len(),
{
    if cells.len() == 0 {
        0
    } else {
        let w = widest(cells.drop_last());
        let x = byte_width(cells.last());
        if x > w {
            x
        } else {
            w
        }
    }
}

/// A column's width: its widest entry, or `default` when it has none.
pub open spec fn column_width(cells: Seq<&str>, default: nat) -> nat {
    if cells.len() == 0 {
        default
    } else {
        widest(cells)
    }
}

/// `s` filled on the right with `fill` up to `w` characters (`{:<w$}`).
pub open spec fn padded(s: Seq<char>, w: nat, fill: char) -> Seq<char> {
    if s.len() >= w {
        s
    } else {
        s + Seq::new((w - s.len()) as nat, |i: int| fill)
    }
}

/// A line of three padded columns and a last free one, two spaces apart.
pub open spec fn row3(c: (Seq<char>, Seq<char>, Seq<char>, Seq<char>), w: (nat, nat, nat), fill: char) -> Seq<char> {
    padded(c.0, w.0, fill) + "  "@ + padded(c.1, w.1, fill) + "  "@ + padded(c.2, w.2, fill) + "  "@ + c.3 + "\n"@
}

/// A line of two padded columns and a last free one, two spaces apart.
pub open spec fn row2(c: (Seq<char>, Seq<char>, Seq<char>), w: (nat, nat), fill: char) -> Seq<char> {
    padded(c.0, w.0, fill) + "  "@ + padded(c.1, w.1, fill) + "  "@ + c.2 + "\n"@
}

/// `padded`.
pub fn pad_right(s: &str, w: usize, fill: char) -> (r: String)
    ensures
        r@ == padded(s@, w as nat, fill),
{
    let cs = crate::text::chars_of(s);
    if cs.len() >= w {
        return crate::text::owned(s);
    }
    let mut out = cs;
    let ghost start = out@;
    let mut k: usize = out.len();
    while k < w
        invariant
            start == s@,
            s@.len() <= k <= w,
            out@ == s@ + Seq::new((k - s@.len()) as nat, |i: int| fill),
        decreases w - k,
    {
        out.push(fill);
        assert(out@ =~= s@ + Seq::new((k + 1 - s@.len()) as nat, |i: int| fill));
        k = k + 1;
    }
    crate::text::string_from_chars(out.as_slice())
}

/// `column_width` of the texts.
pub fn width_of(cells: &Vec<&'static str>, default: usize) -> (r: usize)
    ensures
        r == column_width(cells@, default as nat),
{
    if cells.len() == 0 {
        return default;
    }
    let mut w: usize = 0;
    let mut i: usize = 0;
    while i < cells.len()
        invariant
            i <= cells@.len(),
            w == widest(cells@.take(i as int)),
        decreases cells.len() - i,
    {
        assert(cells@.take(i + 1).drop_last() =~= cells@.take(i as int));
        assert(cells@.take(i + 1).last() == cells@[i as int]);
        let x = cells[i].len();
        if x > w {
            w = x;
        }
        i = i + 1;
    }
    assert(cells@.take(cells@.len() as int) =~= cells@);
    w
}

fn line3(c0: &str, c1: &str, c2: &str, c3: &str, w0: usize, w1: usize, w2: usize, fill: char) -> (r: String)
    ensures
        r@ == row3((c0@, c1@, c2@, c3@), (w0 as nat, w1 as nat, w2 as nat), fill),
{
    let a = pad_right(c0, w0, fill);
    let b = pad_right(c1, w1, fill);
    let c = pad_right(c2, w2, fill);
    let x = crate::text::concat3(a.as_str(), "  ", b.as_str());
    let y = crate::text::concat3(x.as_str(), "  ", c.as_str());
    let z = crate::text::concat3(y.as_str(), "  ", c3);
    crate::text::concat2(z.as_str(), "\n")
}

fn line2(c0: &str, c1: &str, c2: &str, w0: usize, w1: usize, fill: char) -> (r: String)
    ensures
        r@ == row2((c0@, c1@, c2@), (w0 as nat, w1 as nat), fill),
{
    let a = pad_right(c0, w0, fill);
    let b = pad_right(c1, w1, fill);
    let x = crate::text::concat3(a.as_str(), "  ", b.as_str());
    let y = crate::text::concat3(x.as_str(), "  ", c2);
    crate::text::concat2(y.as_str(), "\n")
}

/// The flags' names, formats and examples, as columns.
pub open spec fn flag_column(flags: Seq<FlagDef>, k: int) -> Seq<&'static str> {
    Seq::new(flags.len(), |i: int| if k == 0 { flags[i].name } else if k == 1 { flags[i].value } else { flags[i].example })
}

/// The rows of the flags' table from the `i`-th on.
pub open spec fn flag_rows(flags: Seq<FlagDef>, w: (nat, nat, nat)) -> Seq<char>
    decreases flags.len(),
{
    if flags.len() == 0 {
        Seq::empty()
    } else {
        flag_rows(flags.drop_last(), w) + row3((flags.last().name@, flags.last().value@, flags.last().example@, flags.last().help@), w, ' ')
    }
}

/// The help text of a command's flags: a titled table of their names, formats, examples
/// and descriptions.
pub open spec fn flag_help_text(title: Seq<char>, flags: Seq<FlagDef>) -> Seq<char> {
    let w = (column_width(flag_column(flags, 0), 4), column_width(flag_column(flags, 1), 5), column_width(flag_column(flags, 2), 7));
    "\n## "@ + title + "\n\n"@ + row3(("Name"@, "Format"@, "Example"@, "Description"@), w, ' ') + row3(
        (Seq::empty(), Seq::empty(), Seq::empty(), "-----------"@),
        w,
        '-',
    ) + flag_rows(flags, w)
}

fn flag_cells(flags: &[FlagDef], k: usize) -> (r: Vec<&'static str>)
    ensures
        r@ == flag_column(flags@, k as int),
{
    let mut out: Vec<&'static str> = Vec::new();
    let mut i: usize = 0;
    while i < flags.len()
        invariant
            i <= flags@.len(),
            out@ == flag_column(flags@, k as int).take(i as int),
        decreases flags.len() - i,
    {
        let f = flags[i];
        let c = if k == 0 {
            f.name
        } else if k == 1 {
            f.value
        } else {
            f.example
        };
        out.push(c);
        assert(out@ =~= flag_column(flags@, k as int).take(i + 1));
        i = i + 1;
    }
    assert(flag_column(flags@, k as int).take(flags@.len() as int) =~= flag_column(flags@, k as int));
    out
}

/// `flag_help_text`.
pub fn format_flag_help(section_title: &str, flags: &[FlagDef]) -> (r: String)
    ensures
        r@ == flag_help_text(section_title@, flags@),
{
    let w0 = width_of(&flag_cells(flags, 0), 4);
    let w1 = width_of(&flag_cells(flags, 1), 5);
    let w2 = width_of(&flag_cells(flags, 2), 7);
    let ghost w = (w0 as nat, w1 as nat, w2 as nat);
    let title = crate::text::concat3("\n## ", section_title, "\n\n");
    let head = line3("Name", "Format", "Example", "Description", w0, w1, w2, ' ');
    let dashes = line3("", "", "", "-----------", w0, w1, w2, '-');
    let mut text = crate::text::concat3(title.as_str(), head.as_str(), dashes.as_str());
    let ghost prefix = text@;
    let mut i: usize = 0;
    while i < flags.len()
        invariant
            i <= flags@.len(),
            w == (w0 as nat, w1 as nat, w2 as nat),
            text@ == prefix + flag_rows(flags@.take(i as int), w),
        decreases flags.len() - i,
    {
        let f = flags[i];
        let row = line3(f.name, f.value, f.example, f.help, w0, w1, w2, ' ');
        assert(flags@.take(i + 1).drop_last() =~= flags@.take(i as int));
        assert(flags@.take(i + 1).last() == f);
        text = crate::text::concat2(text.as_str(), row.as_str());
        assert(text@ =~= prefix + flag_rows(flags@.take(i + 1), w));
        i = i + 1;
    }
    assert(flags@.take(flags@.len() as int) =~= flags@);
    proof {
        reveal_strlit("");
        assert(""@ =~= Seq::<char>::empty());
    }
    text
}


/// The shortcodes' keys, macros and expansions, as columns.
pub open spec fn code_column(codes: Seq<GrepShortCodeDef>, k: int) -> Seq<&'static str> {
    Seq::new(codes.len(), |i: int| if k == 0 { codes[i].key } else if k == 1 { codes[i].macrocode } else { codes[i].expansion })
}

/// The rows of the shortcodes' table.
pub open spec fn code_rows(codes: Seq<GrepShortCodeDef>, w: (nat, nat, nat)) -> Seq<char>
    decreases codes.len(),
{
    if codes.len() == 0 {
        Seq::empty()
    } else {
        code_rows(codes.drop_last(), w) + row3(
            (codes.last().key@, codes.last().macrocode@, codes.last().expansion@, codes.last().description@),
            w,
            ' ',
        )
    }
}

/// The table of grep shortcodes: key, macro, expansion and description of each.
pub open spec fn shortcodes_table_text(codes: Seq<GrepShortCodeDef>) -> Seq<char> {
    let w = (column_width(code_column(codes, 0), 3), column_width(code_column(codes, 1), 5), column_width(code_column(codes, 2), 9));
    row3(("Key"@, "Macro"@, "Expansion"@, "Description"@), w, ' ') + row3(
        (Seq::empty(), Seq::empty(), Seq::empty(), "-----------"@),
        w,
        '-',
    ) + code_rows(codes, w)
}

fn code_cells(codes: &[GrepShortCodeDef], k: usize) -> (r: Vec<&'static str>)
    ensures
        r@ == code_column(codes@, k as int),
{
    let mut out: Vec<&'static str> = Vec::new();
    let mut i: usize = 0;
    while i < codes.len()
        invariant
            i <= codes@.len(),
            out@ == code_column(codes@, k as int).take(i as int),
        decreases codes.len() - i,
    {
        let c = codes[i];
        let x = if k == 0 {
            c.key
        } else if k == 1 {
            c.macrocode
        } else {
            c.expansion
        };
        out.push(x);
        assert(out@ =~= code_column(codes@, k as int).take(i + 1));
        i = i + 1;
    }
    assert(code_column(codes@, k as int).take(codes@.len() as int) =~= code_column(codes@, k as int));
    out
}

/// `shortcodes_table_text`.
pub fn format_grep_shortcodes_table(codes: &[GrepShortCodeDef]) -> (r: String)
    ensures
        r@ == shortcodes_table_text(codes@),
{
    let w0 = width_of(&code_cells(codes, 0), 3);
    let w1 = width_of(&code_cells(codes, 1), 5);
    let w2 = width_of(&code_cells(codes, 2), 9);
    let ghost w = (w0 as nat, w1 as nat, w2 as nat);
    let head = line3("Key", "Macro", "Expansion", "Description", w0, w1, w2, ' ');
    let dashes = line3("", "", "", "-----------", w0, w1, w2, '-');
    let mut text = crate::text::concat2(head.as_str(), dashes.as_str());
    let ghost prefix = text@;
    let mut i: usize = 0;
    while i < codes.len()
        invariant
            i <= codes@.len(),
            w == (w0 as nat, w1 as nat, w2 as nat),
            text@ == prefix + code_rows(codes@.take(i as int), w),
        decreases codes.len() - i,
    {
        let c = codes[i];
        let row = line3(c.key, c.macrocode, c.expansion, c.description, w0, w1, w2, ' ');
        assert(codes@.take(i + 1).drop_last() =~= codes@.take(i as int));
        assert(codes@.take(i + 1).last() == c);
        text = crate::text::concat2(text.as_str(), row.as_str());
        assert(text@ =~= prefix + code_rows(codes@.take(i + 1), w));
        i = i + 1;
    }
    assert(codes@.take(codes@.len() as int) =~= codes@);
    proof {
        reveal_strlit("");
        assert(""@ =~= Seq::<char>::empty());
    }
    text
}

/// The messages' keys and codes, as columns.
pub open spec fn message_column(ms: Seq<UserMessageDef>, k: int) -> Seq<&'static str> {
    Seq::new(ms.len(), |i: int| if k == 0 { ms[i].key } else { ms[i].code })
}

/// How far the details are indented: past the key and code columns and their gap (at most
/// `usize::MAX`).
pub open spec fn details_indent(w: (nat, nat)) -> nat {
    if w.0 + w.1 + 2 <= usize::MAX {
        w.0 + w.1 + 2
    } else {
        usize::MAX as nat
    }
}

/// The entries of the messages' table: key, code and body on a line, the details indented
/// under them, and an empty line.
pub open spec fn message_rows(ms: Seq<UserMessageDef>, w: (nat, nat)) -> Seq<char>
    decreases ms.len(),
{
    if ms.len() == 0 {
        Seq::empty()
    } else {
        let m = ms.last();
        message_rows(ms.drop_last(), w) + row2((m.key@, m.code@, m.body@), w, ' ') + padded(Seq::empty(), details_indent(w), ' ')
            + "  "@ + m.details@ + "\n"@ + "\n"@
    }
}

/// The help text of the user messages.
pub open spec fn messages_help_text(ms: Seq<UserMessageDef>) -> Seq<char> {
    let w = (column_width(message_column(ms, 0), 3), column_width(message_column(ms, 1), 4));
    "\n## User messages\n\n"@ + row2(("Key"@, "Code"@, "Body"@), w, ' ') + row2((Seq::empty(), Seq::empty(), "----"@), w, '-')
        + message_rows(ms, w)
}

fn message_cells(ms: &Vec<UserMessageDef>, k: usize) -> (r: Vec<&'static str>)
    ensures
        r@ == message_column(ms@, k as int),
{
    let mut out: Vec<&'static str> = Vec::new();
    let mut i: usize = 0;
    while i < ms.len()
        invariant
            i <= ms@.len(),
            out@ == message_column(ms@, k as int).take(i as int),
        decreases ms.len() - i,
    {
        let m = ms[i];
        let x = if k == 0 {
            m.key
        } else {
            m.code
        };
        out.push(x);
        assert(out@ =~= message_column(ms@, k as int).take(i + 1));
        i = i + 1;
    }
    assert(message_column(ms@, k as int).take(ms@.len() as int) =~= message_column(ms@, k as int));
    out
}

/// `messages_help_text` of the given messages.
pub fn format_messages_help(ms: &Vec<UserMessageDef>) -> (r: String)
    ensures
        r@ == messages_help_text(ms@),
{
    let w0 = width_of(&message_cells(ms, 0), 3);
    let w1 = width_of(&message_cells(ms, 1), 4);
    let ghost w = (w0 as nat, w1 as nat);
    let indent: usize = if w0 <= usize::MAX - 2 && w1 <= usize::MAX - 2 - w0 {
        w0 + w1 + 2
    } else {
        usize::MAX
    };
    let head = line2("Key", "Code", "Body", w0, w1, ' ');
    let dashes = line2("", "", "----", w0, w1, '-');
    let mut text = crate::text::concat3("\n## User messages\n\n", head.as_str(), dashes.as_str());
    let ghost prefix = text@;
    let mut i: usize = 0;
    while i < ms.len()
        invariant
            i <= ms@.len(),
            w == (w0 as nat, w1 as nat),
            indent as nat == details_indent(w),
            text@ == prefix + message_rows(ms@.take(i as int), w),
        decreases ms.len() - i,
    {
        let m = ms[i];
        let row = line2(m.key, m.code, m.body, w0, w1, ' ');
        let pad = pad_right("", indent, ' ');
        let details = crate::text::concat3(pad.as_str(), "  ", m.details);
        let entry = crate::text::concat3(row.as_str(), details.as_str(), "\n\n");
        assert(ms@.take(i + 1).drop_last() =~= ms@.take(i as int));
        assert(ms@.take(i + 1).last() == m);
        text = crate::text::concat2(text.as_str(), entry.as_str());
        proof {
            reveal_strlit("");
            reveal_strlit("\n\n");
            assert(""@ =~= Seq::<char>::empty());
            assert("\n\n"@ =~= "\n"@ + "\n"@) by {
                reveal_strlit("\n");
            }
            assert(text@ =~= prefix + message_rows(ms@.take(i + 1), w));
        }
        i = i + 1;
    }
    assert(ms@.take(ms@.len() as int) =~= ms@);
    proof {
        reveal_strlit("");
        assert(""@ =~= Seq::<char>::empty());
    }
    text
}

/// The flag table of a help topic: its title and its flags.
pub open spec fn topic_flag_table(t: Seq<char>) -> Option<(Seq<char>, Seq<FlagDef>)> {
    if t == "all"@ || t == "imports"@ || t == "less"@ || t == "more"@ {
        Some(("Search flags"@, cf::searchflags_seq()))
    } else if t == "and"@ {
        Some(("and flags"@, cf::and_flags_seq()))
    } else if t == "append"@ || t == "prepend"@ {
        Some(("prepend/append flags"@, cf::insert_flags_seq()))
    } else if t == "change"@ {
        Some(("prepend/append flags"@, cf::change_flags_seq()))
    } else if t == "declarations"@ {
        Some(("Declarations"@, cf::declaration_flags_seq() + cf::searchflags_seq()))
    } else if t == "delete"@ {
        Some(("delete flags"@, cf::searchflags_seq()))
    } else if t == "invert"@ {
        Some(("Invert flags:"@, Seq::empty()))
    } else if t == "lines"@ {
        Some(("Lines flags"@, cf::linesflags_seq()))
    } else {
        None
    }
}

/// A help topic that has a text but no table.
pub open spec fn plain_topic(t: Seq<char>) -> bool {
    t == "explain"@ || t == "chaining"@ || t == "flags"@ || t == "languages"@ || t == "macro"@ || t == "macros"@
        || t == "noop"@
}

/// The sample Rust file that the `sample` topic shows.
pub const SAMPLE_RS: &'static str = r#"use log::debug;

trait Greeter {
    fn greet(&self, name: &str) -> String;
}

struct HelloApp;

impl Greeter for HelloApp {
    fn greet(&self, name: &str) -> String {
        format!("Hello, {name}!")
    }
}

fn make_message() -> String {
    let app = HelloApp;
    app.greet("world")
}

fn print_message(message: &str) {
    println!("{message}");
}

/// a doc 
fn fixture_signature_with_colon_colon_in_body() {
    // and a comment
    let marker = "::B5";
    debug!("yo!")
    println!("{marker}");
}

fn main() {
    let message = make_message();
    print_message(&message);
}

mod tests {
    fn always_pass_message(){
        println!("always passing");
    }
}"#;

/// The help text of the `sample` topic: the heading, then the sample Rust file.
pub open spec fn sample_help_text() -> Seq<char> {
    "# sample\n# Sample Rust file: sample.rs\n\n"@ + SAMPLE_RS@ + "\n"@
}

/// The heading of a help topic.
pub open spec fn topic_heading(t: Seq<char>) -> Seq<char> {
    if t == "append"@ || t == "prepend"@ {
        "# prepend / append\n"@
    } else {
        "# "@ + t + "\n"@
    }
}

/// The configuration help: the config file and the environment variables.
pub open spec fn config_help_text(config_path: Seq<char>) -> Seq<char> {
    "# Configuration\n\nconfig file: "@ + config_path + "\nenvironment: "@ + ev::SPACER@ + ", "@ + ev::LINE_NUMBER@ + ", "@
        + ev::GREP_SHORTCODES@ + ", "@ + ev::PLUGINS_DIRECTORY@ + "\n"@
}

/// The error for a topic that has no help.
pub open spec fn unknown_topic_error(t: Seq<char>, topics: Seq<Seq<char>>) -> Seq<char> {
    "Unknown help topic '"@ + t + "'. Available topics: "@ + crate::formatters::join_seq(topics, ", "@)
}

/// Whether `t` has a help text.
pub open spec fn known_topic(t: Seq<char>) -> bool {
    plain_topic(t) || t == "sample"@ || topic_flag_table(t) is Some || t == "config"@ || t == "shortcodes"@ || t == "user_messages"@
}

/// The help text of a topic, or the error naming the topics for an unknown topic.
pub open spec fn topic_help_spec(t: Seq<char>, config_path: Seq<char>, topics: Seq<Seq<char>>) -> Result<Seq<char>, Seq<char>> {
    if plain_topic(t) {
        Ok(topic_heading(t))
    } else if t == "sample"@ {
        Ok(sample_help_text())
    } else if let Some((title, flags)) = topic_flag_table(t) {
        Ok(topic_heading(t) + flag_help_text(title, flags))
    } else if t == "config"@ {
        Ok(config_help_text(config_path))
    } else if t == "shortcodes"@ {
        Ok("# Grep shortcodes\n\n"@ + shortcodes_table_text(crate::constants::grep_shortcodes::searchfield_seq()))
    } else if t == "user_messages"@ {
        Ok(messages_help_text(crate::user_messages::all_messages_spec()))
    } else {
        Err(unknown_topic_error(t, topics))
    }
}

/// The help text of a topic (`topics` are those an error lists): the heading and the flag
/// table for a command, the configuration, the grep shortcodes table, or the user messages
/// table; an error naming the topics for any other.
pub fn topic_help_text(topic: &str, config_path: &str, topics: &Vec<String>) -> (r: Result<String, String>)
    ensures
        r is Ok <==> known_topic(topic@),
        match topic_help_spec(topic@, config_path@, topics@.map_values(|x: String| x@)) {
            Ok(t) => r matches Ok(x) && x@ == t,
            Err(e) => r matches Err(x) && x@ == e,
        },
{
    let plain = str_eq(topic, "explain") || str_eq(topic, "chaining") || str_eq(topic, "flags") || str_eq(topic, "languages")
        || str_eq(topic, "macro") || str_eq(topic, "macros") || str_eq(topic, "noop");
    let heading = if str_eq(topic, "append") || str_eq(topic, "prepend") {
        crate::text::owned("# prepend / append\n")
    } else {
        concat3("# ", topic, "\n")
    };
    if plain {
        return Ok(heading);
    }
    if str_eq(topic, "sample") {
        let a = concat3("# sample\n# Sample Rust file: sample.rs\n\n", SAMPLE_RS, "\n");
        return Ok(a);
    }
    let table: Option<(&str, Vec<FlagDef>)> = if str_eq(topic, "all") || str_eq(topic, "imports") || str_eq(topic, "less")
        || str_eq(topic, "more") {
        Some(("Search flags", cf::searchflags()))
    } else if str_eq(topic, "and") {
        Some(("and flags", cf::and_flags()))
    } else if str_eq(topic, "append") || str_eq(topic, "prepend") {
        Some(("prepend/append flags", cf::insert_flags()))
    } else if str_eq(topic, "change") {
        Some(("prepend/append flags", cf::change_flags()))
    } else if str_eq(topic, "declarations") {
        let mut both = cf::declaration_flags();
        let mut more = cf::searchflags();
        both.append(&mut more);
        Some(("Declarations", both))
    } else if str_eq(topic, "delete") {
        Some(("delete flags", cf::searchflags()))
    } else if str_eq(topic, "invert") {
        Some(("Invert flags:", Vec::new()))
    } else if str_eq(topic, "lines") {
        Some(("Lines flags", cf::linesflags()))
    } else {
        None
    };
    match table {
        Some((title, flags)) => {
            let t = format_flag_help(title, flags.as_slice());
            Ok(concat2(heading.as_str(), t.as_str()))
        },
        None => {
            if str_eq(topic, "config") {
                let a = concat3("# Configuration\n\nconfig file: ", config_path, "\nenvironment: ");
                let b = concat3(a.as_str(), crate::constants::env_vars::SPACER, ", ");
                let c = concat3(b.as_str(), crate::constants::env_vars::LINE_NUMBER, ", ");
                let d = concat3(c.as_str(), crate::constants::env_vars::GREP_SHORTCODES, ", ");
                Ok(concat3(d.as_str(), crate::constants::env_vars::PLUGINS_DIRECTORY, "\n"))
            } else if str_eq(topic, "shortcodes") {
                let codes = crate::constants::grep_shortcodes::searchfield();
                let t = format_grep_shortcodes_table(codes.as_slice());
                Ok(concat2("# Grep shortcodes\n\n", t.as_str()))
            } else if str_eq(topic, "user_messages") {
                Ok(format_messages_help(&crate::user_messages::all_messages()))
            } else {
                let joined = crate::formatters::join(topics, ", ");
                Err(concat2(concat3("Unknown help topic '", topic, "'. Available topics: ").as_str(), joined.as_str()))
            }
        },
    }
}

} // verus!
