use std::collections::HashMap;

use rxedit::base::{CheckConditions, GrepCommandQualifier, LineStatus, MetaInfo};
use rxedit::commands::appendprepend::AppendPrepend;
use rxedit::common::{calc_indent, AppState, CommandQualifier};
use rxedit::constants::grep_shortcodes;
use rxedit::{
    commands_factory, make_command, preformat, split_command_fields, CAll, CAnd, CChange, CDeclarations, CDelete,
    CExplain, CImports, CInserter, CInvert, CLess, CMore, ChangeReplacer, Command, CommandActions, Search,
};

fn assert_split(input: &str, expected: &[&str]) {
    let actual = split_command_fields(input);
    let actual_refs: Vec<&str> = actual.iter().map(|s| s.as_str()).collect();
    assert_eq!(actual_refs, expected);
}

fn state_with(grep_shortcodes: bool, file_path: &str) -> AppState {
    let mut state = AppState::default();
    state.config.grep_shortcodes = grep_shortcodes;
    state.config.file_path = file_path.to_string();
    state.config.verbose = false;
    state.config.debug = false;
    state
}

fn grep_qualifier(preformat: bool) -> GrepCommandQualifier {
    GrepCommandQualifier {
        after: 0,
        before: 0,
        preformat,
        fixed_string: false,
        regex_flags: None,
        set_key: None,
        user_confirmation: false,
        showowner: false,
        unrecognized: String::new(),
        conditions_checker: CheckConditions::new(),
    }
}

fn make_line_with_key(key: &str) -> LineStatus {
    LineStatus {
        meta: MetaInfo {
            key: key.to_string(),
            ..Default::default()
        },
        ..Default::default()
    }
}

fn build_commands(state: &mut AppState, args: &[String]) -> Vec<Command> {
    let loaded: Vec<Option<Vec<String>>> = vec![None; args.len()];
    commands_factory(state, args, &loaded)
}

#[test]
fn split_command_fields_basic_two_parts() {
    assert_split("m::foobar", &["m", "foobar"]);
}

#[test]
fn split_command_fields_three_parts() {
    assert_split("c::old::new", &["c", "old", "new"]);
}

#[test]
fn split_command_fields_with_empty_middle_field() {
    assert_split("c::::new", &["c", "", "new"]);
}

#[test]
fn split_command_fields_with_trailing_separator() {
    assert_split("m::", &["m", ""]);
}

#[test]
fn split_command_fields_with_no_separator() {
    assert_split("declarations", &["declarations"]);
}

#[test]
fn split_command_fields_empty_input() {
    assert_split("", &[""]);
}

#[test]
fn split_command_fields_with_escaped_separator() {
    assert_split("m::Command~::CNoop::i", &["m", "Command::CNoop", "i"]);
}

#[test]
fn preformat_expands_all_configured_grep_shortcodes() {
    let actual = preformat("alpha~~s.beta..gamma~~o.delta", &grep_qualifier(true), &grep_shortcodes::searchfield());

    assert_eq!(actual, "alpha +beta.*gamma|delta");
}

#[test]
fn preformat_respects_qualifier_override_when_grep_shortcodes_disabled() {
    let qualifier = grep_qualifier(true);

    let actual = preformat("alpha~~s.beta..gamma", &qualifier, &grep_shortcodes::searchfield());

    assert_eq!(actual, "alpha +beta.*gamma");
}

#[test]
fn preformat_leaves_pattern_unchanged_when_formatting_disabled() {
    let actual = preformat("alpha~~s.beta..gamma", &grep_qualifier(false), &grep_shortcodes::searchfield());

    assert_eq!(actual, "alpha~~s.beta..gamma");
}

#[test]
fn make_command_more_uses_searchfield_macros() {
    let mut state = state_with(true, "sample.rs");
    let cmd = make_command(&mut state, "m::alpha~~s.beta");

    let Command::CMore(CMore { searcher, .. }) = cmd else {
        panic!("expected CMore");
    };

    assert!(searcher.search("alpha beta"));
}

#[test]
fn make_command_more_invalid_regex_returns_noop_with_error_message() {
    let mut state = state_with(false, "sample.rs");
    let cmd = make_command(&mut state, "m::[");

    let Command::CNoop(noop) = cmd else {
        panic!("expected CNoop");
    };

    assert!(!noop.message.is_empty(), "expected regex error message in CNoop");
    assert!(
        noop.message.to_lowercase().contains("regex"),
        "expected regex error details, got: {}",
        noop.message
    );
}

#[test]
fn make_command_all_uses_searchfield_macros() {
    let mut state = state_with(true, "sample.rs");
    let cmd = make_command(&mut state, "a::alpha~~s.beta");

    let Command::CAll(CAll { searcher, .. }) = cmd else {
        panic!("expected CAll");
    };

    assert!(searcher.search("alpha beta"));
}

#[test]
fn make_command_and_uses_searchfield_macros() {
    let mut state = state_with(true, "sample.rs");
    let cmd = make_command(&mut state, "and::alpha~~s.beta");

    let Command::CAnd(CAnd { searcher, .. }) = cmd else {
        panic!("expected CAnd");
    };

    assert!(searcher.search("alpha beta"));
}

#[test]
fn make_command_delete_uses_searchfield_macros() {
    let mut state = state_with(true, "sample.rs");
    let cmd = make_command(&mut state, "delete::alpha~~s.beta");

    let Command::CDelete(CDelete { searcher, .. }) = cmd else {
        panic!("expected CDelete");
    };

    assert!(searcher.search("alpha beta"));
}

#[test]
fn make_command_prepend_dispatches_to_inserter() {
    let mut state = AppState::default();
    let cmd = make_command(&mut state, "prepend::foo::bar");
    assert!(matches!(cmd, Command::CInserter(_)));
}

#[test]
fn make_command_append_short_dispatches_to_inserter() {
    let mut state = AppState::default();
    let cmd = make_command(&mut state, "app::foo::bar");
    assert!(matches!(cmd, Command::CInserter(_)));
}

#[test]
fn make_command_import_uses_name_searchfield_macros() {
    let mut state = state_with(true, "sample.rs");
    let cmd = make_command(&mut state, "i::alpha~~s.beta");

    let Command::CImports(CImports { searcher, .. }) = cmd else {
        panic!("expected CImports");
    };

    assert!(!searcher.search("alpha beta"));
}

#[test]
fn make_command_declare_uses_name_searchfield_macros() {
    let mut state = state_with(true, "sample.rs");
    let cmd = make_command(&mut state, "d::alpha~~s.beta");

    let Command::CDeclarations(CDeclarations { searcher, .. }) = cmd else {
        panic!("expected CDeclarations");
    };

    assert!(!searcher.search("alpha beta"));
}

#[test]
fn calc_indent_empty_string() {
    let result = calc_indent("");
    assert_eq!(result, -1);
}

#[test]
fn calc_indent_no_indentation() {
    let result = calc_indent("hello world");
    assert_eq!(result, 0);
}

#[test]
fn calc_indent_single_space() {
    let result = calc_indent(" hello");
    assert_eq!(result, 1);
}

#[test]
fn calc_indent_multiple_spaces() {
    let result = calc_indent("    hello");
    assert_eq!(result, 4);
}

#[test]
fn calc_indent_single_tab() {
    let result = calc_indent("\thello");
    assert_eq!(result, 1);
}

#[test]
fn calc_indent_multiple_tabs() {
    let result = calc_indent("\t\t\thello");
    assert_eq!(result, 3);
}

#[test]
fn calc_indent_mixed_tabs_and_spaces() {
    let result = calc_indent("\t  \thello");
    assert_eq!(result, 4);
}

#[test]
fn calc_indent_only_whitespace() {
    let result = calc_indent("    ");
    assert_eq!(result, -1);
}

#[test]
fn calc_indent_only_tabs() {
    let result = calc_indent("\t\t");
    assert_eq!(result, -1);
}

#[test]
fn calc_indent_newline_as_leading_whitespace() {
    let result = calc_indent("\n hello");
    assert_eq!(result, 2);
}

#[test]
fn calc_indent_carriage_return_as_leading_whitespace() {
    let result = calc_indent("\r hello");
    assert_eq!(result, 2);
}

#[test]
fn calc_indent_mixed_whitespace_types() {
    let result = calc_indent(" \t \n \r hello");
    assert_eq!(result, 7);
}

#[test]
fn calc_indent_large_indentation() {
    let result = calc_indent(&"                                   code".to_string());
    assert_eq!(result, 35);
}

#[test]
fn cmore_set_key_applied_to_matching_lines() {
    let mut state = state_with(false, "sample.rs");
    let args: Vec<String> = vec!["more::hello::sk=hit.".to_string()];
    let commands = build_commands(&mut state, &args);
    let lines = vec![
        LineStatus {
            line_number: 1,
            visible: false,
            line: "hello world".to_string(),
            ..Default::default()
        },
        LineStatus {
            line_number: 2,
            visible: false,
            line: "goodbye world".to_string(),
            ..Default::default()
        },
    ];
    let result = commands[0].apply(lines, &HashMap::new());
    assert_eq!(result[0].meta.key, "hit");
    assert_eq!(result[1].meta.key, "");
}

#[test]
fn make_command_more_parses_setkey_from_flag_field() {
    let mut state = state_with(false, "sample.rs");
    let cmd = make_command(&mut state, "m::init::sk=ini.");
    let Command::CMore(CMore {
        qualifier: CommandQualifier::GrepQualifier(grep),
        ..
    }) = cmd
    else {
        panic!("expected CMore with GrepQualifier");
    };
    assert_eq!(grep.set_key, Some("ini".to_string()));
}

#[test]
fn calc_indent_with_leading_zeros_like_string() {
    let result = calc_indent(&"    000123".to_string());
    assert_eq!(result, 4);
}

#[test]
fn make_command_less_parses_wherekey_from_flag_field() {
    let mut state = state_with(false, "sample.rs");
    let cmd = make_command(&mut state, "less::init::wk=priv.");

    let Command::CLess(CLess {
        qualifier: CommandQualifier::GrepQualifier(grep),
        ..
    }) = cmd
    else {
        panic!("expected CLess with GrepQualifier");
    };

    let matching = make_line_with_key("priv");
    let non_matching = make_line_with_key("other");
    assert!(grep.conditions_checker.check(&matching));
    assert!(!grep.conditions_checker.check(&non_matching));
}

#[test]
fn make_command_invert_is_one_field_command() {
    let mut state = state_with(false, "sample.rs");
    let cmd = make_command(&mut state, "invert");

    let Command::CInvert(CInvert) = cmd else {
        panic!("expected CInvert");
    };
}

#[test]
fn make_command_invert_trailing_separator_is_allowed() {
    let mut state = state_with(false, "sample.rs");
    let cmd = make_command(&mut state, "invert::");

    let Command::CInvert(CInvert) = cmd else {
        panic!("expected CInvert");
    };
}

#[test]
fn make_command_explain_is_one_field_command() {
    let mut state = state_with(false, "sample.rs");
    let cmd = make_command(&mut state, "explain");

    let Command::CExplain(CExplain) = cmd else {
        panic!("expected CExplain");
    };
}

#[test]
fn make_command_explain_trailing_field_is_allowed() {
    let mut state = state_with(false, "sample.rs");
    let cmd = make_command(&mut state, "explain::s");

    let Command::CExplain(CExplain) = cmd else {
        panic!("expected CExplain");
    };
}

#[test]
fn less_wherekey_only_hides_matching_keyed_lines() {
    let mut state = state_with(false, "sample.rs");
    let args: Vec<String> = vec!["more::def __::sk=priv.".to_string(), "less::i::wk=priv.".to_string()];
    let commands = build_commands(&mut state, &args);

    let mut lines = vec![
        LineStatus {
            line_number: 1,
            visible: true,
            line: "def __init__(self):".to_string(),
            ..Default::default()
        },
        LineStatus {
            line_number: 2,
            visible: true,
            line: "if something:".to_string(),
            ..Default::default()
        },
        LineStatus {
            line_number: 3,
            visible: true,
            line: "print('x')".to_string(),
            ..Default::default()
        },
    ];

    for command in &commands {
        lines = command.apply(lines, &HashMap::new());
    }

    assert!(!lines[0].visible);
    assert_eq!(lines[0].meta.key, "priv");

    assert!(lines[1].visible);
    assert_eq!(lines[1].meta.key, "");

    assert!(lines[2].visible);
    assert_eq!(lines[2].meta.key, "");
}

fn line(num: usize, visible: bool, text: &str) -> LineStatus {
    LineStatus {
        line_number: num,
        visible,
        line: text.to_string(),
        meta: MetaInfo::default(),
    }
}

fn literal_inserter(insert_before: bool, indent_keep: bool, pattern: &str, content: &str) -> CInserter {
    CInserter {
        inserter: AppendPrepend::Literal {
            insert_before,
            indent_keep,
            pattern: pattern.to_string(),
            content: content.to_string(),
        },
        qualifier: None,
    }
}

#[test]
fn prepend_inserts_before_matching_visible_line() {
    let cmd = literal_inserter(true, false, "foo", "new");

    let out = cmd.apply(vec![line(1, true, "foo")], &HashMap::new());

    assert_eq!(out.len(), 2);
    assert_eq!(out[0].line, "new");
    assert_eq!(out[1].line, "foo");
}

#[test]
fn append_inserts_after_matching_visible_line() {
    let cmd = literal_inserter(false, false, "foo", "new");

    let out = cmd.apply(vec![line(1, true, "foo")], &HashMap::new());

    assert_eq!(out.len(), 2);
    assert_eq!(out[0].line, "foo");
    assert_eq!(out[1].line, "new");
}

#[test]
fn indent_keep_applies_matching_line_indent() {
    let cmd = literal_inserter(true, true, "BAR", "# note");

    let out = cmd.apply(vec![line(2, true, "  BAR")], &HashMap::new());

    assert_eq!(out[0].line, "  # note");
}

#[test]
fn does_not_insert_for_invisible_lines() {
    let cmd = literal_inserter(true, false, "foo", "new");

    let out = cmd.apply(vec![line(1, false, "foo")], &HashMap::new());

    assert_eq!(out.len(), 1);
    assert_eq!(out[0].line, "foo");
}

fn line_status(text: &str) -> LineStatus {
    LineStatus {
        line_number: 7,
        visible: true,
        line: text.to_string(),
        meta: MetaInfo::default(),
    }
}

fn literal_change(replace_with: &str, linefeed: bool) -> CChange {
    CChange {
        replacer: ChangeReplacer::Literal {
            pattern: "foo".to_string(),
            replace_with: replace_with.to_string(),
            global: false,
            linefeed,
        },
        qualifier: None,
    }
}

#[test]
fn change_keeps_single_line_replacement() {
    let cmd = literal_change("bar", false);

    let out = cmd.apply(vec![line_status("foo")], &HashMap::new());

    assert_eq!(out.len(), 1);
    assert_eq!(out[0].line, "bar");
    assert_eq!(out[0].line_number, 7);
}

#[test]
fn change_splits_replacement_on_unix_newlines() {
    let cmd = literal_change("bar\nbaz", true);

    let out = cmd.apply(vec![line_status("foo")], &HashMap::new());

    assert_eq!(out.len(), 2);
    assert_eq!(out[0].line, "bar");
    assert_eq!(out[1].line, "baz");
    assert_eq!(out[0].line_number, 7);
    assert_eq!(out[1].line_number, 7);
}

#[test]
fn change_raw_string_keeps_literal_backslash_n() {
    let cmd = literal_change(r"bar\nbaz", false);

    let out = cmd.apply(vec![line_status("foo")], &HashMap::new());

    assert_eq!(out.len(), 1);
    assert_eq!(out[0].line, r"bar\nbaz");
    assert_eq!(out[0].line_number, 7);
}
