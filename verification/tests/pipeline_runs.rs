use std::cell::RefCell;
use std::collections::HashMap;

use rxedit::base::LineStatus;
use rxedit::common::AppState;
use rxedit::config_utilities::{arg_present, choose_setting, switch_given};
use rxedit::constants::FlagDef;
use rxedit::help_tables::{format_flag_help, topic_help_text};
use rxedit::language_api::Parsed;
use rxedit::pipeline::{count_active_commands, initial_lines, output_contents, run_commands, visible_output};
use rxedit::{commands_factory, Command};

fn build(state: &mut AppState, args: &[&str]) -> Vec<Command> {
    let args: Vec<String> = args.iter().map(|a| a.to_string()).collect();
    let loaded: Vec<Option<Vec<String>>> = vec![None; args.len()];
    commands_factory(state, &args, &loaded)
}

fn no_tree(_text: &str) -> HashMap<usize, Parsed> {
    HashMap::new()
}

#[test]
fn initial_lines_are_numbered_from_one_and_hidden() {
    let lines = initial_lines("a\r\nb\n\nc");
    let texts: Vec<&str> = lines.iter().map(|l| l.line.as_str()).collect();
    assert_eq!(texts, vec!["a", "b", "", "c"]);
    assert_eq!(lines[3].line_number, 4);
    assert!(lines.iter().all(|l| !l.visible));
}

#[test]
fn visible_output_numbers_and_spaces_blocks() {
    let mut lines = initial_lines("one\ntwo\nthree\nfour");
    lines[0].visible = true;
    lines[2].visible = true;
    let plain = visible_output(&lines, false, false);
    assert_eq!(plain, vec!["one".to_string(), "three".to_string()]);
    let spaced = visible_output(&lines, true, true);
    assert_eq!(spaced, vec!["000001 one".to_string(), "".to_string(), "000003 three".to_string()]);
}

#[test]
fn output_contents_ends_every_line() {
    let lines = initial_lines("x\ny");
    assert_eq!(output_contents(&lines), "x\ny\n");
    let none: Vec<LineStatus> = Vec::new();
    assert_eq!(output_contents(&none), "");
}

#[test]
fn run_commands_applies_in_order_and_keeps_explain_output() {
    let mut state = AppState::default();
    let commands = build(&mut state, &["m::b", "explain", "l::b", "a::c"]);
    assert_eq!(count_active_commands(&commands), 3);
    let lines = initial_lines("a\nb\nc");
    let outcome = run_commands(&commands, lines, false, false, &no_tree, &|_: &str| true);
    assert_eq!(outcome.explains.len(), 1);
    assert_eq!(outcome.explains[0].after_command, 1);
    assert_eq!(outcome.explains[0].visible, vec!["b".to_string()]);
    assert!(!outcome.explained_at_end);
    assert_eq!(visible_output(&outcome.lines, false, false), vec!["c".to_string()]);
}

#[test]
fn settings_take_the_command_line_first() {
    let args = vec!["rxedit".to_string(), "--spacer".to_string(), "--grep-shortcodes=x".to_string()];
    assert!(arg_present(&args, "-s", "--spacer"));
    assert!(arg_present(&args, "-g", "--grep-shortcodes"));
    assert!(!arg_present(&args, "-n", "--line-number"));
    assert!(!choose_setting(switch_given(false, true), Some(true), Some(true), true));
    assert!(choose_setting(None, None, Some(true), false));
    assert!(!choose_setting(None, Some(false), Some(true), true));
}

#[test]
fn flag_help_pads_columns_to_the_widest_entry() {
    let flags = [
        FlagDef { name: "after", value: "A\\d+", help: "lines after", example: "A3" },
        FlagDef { name: "fixed", value: "F", help: "fixed string", example: "F" },
    ];
    let text = format_flag_help("Search flags", &flags);
    let expected = "\n## Search flags\n\n\
Name   Format  Example  Description\n\
-----  ----  --  -----------\n\
after  A\\d+  A3  lines after\n\
fixed  F     F   fixed string\n";
    assert_eq!(text, expected);
}

#[test]
fn run_commands_puts_each_confirmation_question_to_the_user() {
    let mut state = AppState::default();
    let commands = build(&mut state, &["m::.", "delete::b::u"]);
    let asked: RefCell<Vec<String>> = RefCell::new(Vec::new());
    let declined = run_commands(&commands, initial_lines("a\nb\nc\nb"), false, false, &no_tree, &|q: &str| {
        asked.borrow_mut().push(q.to_string());
        false
    });
    assert_eq!(asked.borrow().clone(), vec!["delete b".to_string(), "delete b".to_string()]);
    assert_eq!(output_contents(&declined.lines), "a\nb\nc\nb\n");
    let accepted = run_commands(&commands, initial_lines("a\nb\nc\nb"), false, false, &no_tree, &|_: &str| true);
    assert_eq!(output_contents(&accepted.lines), "a\nc\n");
    let mut state = AppState::default();
    let unconfirmed = build(&mut state, &["m::.", "delete::b"]);
    let outcome = run_commands(&unconfirmed, initial_lines("a\nb"), false, false, &no_tree, &|_: &str| -> bool { panic!("no question expected") });
    assert_eq!(output_contents(&outcome.lines), "a\n");
}

#[test]
fn change_rewrites_visible_lines_and_keeps_visibility() {
    let mut state = AppState::default();
    let commands = build(&mut state, &["m::b", "c::b::B"]);
    let outcome = run_commands(&commands, initial_lines("ab\nb\ncb"), false, false, &no_tree, &|_: &str| true);
    let texts: Vec<&str> = outcome.lines.iter().map(|l| l.line.as_str()).collect();
    assert_eq!(texts, vec!["aB", "B", "cB"]);
    assert!(outcome.lines.iter().all(|l| l.visible));
    let mut state = AppState::default();
    let commands = build(&mut state, &["m::a", "c::b::B"]);
    let outcome = run_commands(&commands, initial_lines("ab\nb"), false, false, &no_tree, &|_: &str| true);
    let texts: Vec<&str> = outcome.lines.iter().map(|l| l.line.as_str()).collect();
    assert_eq!(texts, vec!["aB", "b"]);
    assert_eq!(outcome.lines.iter().map(|l| l.visible).collect::<Vec<bool>>(), vec![true, false]);
    assert_eq!(outcome.lines[1].line_number, 2);
}

#[test]
fn topic_help_text_names_known_topics_and_rejects_others() {
    let topics = vec!["all".to_string(), "config".to_string()];
    assert_eq!(
        topic_help_text("bogus", "/h/.config/rxedit/config.toml", &topics),
        Err("Unknown help topic 'bogus'. Available topics: all, config".to_string())
    );
    let config = topic_help_text("config", "/h/c.toml", &topics).expect("config topic");
    assert_eq!(
        config,
        "# Configuration\n\nconfig file: /h/c.toml\nenvironment: rxedit_spacer, rxedit_line_number, rxedit_grep_shortcodes, rxedit_plugins_directory\n"
    );
    let all = topic_help_text("all", "", &topics).expect("all topic");
    assert!(all.starts_with("# all\n\n## Search flags\n"));
    assert_eq!(topic_help_text("macros", "", &topics), Ok("# macros\n".to_string()));
    assert!(topic_help_text("append", "", &topics).expect("append").starts_with("# prepend / append\n"));
    assert!(topic_help_text("user_messages", "", &topics).is_ok());
}

#[test]
fn sample_and_user_messages_topics_carry_their_texts() {
    let topics: Vec<String> = Vec::new();
    let sample = topic_help_text("sample", "", &topics).expect("sample topic");
    assert!(sample.starts_with("# sample\n# Sample Rust file: sample.rs\n\n"));
    assert!(sample.contains("fn make_message() -> String {"));
    let messages = topic_help_text("user_messages", "", &topics).expect("user_messages topic");
    assert_eq!(messages, rxedit::help_tables::format_messages_help(&rxedit::user_messages::all_messages()));
    assert!(messages.contains("RXE-WARN-0002"));
    assert!(messages.contains("does not have an rxedit tree-sitter grammar defined yet"));
}
