use std::collections::HashMap;

use rxedit::common::{set_global_config, AppConfig, AppState};
use rxedit::language_api::Parsed;
use rxedit::pipeline::{initial_lines, run_commands, visible_output};
use rxedit::treesitterparser::parse_content_to_hashtree;
use rxedit::commands_factory;

const RS_SAMPLE: &str = r#"use log::debug;

trait Greeter {
    fn greet(&self, name: &str) -> String;
}

struct HelloApp;

impl Greeter for HelloApp {
    fn greet(&self, name: &str) -> String {
        format!("Hello, {name}!")
    }
}

fn make_message() -> String {
    let app = HelloApp;
    app.greet("world")
}

fn print_message(message: &str) {
    println!("{message}");
}

/// a doc 
fn fixture_signature_with_colon_colon_in_body() {
    // and a comment
    let marker = "::B5";
    debug!("yo!")
    println!("{marker}");
}

fn main() {
    let message = make_message();
    print_message(&message);
}

mod tests {
    fn always_pass_message(){
        println!("always passing");
    }
}"#;

const RS_IMPORT_SAMPLE: &str = r#"pub mod commands;
use crate::common::CommandQualifier;
pub use commands::all::CAll;
use enum_dispatch::enum_dispatch;
use regex::{Regex, RegexBuilder};
use std::collections::HashMap;
use std::{collections,path};
use crate::common::{GrepCommandQualifier,LineStatus};
use crate::constants as c;
mod tests {
    use super::preformat;
}
"#;

/// What the program prints for `args` run on a Rust file with `contents`.
fn run_rust(contents: &str, args: &[&str], line_numbers: bool) -> Vec<String> {
    let mut state = AppState::default();
    set_global_config(
        &mut state,
        AppConfig {
            file_path: "sample.rs".to_string(),
            spacer: false,
            line_number: line_numbers,
            grep_shortcodes: false,
            verbose: false,
            debug: false,
        },
    );
    let args: Vec<String> = args.iter().map(|a| a.to_string()).collect();
    let loaded: Vec<Option<Vec<String>>> = vec![None; args.len()];
    let commands = commands_factory(&mut state, &args, &loaded);
    let parse = |text: &str| -> HashMap<usize, Parsed> { parse_content_to_hashtree(text.as_bytes(), "rs") };
    let outcome = run_commands(&commands, initial_lines(contents), false, line_numbers, &parse, &|_: &str| true);
    visible_output(&outcome.lines, false, line_numbers)
}

#[test]
fn test_prepend_inserts_before_matching_line() {
    let out = run_rust(RS_SAMPLE, &["all", "prepend::fn make_message::// inserted before make_message::F"], false);
    let target_idx = out
        .iter()
        .position(|line| line.contains("fn make_message() -> String"))
        .expect("missing target function line");
    assert!(target_idx > 0, "inserted line should be before function");
    assert_eq!(out[target_idx - 1], "// inserted before make_message");
}

#[test]
fn test_rs_sample_declare_fixture_signature_with_colon_colon_in_body() {
    let out = run_rust(RS_SAMPLE, &["d::fixture_signature_with_colon_colon_in_body"], false);
    assert_eq!(out.len(), 1, "expected exactly one line (signature only)\nstdout={:?}", out);
    assert!(out[0].contains("fn fixture_signature_with_colon_colon_in_body"));
}

#[test]
fn sample_rs_declare_body_make_message() {
    let out = run_rust(RS_SAMPLE, &["d::make_message::b"], false);
    assert!(out.iter().any(|line| line.contains("fn make_message")), "stdout={:?}", out);
    assert!(out.iter().any(|line| line.contains("app.greet(\"world\")")), "stdout={:?}", out);
}

#[test]
fn test_import_rust_grouped_import_drops_group_side() {
    let out = run_rust(RS_IMPORT_SAMPLE, &["i::collections"], false);
    assert_eq!(out.len(), 1, "stdout={:?}", out);
    assert!(out[0].contains("use std::collections::HashMap;"));
}

#[test]
fn test_import_rust_matches_multiple_common_lines() {
    let out = run_rust(RS_IMPORT_SAMPLE, &["i::common"], false);
    assert_eq!(out.len(), 2, "stdout={:?}", out);
    assert!(out.iter().any(|line| line.contains("use crate::common::CommandQualifier;")));
    assert!(out.iter().any(|line| line.contains("use crate::common::{GrepCommandQualifier,LineStatus};")));
}

#[test]
fn test_import_rust_pub_mod_and_pub_use_both_match_commands() {
    let out = run_rust(RS_IMPORT_SAMPLE, &["i::commands"], false);
    assert_eq!(out.len(), 2, "stdout={:?}", out);
    assert!(out.iter().any(|line| line.contains("pub mod commands;")));
    assert!(out.iter().any(|line| line.contains("pub use commands::all::CAll;")));
}

#[test]
fn test_import_rust_super_import_is_not_added_to_hashtree() {
    let out = run_rust(RS_IMPORT_SAMPLE, &["i::preformat"], false);
    assert_eq!(out.len(), 0, "stdout={:?}", out);
}

#[test]
fn test_delete_basic() {
    let out = run_rust(RS_SAMPLE, &["a::", "delete::print_"], false);
    assert!(!out.iter().any(|line| line.contains("print_")), "stdout={:?}", out);
    assert!(out.iter().any(|line| line.contains("fn ")), "stdout={:?}", out);
}

#[test]
fn test_invert_alone_flips_initial_hidden_to_visible() {
    let out = run_rust(RS_SAMPLE, &["invert"], false);
    assert_eq!(out.len(), RS_SAMPLE.lines().count());
}

#[test]
fn test_invert_after_all_hides_hits_and_shows_non_hits() {
    let out = run_rust(RS_SAMPLE, &["a::greet", "invert"], false);
    assert!(!out.is_empty());
    assert!(!out.iter().any(|line| line.contains("greet")), "stdout={:?}", out);
}

#[test]
fn test_delete_case_insensitive() {
    let out = run_rust(RS_SAMPLE, &["a::", "delete::GREET::i"], false);
    assert!(!out.iter().any(|line| line.to_lowercase().contains("greet")), "stdout={:?}", out);
}

#[test]
fn test_delete_preserves_line_numbers() {
    let out = run_rust(RS_SAMPLE, &["a::", "delete::print_"], true);
    let numbered = out
        .iter()
        .filter(|line| line.len() > 6 && line[0..6].chars().all(|c| c.is_ascii_digit()))
        .count();
    assert!(numbered > 0, "stdout={:?}", out);
    assert!(out.iter().any(|line| line.starts_with("000015 fn make_message")), "stdout={:?}", out);
}

#[test]
fn deleting_twice_removes_no_more_than_once() {
    let once = run_rust(RS_SAMPLE, &["a::", "delete::print_"], false);
    let twice = run_rust(RS_SAMPLE, &["a::", "delete::print_", "delete::print_"], false);
    assert_eq!(once, twice);
    assert_eq!(once.len(), RS_SAMPLE.lines().count() - 2);
}
