use rxedit::commands::macros::{macro_ref, MacroRef};
use rxedit::config_utilities::{expand_tilde_path, read_env_config, user_config_path_display};
use rxedit::formatters::{describe_event, EventDisplay};
use rxedit::language_api::Parsed;
use rxedit::loader_for_constants::{get_optional, merge_nested_maps, resolve, try_resolve, ConfigValue, LoadedConstants};
use rxedit::telemetry::TelemetryEvent;
use rxedit::treesitterparser::parse_content_to_hashtree;
use rxedit::user_messages::{declarations_hashtree_key_not_found, treesitter_name_field_missing};
use rxedit::utilities::{parse_commands_text, split_name_negation_regex, try_split_name_negation_regex};
use rxedit::expand_macros;

fn decl_name(p: &Parsed) -> String {
    p.as_declarations().expect("declaration").name.clone()
}

#[test]
fn python_hashtree_keys_declarations_by_start_line() {
    let source = b"class A:\n    def f(self):\n        return 1\n";
    let tree = parse_content_to_hashtree(source, "py");
    assert_eq!(decl_name(&tree[&0]), "A");
    assert_eq!(decl_name(&tree[&1]), "f");
    let f = tree[&1].as_declarations().unwrap();
    assert_eq!(f.parents, vec![0]);
    assert_eq!(f.type_, "function_definition");
    assert_eq!(f.signature, "def f(self):         return 1");
    assert_eq!(f.lines_signature, (1, 1));
    assert_eq!(f.lines_body, Some((2, 2)));
}

#[test]
fn python_imports_split_dotted_names() {
    let source = b"import os.path\nfrom a.b import c\n";
    let tree = parse_content_to_hashtree(source, "py");
    let first = tree[&0].as_imports().expect("import");
    assert_eq!(first.names, vec!["os".to_string(), "path".to_string()]);
    let second = tree[&1].as_imports().expect("import");
    assert_eq!(second.names, vec!["a".to_string(), "b".to_string()]);
    assert_eq!(second.body, "from a.b import c");
}

#[test]
fn rust_hashtree_names_imports_and_impls() {
    let source = b"use std::collections::HashMap;\nmod foo;\nimpl Display for X {}\nfn main() {}\nuse super::x;\n";
    let tree = parse_content_to_hashtree(source, "rs");
    let import = tree[&0].as_imports().expect("use import");
    assert_eq!(import.names, vec!["std".to_string(), "collections".to_string()]);
    let module = tree[&1].as_imports().expect("mod import");
    assert_eq!(module.names, vec!["foo".to_string()]);
    assert_eq!(decl_name(&tree[&2]), "Display for X");
    assert_eq!(decl_name(&tree[&3]), "main");
    assert!(!tree.contains_key(&4));
}

#[test]
fn unknown_extension_gives_empty_hashtree() {
    let tree = parse_content_to_hashtree(b"anything", "txt");
    assert!(tree.is_empty());
}

#[test]
fn commands_text_unquotes_then_trims() {
    let content = "'m::a'\n# comment\n\n  \"a::b\"  \r\nexplain";
    let commands = parse_commands_text(content);
    assert_eq!(commands, vec!["m::a".to_string(), "\"a::b\"".to_string(), "explain".to_string()]);
}

#[test]
fn macro_ref_reads_the_file_field() {
    assert!(matches!(macro_ref("macro::cmds.txt"), MacroRef::File(p) if p == "cmds.txt"));
    assert!(matches!(macro_ref("macro::cmds.txt::x"), MacroRef::File(p) if p == "cmds.txt"));
    assert!(matches!(macro_ref("macro::a::b::c"), MacroRef::Malformed));
    assert!(matches!(macro_ref("m::macro"), MacroRef::Plain));
}

#[test]
fn expand_macros_puts_loaded_commands_after_their_macro() {
    let args = vec!["m::x".to_string(), "macro::f".to_string(), "a::y".to_string()];
    let loaded = vec![Some(vec!["ignored".to_string()]), Some(vec!["l::1".to_string(), "o".to_string()]), None];
    let expanded = expand_macros(&args, &loaded);
    assert_eq!(
        expanded,
        vec!["m::x".to_string(), "macro::f".to_string(), "l::1".to_string(), "o".to_string(), "a::y".to_string()]
    );
}

#[test]
fn env_config_reads_booleans_and_reports_the_first_bad_one() {
    let c = read_env_config(Some(" Yes "), None, Some("0")).expect("valid values");
    assert_eq!(c.spacer, Some(true));
    assert_eq!(c.line_number, None);
    assert_eq!(c.grep_shortcodes, Some(false));
    let e = read_env_config(None, Some("Maybe "), Some("nope")).expect_err("bad value");
    assert_eq!(
        e,
        "Invalid boolean value 'maybe' for env var rxedit_line_number. Use one of: true/false, 1/0, yes/no, on/off"
    );
}

#[test]
fn config_paths_use_home_when_known() {
    assert_eq!(user_config_path_display(Some("/home/u")), "/home/u/.config/rxedit/config.toml");
    assert_eq!(user_config_path_display(None), "~/.config/rxedit/config.toml");
    assert_eq!(expand_tilde_path("~/plugins", Some("/h/")), "/h/plugins");
    assert_eq!(expand_tilde_path("~", Some("/h")), "/h");
    assert_eq!(expand_tilde_path("~/plugins", None), "~/plugins");
}

#[test]
fn user_messages_are_coded() {
    assert_eq!(declarations_hashtree_key_not_found(42), "[RXE-ERR-0001] hashtree_key=42 not found");
    assert_eq!(
        treesitter_name_field_missing("impl_item", "impl X"),
        "[RXE-WARN-0002] Could not find name field for node kind: impl_item : impl X"
    );
}

fn value(section: &str, entry: &str, attr: &str, v: &str) -> ConfigValue {
    ConfigValue { section: section.to_string(), entry: entry.to_string(), attr: attr.to_string(), value: v.to_string() }
}

#[test]
fn loaded_constants_prefer_later_values() {
    let base = vec![value("commandflags", "AFTER", "value", "A"), value("commandflags", "B", "value", "b")];
    let overlay = vec![value("commandflags", "AFTER", "value", "Z")];
    let constants = LoadedConstants { values: merge_nested_maps(base, overlay), topics: vec![] };
    assert_eq!(get_optional(&constants, "commandflags", "AFTER", "value"), Some("Z".to_string()));
    assert_eq!(resolve(&constants, "commandflags.B.value"), "b".to_string());
    assert_eq!(try_resolve(&constants, "commandflags.B.value"), Ok("b".to_string()));
    assert_eq!(
        try_resolve(&constants, "commandflags.B"),
        Err("Invalid config path 'commandflags.B': expected format 'section.entry.attribute' (got 2 parts)".to_string())
    );
    assert_eq!(
        try_resolve(&constants, "a.b.c"),
        Err("Missing required config key 'a.b.c' in merged config".to_string())
    );
}

#[test]
fn noop_event_is_shown_with_its_cause() {
    let event = TelemetryEvent::NoopNotification {
        payload: "p".to_string(),
        received: "x::y".to_string(),
        cause: "not understood".to_string(),
    };
    let EventDisplay::Text(text) = describe_event(&event) else {
        panic!("expected text");
    };
    assert_eq!(text, "\nx::y => [no-operation] so buffer passthrough.  Caused by: not understood.  \n\n");
}

#[test]
fn name_negation_regexes_join_alternatives() {
    let (keep, skip) = try_split_name_negation_regex("Url,Uri--^_").expect("both compile");
    assert_eq!(keep.as_str(), "Url|Uri");
    assert_eq!(skip.expect("skip part").as_str(), "^_");
    let (keep, skip) = split_name_negation_regex("main");
    assert_eq!(keep.as_str(), "main");
    assert!(skip.is_none());
    assert!(try_split_name_negation_regex("(open").is_none());
}

#[test]
fn command_fields_join_back_with_separators() {
    for text in ["", "m::", "declarations", "a:::b", "c::x::y::a", "x:"] {
        let fields = rxedit::split_command_fields(text);
        assert!(!fields.is_empty());
        assert_eq!(fields.join("::"), text);
        assert!(fields.iter().all(|f| !f.contains("::")));
    }
    assert_eq!(rxedit::split_command_fields("m::"), vec!["m".to_string(), String::new()]);
    assert_eq!(rxedit::split_command_fields(""), vec![String::new()]);
}
