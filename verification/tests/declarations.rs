use std::collections::HashMap;

use rxedit::base::{LineStatus, MetaInfo};
use rxedit::commands::declarations::{build_parent_matchers, filter_parent_where, from_declarations};
use rxedit::common::{reset_global_state_for_tests, set_global_config, AppConfig, AppState};
use rxedit::language_api::{Parsed, ParsedDeclarationsData};
use rxedit::{Command, CommandActions};

fn declaration(name: &str, signature_line: usize, parents: Vec<usize>) -> Parsed {
    Parsed::Declarations(ParsedDeclarationsData {
        name: name.to_string(),
        lines_signature: (signature_line, signature_line),
        parents,
        ..Default::default()
    })
}

#[test]
fn filter_parent_where_uses_compiled_fixed_matchers() {
    let mut hashtree = HashMap::new();
    hashtree.insert(10, declaration("WidgetController", 1, vec![]));
    hashtree.insert(20, declaration("render", 3, vec![10]));
    hashtree.insert(30, declaration("skip_render", 5, vec![10]));

    let parent_matchers = build_parent_matchers(&Some(vec!["Widget,-skip".to_string()]), true, false)
        .expect("parent matcher should compile")
        .expect("parent matcher should exist");

    let hits = vec![20, 30];
    let (keeps, parent_indices) = filter_parent_where(&hashtree, &parent_matchers, &hits);

    assert_eq!(keeps, vec![20, 30]);
    assert!(parent_indices.contains(&1));
}

#[test]
fn showowner_for_js_uses_parents_to_include_class_owner() {
    let mut state = AppState::default();
    reset_global_state_for_tests(&mut state);
    set_global_config(
        &mut state,
        AppConfig {
            file_path: "sample.js".to_string(),
            ..Default::default()
        },
    );
    state.plugin_extensions = vec!["js".to_string()];

    let cmd = from_declarations(&mut state, "gree", "o", "d::gree::o");
    let Command::CDeclarations(cdecl) = cmd else {
        panic!("expected CDeclarations");
    };

    let mut hashtree = HashMap::new();
    hashtree.insert(
        0,
        Parsed::Declarations(ParsedDeclarationsData {
            name: "Greeter".to_string(),
            lines_signature: (0, 0),
            type_: "c".to_string(),
            ..Default::default()
        }),
    );
    hashtree.insert(
        1,
        Parsed::Declarations(ParsedDeclarationsData {
            name: "greet".to_string(),
            lines_signature: (1, 1),
            parents: vec![0],
            type_: "f".to_string(),
            ..Default::default()
        }),
    );

    let lines = vec!["class Greeter {", "    greet(name) {", "    }", "}"]
        .into_iter()
        .enumerate()
        .map(|(idx, line)| LineStatus {
            line_number: idx,
            visible: false,
            line: line.to_string(),
            meta: MetaInfo::default(),
        })
        .collect::<Vec<_>>();

    let result = cdecl.apply(lines, &hashtree);
    assert!(result[0].visible);
    assert!(result[1].visible);
}
