use rxedit::common::AppState;
use rxedit::commands::declarations::from_declarations;
use rxedit::telemetry::{clear_telemetry, telemetry_events, NoGrammarNotification, TelemetryEvent};
use rxedit::{make_command, Command};

fn sample_state(file_path: &str) -> AppState {
    let mut state = AppState::default();
    state.config.file_path = file_path.to_string();
    state.config.grep_shortcodes = false;
    state.config.verbose = false;
    state.config.debug = false;
    state
}

#[test]
fn make_command_unrecognized_appends_telemetry() {
    let mut state = sample_state("sample.rs");
    clear_telemetry(&mut state.telemetry);

    let _ = make_command(&mut state, "not-a-command");

    let events = telemetry_events(&state.telemetry);
    assert!(events.iter().any(|event| {
        *event
            == TelemetryEvent::NoopNotification {
                payload: "not-a-command".to_string(),
                received: "not-a-command".to_string(),
                cause: "not understood".to_string(),
            }
    }));
}

#[test]
fn make_command_more_appends_generic_command_notification() {
    let mut state = sample_state("sample.rs");
    clear_telemetry(&mut state.telemetry);

    let cmd = make_command(&mut state, "more::alpha::B2");
    assert!(matches!(cmd, Command::CMore(_)));

    let events = telemetry_events(&state.telemetry);
    let maybe_event = events.into_iter().find(|event| match event {
        TelemetryEvent::GenericCommandNotification {
            name: source,
            arg: payload,
            ..
        } => source == "more" && payload == "more::alpha::B2",
        _ => false,
    });

    let Some(TelemetryEvent::GenericCommandNotification {
        qualifier: _,
        unrecognized,
        ..
    }) = maybe_event
    else {
        panic!("expected generic command telemetry event");
    };

    assert_eq!(unrecognized, "");
}

#[test]
fn from_declarations_unknown_extension_appends_telemetry() {
    let mut state = sample_state("sample.txt");
    clear_telemetry(&mut state.telemetry);

    let cmd = from_declarations(&mut state, "alpha", "wt=f", "d::alpha::wt=f");

    let Command::CNoop(noop) = cmd else {
        panic!("expected CNoop");
    };
    assert_eq!(noop.message, "declarations:  no grammar found for extension=txt".to_string());

    let events = telemetry_events(&state.telemetry);
    assert!(events.into_iter().any(|event| {
        event
            == TelemetryEvent::NoGrammarNotification(NoGrammarNotification {
                extension: "txt".to_string(),
                source: "declarations".to_string(),
                payload: "d::alpha::wt=f".to_string(),
                flags: "wt=f".to_string(),
            })
    }));
}

#[test]
fn explain_text_renders_a_command_description() {
    let event = rxedit::telemetry::TelemetryEvent::GenericCommandNotification {
        name: "more".to_string(),
        arg: "m::b".to_string(),
        qualifier: "q1".to_string(),
        searcher: "s1".to_string(),
        unrecognized: String::new(),
    };
    let text = rxedit::formatters::event_text(&event).expect("renders");
    assert!(text.starts_with("more: m::b"), "{text:?}");
    assert!(text.contains("\n     s1"), "{text:?}");
    assert!(text.contains("\n       q1"), "{text:?}");
    assert!(text.ends_with('\n'));
}

#[test]
fn make_command_lines_reports_one_notification_and_nothing_else() {
    let mut state = rxedit::common::AppState::default();
    let before = rxedit::telemetry::telemetry_events(&state.telemetry).len();
    let _ = rxedit::make_command(&mut state, "lines::2-3");
    let events = rxedit::telemetry::telemetry_events(&state.telemetry);
    assert_eq!(events.len(), before + 1);
    match &events[before] {
        rxedit::telemetry::TelemetryEvent::GenericCommandNotification { name, arg, .. } => {
            assert_eq!(name, "lines");
            assert_eq!(arg, "lines::2-3");
        },
        other => panic!("unexpected event {other:?}"),
    }
}
