use rxedit::base::{LineStatus, MetaInfo};
use rxedit::common::{get_global_config, reset_global_state_for_tests, set_global_config, AppConfig, AppState};

#[test]
fn line_status_meta_defaults() {
    let status = LineStatus::default();

    assert_eq!(status.meta.key, "");
    assert_eq!(status.meta.groupid, 0);
}

#[test]
fn meta_info_defaults() {
    let meta = MetaInfo::default();

    assert_eq!(meta.key, "");
    assert_eq!(meta.groupid, 0);
}

#[test]
fn global_config_defaults_are_available_without_init() {
    let mut state = AppState::default();
    reset_global_state_for_tests(&mut state);

    let config = get_global_config(&state);
    assert!(!config.spacer);
    assert!(!config.line_number);
    assert!(!config.grep_shortcodes);
    assert!(!config.verbose);
    assert!(!config.debug);
    assert_eq!(config.file_path, "");
}

#[test]
fn global_config_can_be_reset_for_tests() {
    let mut state = AppState::default();
    reset_global_state_for_tests(&mut state);

    set_global_config(
        &mut state,
        AppConfig {
            file_path: "sample.rs".to_string(),
            spacer: true,
            line_number: true,
            grep_shortcodes: true,
            verbose: true,
            debug: true,
        },
    );

    let changed = get_global_config(&state);
    assert!(changed.spacer);
    assert!(changed.line_number);
    assert!(changed.grep_shortcodes);
    assert!(changed.verbose);
    assert!(changed.debug);
    assert_eq!(changed.file_path, "sample.rs");

    reset_global_state_for_tests(&mut state);
    let reset = get_global_config(&state);
    assert!(!reset.spacer);
    assert!(!reset.line_number);
    assert!(!reset.grep_shortcodes);
    assert!(!reset.verbose);
    assert!(!reset.debug);
    assert_eq!(reset.file_path, "");
}
