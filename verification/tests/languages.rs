use rxedit::config_utilities::plugin_library_search_paths_from_sources;
use rxedit::language_api::{DefaultLanguageHelper, LanguageHelper, Parsed};
use rxedit::languages::python::HelperPython;
use rxedit::languages::rust::HelperRust;
use rxedit::treesitterparser::{parse_content_to_hashtree, plugin_library_filename, supports_extension_for_parsing, Helper};

#[test]
fn language_api_has_default_parse_content_to_hashtree() {
    let helper = DefaultLanguageHelper;
    let result = helper.parse_content_to_hashtree(b"def hello():\n    return 1\n");
    assert!(result.is_empty());
}

#[test]
fn built_in_helper_implements_phase1_api_boundary() {
    let helper = Helper::Python(HelperPython);
    let result = helper.parse_content_to_hashtree(b"def hello():\n    return 1\n");
    assert!(!result.is_empty());
}

#[test]
fn plugin_discovery_marks_shell_extension_as_supported() {
    let discovered = vec!["sh".to_string()];
    assert!(supports_extension_for_parsing("sh", &discovered));
}

#[test]
fn plugin_library_filename_uses_host_os_extension() {
    assert_eq!(plugin_library_filename("zsh", "macos"), "librxedit_language_zsh.dylib");
    assert_eq!(plugin_library_filename("zsh", "windows"), "librxedit_language_zsh.dll");
    assert_eq!(plugin_library_filename("zsh", "linux"), "librxedit_language_zsh.so");
}

#[test]
fn plugin_paths_prioritize_env_over_config() {
    let paths = plugin_library_search_paths_from_sources(
        Some("/tmp/from-new-env"),
        Some("/tmp/from-config".to_string()),
        None,
    );

    assert_eq!(paths, vec!["/tmp/from-new-env".to_string(), "/tmp/from-config".to_string()]);
}
