use rxedit::base::{GrepCommandQualifier, LineStatus, MetaInfo};
use rxedit::common::AppConfig;
use rxedit::constants::commandflags;
use rxedit::flag_utilities::return_match_and_consume;
use rxedit::regexes::CompiledRegex;

fn make_line_with_key(key: &str) -> LineStatus {
    LineStatus {
        meta: MetaInfo {
            key: key.to_string(),
            ..Default::default()
        },
        ..Default::default()
    }
}

fn after_regex() -> CompiledRegex {
    CompiledRegex::new(commandflags::AFTER_CONTEXT_VALUE, false).expect("after-context flag pattern")
}

#[test]
fn return_match_and_consume_no_match() {
    let tosearch = "iFG";
    let (unconsumed, match_) = return_match_and_consume(&after_regex(), tosearch);

    assert_eq!(unconsumed, tosearch);
    assert_eq!(match_, "");
}

#[test]
fn build_parses_after_and_before_counters() {
    let (qualifier, unconsumed) = GrepCommandQualifier::build("A3B2XY");
    assert_eq!(qualifier.after, 3);
    assert_eq!(qualifier.before, 2);
    assert_eq!(unconsumed, "XY");
}

#[test]
fn build_parses_context_counter_for_both_sides() {
    let (qualifier, unconsumed) = GrepCommandQualifier::build("C4XY");
    assert_eq!(qualifier.after, 4);
    assert_eq!(qualifier.before, 4);
    assert_eq!(unconsumed, "XY");
}

#[test]
fn build_parses_insentive_to_regexflags() {
    let (qualifier, unconsumed) = GrepCommandQualifier::build("C4XYi");
    assert_eq!(qualifier.after, 4);
    assert_eq!(qualifier.before, 4);
    assert_eq!(unconsumed, "XY");
    assert_eq!(qualifier.regex_flags, Some("i".to_string()));
}

#[test]
fn build_parses_fixed_string_flag() {
    let (qualifier, unconsumed) = GrepCommandQualifier::build("FXY");
    assert!(qualifier.fixed_string);
    assert_eq!(unconsumed, "XY");
}

#[test]
fn build_defaults_when_empty() {
    let (qualifier, unconsumed) = GrepCommandQualifier::build("");
    assert_eq!(qualifier.after, 0);
    assert_eq!(qualifier.before, 0);
    assert!(!qualifier.fixed_string);
    assert_eq!(unconsumed, "");
}

#[test]
fn build_unconsumed_passthrough() {
    let (qualifier, unconsumed) = GrepCommandQualifier::build("iXYZ");
    assert_eq!(qualifier.after, 0);
    assert_eq!(qualifier.before, 0);
    assert_eq!(unconsumed, "XYZ");
}

#[test]
fn build_with_delete_flags_does_not_consume_context_flags() {
    let (qualifier, unconsumed) =
        GrepCommandQualifier::build_with_flags("XY", &commandflags::delete_flags(), &AppConfig::default());
    assert_eq!(qualifier.after, 0);
    assert_eq!(qualifier.before, 0);
    assert_eq!("XY", unconsumed);
}

#[test]
fn build_with_delete_flags_still_consumes_supported_flags() {
    let (qualifier, unconsumed) =
        GrepCommandQualifier::build_with_flags("FiNXY", &commandflags::delete_flags(), &AppConfig::default());
    assert!(qualifier.fixed_string);
    assert!(!qualifier.showowner);
    assert_eq!(qualifier.regex_flags, Some("i".to_string()));
    assert_eq!("NXY", unconsumed);
}

#[test]
fn build_parses_showowner_flag() {
    let (qualifier, unconsumed) = GrepCommandQualifier::build("oXY");
    assert!(qualifier.showowner);
    assert_eq!(unconsumed, "XY");
}

#[test]
fn build_parses_setkey_flag() {
    let (qualifier, unconsumed) = GrepCommandQualifier::build("sk=exc.XY");
    assert_eq!(qualifier.set_key, Some("exc".to_string()));
    assert_eq!(unconsumed, "XY");
}

#[test]
fn build_parses_setkey_flag_at_end_of_string() {
    let (qualifier, unconsumed) = GrepCommandQualifier::build("sk=exc");
    assert_eq!(qualifier.set_key, Some("exc".to_string()));
    assert_eq!(unconsumed, "");
}

#[test]
fn build_setkey_absent_gives_none() {
    let (qualifier, _) = GrepCommandQualifier::build("iXY");
    assert_eq!(qualifier.set_key, None);
}

#[test]
fn build_parses_wherekey_flag() {
    let (qualifier, unconsumed) = GrepCommandQualifier::build("wk=priv.XY");
    let matching = make_line_with_key("priv");
    let non_matching = make_line_with_key("other");
    assert!(qualifier.conditions_checker.check(&matching));
    assert!(!qualifier.conditions_checker.check(&non_matching));
    assert_eq!(unconsumed, "XY");
}

#[test]
fn build_parses_wherekey_flag_at_end_of_string() {
    let (qualifier, unconsumed) = GrepCommandQualifier::build("wk=priv");
    let matching = make_line_with_key("priv");
    assert!(qualifier.conditions_checker.check(&matching));
    assert_eq!(unconsumed, "");
}

#[test]
fn build_with_delete_flags_parses_wherekey_flag() {
    let (qualifier, unconsumed) =
        GrepCommandQualifier::build_with_flags("wk=priv.XY", &commandflags::delete_flags(), &AppConfig::default());
    let matching = make_line_with_key("priv");
    let non_matching = make_line_with_key("other");
    assert!(qualifier.conditions_checker.check(&matching));
    assert!(!qualifier.conditions_checker.check(&non_matching));
    assert_eq!(unconsumed, "XY");
}

#[test]
fn return_match_and_consume_match() {
    let tosearch = "iFA10G";
    let (unconsumed, match_) = return_match_and_consume(&after_regex(), tosearch);

    assert_eq!(unconsumed, "iFG");
    assert_eq!(match_, "A10");
}
