use cava_bg::output_match::{
    eq_ignore_ascii_case, find_best_output_override, match_output_override, pattern_specificity,
    resolve_output_override, score_pattern, wildcard_matches, OutputDescriptor, OutputOverrideConfig,
    OutputResolution,
};

fn descriptor(name: &str, connector: Option<&str>, index: Option<u32>) -> OutputDescriptor {
    OutputDescriptor {
        name: name.to_string(),
        connector: connector.map(|c| c.to_string()),
        index,
    }
}

fn selector(enabled: Option<bool>, name: Option<&str>, connector: Option<&str>, index: Option<u32>) -> OutputOverrideConfig {
    OutputOverrideConfig {
        enabled,
        name: name.map(|n| n.to_string()),
        connector: connector.map(|c| c.to_string()),
        index,
    }
}

#[test]
fn wildcard_star_matches_everything() {
    assert!(wildcard_matches("*", "DP-1"));
    assert!(wildcard_matches("*", ""));
    assert!(wildcard_matches("*", "*"));
    assert!(wildcard_matches("  *  ", "HDMI-A-1"));
}

#[test]
fn wildcard_star_takes_a_leading_star_literally() {
    // The pattern's `*` first matches the text's `*` as a plain byte and
    // never falls back to it as a wildcard.
    assert!(!wildcard_matches("*", "*x"));
}

#[test]
fn wildcard_blank_pattern_matches_nothing() {
    assert!(!wildcard_matches("", "DP-1"));
    assert!(!wildcard_matches("   ", ""));
}

#[test]
fn wildcard_question_mark_takes_one_byte() {
    assert!(wildcard_matches("DP-?", "DP-1"));
    assert!(!wildcard_matches("DP-?", "DP-12"));
    assert!(!wildcard_matches("DP-?", "DP-"));
}

#[test]
fn wildcard_prefix_and_infix_stars() {
    assert!(wildcard_matches("HDMI-*", "HDMI-A-1"));
    assert!(wildcard_matches("*-A-*", "HDMI-A-1"));
    assert!(!wildcard_matches("HDMI-*", "DP-1"));
    assert!(wildcard_matches("D*1", "DP-1"));
    assert!(!wildcard_matches("D*2", "DP-1"));
}

#[test]
fn wildcard_without_star_is_case_insensitive_match() {
    assert!(wildcard_matches("eDP-1", "eDP-1"));
    assert!(wildcard_matches("eDP-1", "EDP-1"));
    assert!(!wildcard_matches("eDP-1", "eDP-2"));
    assert!(!wildcard_matches("eDP-1", "eDP-10"));
}

#[test]
fn specificity_weights_each_character() {
    assert_eq!(pattern_specificity("*"), 0);
    assert_eq!(pattern_specificity("?"), 1);
    assert_eq!(pattern_specificity("DP-1"), 12);
    assert_eq!(pattern_specificity("DP-?"), 10);
    assert_eq!(pattern_specificity("DP-*"), 9);
    assert_eq!(pattern_specificity(""), 0);
}

#[test]
fn score_is_specificity_on_match_only() {
    assert_eq!(score_pattern("DP-*", "DP-2"), Some(9));
    assert_eq!(score_pattern("DP-*", "HDMI-A-1"), None);
}

#[test]
fn ascii_case_insensitive_equality() {
    assert!(eq_ignore_ascii_case("DP-1", "dp-1"));
    assert!(!eq_ignore_ascii_case("DP-1", "DP-2"));
    assert!(!eq_ignore_ascii_case("DP-1", "DP-10"));
}

#[test]
fn override_score_adds_selector_bonuses() {
    let d = descriptor("DP-1", Some("DP-1"), Some(0));
    // key "DP-1": specificity 12, plus 1000 for the exact (case-insensitive) name.
    assert_eq!(match_output_override("DP-1", &selector(None, None, None, None), &d), Some(1012));
    // name selector: 100 + 12.
    assert_eq!(match_output_override("*", &selector(None, Some("DP-1"), None, None), &d), Some(112));
    // connector selector: 70 + 9.
    assert_eq!(match_output_override("*", &selector(None, None, Some("DP-*"), None), &d), Some(79));
    // index selector: 40.
    assert_eq!(match_output_override("*", &selector(None, None, None, Some(0)), &d), Some(40));
}

#[test]
fn override_rejects_failed_selectors() {
    let d = descriptor("DP-1", None, Some(1));
    assert_eq!(match_output_override("HDMI-*", &selector(None, None, None, None), &d), None);
    assert_eq!(match_output_override("*", &selector(None, Some("HDMI-*"), None, None), &d), None);
    // A connector selector needs a connector.
    assert_eq!(match_output_override("*", &selector(None, None, Some("*"), None), &d), None);
    assert_eq!(match_output_override("*", &selector(None, None, None, Some(0)), &d), None);
}

#[test]
fn best_override_is_highest_score() {
    let d = descriptor("DP-1", Some("DP-1"), None);
    let entries = vec![
        ("*".to_string(), selector(None, None, None, None)),
        ("DP-1".to_string(), selector(None, None, None, None)),
        ("DP-*".to_string(), selector(None, None, None, None)),
    ];
    assert_eq!(find_best_output_override(&entries, &d), Some(1));
}

#[test]
fn best_override_takes_last_among_ties() {
    let d = descriptor("DP-1", None, None);
    let entries = vec![
        ("DP-?".to_string(), selector(None, None, None, None)),
        ("D?-1".to_string(), selector(None, None, None, None)),
        ("HDMI-*".to_string(), selector(None, None, None, None)),
    ];
    assert_eq!(find_best_output_override(&entries, &d), Some(1));
}

#[test]
fn best_override_none_without_match() {
    let d = descriptor("DP-1", None, None);
    let entries = vec![("HDMI-*".to_string(), selector(None, None, None, None))];
    assert_eq!(find_best_output_override(&entries, &d), None);
    assert_eq!(find_best_output_override(&[], &d), None);
}

#[test]
fn disabled_best_override_disables_output() {
    let d = descriptor("DP-1", None, None);
    let entries = vec![
        ("*".to_string(), selector(Some(true), None, None, None)),
        ("DP-1".to_string(), selector(Some(false), None, None, None)),
    ];
    assert_eq!(resolve_output_override(&entries, &d), OutputResolution::Disabled);
}

#[test]
fn enabled_or_unset_override_applies() {
    let d = descriptor("DP-2", None, None);
    let entries = vec![
        ("DP-1".to_string(), selector(Some(false), None, None, None)),
        ("DP-*".to_string(), selector(None, None, None, None)),
    ];
    assert_eq!(resolve_output_override(&entries, &d), OutputResolution::Enabled(Some(1)));
    let none = descriptor("HDMI-A-1", None, None);
    assert_eq!(resolve_output_override(&entries, &none), OutputResolution::Enabled(None));
}
