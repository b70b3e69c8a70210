use claw_runtime::feature_flags::FeatureFlags;
use claw_runtime::str_map::StrMap;

#[test]
fn test_empty_flags() {
    let flags = FeatureFlags::default();
    assert!(flags.is_empty());
    assert!(flags.all_gates().is_empty());
    assert!(!flags.check_gate("anything"));
}

#[test]
fn test_from_config_file() {
    let flags = FeatureFlags::from_config_text(Some(
        r#"{ "gates": { "dark_mode": true, "beta_ui": false } }"#,
    ));
    assert!(!flags.is_empty());
    assert!(flags.check_gate("dark_mode"));
    assert!(!flags.check_gate("beta_ui"));
}

#[test]
fn test_load_with_overrides() {
    let flags = FeatureFlags::load_with_overrides(
        Some(r#"{ "gates": { "feat_a": true, "feat_b": false } }"#),
        Some(r#"{ "gates": { "feat_b": true, "feat_c": true } }"#),
    );
    assert!(flags.check_gate("feat_a")); // from base
    assert!(flags.check_gate("feat_b")); // overridden to true
    assert!(flags.check_gate("feat_c")); // from override only
}

#[test]
fn test_missing_file_returns_empty() {
    let flags = FeatureFlags::from_config_text(None);
    assert!(flags.is_empty());
}

#[test]
fn test_check_gate_default_false() {
    let flags = FeatureFlags::from_config_text(Some(r#"{ "gates": { "known": true } }"#));
    assert!(!flags.check_gate("unknown_gate"));
}

#[test]
fn test_malformed_json_returns_empty() {
    let flags = FeatureFlags::from_config_text(Some("{{ not valid json"));
    assert!(flags.is_empty());
}

#[test]
fn non_boolean_gates_and_missing_gates_object_are_ignored() {
    let flags = FeatureFlags::from_json_text(r#"{ "gates": { "a": 1, "b": "yes", "c": true } }"#);
    assert_eq!(flags.all_gates().len(), 1);
    assert!(flags.check_gate("c"));
    assert!(!flags.check_gate("a"));
    let none = FeatureFlags::from_json_text(r#"{ "other": { "c": true } }"#);
    assert!(none.is_empty());
    let not_object = FeatureFlags::from_json_text(r#"{ "gates": [true] }"#);
    assert!(not_object.is_empty());
}

#[test]
fn override_false_turns_a_gate_off() {
    let mut base = FeatureFlags::from_json_text(r#"{ "gates": { "x": true, "y": true } }"#);
    let over = FeatureFlags::from_json_text(r#"{ "gates": { "x": false } }"#);
    base.apply_overrides(over);
    assert!(!base.check_gate("x"));
    assert!(base.check_gate("y"));
    let unchanged = FeatureFlags::load_with_overrides(Some(r#"{ "gates": { "x": true } }"#), None);
    assert!(unchanged.check_gate("x"));
}

#[test]
fn gates_are_listed_in_key_order() {
    let flags = FeatureFlags::from_json_text(
        r#"{ "gates": { "zeta": true, "alpha": false, "Mid": true, "al": true } }"#,
    );
    let names: Vec<&str> = flags.all_gates().entries().iter().map(|(k, _)| k.as_str()).collect();
    assert_eq!(names, vec!["Mid", "al", "alpha", "zeta"]);
}

#[test]
fn str_map_insert_replaces_and_orders() {
    let mut m: StrMap<bool> = StrMap::new();
    m.insert("b".to_string(), true);
    m.insert("a".to_string(), false);
    m.insert("b".to_string(), false);
    assert_eq!(m.len(), 2);
    assert_eq!(m.get("a"), Some(&false));
    assert_eq!(m.get("b"), Some(&false));
    assert_eq!(m.get("c"), None);
    let keys: Vec<&str> = m.entries().iter().map(|(k, _)| k.as_str()).collect();
    assert_eq!(keys, vec!["a", "b"]);
}
