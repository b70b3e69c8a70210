use claw_runtime::debug::{DebugCategory, DebugConfig};

#[test]
fn test_debug_config_from_filter_all() {
    let cfg = DebugConfig::from_filter(None).unwrap();
    assert!(cfg.enabled);
    assert!(cfg.categories.contains(&DebugCategory::All));
    // All category means every specific category should pass.
    assert!(cfg.should_log(DebugCategory::Api));
    assert!(cfg.should_log(DebugCategory::Hooks));
    assert!(cfg.should_log(DebugCategory::Tools));
    assert!(cfg.should_log(DebugCategory::Mcp));
    assert!(cfg.should_log(DebugCategory::Config));
    assert!(cfg.should_log(DebugCategory::Permissions));
    assert!(cfg.should_log(DebugCategory::Session));
}

#[test]
fn test_debug_config_from_filter_specific() {
    let cfg = DebugConfig::from_filter(Some("api,tools")).unwrap();
    assert!(cfg.enabled);
    assert!(cfg.categories.contains(&DebugCategory::Api));
    assert!(cfg.categories.contains(&DebugCategory::Tools));
    assert!(!cfg.categories.contains(&DebugCategory::Hooks));
    assert!(!cfg.categories.contains(&DebugCategory::All));
}

#[test]
fn test_debug_config_should_log() {
    // Specific categories only.
    let cfg = DebugConfig::from_filter(Some("mcp,session")).unwrap();
    assert!(cfg.should_log(DebugCategory::Mcp));
    assert!(cfg.should_log(DebugCategory::Session));
    assert!(!cfg.should_log(DebugCategory::Api));
    assert!(!cfg.should_log(DebugCategory::Tools));

    // All category.
    let cfg_all = DebugConfig::from_filter(None).unwrap();
    assert!(cfg_all.should_log(DebugCategory::Api));
    assert!(cfg_all.should_log(DebugCategory::Tools));
}

#[test]
fn test_debug_category_parse() {
    // Valid categories.
    assert_eq!(DebugCategory::parse("api").unwrap(), DebugCategory::Api);
    assert_eq!(DebugCategory::parse("hooks").unwrap(), DebugCategory::Hooks);
    assert_eq!(DebugCategory::parse("tools").unwrap(), DebugCategory::Tools);
    assert_eq!(DebugCategory::parse("mcp").unwrap(), DebugCategory::Mcp);
    assert_eq!(
        DebugCategory::parse("config").unwrap(),
        DebugCategory::Config
    );
    assert_eq!(
        DebugCategory::parse("permissions").unwrap(),
        DebugCategory::Permissions
    );
    assert_eq!(
        DebugCategory::parse("session").unwrap(),
        DebugCategory::Session
    );
    assert_eq!(DebugCategory::parse("all").unwrap(), DebugCategory::All);

    // Case insensitive.
    assert_eq!(DebugCategory::parse("API").unwrap(), DebugCategory::Api);
    assert_eq!(DebugCategory::parse("MCP").unwrap(), DebugCategory::Mcp);

    // Invalid.
    assert!(DebugCategory::parse("bogus").is_err());
    assert!(DebugCategory::parse("").is_err());
}

#[test]
fn test_debug_config_disabled() {
    let cfg = DebugConfig::disabled();
    assert!(!cfg.enabled);
    assert!(!cfg.should_log(DebugCategory::Api));
    assert!(!cfg.should_log(DebugCategory::All));
}

#[test]
fn test_debug_config_empty_filter_error() {
    let result = DebugConfig::from_filter(Some(""));
    assert!(result.is_err());
    assert!(result.unwrap_err().contains("empty debug filter"));
}

#[test]
fn test_debug_config_from_filter_with_whitespace() {
    let cfg = DebugConfig::from_filter(Some(" api , hooks ")).unwrap();
    assert!(cfg.enabled);
    assert!(cfg.categories.contains(&DebugCategory::Api));
    assert!(cfg.categories.contains(&DebugCategory::Hooks));
}

#[test]
fn test_debug_config_invalid_category_in_filter() {
    let result = DebugConfig::from_filter(Some("api,bogus"));
    assert!(result.is_err());
}

#[test]
fn unknown_category_message_names_it_in_lower_case() {
    let err = DebugCategory::parse("BoGuS").unwrap_err();
    assert_eq!(
        err,
        "unknown debug category: bogus (expected: api,hooks,tools,mcp,config,permissions,session,all)"
    );
    let err = DebugConfig::from_filter(Some("api, Nope ,tools")).unwrap_err();
    assert_eq!(
        err,
        "unknown debug category: nope (expected: api,hooks,tools,mcp,config,permissions,session,all)"
    );
}

#[test]
fn filter_of_only_separators_is_empty() {
    let err = DebugConfig::from_filter(Some(" , ,")).unwrap_err();
    assert_eq!(err, "empty debug filter");
}

#[test]
fn all_in_a_filter_logs_every_category() {
    let cfg = DebugConfig::from_filter(Some("hooks,ALL")).unwrap();
    assert!(cfg.should_log(DebugCategory::Api));
    assert!(cfg.should_log(DebugCategory::Permissions));
}

#[test]
fn log_line_formats_enabled_categories_only() {
    let cfg = DebugConfig::from_filter(Some("api")).unwrap();
    assert_eq!(
        cfg.log_line(DebugCategory::Api, "should appear"),
        Some("[DEBUG:Api] should appear".to_string())
    );
    assert_eq!(cfg.log_line(DebugCategory::Hooks, "should be filtered out"), None);
    assert_eq!(DebugCategory::Permissions.label(), "Permissions");
}

#[test]
fn category_set_insert_reports_novelty() {
    let mut cfg = DebugConfig::disabled();
    assert!(cfg.categories.is_empty());
    assert!(cfg.categories.insert(DebugCategory::Mcp));
    assert!(!cfg.categories.insert(DebugCategory::Mcp));
    assert!(!cfg.categories.is_empty());
    assert!(cfg.categories.contains(&DebugCategory::Mcp));
    let copy = cfg.categories.clone();
    assert!(copy.contains(&DebugCategory::Mcp));
    assert!(!copy.contains(&DebugCategory::Api));
}
