use secret_squirrel::config::Config;

#[test]
fn test_empty_config() {
    let config = Config::default();
    assert!(config.patterns.is_empty());
    assert!(config.ignore_patterns.is_none());
    assert!(config.ignore_paths.is_none());
}

use secret_squirrel::config::{default_ignore_behavior, ConfigError, Pattern, SeverityLevel};

fn rule(regex: &str, severity: &str) -> Pattern {
    Pattern { description: Some("d".into()), regex: regex.into(), severity: severity.into() }
}

fn list(items: &[&str]) -> Option<Vec<String>> {
    Some(items.iter().map(|s| s.to_string()).collect())
}

#[test]
fn the_default_behaviour_word_is_merge() {
    assert_eq!(default_ignore_behavior(), "merge");
    let config = Config::default();
    assert_eq!(config.ignore_pattern_behavior, "");
    assert!(config.severity.is_none());
    assert!(config.computed_severity.is_none());
    assert!(config.get_effective_severity().is_none());
}

#[test]
fn a_merge_appends_the_local_lists() {
    let mut base = Config::default();
    base.ignore_patterns = list(&["TEST_.*"]);
    base.ignore_paths = list(&["tests/*"]);
    base.ignore_pattern_behavior = "merge".into();
    base.ignore_paths_behavior = "merge".into();
    let mut local = Config::default();
    local.ignore_patterns = list(&["DUMMY_.*"]);
    local.ignore_paths = list(&["examples/*"]);
    local.ignore_pattern_behavior = "merge".into();
    local.ignore_paths_behavior = "merge".into();
    base.patterns.insert("a".into(), rule("a", "low"));
    local.patterns.insert("b".into(), rule("b", "low"));

    base.merge_config(&local);
    assert_eq!(base.ignore_patterns, list(&["TEST_.*", "DUMMY_.*"]));
    assert_eq!(base.ignore_paths, list(&["tests/*", "examples/*"]));
    assert_eq!(base.ignore_pattern_behavior, "merge");
    // rules are not touched by a merge
    assert_eq!(base.patterns.len(), 1);
    assert!(base.patterns.contains_key("a"));
}

#[test]
fn a_replace_takes_the_local_list_alone_and_each_list_chooses_for_itself() {
    let mut base = Config::default();
    base.ignore_patterns = list(&["TEST_.*"]);
    base.ignore_paths = list(&["tests/*"]);
    base.ignore_pattern_behavior = "merge".into();
    base.ignore_paths_behavior = "merge".into();
    let mut local = Config::default();
    local.ignore_patterns = list(&["DUMMY_.*"]);
    local.ignore_paths = list(&["examples/*"]);
    local.ignore_pattern_behavior = "replace".into();
    local.ignore_paths_behavior = "merge".into();

    base.merge_config(&local);
    assert_eq!(base.ignore_patterns, list(&["DUMMY_.*"]));
    assert_eq!(base.ignore_paths, list(&["tests/*", "examples/*"]));
    assert_eq!(base.ignore_pattern_behavior, "replace");
    assert_eq!(base.ignore_paths_behavior, "merge");
}

#[test]
fn a_replace_asked_for_by_the_base_alone_does_not_replace() {
    let mut base = Config::default();
    base.ignore_paths = list(&["tests/*"]);
    base.ignore_paths_behavior = "replace".into();
    let mut local = Config::default();
    local.ignore_paths = list(&["examples/*"]);
    local.ignore_paths_behavior = "merge".into();
    base.merge_config(&local);
    assert_eq!(base.ignore_paths, list(&["tests/*", "examples/*"]));
    assert_eq!(base.ignore_paths_behavior, "replace");
}

#[test]
fn a_missing_local_list_leaves_the_base_list() {
    let mut base = Config::default();
    base.ignore_patterns = list(&["TEST_.*"]);
    let mut local = Config::default();
    local.ignore_pattern_behavior = "replace".into();
    local.ignore_paths = list(&["examples/*"]);
    base.merge_config(&local);
    assert_eq!(base.ignore_patterns, list(&["TEST_.*"]));
    // a local list is merged into a missing base list
    assert_eq!(base.ignore_paths, list(&["examples/*"]));
}

#[test]
fn loading_lays_the_local_configuration_over_the_base() {
    let mut base = Config::default();
    base.severity = Some("medium".into());
    base.ignore_paths = list(&["tests/*"]);
    let mut local = Config::default();
    local.severity = Some("Critical".into());
    local.ignore_paths = list(&["examples/*"]);

    let loaded = Config::load_with_path(Ok(base), Ok(local)).unwrap();
    assert_eq!(loaded.severity, Some("Critical".to_string()));
    assert_eq!(loaded.computed_severity, Some(SeverityLevel::Critical));
    assert_eq!(loaded.get_effective_severity(), Some(&SeverityLevel::Critical));
    assert_eq!(loaded.ignore_paths, list(&["tests/*", "examples/*"]));
}

#[test]
fn loading_without_a_local_severity_keeps_the_base_severity() {
    let mut base = Config::default();
    base.severity = Some("HIGH".into());
    let loaded = Config::load_with_path(Ok(base), Ok(Config::default())).unwrap();
    assert_eq!(loaded.severity, Some("HIGH".to_string()));
    assert_eq!(loaded.computed_severity, Some(SeverityLevel::High));
}

#[test]
fn an_unreadable_local_configuration_is_passed_over() {
    let mut base = Config::default();
    base.severity = Some("low".into());
    base.ignore_patterns = list(&["x"]);
    let loaded =
        Config::load_with_path(Ok(base), Err(ConfigError::ParseError("bad yaml".into()))).unwrap();
    assert_eq!(loaded.computed_severity, Some(SeverityLevel::Low));
    assert_eq!(loaded.ignore_patterns, list(&["x"]));
}

#[test]
fn an_unreadable_base_configuration_is_the_error() {
    let r = Config::load_with_path(Err(ConfigError::NoBaseConfig), Ok(Config::default()));
    assert!(matches!(r, Err(ConfigError::NoBaseConfig)));
    let r = Config::load_with_path(Err(ConfigError::IoError("denied".into())), Ok(Config::default()));
    match r {
        Err(e) => assert_eq!(e.message(), "Failed to read config file: denied"),
        Ok(_) => panic!("expected an error"),
    }
    assert_eq!(
        ConfigError::ParseError("line 3".into()).message(),
        "Failed to parse config file: line 3"
    );
    assert_eq!(ConfigError::NoBaseConfig.message(), "No base config found");
}

#[test]
fn the_filter_of_the_caller_comes_before_the_configured_severity() {
    let mut config = Config::default();
    config.computed_severity = Some(SeverityLevel::Low);
    assert_eq!(config.get_effective_severity(), Some(&SeverityLevel::Low));
    config.set_severity_filter("high");
    assert_eq!(config.severity, Some("HIGH".to_string()));
    assert_eq!(config.computed_severity, Some(SeverityLevel::High));
    config.computed_severity = Some(SeverityLevel::Low);
    assert_eq!(config.get_effective_severity(), Some(&SeverityLevel::High));
    assert_eq!(config.floor(), Some(SeverityLevel::High));
}

#[test]
fn a_rule_meets_the_floor_if_it_is_at_least_as_severe() {
    let mut config = Config::default();
    // without a floor every rule is active
    assert!(config.meets_severity(&rule("x", "low")));
    assert!(config.meets_severity(&rule("x", "nonsense")));
    config.set_severity_filter("medium");
    assert!(!config.meets_severity(&rule("x", "low")));
    assert!(!config.meets_severity(&rule("x", "nonsense")));
    assert!(config.meets_severity(&rule("x", "medium")));
    assert!(config.meets_severity(&rule("x", "MEDIUM")));
    assert!(config.meets_severity(&rule("x", "High")));
    assert!(config.meets_severity(&rule("x", "critical")));
    config.set_severity_filter("critical");
    assert!(!config.meets_severity(&rule("x", "high")));
    assert!(config.meets_severity(&rule("x", "critical")));
}

#[test]
fn the_effective_configuration_shows_the_floor_and_the_active_rules() {
    let mut config = Config::default();
    config.patterns.insert("low-rule".into(), rule("a", "low"));
    config.patterns.insert("high-rule".into(), rule("b", "high"));
    config.patterns.insert("critical-rule".into(), rule("c", "critical"));
    config.ignore_pattern_behavior = "merge".into();
    config.ignore_paths_behavior = "replace".into();
    config.ignore_paths = list(&["tests/*"]);

    let shown = config.get_effective_config();
    assert_eq!(shown.severity, "LOW");
    assert_eq!(shown.patterns.len(), 3);
    assert_eq!(shown.ignore_patterns, Vec::<String>::new());
    assert_eq!(shown.ignore_paths, vec!["tests/*".to_string()]);
    assert_eq!(shown.ignore_pattern_behavior, "merge");
    assert_eq!(shown.ignore_paths_behavior, "replace");

    config.set_severity_filter("High");
    let shown = config.get_effective_config();
    assert_eq!(shown.severity, "HIGH");
    assert_eq!(shown.patterns.len(), 2);
    assert_eq!(shown.patterns.entry(0).name, "high-rule");
    assert_eq!(shown.patterns.entry(1).name, "critical-rule");
    assert!(shown.patterns.get("low-rule").is_none());

    for (word, expected) in [("critical", "CRITICAL"), ("medium", "MEDIUM"), ("low", "LOW")] {
        config.set_severity_filter(word);
        assert_eq!(config.get_effective_config().severity, expected);
    }
}
