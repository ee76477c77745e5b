use vord::config::{default_severity_str, split_csv, VordConfig};

#[test]
fn parses_sonar_properties() {
    let props = r#"
# Sonar project configuration
sonar.projectKey=legacy-sonar-key
sonar.projectName=Legacy App
sonar.sources=src,lib
sonar.exclusions=**/vendor/**
"#;
    let config = VordConfig::parse_sonar_properties(props);
    assert_eq!(config.project.key.as_deref(), Some("legacy-sonar-key"));
    assert_eq!(config.project.name.as_deref(), Some("Legacy App"));
    assert_eq!(config.analysis.sources.unwrap(), vec!["src", "lib"]);
}

#[test]
fn sonar_lists_are_trimmed_and_keep_empty_parts() {
    let config = VordConfig::parse_sonar_properties(
        "sonar.inclusions = src/** , lib/**\nsonar.exclusions=a,,b\n",
    );
    assert_eq!(config.analysis.inclusions.unwrap(), vec!["src/**", "lib/**"]);
    assert_eq!(config.analysis.exclusions.unwrap(), vec!["a", "", "b"]);
}

#[test]
fn sonar_later_lines_win_and_comments_are_skipped() {
    let config = VordConfig::parse_sonar_properties(
        "sonar.projectKey=first\n#sonar.projectKey=commented\n  sonar.projectKey = second  \n",
    );
    assert_eq!(config.project.key.as_deref(), Some("second"));
}

#[test]
fn sonar_unknown_keys_and_lines_without_equals_are_ignored() {
    let config = VordConfig::parse_sonar_properties(
        "sonar.host.url=https://sonar.example.com\njust some text\n\n   \nsonar.projectVersion=1.2.3\r\n",
    );
    assert_eq!(config.project.version.as_deref(), Some("1.2.3"));
    assert_eq!(config.project.key, None);
    assert_eq!(config.analysis.sources, None);
    assert_eq!(config, {
        let mut expected = VordConfig::default();
        expected.project.version = Some("1.2.3".to_string());
        expected
    });
}

#[test]
fn sonar_value_may_contain_equals_signs() {
    let config = VordConfig::parse_sonar_properties("sonar.projectName=a=b = c\n");
    assert_eq!(config.project.name.as_deref(), Some("a=b = c"));
}

#[test]
fn empty_properties_give_the_default_config() {
    assert_eq!(VordConfig::parse_sonar_properties(""), VordConfig::default());
    assert_eq!(VordConfig::parse_sonar_properties("# only a comment\n"), VordConfig::default());
}

#[test]
fn split_csv_trims_each_part() {
    assert_eq!(split_csv(" src , lib "), vec!["src", "lib"]);
    assert_eq!(split_csv(""), vec![""]);
    assert_eq!(split_csv("a,"), vec!["a", ""]);
}

#[test]
fn custom_rules_default_to_major() {
    assert_eq!(default_severity_str(), "major");
}

#[test]
fn default_config_declares_nothing() {
    let config = VordConfig::default();
    assert!(config.project.key.is_none());
    assert!(config.analysis.sources.is_none());
    assert!(config.analysis.profile.is_none());
    assert!(config.rules.custom.is_empty());
    assert!(config.architecture.allowed_dependencies.is_empty());
    assert!(config.architecture.layer.is_empty());
    assert!(config.agent.max_turns.is_none());
    assert!(config.swarm.roles.is_empty());
    assert!(config.gate.min_health_score.is_none());
    assert!(config.vite_react.exceptions.is_empty());
    assert!(config.secrets.ignore_keys.is_empty());
    assert!(config.flows.is_empty());
}
