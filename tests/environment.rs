use flaps::{Environment, EnvironmentConfig, FlagValue, ProjectId};

#[test]
fn test_default_environments() {
    let project_id = ProjectId::new();

    let dev = Environment::development(project_id);
    assert_eq!(dev.key, "dev");
    assert!(!dev.is_production);

    let staging = Environment::staging(project_id);
    assert_eq!(staging.key, "staging");
    assert!(!staging.is_production);

    let prod = Environment::production(project_id);
    assert_eq!(prod.key, "prod");
    assert!(prod.is_production);
}

#[test]
fn test_environment_config() {
    let config = EnvironmentConfig::enabled_boolean(true)
        .with_rollout(50)
        .with_approval_required(true);

    assert!(config.enabled);
    assert_eq!(config.rollout_percentage, Some(50));
    assert!(config.requires_approval);
}

#[test]
fn environment_builders() {
    let env = Environment::new("qa", "QA", ProjectId::from_uuid(1))
        .with_color("#000000")
        .with_production(true)
        .with_order(7);
    assert_eq!(env.color, Some("#000000".to_string()));
    assert!(env.is_production);
    assert_eq!(env.order, 7);
    let config = EnvironmentConfig::new()
        .with_enabled(true)
        .with_default_value(FlagValue::String("v".to_string()))
        .with_rollout(101);
    assert!(config.enabled);
    assert_eq!(config.rollout_percentage, Some(100));
    assert_eq!(config.default_value, FlagValue::String("v".to_string()));
}
