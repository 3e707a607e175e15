use flaps::{
    Config, EnvironmentConfig, EvaluationContext, EvaluationReason, Flag, FlagValue, FlapsClient,
    ProjectId, UserId,
};

#[test]
fn test_offline_client() {
    let project_id = ProjectId::new();
    let flags = vec![Flag::new_boolean("test-flag", "Test Flag", project_id, UserId::new("test"))
        .with_environment("dev", EnvironmentConfig::enabled_boolean(true))];

    let client = FlapsClient::offline(flags, vec![]);
    let context = EvaluationContext::with_user_id("user-1");

    assert!(client.is_enabled("test-flag", &context));
    assert!(!client.is_enabled("unknown-flag", &context));
}

#[test]
fn test_get_bool_with_default() {
    let project_id = ProjectId::new();
    let flags = vec![Flag::new_boolean("enabled-flag", "Enabled", project_id, UserId::new("test"))
        .with_environment("dev", EnvironmentConfig::enabled_boolean(true))];

    let client = FlapsClient::offline(flags, vec![]);
    let context = EvaluationContext::new();

    assert!(client.get_bool("enabled-flag", &context, false));
    assert!(client.get_bool("unknown-flag", &context, true));
    assert!(!client.get_bool("unknown-flag", &context, false));
}

#[test]
fn later_flag_with_same_key_wins() {
    let p = ProjectId::new();
    let flags = vec![
        Flag::new_string("f", "F", vec![], p, UserId::new("t"))
            .with_environment("dev", EnvironmentConfig::enabled_string("old")),
        Flag::new_boolean("g", "G", p, UserId::new("t")),
        Flag::new_string("f", "F", vec![], p, UserId::new("t"))
            .with_environment("dev", EnvironmentConfig::enabled_string("new")),
    ];
    let client = FlapsClient::offline(flags, vec![]);
    let ctx = client.context();
    assert_eq!(client.get_string("f", &ctx, "dflt"), "new");
    assert_eq!(client.get_string("g", &ctx, "dflt"), "dflt");
    assert_eq!(client.evaluate("g", &ctx).reason, EvaluationReason::EnvironmentNotFound);
    assert_eq!(client.all_flag_keys(), vec!["f".to_string(), "g".to_string()]);
    let all = client.all_flags(&ctx);
    assert_eq!(all.len(), 2);
    assert_eq!(all[0], ("f".to_string(), FlagValue::String("new".to_string())));
    assert_eq!(all[1], ("g".to_string(), FlagValue::Boolean(false)));
    assert!(client.refresh().is_ok());
    client.close();
}

#[test]
fn online_client_starts_empty() {
    let client = FlapsClient::new(Config::new("key").environment("prod")).unwrap();
    let ctx = EvaluationContext::new();
    assert_eq!(client.evaluate("x", &ctx).reason, EvaluationReason::FlagNotFound);
    assert!(client.all_flag_keys().is_empty());
}
