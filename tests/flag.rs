use flaps::{EnvironmentConfig, Flag, FlagKey, FlagType, FlagValue, ProjectId, UserId};

#[test]
fn test_flag_key_validation() {
    assert!(FlagKey::try_new("valid-key").is_some());
    assert!(FlagKey::try_new("valid_key").is_some());
    assert!(FlagKey::try_new("validKey123").is_some());
    assert!(FlagKey::try_new("").is_none());
    assert!(FlagKey::try_new("invalid key").is_none());
    assert!(FlagKey::try_new("invalid.key").is_none());
}

#[test]
fn test_flag_value_conversions() {
    let bool_val: FlagValue = true.into();
    assert_eq!(bool_val.as_bool(), Some(true));
    assert!(bool_val.is_truthy());

    let str_val: FlagValue = "variant-a".into();
    assert_eq!(str_val.as_str(), Some("variant-a"));
    assert!(str_val.is_truthy());

    let empty_str: FlagValue = "".into();
    assert!(!empty_str.is_truthy());
}

#[test]
fn test_create_boolean_flag() {
    let flag = Flag::new_boolean("test-flag", "Test Flag", ProjectId::new(), UserId::new("user-1"));

    assert_eq!(flag.key.as_str(), "test-flag");
    assert_eq!(flag.name, "Test Flag");
    assert_eq!(flag.flag_type, FlagType::Boolean);
}

#[test]
fn flag_key_rejects_non_ascii_letters() {
    assert!(FlagKey::try_new("clé").is_none());
    assert!(FlagKey::try_new("-_").is_some());
    assert_eq!(FlagKey::try_new("a-b").unwrap().as_str(), "a-b");
}

#[test]
fn string_flag_default_is_first_variant_or_empty() {
    let flag = Flag::new_string(
        "ab",
        "AB",
        vec!["x".to_string(), "y".to_string()],
        ProjectId::new(),
        UserId::new("u"),
    );
    assert_eq!(flag.default_value(), FlagValue::String("x".to_string()));
    let empty = Flag::new_string("ab", "AB", vec![], ProjectId::new(), UserId::new("u"));
    assert_eq!(empty.default_value(), FlagValue::String(String::new()));
    let boolean = Flag::new_boolean("b", "B", ProjectId::new(), UserId::new("u"));
    assert_eq!(boolean.default_value(), FlagValue::Boolean(false));
}

#[test]
fn with_environment_replaces_existing_config() {
    let flag = Flag::new_boolean("f", "F", ProjectId::new(), UserId::new("u"))
        .with_environment("dev", EnvironmentConfig::disabled())
        .with_environment("prod", EnvironmentConfig::disabled())
        .with_environment("dev", EnvironmentConfig::enabled_boolean(true));
    assert_eq!(flag.environments.len(), 2);
    assert!(flag.get_environment("dev").unwrap().enabled);
    assert!(!flag.get_environment("prod").unwrap().enabled);
    assert!(flag.get_environment("staging").is_none());
}
