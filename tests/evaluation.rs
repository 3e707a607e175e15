use flaps::rollout::{bucket_includes, in_rollout};
use flaps::{
    Condition, EnvironmentConfig, EvaluationContext, EvaluationReason, Evaluator, Flag, FlagValue,
    Operator, ProjectId, Segment, SegmentCondition, SegmentId, SegmentRule, TargetingRule, UserId,
};

fn create_test_flag() -> Flag {
    Flag::new_boolean("test-flag", "Test Flag", ProjectId::new(), UserId::new("creator"))
        .with_environment("dev", EnvironmentConfig::enabled_boolean(true))
        .with_environment("prod", EnvironmentConfig::disabled())
}

#[test]
fn test_evaluate_enabled_flag() {
    let evaluator = Evaluator::new();
    let flag = create_test_flag();
    let context = EvaluationContext::with_user_id("user-1");

    let result = evaluator.evaluate(&flag, "dev", &context);
    assert!(result.is_enabled());
    assert_eq!(result.reason, EvaluationReason::Default);
}

#[test]
fn test_evaluate_disabled_flag() {
    let evaluator = Evaluator::new();
    let flag = create_test_flag();
    let context = EvaluationContext::with_user_id("user-1");

    let result = evaluator.evaluate(&flag, "prod", &context);
    assert!(!result.is_enabled());
    assert_eq!(result.reason, EvaluationReason::FlagDisabled);
}

#[test]
fn test_evaluate_unknown_environment() {
    let evaluator = Evaluator::new();
    let flag = create_test_flag();
    let context = EvaluationContext::with_user_id("user-1");

    let result = evaluator.evaluate(&flag, "unknown", &context);
    assert!(!result.is_enabled());
    assert_eq!(result.reason, EvaluationReason::EnvironmentNotFound);
}

#[test]
fn test_evaluate_with_targeting_rule() {
    let evaluator = Evaluator::new();
    let flag = Flag::new_boolean(
        "premium-feature",
        "Premium Feature",
        ProjectId::new(),
        UserId::new("creator"),
    )
    .with_environment(
        "prod",
        EnvironmentConfig::enabled_boolean(false).with_rule(
            TargetingRule::new(1, FlagValue::Boolean(true))
                .with_condition(Condition::equals("plan", "pro".into())),
        ),
    );

    let pro_context = EvaluationContext::with_user_id("user-1").set("plan", "pro".into());
    let result = evaluator.evaluate(&flag, "prod", &pro_context);
    assert!(result.is_enabled());
    assert_eq!(result.reason, EvaluationReason::TargetingMatch);

    let free_context = EvaluationContext::with_user_id("user-2").set("plan", "free".into());
    let result = evaluator.evaluate(&flag, "prod", &free_context);
    assert!(!result.is_enabled());
    assert_eq!(result.reason, EvaluationReason::Default);
}

#[test]
fn test_rollout_percentage_stability() {
    let evaluator = Evaluator::new();

    let in_rollout_1 = evaluator.is_in_rollout("user-123", "my-flag", 50);
    let in_rollout_2 = evaluator.is_in_rollout("user-123", "my-flag", 50);
    assert_eq!(in_rollout_1, in_rollout_2);

    let mut in_count = 0;
    for i in 0..1000 {
        if evaluator.is_in_rollout(&format!("user-{}", i), "test-flag", 50) {
            in_count += 1;
        }
    }
    assert!(in_count > 400 && in_count < 600, "Got {} in rollout", in_count);
}

#[test]
fn test_rollout_boundary_cases() {
    let evaluator = Evaluator::new();
    assert!(!evaluator.is_in_rollout("any-user", "flag", 0));
    assert!(evaluator.is_in_rollout("any-user", "flag", 100));
}

#[test]
fn test_disabled_string_flag_is_not_enabled() {
    let evaluator = Evaluator::new();
    let flag = Flag::new_string(
        "ab-test",
        "A/B Test",
        vec!["variant-a".to_string(), "variant-b".to_string()],
        ProjectId::new(),
        UserId::new("creator"),
    )
    .with_environment("dev", EnvironmentConfig::enabled_string("variant-a"))
    .with_environment("prod", EnvironmentConfig::disabled());

    let context = EvaluationContext::with_user_id("user-1");

    let dev_result = evaluator.evaluate(&flag, "dev", &context);
    assert!(dev_result.is_enabled());
    assert_eq!(dev_result.value.as_str(), Some("variant-a"));
    assert_eq!(dev_result.reason, EvaluationReason::Default);

    let prod_result = evaluator.evaluate(&flag, "prod", &context);
    assert!(!prod_result.is_enabled());
    assert_eq!(prod_result.reason, EvaluationReason::FlagDisabled);
    assert_eq!(prod_result.value.as_bool(), None);
}

#[test]
fn rollout_bucket_is_the_murmur3_hash_modulo_100() {
    // murmur3("my-flaguser-123") = 680103842, bucket 42
    assert!(in_rollout("user-123", "my-flag", 43));
    assert!(!in_rollout("user-123", "my-flag", 42));
    assert!(bucket_includes(680103842, 43));
    assert!(!bucket_includes(680103842, 42));
    assert!(in_rollout("any-user", "flag", 255));
}

#[test]
fn count_in_half_rollout_is_stable() {
    let mut in_count = 0;
    for i in 0..1000 {
        if in_rollout(&format!("user-{}", i), "test-flag", 50) {
            in_count += 1;
        }
    }
    assert_eq!(in_count, 485);
}

fn two_rule_flag(first_priority: u32, second_priority: u32) -> Flag {
    Flag::new_string("pick", "Pick", vec!["none".to_string()], ProjectId::new(), UserId::new("c"))
        .with_environment(
            "prod",
            EnvironmentConfig::enabled_string("fallback")
                .with_rule(TargetingRule::new(first_priority, "first".into()))
                .with_rule(TargetingRule::new(second_priority, "second".into())),
        )
}

#[test]
fn lower_priority_number_wins() {
    let evaluator = Evaluator::new();
    let ctx = EvaluationContext::with_user_id("u");
    let result = evaluator.evaluate(&two_rule_flag(2, 1), "prod", &ctx);
    assert_eq!(result.reason, EvaluationReason::TargetingMatch);
    assert_eq!(result.as_str(), "second");
    let result = evaluator.evaluate(&two_rule_flag(1, 2), "prod", &ctx);
    assert_eq!(result.as_str(), "first");
}

#[test]
fn equal_priorities_keep_declaration_order() {
    let evaluator = Evaluator::new();
    let ctx = EvaluationContext::with_user_id("u");
    let flag = two_rule_flag(5, 5);
    let result = evaluator.evaluate(&flag, "prod", &ctx);
    assert_eq!(result.as_str(), "first");
    let rule_id = flag.get_environment("prod").unwrap().rules[0].id;
    assert_eq!(result.rule_id, Some(rule_id));
    assert_eq!(result.in_rollout, None);
}

fn rollout_flag(rule_percentage: u8, global: Option<u8>) -> Flag {
    let mut config = EnvironmentConfig::enabled_boolean(true)
        .with_rule(TargetingRule::new(1, FlagValue::Boolean(false)).with_rollout(rule_percentage));
    if let Some(p) = global {
        config = config.with_rollout(p);
    }
    Flag::new_boolean("my-flag", "My Flag", ProjectId::new(), UserId::new("c"))
        .with_environment("prod", config)
}

#[test]
fn rollout_miss_falls_through_to_default() {
    let evaluator = Evaluator::new();
    let ctx = EvaluationContext::with_user_id("user-123");
    let result = evaluator.evaluate(&rollout_flag(42, None), "prod", &ctx);
    assert_eq!(result.reason, EvaluationReason::Default);
    assert_eq!(result.value, FlagValue::Boolean(true));
    let result = evaluator.evaluate(&rollout_flag(43, None), "prod", &ctx);
    assert_eq!(result.reason, EvaluationReason::TargetingMatch);
    assert_eq!(result.in_rollout, Some(true));
    assert_eq!(result.value, FlagValue::Boolean(false));
}

#[test]
fn rollout_miss_falls_through_to_later_rule() {
    let evaluator = Evaluator::new();
    let ctx = EvaluationContext::with_user_id("user-123");
    let flag = Flag::new_string("my-flag", "My Flag", vec![], ProjectId::new(), UserId::new("c"))
        .with_environment(
            "prod",
            EnvironmentConfig::enabled_string("d")
                .with_rule(TargetingRule::new(1, "a".into()).with_rollout(10))
                .with_rule(TargetingRule::new(2, "b".into())),
        );
    let result = evaluator.evaluate(&flag, "prod", &ctx);
    assert_eq!(result.reason, EvaluationReason::TargetingMatch);
    assert_eq!(result.as_str(), "b");
}

#[test]
fn global_rollout_includes_and_excludes() {
    let evaluator = Evaluator::new();
    let ctx = EvaluationContext::with_user_id("user-123");
    let result = evaluator.evaluate(&rollout_flag(0, Some(43)), "prod", &ctx);
    assert_eq!(result.reason, EvaluationReason::RolloutIncluded);
    assert_eq!(result.in_rollout, Some(true));
    assert!(result.is_enabled());
    let result = evaluator.evaluate(&rollout_flag(0, Some(42)), "prod", &ctx);
    assert_eq!(result.reason, EvaluationReason::RolloutExcluded);
    assert_eq!(result.in_rollout, Some(false));
    assert_eq!(result.value, FlagValue::Boolean(false));
    assert!(!result.is_enabled());
}

fn segment_flag(segment_id: SegmentId, op: Operator) -> Flag {
    Flag::new_boolean("seg-flag", "Seg", ProjectId::new(), UserId::new("c")).with_environment(
        "prod",
        EnvironmentConfig::enabled_boolean(false).with_rule(
            TargetingRule::new(1, FlagValue::Boolean(true)).with_condition(Condition::new(
                "",
                op,
                flaps::AttributeValue::SegmentRef(segment_id),
            )),
        ),
    )
}

#[test]
fn segment_exclusion_overrides_inclusion_and_rules() {
    let segment = Segment::new("beta", "Beta", ProjectId::new(), UserId::new("c"))
        .with_rule(SegmentRule::single(SegmentCondition::equals("plan", "pro".into())))
        .with_included_user("both")
        .with_excluded_user("both")
        .with_included_user("inc");
    let id = segment.id;
    let evaluator = Evaluator::with_segments(vec![segment]);
    let flag = segment_flag(id, Operator::MatchesSegment);

    let excluded = EvaluationContext::with_user_id("both").set("plan", "pro".into());
    assert!(!evaluator.evaluate(&flag, "prod", &excluded).is_enabled());
    let included = EvaluationContext::with_user_id("inc");
    assert!(evaluator.evaluate(&flag, "prod", &included).is_enabled());
    let by_rule = EvaluationContext::with_user_id("other").set("plan", "pro".into());
    assert!(evaluator.evaluate(&flag, "prod", &by_rule).is_enabled());
    let outside = EvaluationContext::with_user_id("other").set("plan", "free".into());
    assert!(!evaluator.evaluate(&flag, "prod", &outside).is_enabled());

    let negated = segment_flag(id, Operator::NotMatchesSegment);
    assert!(evaluator.evaluate(&negated, "prod", &excluded).is_enabled());
    assert!(!evaluator.evaluate(&negated, "prod", &included).is_enabled());
}

#[test]
fn unknown_segment_is_never_matched() {
    let evaluator = Evaluator::new();
    let ctx = EvaluationContext::with_user_id("u");
    let flag = segment_flag(SegmentId::from_uuid(7), Operator::MatchesSegment);
    assert_eq!(evaluator.evaluate(&flag, "prod", &ctx).reason, EvaluationReason::Default);
    let flag = segment_flag(SegmentId::from_uuid(7), Operator::NotMatchesSegment);
    assert_eq!(evaluator.evaluate(&flag, "prod", &ctx).reason, EvaluationReason::TargetingMatch);
}

#[test]
fn self_referencing_segment_terminates() {
    let mut segment = Segment::new("loop", "Loop", ProjectId::new(), UserId::new("c"));
    let id = segment.id;
    segment = segment.with_rule(SegmentRule::single(SegmentCondition::new(
        "",
        Operator::MatchesSegment,
        flaps::AttributeValue::SegmentRef(id),
    )));
    let mut evaluator = Evaluator::new();
    evaluator.add_segment(segment);
    let flag = segment_flag(id, Operator::MatchesSegment);
    let ctx = EvaluationContext::with_user_id("u");
    assert_eq!(evaluator.evaluate(&flag, "prod", &ctx).reason, EvaluationReason::Default);
}

#[test]
fn missing_attribute_fails_condition() {
    let evaluator = Evaluator::new();
    let flag = Flag::new_boolean("f", "F", ProjectId::new(), UserId::new("c")).with_environment(
        "prod",
        EnvironmentConfig::enabled_boolean(false).with_rule(
            TargetingRule::new(1, FlagValue::Boolean(true))
                .with_condition(Condition::new("age", Operator::GreaterThan, 18.into())),
        ),
    );
    let none = EvaluationContext::with_user_id("u");
    assert_eq!(evaluator.evaluate(&flag, "prod", &none).reason, EvaluationReason::Default);
    let adult = EvaluationContext::with_user_id("u").set("age", 30.into());
    assert_eq!(evaluator.evaluate(&flag, "prod", &adult).reason, EvaluationReason::TargetingMatch);
    let child = EvaluationContext::with_user_id("u").set("age", 12.into());
    assert_eq!(evaluator.evaluate(&flag, "prod", &child).reason, EvaluationReason::Default);
}

#[test]
fn reasons_have_snake_case_tags() {
    assert_eq!(EvaluationReason::Default.as_str(), "default");
    assert_eq!(EvaluationReason::TargetingMatch.as_str(), "targeting_match");
    assert_eq!(EvaluationReason::RolloutIncluded.as_str(), "rollout_included");
    assert_eq!(EvaluationReason::RolloutExcluded.as_str(), "rollout_excluded");
    assert_eq!(EvaluationReason::FlagDisabled.as_str(), "flag_disabled");
    assert_eq!(EvaluationReason::EnvironmentNotFound.as_str(), "environment_not_found");
    assert_eq!(EvaluationReason::FlagNotFound.as_str(), "flag_not_found");
    assert_eq!(EvaluationReason::Error.as_str(), "error");
}

#[test]
fn result_accessors() {
    let r = flaps::EvaluationResult::flag_not_found();
    assert!(!r.is_enabled());
    assert!(!r.as_bool());
    assert_eq!(r.as_str(), "");
    let r = flaps::EvaluationResult::default_value(FlagValue::Boolean(true));
    assert!(r.as_bool());
    assert!(r.is_enabled());
    let r = flaps::EvaluationResult::default_value(FlagValue::String(String::new()));
    assert!(!r.is_enabled());
}
