use flaps::{AttributeValue, ContextBuilder, EvaluationContext, Number};

#[test]
fn test_create_context() {
    let context = EvaluationContext::with_user_id("user-123")
        .set("plan", "pro".into())
        .set("country", "FR".into())
        .set("beta_tester", true.into());

    assert_eq!(context.user_id, Some("user-123".to_string()));
    assert_eq!(context.get_str("plan"), Some("pro"));
    assert_eq!(context.get_str("country"), Some("FR"));
    assert_eq!(context.get_bool("beta_tester"), Some(true));
}

#[test]
fn test_context_builder() {
    let context = ContextBuilder::new()
        .user_id("user-456")
        .email("user@example.com")
        .plan("enterprise")
        .country("DE")
        .attribute("custom_field", 42.into())
        .build();

    assert_eq!(context.user_id, Some("user-456".to_string()));
    assert_eq!(context.get_str("email"), Some("user@example.com"));
    assert_eq!(context.get_number("custom_field"), Some(Number::from_int(42)));
}

#[test]
fn test_effective_user_id() {
    let with_id = EvaluationContext::with_user_id("user-123");
    assert_eq!(with_id.effective_user_id(), "user-123");

    let without_id = EvaluationContext::new().set("session", "abc123".into());
    assert!(without_id.effective_user_id().starts_with("anonymous:"));
}

#[test]
fn test_merge_contexts() {
    let base = EvaluationContext::with_user_id("user-1")
        .set("plan", "free".into())
        .set("country", "FR".into());

    let override_ctx = EvaluationContext::new()
        .set("plan", "pro".into())
        .set("new_attr", "value".into());

    let merged = base.merge(override_ctx);
    assert_eq!(merged.user_id, Some("user-1".to_string()));
    assert_eq!(merged.get_str("plan"), Some("pro"));
    assert_eq!(merged.get_str("country"), Some("FR"));
    assert_eq!(merged.get_str("new_attr"), Some("value"));
}

#[test]
fn anonymous_id_ignores_insertion_order() {
    let a = EvaluationContext::new()
        .set("plan", "pro".into())
        .set("country", "FR".into())
        .set("age", 30.into());
    let b = EvaluationContext::new()
        .set("age", 30.into())
        .set("country", "FR".into())
        .set("plan", "pro".into());
    assert_eq!(a.effective_user_id(), b.effective_user_id());
    assert_eq!(
        a.effective_user_id(),
        "anonymous:age:Number(30000000e-6),country:String(\"FR\"),plan:String(\"pro\")"
    );
}

#[test]
fn anonymous_id_renders_every_kind_of_value() {
    let ctx = EvaluationContext::new()
        .set("b", false.into())
        .set("l", vec!["x".to_string(), "y".to_string()].into())
        .set("n", AttributeValue::Number(Number::from_micros(-1500000)))
        .set("s", AttributeValue::SegmentRef(flaps::SegmentId::from_uuid(255)));
    assert_eq!(
        ctx.effective_user_id(),
        "anonymous:b:Boolean(false),l:StringList([\"x\", \"y\"]),n:Number(-1500000e-6),s:SegmentRef(255)"
    );
    assert_eq!(EvaluationContext::new().effective_user_id(), "anonymous:");
}

#[test]
fn set_replaces_and_remove_deletes() {
    let mut ctx = EvaluationContext::new().set("k", "a".into()).set("k", "b".into());
    assert_eq!(ctx.get_str("k"), Some("b"));
    assert!(ctx.has("k"));
    ctx.set_mut("j", 1.into());
    assert_eq!(ctx.remove("k"), Some(AttributeValue::String("b".to_string())));
    assert!(!ctx.has("k"));
    assert_eq!(ctx.remove("k"), None);
    assert_eq!(ctx.effective_user_id(), "anonymous:j:Number(1000000e-6)");
}
