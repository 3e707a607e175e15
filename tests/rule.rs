use flaps::rule::compare;
use flaps::{AttributeValue, Condition, FlagValue, Number, Operator, TargetingRule};

#[test]
fn test_create_rule_with_conditions() {
    let rule = TargetingRule::new(1, FlagValue::Boolean(true))
        .with_condition(Condition::equals("plan", "pro".into()))
        .with_condition(Condition::in_list("country", vec!["FR".to_string(), "BE".to_string()]))
        .with_rollout(50);

    assert_eq!(rule.priority, 1);
    assert_eq!(rule.conditions.len(), 2);
    assert_eq!(rule.rollout_percentage, Some(50));
}

#[test]
fn test_condition_builders() {
    let cond = Condition::ends_with("email", "@nubster.com");
    assert_eq!(cond.attribute, "email");
    assert_eq!(cond.operator, Operator::EndsWith);

    let cond = Condition::in_list("role", vec!["admin".to_string(), "moderator".to_string()]);
    assert_eq!(cond.operator, Operator::In);
}

#[test]
fn test_attribute_value_conversions() {
    let str_val: AttributeValue = "test".into();
    assert_eq!(str_val.as_str(), Some("test"));

    let num_val: AttributeValue = 42.into();
    assert_eq!(num_val.as_number(), Some(Number::from_int(42)));

    let bool_val: AttributeValue = true.into();
    assert_eq!(bool_val.as_bool(), Some(true));
}

fn s(x: &str) -> AttributeValue {
    AttributeValue::String(x.to_string())
}

fn n(x: i32) -> AttributeValue {
    AttributeValue::Number(Number::from_int(x))
}

fn list(xs: &[&str]) -> AttributeValue {
    AttributeValue::StringList(xs.iter().map(|x| x.to_string()).collect())
}

#[test]
fn string_operators() {
    assert!(compare(&s("a@nubster.com"), Operator::EndsWith, &s("@nubster.com")));
    assert!(!compare(&s("a@other.com"), Operator::EndsWith, &s("@nubster.com")));
    assert!(compare(&s("prefix-x"), Operator::StartsWith, &s("prefix")));
    assert!(!compare(&s("pre"), Operator::StartsWith, &s("prefix")));
    assert!(compare(&s("abcdef"), Operator::Contains, &s("cde")));
    assert!(compare(&s("abcdef"), Operator::Contains, &s("")));
    assert!(!compare(&s("abcdef"), Operator::Contains, &s("ce")));
    assert!(!compare(&n(1), Operator::Contains, &s("1")));
}

#[test]
fn equality_is_by_variant_and_content() {
    assert!(compare(&s("x"), Operator::Equals, &s("x")));
    assert!(!compare(&s("1"), Operator::Equals, &n(1)));
    assert!(compare(&s("1"), Operator::NotEquals, &n(1)));
    assert!(compare(&n(3), Operator::Equals, &AttributeValue::Number(Number::from_micros(3_000_000))));
    assert!(compare(&true.into(), Operator::Equals, &true.into()));
    assert!(!compare(&list(&["a"]), Operator::Equals, &list(&["a"])));
}

#[test]
fn list_membership_is_asymmetric_on_malformed_operands() {
    assert!(compare(&s("FR"), Operator::In, &list(&["FR", "BE"])));
    assert!(!compare(&s("DE"), Operator::In, &list(&["FR", "BE"])));
    assert!(compare(&s("DE"), Operator::NotIn, &list(&["FR", "BE"])));
    assert!(!compare(&s("FR"), Operator::NotIn, &list(&["FR", "BE"])));
    assert!(!compare(&s("FR"), Operator::In, &s("FR")));
    assert!(compare(&s("FR"), Operator::NotIn, &s("FR")));
    assert!(compare(&n(1), Operator::NotIn, &list(&["1"])));
}

#[test]
fn numeric_comparisons() {
    assert!(compare(&n(5), Operator::GreaterThan, &n(4)));
    assert!(!compare(&n(4), Operator::GreaterThan, &n(4)));
    assert!(compare(&n(4), Operator::GreaterThanOrEqual, &n(4)));
    assert!(compare(&n(-1), Operator::LessThan, &n(0)));
    assert!(compare(&n(0), Operator::LessThanOrEqual, &n(0)));
    assert!(!compare(&s("5"), Operator::GreaterThan, &n(4)));
}

#[test]
fn unimplemented_operators_never_hold() {
    assert!(!compare(&s("1.2.0"), Operator::SemverGreaterThan, &s("1.0.0")));
    assert!(!compare(&s("1.0.0"), Operator::SemverLessThan, &s("1.2.0")));
    assert!(!compare(&s("abc"), Operator::Regex, &s(".*")));
    assert!(!compare(&s("abc"), Operator::MatchesSegment, &s("abc")));
}

#[test]
fn rollout_is_capped_at_100() {
    let rule = TargetingRule::new(3, FlagValue::Boolean(true)).with_rollout(250);
    assert_eq!(rule.rollout_percentage, Some(100));
    assert!(rule.is_catch_all());
    let rule = rule.with_description("doc");
    assert_eq!(rule.description, Some("doc".to_string()));
}
