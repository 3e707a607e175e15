use flaps::{ProjectId, Segment, SegmentCondition, SegmentRule, UserId};

#[test]
fn test_create_segment() {
    let segment = Segment::new("beta-testers", "Beta Testers", ProjectId::new(), UserId::new("user-1"))
        .with_description("Users who opted into beta testing")
        .with_rule(
            SegmentRule::new().with_condition(SegmentCondition::ends_with("email", "@nubster.com")),
        )
        .with_included_user("special-user-1")
        .with_excluded_user("banned-user-1");

    assert_eq!(segment.key, "beta-testers");
    assert_eq!(segment.rules.len(), 1);
    assert!(segment.is_included("special-user-1"));
    assert!(segment.is_excluded("banned-user-1"));
    assert!(!segment.is_included("random-user"));
}

#[test]
fn test_segment_rule_conditions() {
    let rule = SegmentRule::new()
        .with_condition(SegmentCondition::equals("plan", "enterprise".into()))
        .with_condition(SegmentCondition::in_list(
            "country",
            vec!["FR".to_string(), "DE".to_string()],
        ));

    assert_eq!(rule.conditions.len(), 2);
}
