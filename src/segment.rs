//! Segments: reusable definitions of which users belong to a group.

use vstd::prelude::*;

use crate::flag::UserId;
use crate::ids::{ProjectId, SegmentId, Timestamp};
use crate::rule::{in_list, list_contains, AttributeValue, Operator};

verus! {

/// A reusable group of users.
///
/// Membership is decided in this order: a user listed in `excluded_users`
/// is never a member; otherwise one listed in `included_users` is; otherwise
/// the user is a member when all conditions of at least one rule hold.
#[derive(Clone, Debug)]
pub struct Segment {
    /// Unique identifier.
    pub id: SegmentId,
    /// Machine-readable key (e.g. `beta-testers`).
    pub key: String,
    /// Display name.
    pub name: String,
    /// Description.
    pub description: Option<String>,
    /// Rules, any one of which makes a user a member.
    pub rules: Vec<SegmentRule>,
    /// Users who are always members, unless excluded.
    pub included_users: Vec<String>,
    /// Users who are never members.
    pub excluded_users: Vec<String>,
    /// Project the segment belongs to.
    pub project_id: ProjectId,
    /// Creation time.
    pub created_at: Timestamp,
    /// Time of the last update.
    pub updated_at: Timestamp,
    /// User who created the segment.
    pub created_by: UserId,
}

impl Segment {
    /// A segment with no rules and no listed users.
    pub fn new(key: &str, name: &str, project_id: ProjectId, created_by: UserId) -> (r: Segment)
        ensures
            r.key@ == key@,
            r.name@ == name@,
            r.description is None,
            r.rules@.len() == 0,
            r.included_users@.len() == 0,
            r.excluded_users@.len() == 0,
            r.project_id == project_id,
            r.created_at == r.updated_at,
            r.created_by == created_by,
    {
        let now = Timestamp::now();
        Segment {
            id: SegmentId::new(),
            key: key.to_owned(),
            name: name.to_owned(),
            description: None,
            rules: Vec::new(),
            included_users: Vec::new(),
            excluded_users: Vec::new(),
            project_id,
            created_at: now,
            updated_at: now,
            created_by,
        }
    }

    /// Sets the description.
    pub fn with_description(self, description: &str) -> (r: Segment)
        ensures
            r == (Segment { description: r.description, ..self }),
            r.description is Some && r.description->0@ == description@,
    {
        let mut r = self;
        r.description = Some(description.to_owned());
        r
    }

    /// Adds a rule.
    pub fn with_rule(self, rule: SegmentRule) -> (r: Segment)
        ensures
            r == (Segment { rules: r.rules, ..self }),
            r.rules@ == self.rules@.push(rule),
    {
        let mut r = self;
        r.rules.push(rule);
        r
    }

    /// Adds a user who is always a member, unless excluded.
    pub fn with_included_user(self, user_id: &str) -> (r: Segment)
        ensures
            r == (Segment { included_users: r.included_users, ..self }),
            r.included_users@.len() == self.included_users@.len() + 1,
            r.included_users@.drop_last() == self.included_users@,
            r.included_users@.last()@ == user_id@,
    {
        let mut r = self;
        r.included_users.push(user_id.to_owned());
        assert(r.included_users@.drop_last() =~= self.included_users@);
        r
    }

    /// Adds a user who is never a member.
    pub fn with_excluded_user(self, user_id: &str) -> (r: Segment)
        ensures
            r == (Segment { excluded_users: r.excluded_users, ..self }),
            r.excluded_users@.len() == self.excluded_users@.len() + 1,
            r.excluded_users@.drop_last() == self.excluded_users@,
            r.excluded_users@.last()@ == user_id@,
    {
        let mut r = self;
        r.excluded_users.push(user_id.to_owned());
        assert(r.excluded_users@.drop_last() =~= self.excluded_users@);
        r
    }

    /// Whether the user is explicitly excluded.
    pub fn is_excluded(&self, user_id: &str) -> (r: bool)
        ensures
            r == in_list(self.excluded_users@, user_id@),
    {
        list_contains(&self.excluded_users, user_id)
    }

    /// Whether the user is explicitly included.
    pub fn is_included(&self, user_id: &str) -> (r: bool)
        ensures
            r == in_list(self.included_users@, user_id@),
    {
        list_contains(&self.included_users, user_id)
    }
}

/// A rule of a segment: all its conditions must hold.
#[derive(Clone, Debug)]
pub struct SegmentRule {
    /// Conditions that must all hold.
    pub conditions: Vec<SegmentCondition>,
}

impl SegmentRule {
    /// A rule with no conditions.
    pub fn new() -> (r: SegmentRule)
        ensures
            r.conditions@.len() == 0,
    {
        SegmentRule { conditions: Vec::new() }
    }

    /// Adds a condition.
    pub fn with_condition(self, condition: SegmentCondition) -> (r: SegmentRule)
        ensures
            r.conditions@ == self.conditions@.push(condition),
    {
        let mut r = self;
        r.conditions.push(condition);
        r
    }

    /// A rule with a single condition.
    pub fn single(condition: SegmentCondition) -> (r: SegmentRule)
        ensures
            r.conditions@ == seq![condition],
    {
        let mut conditions: Vec<SegmentCondition> = Vec::new();
        conditions.push(condition);
        assert(conditions@ =~= seq![condition]);
        SegmentRule { conditions }
    }
}

impl Default for SegmentRule {
    fn default() -> (r: SegmentRule)
        ensures
            r.conditions@.len() == 0,
    {
        SegmentRule::new()
    }
}

/// A condition of a segment rule.
#[derive(Clone, Debug)]
pub struct SegmentCondition {
    /// Attribute to check.
    pub attribute: String,
    /// Comparison operator.
    pub operator: Operator,
    /// Value to compare against.
    pub value: AttributeValue,
}

impl SegmentCondition {
    /// A condition from its parts.
    pub fn new(attribute: &str, operator: Operator, value: AttributeValue) -> (r: SegmentCondition)
        ensures
            r.attribute@ == attribute@,
            r.operator == operator,
            r.value == value,
    {
        SegmentCondition { attribute: attribute.to_owned(), operator, value }
    }

    /// `attribute` equals `value`.
    pub fn equals(attribute: &str, value: AttributeValue) -> (r: SegmentCondition)
        ensures
            r.attribute@ == attribute@,
            r.operator == Operator::Equals,
            r.value == value,
    {
        SegmentCondition::new(attribute, Operator::Equals, value)
    }

    /// `attribute` ends with `value` (e.g. an e-mail domain).
    pub fn ends_with(attribute: &str, value: &str) -> (r: SegmentCondition)
        ensures
            r.attribute@ == attribute@,
            r.operator == Operator::EndsWith,
            r.value is String && r.value->String_0@ == value@,
    {
        SegmentCondition::new(attribute, Operator::EndsWith, AttributeValue::String(value.to_owned()))
    }

    /// `attribute` is one of `values`.
    pub fn in_list(attribute: &str, values: Vec<String>) -> (r: SegmentCondition)
        ensures
            r.attribute@ == attribute@,
            r.operator == Operator::In,
            r.value == AttributeValue::StringList(values),
    {
        SegmentCondition::new(attribute, Operator::In, AttributeValue::StringList(values))
    }
}

} // verus!
