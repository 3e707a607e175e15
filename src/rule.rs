//! Targeting rules, their conditions, and the comparison of attribute values.

use vstd::prelude::*;

use crate::flag::FlagValue;
use crate::ids::{RuleId, SegmentId};
use crate::text::{
    contains_spec, ends_with_spec, starts_with_spec, text_contains, text_ends_with, text_eq,
    text_starts_with,
};

verus! {

/// Millionths in one unit of a [`Number`].
pub const MICROS_PER_UNIT: i64 = 1_000_000;

/// A decimal number with six fractional digits, held as a count of millionths.
#[derive(Clone, Copy, Debug, PartialEq, Eq, Structural)]
pub struct Number(pub i64);

impl Number {
    /// The whole number `n`.
    pub fn from_int(n: i32) -> (r: Number)
        ensures
            r.0 == n as int * MICROS_PER_UNIT,
    {
        Number(n as i64 * MICROS_PER_UNIT)
    }

    /// The number `micros / 1_000_000`.
    pub fn from_micros(micros: i64) -> (r: Number)
        ensures
            r.0 == micros,
    {
        Number(micros)
    }
}

/// Comparison operators of conditions.
#[derive(Clone, Copy, Debug, PartialEq, Eq, Structural)]
pub enum Operator {
    /// Same value.
    Equals,
    /// Not the same value.
    NotEquals,
    /// String contains a substring.
    Contains,
    /// String starts with a prefix.
    StartsWith,
    /// String ends with a suffix.
    EndsWith,
    /// String is in a list.
    In,
    /// String is not in a list.
    NotIn,
    /// Numeric greater than.
    GreaterThan,
    /// Numeric greater than or equal.
    GreaterThanOrEqual,
    /// Numeric less than.
    LessThan,
    /// Numeric less than or equal.
    LessThanOrEqual,
    /// Semantic version greater than; not implemented, never holds.
    SemverGreaterThan,
    /// Semantic version less than; not implemented, never holds.
    SemverLessThan,
    /// The user is a member of a segment.
    MatchesSegment,
    /// The user is not a member of a segment.
    NotMatchesSegment,
    /// Regular expression match; not implemented, never holds.
    Regex,
}

/// A value of a context attribute, or the operand of a condition.
#[derive(Clone, Debug, PartialEq)]
pub enum AttributeValue {
    String(String),
    Number(Number),
    Boolean(bool),
    StringList(Vec<String>),
    SegmentRef(SegmentId),
}

impl AttributeValue {
    /// The string, where this is a string value.
    pub fn as_str(&self) -> (r: Option<&str>)
        ensures
            match *self {
                AttributeValue::String(s) => r is Some && r->0@ == s@,
                _ => r is None,
            },
    {
        match self {
            AttributeValue::String(s) => Some(s.as_str()),
            _ => None,
        }
    }

    /// The number, where this is a number value.
    pub fn as_number(&self) -> (r: Option<Number>)
        ensures
            r == (match *self {
                AttributeValue::Number(n) => Some(n),
                _ => None::<Number>,
            }),
    {
        match self {
            AttributeValue::Number(n) => Some(*n),
            _ => None,
        }
    }

    /// The boolean, where this is a boolean value.
    pub fn as_bool(&self) -> (r: Option<bool>)
        ensures
            r == (match *self {
                AttributeValue::Boolean(b) => Some(b),
                _ => None::<bool>,
            }),
    {
        match self {
            AttributeValue::Boolean(b) => Some(*b),
            _ => None,
        }
    }

    /// The list, where this is a string list.
    pub fn as_string_list(&self) -> (r: Option<&Vec<String>>)
        ensures
            match *self {
                AttributeValue::StringList(l) => r is Some && r->0@ == l@,
                _ => r is None,
            },
    {
        match self {
            AttributeValue::StringList(l) => Some(l),
            _ => None,
        }
    }

    /// The segment, where this is a segment reference.
    pub fn as_segment_ref(&self) -> (r: Option<SegmentId>)
        ensures
            r == (match *self {
                AttributeValue::SegmentRef(id) => Some(id),
                _ => None::<SegmentId>,
            }),
    {
        match self {
            AttributeValue::SegmentRef(id) => Some(*id),
            _ => None,
        }
    }
}

impl From<String> for AttributeValue {
    fn from(value: String) -> (r: AttributeValue) {
        AttributeValue::String(value)
    }
}

impl vstd::std_specs::convert::FromSpecImpl<String> for AttributeValue {
    open spec fn obeys_from_spec() -> bool {
        true
    }

    open spec fn from_spec(v: String) -> AttributeValue {
        AttributeValue::String(v)
    }
}

impl<'a> From<&'a str> for AttributeValue {
    fn from(value: &'a str) -> (r: AttributeValue) {
        AttributeValue::String(value.to_owned())
    }
}

impl<'a> vstd::std_specs::convert::FromSpecImpl<&'a str> for AttributeValue {
    /// A string value cannot be named in specifications from a `&str`, so
    /// this conversion promises nothing there; use `AttributeValue::String`.
    open spec fn obeys_from_spec() -> bool {
        false
    }

    open spec fn from_spec(v: &'a str) -> AttributeValue {
        AttributeValue::Boolean(false)
    }
}

impl From<Number> for AttributeValue {
    fn from(value: Number) -> (r: AttributeValue) {
        AttributeValue::Number(value)
    }
}

impl vstd::std_specs::convert::FromSpecImpl<Number> for AttributeValue {
    open spec fn obeys_from_spec() -> bool {
        true
    }

    open spec fn from_spec(v: Number) -> AttributeValue {
        AttributeValue::Number(v)
    }
}

impl From<i32> for AttributeValue {
    fn from(value: i32) -> (r: AttributeValue) {
        AttributeValue::Number(Number::from_int(value))
    }
}

impl vstd::std_specs::convert::FromSpecImpl<i32> for AttributeValue {
    open spec fn obeys_from_spec() -> bool {
        true
    }

    open spec fn from_spec(v: i32) -> AttributeValue {
        AttributeValue::Number(Number((v as int * MICROS_PER_UNIT) as i64))
    }
}

impl From<bool> for AttributeValue {
    fn from(value: bool) -> (r: AttributeValue) {
        AttributeValue::Boolean(value)
    }
}

impl vstd::std_specs::convert::FromSpecImpl<bool> for AttributeValue {
    open spec fn obeys_from_spec() -> bool {
        true
    }

    open spec fn from_spec(v: bool) -> AttributeValue {
        AttributeValue::Boolean(v)
    }
}

impl From<Vec<String>> for AttributeValue {
    fn from(value: Vec<String>) -> (r: AttributeValue) {
        AttributeValue::StringList(value)
    }
}

impl vstd::std_specs::convert::FromSpecImpl<Vec<String>> for AttributeValue {
    open spec fn obeys_from_spec() -> bool {
        true
    }

    open spec fn from_spec(v: Vec<String>) -> AttributeValue {
        AttributeValue::StringList(v)
    }
}

/// Equality of attribute values: same variant and same content. Lists and
/// segment references are never equal to anything.
pub open spec fn values_equal(a: AttributeValue, b: AttributeValue) -> bool {
    match (a, b) {
        (AttributeValue::String(x), AttributeValue::String(y)) => x@ == y@,
        (AttributeValue::Number(x), AttributeValue::Number(y)) => x.0 == y.0,
        (AttributeValue::Boolean(x), AttributeValue::Boolean(y)) => x == y,
        _ => false,
    }
}

/// `s` is one of the strings of `list`.
pub open spec fn in_list(list: Seq<String>, s: Seq<char>) -> bool {
    exists|i: int| 0 <= i < list.len() && (#[trigger] list[i])@ == s
}

/// The string operands of a string operator, where both are strings.
pub open spec fn string_pair(a: AttributeValue, b: AttributeValue) -> Option<(Seq<char>, Seq<char>)> {
    match (a, b) {
        (AttributeValue::String(x), AttributeValue::String(y)) => Some((x@, y@)),
        _ => None,
    }
}

/// The numeric operands of a numeric operator, where both are numbers.
pub open spec fn number_pair(a: AttributeValue, b: AttributeValue) -> Option<(int, int)> {
    match (a, b) {
        (AttributeValue::Number(x), AttributeValue::Number(y)) => Some((x.0 as int, y.0 as int)),
        _ => None,
    }
}

/// Whether `actual` stands in relation `op` to `expected`. Operands of the
/// wrong types make the comparison false, except for `NotIn`, which holds
/// unless a string is found in a list. The segment operators are decided
/// elsewhere and are false here, as are the unimplemented ones.
pub open spec fn compare_spec(actual: AttributeValue, op: Operator, expected: AttributeValue) -> bool {
    match op {
        Operator::Equals => values_equal(actual, expected),
        Operator::NotEquals => !values_equal(actual, expected),
        Operator::Contains => match string_pair(actual, expected) {
            Some(p) => contains_spec(p.0, p.1),
            None => false,
        },
        Operator::StartsWith => match string_pair(actual, expected) {
            Some(p) => starts_with_spec(p.0, p.1),
            None => false,
        },
        Operator::EndsWith => match string_pair(actual, expected) {
            Some(p) => ends_with_spec(p.0, p.1),
            None => false,
        },
        Operator::In => match (actual, expected) {
            (AttributeValue::String(s), AttributeValue::StringList(l)) => in_list(l@, s@),
            _ => false,
        },
        Operator::NotIn => match (actual, expected) {
            (AttributeValue::String(s), AttributeValue::StringList(l)) => !in_list(l@, s@),
            _ => true,
        },
        Operator::GreaterThan => match number_pair(actual, expected) {
            Some(p) => p.0 > p.1,
            None => false,
        },
        Operator::GreaterThanOrEqual => match number_pair(actual, expected) {
            Some(p) => p.0 >= p.1,
            None => false,
        },
        Operator::LessThan => match number_pair(actual, expected) {
            Some(p) => p.0 < p.1,
            None => false,
        },
        Operator::LessThanOrEqual => match number_pair(actual, expected) {
            Some(p) => p.0 <= p.1,
            None => false,
        },
        _ => false,
    }
}

/// Equality of attribute values, as [`values_equal`] states it.
pub fn attribute_values_equal(a: &AttributeValue, b: &AttributeValue) -> (r: bool)
    ensures
        r == values_equal(*a, *b),
{
    match (a, b) {
        (AttributeValue::String(x), AttributeValue::String(y)) => text_eq(x.as_str(), y.as_str()),
        (AttributeValue::Number(x), AttributeValue::Number(y)) => x.0 == y.0,
        (AttributeValue::Boolean(x), AttributeValue::Boolean(y)) => *x == *y,
        _ => false,
    }
}

/// Whether `s` is one of the strings of `list`.
pub fn list_contains(list: &Vec<String>, s: &str) -> (r: bool)
    ensures
        r == in_list(list@, s@),
{
    let mut i: usize = 0;
    while i < list.len()
        invariant
            i <= list@.len(),
            forall|j: int| 0 <= j < i ==> (#[trigger] list@[j])@ != s@,
        decreases list@.len() - i,
    {
        if text_eq(list[i].as_str(), s) {
            return true;
        }
        i = i + 1;
    }
    false
}

/// Compares two attribute values with an operator, as [`compare_spec`]
/// states it.
pub fn compare(actual: &AttributeValue, op: Operator, expected: &AttributeValue) -> (r: bool)
    ensures
        r == compare_spec(*actual, op, *expected),
{
    match op {
        Operator::Equals => attribute_values_equal(actual, expected),
        Operator::NotEquals => !attribute_values_equal(actual, expected),
        Operator::Contains => match (actual, expected) {
            (AttributeValue::String(a), AttributeValue::String(e)) => text_contains(
                a.as_str(),
                e.as_str(),
            ),
            _ => false,
        },
        Operator::StartsWith => match (actual, expected) {
            (AttributeValue::String(a), AttributeValue::String(e)) => text_starts_with(
                a.as_str(),
                e.as_str(),
            ),
            _ => false,
        },
        Operator::EndsWith => match (actual, expected) {
            (AttributeValue::String(a), AttributeValue::String(e)) => text_ends_with(
                a.as_str(),
                e.as_str(),
            ),
            _ => false,
        },
        Operator::In => match (actual, expected) {
            (AttributeValue::String(s), AttributeValue::StringList(l)) => list_contains(
                l,
                s.as_str(),
            ),
            _ => false,
        },
        Operator::NotIn => match (actual, expected) {
            (AttributeValue::String(s), AttributeValue::StringList(l)) => !list_contains(
                l,
                s.as_str(),
            ),
            _ => true,
        },
        Operator::GreaterThan => match (actual, expected) {
            (AttributeValue::Number(a), AttributeValue::Number(e)) => a.0 > e.0,
            _ => false,
        },
        Operator::GreaterThanOrEqual => match (actual, expected) {
            (AttributeValue::Number(a), AttributeValue::Number(e)) => a.0 >= e.0,
            _ => false,
        },
        Operator::LessThan => match (actual, expected) {
            (AttributeValue::Number(a), AttributeValue::Number(e)) => a.0 < e.0,
            _ => false,
        },
        Operator::LessThanOrEqual => match (actual, expected) {
            (AttributeValue::Number(a), AttributeValue::Number(e)) => a.0 <= e.0,
            _ => false,
        },
        _ => false,
    }
}

/// A condition that a rule requires of the context.
#[derive(Clone, Debug)]
pub struct Condition {
    /// Attribute to check (ignored by the segment operators).
    pub attribute: String,
    /// Comparison operator.
    pub operator: Operator,
    /// Value to compare against.
    pub value: AttributeValue,
}

impl Condition {
    /// A condition from its parts.
    pub fn new(attribute: &str, operator: Operator, value: AttributeValue) -> (r: Condition)
        ensures
            r.attribute@ == attribute@,
            r.operator == operator,
            r.value == value,
    {
        Condition { attribute: attribute.to_owned(), operator, value }
    }

    /// `attribute` equals `value`.
    pub fn equals(attribute: &str, value: AttributeValue) -> (r: Condition)
        ensures
            r.attribute@ == attribute@,
            r.operator == Operator::Equals,
            r.value == value,
    {
        Condition::new(attribute, Operator::Equals, value)
    }

    /// `attribute` does not equal `value`.
    pub fn not_equals(attribute: &str, value: AttributeValue) -> (r: Condition)
        ensures
            r.attribute@ == attribute@,
            r.operator == Operator::NotEquals,
            r.value == value,
    {
        Condition::new(attribute, Operator::NotEquals, value)
    }

    /// `attribute` contains `value`.
    pub fn contains(attribute: &str, value: &str) -> (r: Condition)
        ensures
            r.attribute@ == attribute@,
            r.operator == Operator::Contains,
            r.value is String && r.value->String_0@ == value@,
    {
        Condition::new(attribute, Operator::Contains, AttributeValue::String(value.to_owned()))
    }

    /// `attribute` starts with `value`.
    pub fn starts_with(attribute: &str, value: &str) -> (r: Condition)
        ensures
            r.attribute@ == attribute@,
            r.operator == Operator::StartsWith,
            r.value is String && r.value->String_0@ == value@,
    {
        Condition::new(attribute, Operator::StartsWith, AttributeValue::String(value.to_owned()))
    }

    /// `attribute` ends with `value`.
    pub fn ends_with(attribute: &str, value: &str) -> (r: Condition)
        ensures
            r.attribute@ == attribute@,
            r.operator == Operator::EndsWith,
            r.value is String && r.value->String_0@ == value@,
    {
        Condition::new(attribute, Operator::EndsWith, AttributeValue::String(value.to_owned()))
    }

    /// `attribute` is one of `values`.
    pub fn in_list(attribute: &str, values: Vec<String>) -> (r: Condition)
        ensures
            r.attribute@ == attribute@,
            r.operator == Operator::In,
            r.value == AttributeValue::StringList(values),
    {
        Condition::new(attribute, Operator::In, AttributeValue::StringList(values))
    }

    /// The user is a member of the segment.
    pub fn matches_segment(segment_id: SegmentId) -> (r: Condition)
        ensures
            r.attribute@ == Seq::<char>::empty(),
            r.operator == Operator::MatchesSegment,
            r.value == AttributeValue::SegmentRef(segment_id),
    {
        let r = Condition::new("", Operator::MatchesSegment, AttributeValue::SegmentRef(segment_id));
        proof {
            reveal_strlit("");
        }
        r
    }
}

/// A targeting rule: when all its conditions hold, the flag takes its value.
#[derive(Clone, Debug)]
pub struct TargetingRule {
    /// Unique identifier.
    pub id: RuleId,
    /// Priority: lower is evaluated first.
    pub priority: u32,
    /// Conditions that must all hold.
    pub conditions: Vec<Condition>,
    /// Value of the flag when this rule applies.
    pub value: FlagValue,
    /// Share of matching users to whom the rule applies, from 0 to 100.
    pub rollout_percentage: Option<u8>,
    /// Description, for documentation.
    pub description: Option<String>,
}

impl TargetingRule {
    /// A rule with no conditions yet, which matches everyone.
    pub fn new(priority: u32, value: FlagValue) -> (r: TargetingRule)
        ensures
            r.priority == priority,
            r.value == value,
            r.conditions@.len() == 0,
            r.rollout_percentage is None,
            r.description is None,
    {
        TargetingRule {
            id: RuleId::new(),
            priority,
            conditions: Vec::new(),
            value,
            rollout_percentage: None,
            description: None,
        }
    }

    /// Adds a condition.
    pub fn with_condition(self, condition: Condition) -> (r: TargetingRule)
        ensures
            r == (TargetingRule { conditions: r.conditions, ..self }),
            r.conditions@ == self.conditions@.push(condition),
    {
        let mut r = self;
        r.conditions.push(condition);
        r
    }

    /// Sets the rollout percentage, capped at 100.
    pub fn with_rollout(self, percentage: u8) -> (r: TargetingRule)
        ensures
            r == (TargetingRule {
                rollout_percentage: Some(if percentage > 100 { 100 } else { percentage }),
                ..self
            }),
    {
        let mut r = self;
        r.rollout_percentage = Some(if percentage > 100 { 100 } else { percentage });
        r
    }

    /// Sets the description.
    pub fn with_description(self, description: &str) -> (r: TargetingRule)
        ensures
            r == (TargetingRule { description: r.description, ..self }),
            r.description is Some && r.description->0@ == description@,
    {
        let mut r = self;
        r.description = Some(description.to_owned());
        r
    }

    /// Whether the rule has no conditions and so matches everyone.
    pub fn is_catch_all(&self) -> (r: bool)
        ensures
            r == (self.conditions@.len() == 0),
    {
        self.conditions.len() == 0
    }
}

} // verus!
