//! The evaluator: decides a flag's value for a context, and why.

use std::collections::HashMap;

use vstd::prelude::*;

use crate::context::EvaluationContext;
use crate::flag::{lookup_env, truthy, type_default, Flag, FlagValue, ValueModel};
use crate::ids::RuleId;
use crate::rollout::{in_rollout, in_rollout_spec};
use crate::rule::{compare, compare_spec, in_list, AttributeValue, Condition, Operator, TargetingRule};
use crate::segment::{Segment, SegmentCondition, SegmentRule};

verus! {

broadcast use vstd::std_specs::hash::group_hash_axioms;

/// Why an evaluation gave its value.
#[derive(Clone, Copy, Debug, PartialEq, Eq, Structural)]
pub enum EvaluationReason {
    /// No rule decided; the environment's default.
    Default,
    /// A targeting rule matched.
    TargetingMatch,
    /// The user is in the environment's rollout.
    RolloutIncluded,
    /// The user is outside the environment's rollout.
    RolloutExcluded,
    /// The flag is disabled in the environment.
    FlagDisabled,
    /// The flag has no configuration for the environment.
    EnvironmentNotFound,
    /// The flag does not exist.
    FlagNotFound,
    /// Evaluation failed.
    Error,
}

/// The stable lower-snake-case tag of a reason.
pub open spec fn reason_tag(r: EvaluationReason) -> Seq<char> {
    match r {
        EvaluationReason::Default => "default"@,
        EvaluationReason::TargetingMatch => "targeting_match"@,
        EvaluationReason::RolloutIncluded => "rollout_included"@,
        EvaluationReason::RolloutExcluded => "rollout_excluded"@,
        EvaluationReason::FlagDisabled => "flag_disabled"@,
        EvaluationReason::EnvironmentNotFound => "environment_not_found"@,
        EvaluationReason::FlagNotFound => "flag_not_found"@,
        EvaluationReason::Error => "error"@,
    }
}

impl EvaluationReason {
    /// The stable lower-snake-case tag of this reason.
    pub fn as_str(&self) -> (r: &'static str)
        ensures
            r@ == reason_tag(*self),
    {
        match self {
            EvaluationReason::Default => "default",
            EvaluationReason::TargetingMatch => "targeting_match",
            EvaluationReason::RolloutIncluded => "rollout_included",
            EvaluationReason::RolloutExcluded => "rollout_excluded",
            EvaluationReason::FlagDisabled => "flag_disabled",
            EvaluationReason::EnvironmentNotFound => "environment_not_found",
            EvaluationReason::FlagNotFound => "flag_not_found",
            EvaluationReason::Error => "error",
        }
    }
}

/// What an evaluation result holds, for specifications.
pub struct Outcome {
    pub value: ValueModel,
    pub reason: EvaluationReason,
    pub rule_id: Option<RuleId>,
    pub in_rollout: Option<bool>,
}

/// Whether an outcome counts as enabled: never for a disabled or missing
/// flag or environment, an excluded user or an error; otherwise when the
/// value is truthy.
pub open spec fn enabled_outcome(o: Outcome) -> bool {
    match o.reason {
        EvaluationReason::FlagDisabled | EvaluationReason::FlagNotFound
        | EvaluationReason::EnvironmentNotFound | EvaluationReason::RolloutExcluded
        | EvaluationReason::Error => false,
        _ => truthy(o.value),
    }
}

/// The result of evaluating a flag.
#[derive(Clone, Debug)]
pub struct EvaluationResult {
    /// The value of the flag.
    pub value: FlagValue,
    /// Why the flag has this value.
    pub reason: EvaluationReason,
    /// The rule that decided, if one did.
    pub rule_id: Option<RuleId>,
    /// Whether a rollout took the user in, where one was consulted.
    pub in_rollout: Option<bool>,
}

impl View for EvaluationResult {
    type V = Outcome;

    open spec fn view(&self) -> Outcome {
        Outcome {
            value: self.value@,
            reason: self.reason,
            rule_id: self.rule_id,
            in_rollout: self.in_rollout,
        }
    }
}

impl EvaluationResult {
    /// A result with the default value.
    pub fn default_value(value: FlagValue) -> (r: EvaluationResult)
        ensures
            r == (EvaluationResult {
                value,
                reason: EvaluationReason::Default,
                rule_id: None,
                in_rollout: None,
            }),
    {
        EvaluationResult { value, reason: EvaluationReason::Default, rule_id: None, in_rollout: None }
    }

    /// A result for a disabled flag; the value is kept for the record.
    pub fn disabled(value: FlagValue) -> (r: EvaluationResult)
        ensures
            r == (EvaluationResult {
                value,
                reason: EvaluationReason::FlagDisabled,
                rule_id: None,
                in_rollout: None,
            }),
    {
        EvaluationResult {
            value,
            reason: EvaluationReason::FlagDisabled,
            rule_id: None,
            in_rollout: None,
        }
    }

    /// A result for a flag that does not exist.
    pub fn flag_not_found() -> (r: EvaluationResult)
        ensures
            r == (EvaluationResult {
                value: FlagValue::Boolean(false),
                reason: EvaluationReason::FlagNotFound,
                rule_id: None,
                in_rollout: None,
            }),
    {
        EvaluationResult {
            value: FlagValue::Boolean(false),
            reason: EvaluationReason::FlagNotFound,
            rule_id: None,
            in_rollout: None,
        }
    }

    /// A result for an environment the flag has no configuration for.
    pub fn environment_not_found() -> (r: EvaluationResult)
        ensures
            r == (EvaluationResult {
                value: FlagValue::Boolean(false),
                reason: EvaluationReason::EnvironmentNotFound,
                rule_id: None,
                in_rollout: None,
            }),
    {
        EvaluationResult {
            value: FlagValue::Boolean(false),
            reason: EvaluationReason::EnvironmentNotFound,
            rule_id: None,
            in_rollout: None,
        }
    }

    /// Whether the flag is enabled: see [`enabled_outcome`].
    pub fn is_enabled(&self) -> (r: bool)
        ensures
            r == enabled_outcome(self@),
    {
        match self.reason {
            EvaluationReason::FlagDisabled | EvaluationReason::FlagNotFound
            | EvaluationReason::EnvironmentNotFound | EvaluationReason::RolloutExcluded
            | EvaluationReason::Error => false,
            _ => self.value.is_truthy(),
        }
    }

    /// The boolean value, or `false` for a string value.
    pub fn as_bool(&self) -> (r: bool)
        ensures
            r == (self.value@ == ValueModel::Boolean(true)),
    {
        match self.value.as_bool() {
            Some(b) => b,
            None => false,
        }
    }

    /// The string value, or the empty string for a boolean value.
    pub fn as_str(&self) -> (r: &str)
        ensures
            r@ == (match self.value@ {
                ValueModel::String(s) => s,
                ValueModel::Boolean(_) => Seq::empty(),
            }),
    {
        match self.value.as_str() {
            Some(s) => s,
            None => {
                proof {
                    reveal_strlit("");
                }
                ""
            },
        }
    }
}

/// The context's user id is on the list.
pub open spec fn user_listed(ctx: EvaluationContext, list: Seq<String>) -> bool {
    match ctx.user() {
        Some(u) => in_list(list, u@),
        None => false,
    }
}

/// Whether a condition holds for the context. The segment operators ask
/// whether the user is a member of the referenced segment (false for any
/// other operand); the others compare the named attribute, and fail where
/// the context lacks it. `depth` bounds how deeply segment references nest.
pub open spec fn condition_holds(
    segs: Map<u128, Segment>,
    attribute: Seq<char>,
    op: Operator,
    value: AttributeValue,
    ctx: EvaluationContext,
    depth: nat,
) -> bool
    decreases depth, 1nat, 0nat,
{
    if op == Operator::MatchesSegment {
        match value {
            AttributeValue::SegmentRef(id) => segment_member(segs, id.0, ctx, depth),
            _ => false,
        }
    } else if op == Operator::NotMatchesSegment {
        match value {
            AttributeValue::SegmentRef(id) => !segment_member(segs, id.0, ctx, depth),
            _ => false,
        }
    } else {
        match ctx.attribute_map().get(attribute) {
            Some(actual) => compare_spec(actual, op, value),
            None => false,
        }
    }
}

/// Whether the context's user is a member of segment `id`: never for an
/// unknown segment or once `depth` is spent; never when excluded; always
/// when included; otherwise when some rule of the segment holds.
pub open spec fn segment_member(segs: Map<u128, Segment>, id: u128, ctx: EvaluationContext, depth: nat) -> bool
    decreases depth, 0nat, 0nat,
{
    if depth == 0 || !segs.contains_key(id) {
        false
    } else if user_listed(ctx, segs[id].excluded_users@) {
        false
    } else if user_listed(ctx, segs[id].included_users@) {
        true
    } else {
        any_segment_rule(segs, segs[id].rules@, ctx, (depth - 1) as nat)
    }
}

/// Some rule of the list holds: all of its conditions hold.
pub open spec fn any_segment_rule(
    segs: Map<u128, Segment>,
    rules: Seq<SegmentRule>,
    ctx: EvaluationContext,
    depth: nat,
) -> bool
    decreases depth, 3nat, rules.len(),
{
    if rules.len() == 0 {
        false
    } else {
        any_segment_rule(segs, rules.drop_last(), ctx, depth) || all_segment_conditions(
            segs,
            rules.last().conditions@,
            ctx,
            depth,
        )
    }
}

/// All the segment conditions hold.
pub open spec fn all_segment_conditions(
    segs: Map<u128, Segment>,
    conds: Seq<SegmentCondition>,
    ctx: EvaluationContext,
    depth: nat,
) -> bool
    decreases depth, 2nat, conds.len(),
{
    if conds.len() == 0 {
        true
    } else {
        all_segment_conditions(segs, conds.drop_last(), ctx, depth) && condition_holds(
            segs,
            conds.last().attribute@,
            conds.last().operator,
            conds.last().value,
            ctx,
            depth,
        )
    }
}

/// All the conditions of a targeting rule hold (so a rule without
/// conditions matches everyone).
pub open spec fn all_conditions(
    segs: Map<u128, Segment>,
    conds: Seq<Condition>,
    ctx: EvaluationContext,
    depth: nat,
) -> bool
    decreases conds.len(),
{
    if conds.len() == 0 {
        true
    } else {
        all_conditions(segs, conds.drop_last(), ctx, depth) && condition_holds(
            segs,
            conds.last().attribute@,
            conds.last().operator,
            conds.last().value,
            ctx,
            depth,
        )
    }
}

/// A rule applies to the context: it matches, and where it has a rollout
/// percentage, the user is in that rollout.
pub open spec fn rule_fires(
    segs: Map<u128, Segment>,
    rule: TargetingRule,
    ctx: EvaluationContext,
    flag_key: Seq<char>,
    depth: nat,
) -> bool {
    &&& all_conditions(segs, rule.conditions@, ctx, depth)
    &&& match rule.rollout_percentage {
        Some(p) => in_rollout_spec(ctx.effective_id(), flag_key, p),
        None => true,
    }
}

/// The index of the rule that decides: among the rules that apply, the one
/// of lowest priority, and of those the first declared. This is the first
/// rule that applies when the rules are stably sorted by priority.
pub open spec fn winner(
    segs: Map<u128, Segment>,
    rules: Seq<TargetingRule>,
    ctx: EvaluationContext,
    flag_key: Seq<char>,
    depth: nat,
) -> Option<int>
    decreases rules.len(),
{
    if rules.len() == 0 {
        None
    } else {
        let prev = winner(segs, rules.drop_last(), ctx, flag_key, depth);
        let n = rules.len() - 1;
        if rule_fires(segs, rules[n], ctx, flag_key, depth) && (prev is None || rules[n].priority
            < rules[prev->0].priority) {
            Some(n)
        } else {
            prev
        }
    }
}

/// The outcome when a rule decides.
pub open spec fn rule_outcome(rule: TargetingRule) -> Outcome {
    Outcome {
        value: rule.value@,
        reason: EvaluationReason::TargetingMatch,
        rule_id: Some(rule.id),
        in_rollout: if rule.rollout_percentage is Some {
            Some(true)
        } else {
            None
        },
    }
}

/// The outcome of an enabled environment: the deciding rule's, where one
/// applies; otherwise the global rollout's, where there is one (the
/// environment's default for a user in it, the flag's own default for one
/// outside); otherwise the environment's default.
pub open spec fn rules_outcome(
    segs: Map<u128, Segment>,
    rules: Seq<TargetingRule>,
    rollout: Option<u8>,
    env_default: ValueModel,
    flag_default: ValueModel,
    ctx: EvaluationContext,
    flag_key: Seq<char>,
    depth: nat,
) -> Outcome {
    match winner(segs, rules, ctx, flag_key, depth) {
        Some(w) => rule_outcome(rules[w]),
        None => match rollout {
            Some(p) => if in_rollout_spec(ctx.effective_id(), flag_key, p) {
                Outcome {
                    value: env_default,
                    reason: EvaluationReason::RolloutIncluded,
                    rule_id: None,
                    in_rollout: Some(true),
                }
            } else {
                Outcome {
                    value: flag_default,
                    reason: EvaluationReason::RolloutExcluded,
                    rule_id: None,
                    in_rollout: Some(false),
                }
            },
            None => Outcome {
                value: env_default,
                reason: EvaluationReason::Default,
                rule_id: None,
                in_rollout: None,
            },
        },
    }
}

/// The outcome of evaluating `flag` in environment `env_key` for `ctx`,
/// with segments `segs`; segment references nest at most as deep as there
/// are segments.
pub open spec fn evaluation(
    segs: Map<u128, Segment>,
    flag: Flag,
    env_key: Seq<char>,
    ctx: EvaluationContext,
) -> Outcome {
    match lookup_env(flag.environments@, env_key) {
        None => Outcome {
            value: ValueModel::Boolean(false),
            reason: EvaluationReason::EnvironmentNotFound,
            rule_id: None,
            in_rollout: None,
        },
        Some(cfg) => if !cfg.enabled {
            Outcome {
                value: type_default(flag.flag_type),
                reason: EvaluationReason::FlagDisabled,
                rule_id: None,
                in_rollout: None,
            }
        } else {
            rules_outcome(
                segs,
                cfg.rules@,
                cfg.rollout_percentage,
                cfg.default_value@,
                type_default(flag.flag_type),
                ctx,
                flag.key.view(),
                segs.len(),
            )
        },
    }
}

/// The rule that decides applies, and comes first among those that apply
/// in (priority, declaration) order; where none decides, none applies.
pub proof fn lemma_winner_first_in_priority_order(
    segs: Map<u128, Segment>,
    rules: Seq<TargetingRule>,
    ctx: EvaluationContext,
    flag_key: Seq<char>,
    depth: nat,
)
    ensures
        match winner(segs, rules, ctx, flag_key, depth) {
            Some(w) => {
                &&& 0 <= w < rules.len()
                &&& rule_fires(segs, rules[w], ctx, flag_key, depth)
                &&& forall|j: int|
                    0 <= j < rules.len() && rule_fires(segs, #[trigger] rules[j], ctx, flag_key, depth)
                        ==> rules[w].priority < rules[j].priority || (rules[w].priority
                        == rules[j].priority && w <= j)
            },
            None => forall|j: int|
                0 <= j < rules.len() ==> !rule_fires(segs, #[trigger] rules[j], ctx, flag_key, depth),
        },
    decreases rules.len(),
{
    if rules.len() > 0 {
        let d = rules.drop_last();
        let n = rules.len() - 1;
        lemma_winner_first_in_priority_order(segs, d, ctx, flag_key, depth);
        assert forall|j: int| 0 <= j < d.len() implies #[trigger] d[j] == rules[j] by {}
        let prev = winner(segs, d, ctx, flag_key, depth);
        if rule_fires(segs, rules[n], ctx, flag_key, depth) && (prev is None || rules[n].priority
            < rules[prev->0].priority) {
            assert(winner(segs, rules, ctx, flag_key, depth) == Some(n));
            assert forall|j: int|
                0 <= j < rules.len() && rule_fires(
                    segs,
                    #[trigger] rules[j],
                    ctx,
                    flag_key,
                    depth,
                ) implies rules[n].priority < rules[j].priority || (rules[n].priority
                == rules[j].priority && n <= j) by {
                if j < n {
                    assert(rule_fires(segs, d[j], ctx, flag_key, depth));
                }
            }
        } else {
            assert(winner(segs, rules, ctx, flag_key, depth) == prev);
            match prev {
                Some(w) => {
                    assert(rules[w] == d[w]);
                    assert forall|j: int|
                        0 <= j < rules.len() && rule_fires(
                            segs,
                            #[trigger] rules[j],
                            ctx,
                            flag_key,
                            depth,
                        ) implies rules[w].priority < rules[j].priority || (rules[w].priority
                        == rules[j].priority && w <= j) by {
                        if j < n {
                            assert(rule_fires(segs, d[j], ctx, flag_key, depth));
                        }
                    }
                },
                None => {
                    assert forall|j: int| 0 <= j < rules.len() implies !rule_fires(
                        segs,
                        #[trigger] rules[j],
                        ctx,
                        flag_key,
                        depth,
                    ) by {
                        if j < n {
                            assert(!rule_fires(segs, d[j], ctx, flag_key, depth));
                        }
                    }
                },
            }
        }
    }
}

/// A flag disabled in an environment is never reported enabled there, even
/// where its default value is a non-empty string.
pub proof fn lemma_disabled_never_enabled(
    segs: Map<u128, Segment>,
    flag: Flag,
    env_key: Seq<char>,
    ctx: EvaluationContext,
)
    requires
        lookup_env(flag.environments@, env_key) is Some,
        !lookup_env(flag.environments@, env_key)->0.enabled,
    ensures
        evaluation(segs, flag, env_key, ctx).reason == EvaluationReason::FlagDisabled,
        !enabled_outcome(evaluation(segs, flag, env_key, ctx)),
{
}

/// Of two rules that both apply, the one with the lower priority number is
/// preferred: the deciding rule is not the other one, and its priority is at
/// most that of the first.
pub proof fn lemma_lower_priority_wins(
    segs: Map<u128, Segment>,
    flag: Flag,
    env_key: Seq<char>,
    ctx: EvaluationContext,
    i: int,
    j: int,
)
    requires
        lookup_env(flag.environments@, env_key) is Some,
        lookup_env(flag.environments@, env_key)->0.enabled,
        0 <= i < lookup_env(flag.environments@, env_key)->0.rules@.len(),
        0 <= j < lookup_env(flag.environments@, env_key)->0.rules@.len(),
        rule_fires(
            segs,
            lookup_env(flag.environments@, env_key)->0.rules@[i],
            ctx,
            flag.key.view(),
            segs.len(),
        ),
        rule_fires(
            segs,
            lookup_env(flag.environments@, env_key)->0.rules@[j],
            ctx,
            flag.key.view(),
            segs.len(),
        ),
        lookup_env(flag.environments@, env_key)->0.rules@[i].priority < lookup_env(
            flag.environments@,
            env_key,
        )->0.rules@[j].priority,
    ensures
        ({
            let rules = lookup_env(flag.environments@, env_key)->0.rules@;
            let w = winner(segs, rules, ctx, flag.key.view(), segs.len());
            &&& w is Some
            &&& w->0 != j
            &&& rules[w->0].priority <= rules[i].priority
            &&& evaluation(segs, flag, env_key, ctx) == rule_outcome(rules[w->0])
        }),
{
    let rules = lookup_env(flag.environments@, env_key)->0.rules@;
    lemma_winner_first_in_priority_order(segs, rules, ctx, flag.key.view(), segs.len());
}

/// A user who matches a rule but falls outside its rollout is evaluated as
/// though the rule were not there: later rules, the global rollout and the
/// default still apply.
pub proof fn lemma_rollout_miss_falls_through(
    segs: Map<u128, Segment>,
    rules: Seq<TargetingRule>,
    rollout: Option<u8>,
    env_default: ValueModel,
    flag_default: ValueModel,
    ctx: EvaluationContext,
    flag_key: Seq<char>,
    depth: nat,
    i: int,
)
    requires
        0 <= i < rules.len(),
        all_conditions(segs, rules[i].conditions@, ctx, depth),
        rules[i].rollout_percentage is Some,
        !in_rollout_spec(ctx.effective_id(), flag_key, rules[i].rollout_percentage->0),
    ensures
        rules_outcome(segs, rules, rollout, env_default, flag_default, ctx, flag_key, depth)
            == rules_outcome(
            segs,
            rules.remove(i),
            rollout,
            env_default,
            flag_default,
            ctx,
            flag_key,
            depth,
        ),
{
    let r = rules.remove(i);
    lemma_winner_first_in_priority_order(segs, rules, ctx, flag_key, depth);
    lemma_winner_first_in_priority_order(segs, r, ctx, flag_key, depth);
    assert forall|k: int| 0 <= k < r.len() implies #[trigger] r[k] == (if k < i {
        rules[k]
    } else {
        rules[k + 1]
    }) by {}
    match winner(segs, rules, ctx, flag_key, depth) {
        Some(w) => {
            assert(w != i);
            let w2 = if w < i {
                w
            } else {
                w - 1
            };
            assert(r[w2] == rules[w]);
            assert(rule_fires(segs, r[w2], ctx, flag_key, depth));
            let v = winner(segs, r, ctx, flag_key, depth)->0;
            let v0 = if v < i {
                v
            } else {
                v + 1
            };
            assert(r[v] == rules[v0]);
            assert(rule_fires(segs, rules[v0], ctx, flag_key, depth));
            assert(v == w2);
        },
        None => {
            if winner(segs, r, ctx, flag_key, depth) is Some {
                let v = winner(segs, r, ctx, flag_key, depth)->0;
                let v0 = if v < i {
                    v
                } else {
                    v + 1
                };
                assert(r[v] == rules[v0]);
                assert(rule_fires(segs, rules[v0], ctx, flag_key, depth));
            }
        },
    }
}

/// A user on a segment's exclusion list is never a member of it, even when
/// also on its inclusion list or matched by one of its rules.
pub proof fn lemma_exclusion_overrides(
    segs: Map<u128, Segment>,
    id: u128,
    ctx: EvaluationContext,
    depth: nat,
)
    requires
        segs.contains_key(id),
        user_listed(ctx, segs[id].excluded_users@),
    ensures
        !segment_member(segs, id, ctx, depth),
{
}

/// The segments, with the last segment of each id.
pub open spec fn segments_map_of(s: Seq<Segment>) -> Map<u128, Segment>
    decreases s.len(),
{
    if s.len() == 0 {
        Map::empty()
    } else {
        segments_map_of(s.drop_last()).insert(s.last().id.0, s.last())
    }
}

/// The flag evaluation engine; it holds the segments that conditions refer to.
#[derive(Clone, Debug)]
pub struct Evaluator {
    segments: HashMap<u128, Segment>,
}

impl Default for Evaluator {
    fn default() -> (r: Evaluator)
        ensures
            r.segment_map() == Map::<u128, Segment>::empty(),
    {
        Evaluator::new()
    }
}

impl Evaluator {
    /// The segments, by id.
    pub closed spec fn segment_map(&self) -> Map<u128, Segment> {
        self.segments@
    }

    /// An evaluator without segments.
    pub fn new() -> (r: Evaluator)
        ensures
            r.segment_map() == Map::<u128, Segment>::empty(),
    {
        Evaluator { segments: HashMap::new() }
    }

    /// An evaluator with the given segments; of two with one id, the later counts.
    pub fn with_segments(segments: Vec<Segment>) -> (r: Evaluator)
        ensures
            r.segment_map() == segments_map_of(segments@),
    {
        let mut map: HashMap<u128, Segment> = HashMap::new();
        let mut rest = segments;
        let ghost all = rest@;
        let ghost mut i: int = 0;
        assert(all.subrange(0, 0) =~= Seq::<Segment>::empty());
        assert(all.subrange(0, all.len() as int) =~= all);
        while rest.len() > 0
            invariant
                0 <= i <= all.len(),
                rest@ == all.subrange(i, all.len() as int),
                map@ == segments_map_of(all.subrange(0, i)),
            decreases rest@.len(),
        {
            let segment = rest.remove(0);
            proof {
                assert(segment == all[i]);
                assert(all.subrange(0, i + 1).drop_last() =~= all.subrange(0, i));
                assert(all.subrange(0, i + 1).last() == all[i]);
            }
            map.insert(segment.id.0, segment);
            proof {
                i = i + 1;
                assert(rest@ =~= all.subrange(i, all.len() as int));
            }
        }
        assert(all.subrange(0, i) =~= all);
        Evaluator { segments: map }
    }

    /// Adds a segment, replacing any with the same id.
    pub fn add_segment(&mut self, segment: Segment)
        ensures
            final(self).segment_map() == old(self).segment_map().insert(segment.id.0, segment),
    {
        self.segments.insert(segment.id.0, segment);
    }

    /// Whether a condition holds, as [`condition_holds`] states it.
    fn condition_holds_exec(
        &self,
        attribute: &str,
        op: Operator,
        value: &AttributeValue,
        ctx: &EvaluationContext,
        depth: usize,
    ) -> (r: bool)
        ensures
            r == condition_holds(self.segment_map(), attribute@, op, *value, *ctx, depth as nat),
        decreases depth, 1nat, 0nat,
    {
        if op == Operator::MatchesSegment {
            match value {
                AttributeValue::SegmentRef(id) => self.segment_member_exec(id.0, ctx, depth),
                _ => false,
            }
        } else if op == Operator::NotMatchesSegment {
            match value {
                AttributeValue::SegmentRef(id) => !self.segment_member_exec(id.0, ctx, depth),
                _ => false,
            }
        } else {
            match ctx.get(attribute) {
                Some(actual) => compare(actual, op, value),
                None => false,
            }
        }
    }

    /// Whether the user is a member of a segment, as [`segment_member`] states it.
    fn segment_member_exec(&self, id: u128, ctx: &EvaluationContext, depth: usize) -> (r: bool)
        ensures
            r == segment_member(self.segment_map(), id, *ctx, depth as nat),
        decreases depth, 0nat, 0nat,
    {
        if depth == 0 {
            return false;
        }
        match self.segments.get(&id) {
            None => false,
            Some(segment) => {
                match ctx.user_ref() {
                    Some(u) => {
                        if segment.is_excluded(u) {
                            return false;
                        }
                        if segment.is_included(u) {
                            return true;
                        }
                    },
                    None => {},
                }
                self.any_segment_rule_exec(&segment.rules, ctx, depth - 1)
            },
        }
    }

    /// Whether some rule holds, as [`any_segment_rule`] states it.
    fn any_segment_rule_exec(&self, rules: &Vec<SegmentRule>, ctx: &EvaluationContext, depth: usize) -> (r: bool)
        ensures
            r == any_segment_rule(self.segment_map(), rules@, *ctx, depth as nat),
        decreases depth, 3nat, rules@.len(),
    {
        let mut found = false;
        let mut i: usize = 0;
        assert(rules@.subrange(0, 0) =~= Seq::<SegmentRule>::empty());
        while i < rules.len()
            invariant
                i <= rules@.len(),
                found == any_segment_rule(self.segment_map(), rules@.subrange(0, i as int), *ctx, depth as nat),
            decreases rules@.len() - i,
        {
            proof {
                let t = rules@.subrange(0, i + 1);
                assert(t.drop_last() =~= rules@.subrange(0, i as int));
                assert(t.last() == rules@[i as int]);
            }
            if !found {
                found = self.all_segment_conditions_exec(&rules[i].conditions, ctx, depth);
            }
            i = i + 1;
        }
        assert(rules@.subrange(0, i as int) =~= rules@);
        found
    }

    /// Whether all conditions hold, as [`all_segment_conditions`] states it.
    fn all_segment_conditions_exec(
        &self,
        conds: &Vec<SegmentCondition>,
        ctx: &EvaluationContext,
        depth: usize,
    ) -> (r: bool)
        ensures
            r == all_segment_conditions(self.segment_map(), conds@, *ctx, depth as nat),
        decreases depth, 2nat, conds@.len(),
    {
        let mut ok = true;
        let mut i: usize = 0;
        assert(conds@.subrange(0, 0) =~= Seq::<SegmentCondition>::empty());
        while i < conds.len()
            invariant
                i <= conds@.len(),
                ok == all_segment_conditions(self.segment_map(), conds@.subrange(0, i as int), *ctx, depth as nat),
            decreases conds@.len() - i,
        {
            proof {
                let t = conds@.subrange(0, i + 1);
                assert(t.drop_last() =~= conds@.subrange(0, i as int));
                assert(t.last() == conds@[i as int]);
            }
            if ok {
                let c = &conds[i];
                ok = self.condition_holds_exec(c.attribute.as_str(), c.operator, &c.value, ctx, depth);
            }
            i = i + 1;
        }
        assert(conds@.subrange(0, i as int) =~= conds@);
        ok
    }

    /// Whether all conditions of a targeting rule hold, as [`all_conditions`] states it.
    fn all_conditions_exec(&self, conds: &Vec<Condition>, ctx: &EvaluationContext, depth: usize) -> (r: bool)
        ensures
            r == all_conditions(self.segment_map(), conds@, *ctx, depth as nat),
    {
        let mut ok = true;
        let mut i: usize = 0;
        assert(conds@.subrange(0, 0) =~= Seq::<Condition>::empty());
        while i < conds.len()
            invariant
                i <= conds@.len(),
                ok == all_conditions(self.segment_map(), conds@.subrange(0, i as int), *ctx, depth as nat),
            decreases conds@.len() - i,
        {
            proof {
                let t = conds@.subrange(0, i + 1);
                assert(t.drop_last() =~= conds@.subrange(0, i as int));
                assert(t.last() == conds@[i as int]);
            }
            if ok {
                let c = &conds[i];
                ok = self.condition_holds_exec(c.attribute.as_str(), c.operator, &c.value, ctx, depth);
            }
            i = i + 1;
        }
        assert(conds@.subrange(0, i as int) =~= conds@);
        ok
    }

    /// Whether a rule applies, as [`rule_fires`] states it.
    fn rule_fires_exec(
        &self,
        rule: &TargetingRule,
        ctx: &EvaluationContext,
        user_key: &str,
        flag_key: &str,
        depth: usize,
    ) -> (r: bool)
        requires
            user_key@ == ctx.effective_id(),
        ensures
            r == rule_fires(self.segment_map(), *rule, *ctx, flag_key@, depth as nat),
    {
        if !self.all_conditions_exec(&rule.conditions, ctx, depth) {
            return false;
        }
        match rule.rollout_percentage {
            Some(p) => in_rollout(user_key, flag_key, p),
            None => true,
        }
    }

    /// Evaluates a flag in an environment for a context, as [`evaluation`]
    /// states it.
    pub fn evaluate(&self, flag: &Flag, environment: &str, context: &EvaluationContext) -> (r: EvaluationResult)
        ensures
            r@ == evaluation(self.segment_map(), *flag, environment@, *context),
    {
        let env_config = match flag.get_environment(environment) {
            Some(config) => config,
            None => return EvaluationResult::environment_not_found(),
        };
        if !env_config.enabled {
            return EvaluationResult::disabled(flag.default_value());
        }
        let depth = self.segments.len();
        let user_key = context.effective_user_id();
        let flag_key = flag.key.as_str();
        let rules = &env_config.rules;
        let ghost segs = self.segment_map();
        let mut best: Option<usize> = None;
        let mut i: usize = 0;
        assert(rules@.subrange(0, 0) =~= Seq::<TargetingRule>::empty());
        while i < rules.len()
            invariant
                i <= rules@.len(),
                depth as nat == segs.len(),
                user_key@ == context.effective_id(),
                segs == self.segment_map(),
                match winner(segs, rules@.subrange(0, i as int), *context, flag_key@, depth as nat) {
                    Some(w) => 0 <= w < i && best == Some(w as usize),
                    None => best is None,
                },
            decreases rules@.len() - i,
        {
            let ghost t = rules@.subrange(0, i + 1);
            proof {
                lemma_winner_first_in_priority_order(segs, rules@.subrange(0, i as int), *context, flag_key@, depth as nat);
                assert(t.drop_last() =~= rules@.subrange(0, i as int));
                assert(t[i as int] == rules@[i as int]);
                match winner(segs, rules@.subrange(0, i as int), *context, flag_key@, depth as nat) {
                    Some(w) => {
                        assert(t[w] == rules@[w]);
                    },
                    None => {},
                }
            }
            let rule = &rules[i];
            let better = match best {
                None => true,
                Some(b) => rule.priority < rules[b].priority,
            };
            if better && self.rule_fires_exec(rule, context, user_key.as_str(), flag_key, depth) {
                best = Some(i);
            }
            i = i + 1;
        }
        assert(rules@.subrange(0, i as int) =~= rules@);
        proof {
            lemma_winner_first_in_priority_order(segs, rules@, *context, flag_key@, depth as nat);
        }
        match best {
            Some(b) => {
                let rule = &rules[b];
                EvaluationResult {
                    value: rule.value.clone(),
                    reason: EvaluationReason::TargetingMatch,
                    rule_id: Some(rule.id),
                    in_rollout: if rule.rollout_percentage.is_some() {
                        Some(true)
                    } else {
                        None
                    },
                }
            },
            None => match env_config.rollout_percentage {
                Some(p) => {
                    if in_rollout(user_key.as_str(), flag_key, p) {
                        EvaluationResult {
                            value: env_config.default_value.clone(),
                            reason: EvaluationReason::RolloutIncluded,
                            rule_id: None,
                            in_rollout: Some(true),
                        }
                    } else {
                        EvaluationResult {
                            value: flag.default_value(),
                            reason: EvaluationReason::RolloutExcluded,
                            rule_id: None,
                            in_rollout: Some(false),
                        }
                    }
                },
                None => EvaluationResult::default_value(env_config.default_value.clone()),
            },
        }
    }

    /// Whether a user is in a rollout of a flag, as
    /// [`in_rollout_spec`](crate::rollout::in_rollout_spec) states it.
    pub fn is_in_rollout(&self, user_id: &str, flag_key: &str, percentage: u8) -> (r: bool)
        ensures
            r == in_rollout_spec(user_id@, flag_key@, percentage),
    {
        in_rollout(user_id, flag_key, percentage)
    }
}

} // verus!
