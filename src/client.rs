//! A client that evaluates a set of flags held in memory.

use vstd::prelude::*;

use crate::config::Config;
use crate::context::EvaluationContext;
use crate::evaluation::{evaluation, segments_map_of, EvaluationReason, EvaluationResult, Evaluator, Outcome};
use crate::flag::{Flag, FlagValue, ValueModel};
use crate::segment::Segment;
use crate::text::text_eq;

verus! {

/// Errors of the client.
#[derive(Clone, Debug, PartialEq)]
pub enum ClientError {
    /// Connecting to the server failed.
    Connection(String),
    /// Fetching flags failed.
    Fetch(String),
    /// The configuration is not valid.
    Config(String),
    /// The server reported an error.
    Server(String),
}

/// The last flag of the list with key `k`.
pub open spec fn last_with_key(flags: Seq<Flag>, k: Seq<char>) -> Option<Flag>
    decreases flags.len(),
{
    if flags.len() == 0 {
        None
    } else if flags.last().key.view() == k {
        Some(flags.last())
    } else {
        last_with_key(flags.drop_last(), k)
    }
}

/// No two flags of the list share a key.
pub open spec fn keys_unique(s: Seq<Flag>) -> bool {
    forall|i: int, j: int|
        0 <= i < s.len() && 0 <= j < s.len() && i != j ==> (#[trigger] s[i]).key.view()
            != (#[trigger] s[j]).key.view()
}

/// Some flag of the list has key `k`.
pub open spec fn has_key(s: Seq<Flag>, k: Seq<char>) -> bool {
    exists|i: int| 0 <= i < s.len() && (#[trigger] s[i]).key.view() == k
}

/// The flag of the list with key `k`, where there is one.
pub open spec fn stored_flag(s: Seq<Flag>, k: Seq<char>) -> Option<Flag> {
    if has_key(s, k) {
        Some(s[choose|i: int| 0 <= i < s.len() && (#[trigger] s[i]).key.view() == k])
    } else {
        None
    }
}

proof fn lemma_stored_at(s: Seq<Flag>, i: int)
    requires
        keys_unique(s),
        0 <= i < s.len(),
    ensures
        stored_flag(s, s[i].key.view()) == Some(s[i]),
{
    assert(has_key(s, s[i].key.view()));
}

/// The outcome of evaluating a flag by key, given the flag found.
pub open spec fn keyed_outcome(
    found: Option<Flag>,
    segs: Map<u128, Segment>,
    environment: Seq<char>,
    ctx: EvaluationContext,
) -> Outcome {
    match found {
        Some(f) => evaluation(segs, f, environment, ctx),
        None => Outcome {
            value: ValueModel::Boolean(false),
            reason: EvaluationReason::FlagNotFound,
            rule_id: None,
            in_rollout: None,
        },
    }
}

/// Whether an outcome comes from a missing flag or environment, where a
/// caller's default applies.
pub open spec fn missing(o: Outcome) -> bool {
    o.reason == EvaluationReason::FlagNotFound || o.reason == EvaluationReason::EnvironmentNotFound
}

/// Where `key` stands in the list of flags.
fn find_flag(s: &Vec<Flag>, key: &str) -> (r: Option<usize>)
    ensures
        match r {
            Some(i) => i < s@.len() && s@[i as int].key.view() == key@,
            None => !has_key(s@, key@),
        },
{
    let mut i: usize = 0;
    while i < s.len()
        invariant
            i <= s@.len(),
            forall|j: int| 0 <= j < i ==> (#[trigger] s@[j]).key.view() != key@,
        decreases s@.len() - i,
    {
        if text_eq(s[i].key.as_str(), key) {
            return Some(i);
        }
        i = i + 1;
    }
    None
}

/// A client holding flags and segments in memory.
pub struct FlapsClient {
    config: Config,
    evaluator: Evaluator,
    flags: Vec<Flag>,
}

impl FlapsClient {
    #[verifier::type_invariant]
    spec fn unique_keys(&self) -> bool {
        keys_unique(self.flags@)
    }

    /// The flag with key `k`.
    pub closed spec fn flag_for(&self, k: Seq<char>) -> Option<Flag> {
        stored_flag(self.flags@, k)
    }

    /// The keys of the flags, in the order they are held.
    pub closed spec fn keys(&self) -> Seq<Seq<char>> {
        self.flags@.map_values(|f: Flag| f.key.view())
    }

    /// The configuration.
    pub closed spec fn settings(&self) -> Config {
        self.config
    }

    /// The segments, by id.
    pub closed spec fn segments(&self) -> Map<u128, Segment> {
        self.evaluator.segment_map()
    }

    /// The outcome of evaluating the flag with key `k` for `ctx`.
    pub open spec fn outcome(&self, k: Seq<char>, ctx: EvaluationContext) -> Outcome {
        keyed_outcome(self.flag_for(k), self.segments(), self.settings().environment@, ctx)
    }

    /// A client with no flags yet. Nothing is fetched here, so this
    /// succeeds.
    pub fn new(config: Config) -> (r: Result<FlapsClient, ClientError>)
        ensures
            r is Ok,
            r->Ok_0.settings() == config,
            forall|k: Seq<char>| r->Ok_0.flag_for(k) is None,
            r->Ok_0.segments() == Map::<u128, Segment>::empty(),
    {
        Ok(FlapsClient { config, evaluator: Evaluator::new(), flags: Vec::new() })
    }

    /// A client in offline mode with the given flags and segments; of two
    /// flags with one key, or two segments with one id, the later counts.
    pub fn offline(flags: Vec<Flag>, segments: Vec<Segment>) -> (r: FlapsClient)
        ensures
            forall|k: Seq<char>| #[trigger] r.flag_for(k) == last_with_key(flags@, k),
            r.segments() == segments_map_of(segments@),
            r.settings().offline_mode,
            r.settings().environment@ == "dev"@,
    {
        let mut stored: Vec<Flag> = Vec::new();
        let mut rest = flags;
        let ghost all = rest@;
        let ghost mut i: int = 0;
        assert(all.subrange(0, all.len() as int) =~= all);
        while rest.len() > 0
            invariant
                0 <= i <= all.len(),
                rest@ == all.subrange(i, all.len() as int),
                keys_unique(stored@),
                forall|k: Seq<char>| #[trigger] stored_flag(stored@, k) == last_with_key(all.subrange(0, i), k),
            decreases rest@.len(),
        {
            let flag = rest.remove(0);
            let ghost before = stored@;
            let ghost pre = all.subrange(0, i + 1);
            proof {
                assert(flag == all[i]);
                assert(pre.drop_last() =~= all.subrange(0, i));
                assert(pre.last() == flag);
            }
            match find_flag(&stored, flag.key.as_str()) {
                Some(j) => {
                    stored.remove(j);
                    stored.insert(j, flag);
                    proof {
                        assert(stored@ =~= before.update(j as int, pre.last()));
                        assert forall|a: int, b: int|
                            0 <= a < stored@.len() && 0 <= b < stored@.len() && a != b implies (
                            #[trigger] stored@[a]).key.view() != (#[trigger] stored@[b]).key.view() by {
                            if a != j && b != j {
                                assert(stored@[a] == before[a]);
                                assert(stored@[b] == before[b]);
                            } else if a == j {
                                assert(stored@[b] == before[b]);
                            } else {
                                assert(stored@[a] == before[a]);
                            }
                        }
                        assert forall|k: Seq<char>| #[trigger] stored_flag(stored@, k) == last_with_key(pre, k) by {
                            assert(stored_flag(before, k) == last_with_key(all.subrange(0, i), k));
                            if k == pre.last().key.view() {
                                lemma_stored_at(stored@, j as int);
                            } else {
                                assert(last_with_key(pre, k) == last_with_key(all.subrange(0, i), k));
                                if has_key(before, k) {
                                    let x = choose|x: int| 0 <= x < before.len() && (#[trigger] before[x]).key.view() == k;
                                    lemma_stored_at(before, x);
                                    assert(x != j);
                                    assert(stored@[x] == before[x]);
                                    lemma_stored_at(stored@, x);
                                } else if has_key(stored@, k) {
                                    let x = choose|x: int| 0 <= x < stored@.len() && (#[trigger] stored@[x]).key.view() == k;
                                    assert(x != j);
                                    assert(stored@[x] == before[x]);
                                    assert(has_key(before, k));
                                }
                            }
                        }
                    }
                },
                None => {
                    stored.push(flag);
                    proof {
                        assert(stored@ =~= before.push(pre.last()));
                        assert forall|a: int, b: int|
                            0 <= a < stored@.len() && 0 <= b < stored@.len() && a != b implies (
                            #[trigger] stored@[a]).key.view() != (#[trigger] stored@[b]).key.view() by {
                            if a < before.len() && b < before.len() {
                                assert(stored@[a] == before[a]);
                                assert(stored@[b] == before[b]);
                            } else if a < before.len() {
                                assert(stored@[a] == before[a]);
                            } else {
                                assert(stored@[b] == before[b]);
                            }
                        }
                        assert forall|k: Seq<char>| #[trigger] stored_flag(stored@, k) == last_with_key(pre, k) by {
                            let n = before.len() as int;
                            assert(stored_flag(before, k) == last_with_key(all.subrange(0, i), k));
                            if k == pre.last().key.view() {
                                lemma_stored_at(stored@, n);
                            } else {
                                assert(last_with_key(pre, k) == last_with_key(all.subrange(0, i), k));
                                if has_key(before, k) {
                                    let x = choose|x: int| 0 <= x < before.len() && (#[trigger] before[x]).key.view() == k;
                                    lemma_stored_at(before, x);
                                    assert(stored@[x] == before[x]);
                                    lemma_stored_at(stored@, x);
                                } else if has_key(stored@, k) {
                                    let x = choose|x: int| 0 <= x < stored@.len() && (#[trigger] stored@[x]).key.view() == k;
                                    assert(x != n);
                                    assert(stored@[x] == before[x]);
                                    assert(has_key(before, k));
                                }
                            }
                        }
                    }
                },
            }
            proof {
                i = i + 1;
                assert(rest@ =~= all.subrange(i, all.len() as int));
            }
        }
        assert(all.subrange(0, i) =~= all);
        FlapsClient {
            config: Config::default().offline(),
            evaluator: Evaluator::with_segments(segments),
            flags: stored,
        }
    }

    /// A new, empty evaluation context.
    pub fn context(&self) -> (r: EvaluationContext)
        ensures
            r.user() is None,
            r.attribute_map() == Map::<Seq<char>, crate::rule::AttributeValue>::empty(),
    {
        EvaluationContext::new()
    }

    /// Evaluates the flag with key `flag_key` in the configured environment.
    pub fn evaluate(&self, flag_key: &str, context: &EvaluationContext) -> (r: EvaluationResult)
        ensures
            r@ == self.outcome(flag_key@, *context),
    {
        proof {
            use_type_invariant(self);
        }
        match find_flag(&self.flags, flag_key) {
            Some(i) => {
                proof {
                    lemma_stored_at(self.flags@, i as int);
                }
                self.evaluator.evaluate(&self.flags[i], self.config.environment.as_str(), context)
            },
            None => EvaluationResult::flag_not_found(),
        }
    }

    /// Whether the flag is enabled for the context.
    pub fn is_enabled(&self, flag_key: &str, context: &EvaluationContext) -> (r: bool)
        ensures
            r == crate::evaluation::enabled_outcome(self.outcome(flag_key@, *context)),
    {
        self.evaluate(flag_key, context).is_enabled()
    }

    /// The boolean value of the flag; `default` where the flag or the
    /// environment is missing, or the value is not a boolean.
    pub fn get_bool(&self, flag_key: &str, context: &EvaluationContext, default: bool) -> (r: bool)
        ensures
            r == (if missing(self.outcome(flag_key@, *context)) {
                default
            } else {
                match self.outcome(flag_key@, *context).value {
                    ValueModel::Boolean(b) => b,
                    ValueModel::String(_) => default,
                }
            }),
    {
        let result = self.evaluate(flag_key, context);
        match result.reason {
            EvaluationReason::FlagNotFound | EvaluationReason::EnvironmentNotFound => default,
            _ => match result.value.as_bool() {
                Some(b) => b,
                None => default,
            },
        }
    }

    /// The string value of the flag; `default` where the flag or the
    /// environment is missing, or the value is not a string.
    pub fn get_string(&self, flag_key: &str, context: &EvaluationContext, default: &str) -> (r: String)
        ensures
            r@ == (if missing(self.outcome(flag_key@, *context)) {
                default@
            } else {
                match self.outcome(flag_key@, *context).value {
                    ValueModel::String(s) => s,
                    ValueModel::Boolean(_) => default@,
                }
            }),
    {
        let result = self.evaluate(flag_key, context);
        match result.reason {
            EvaluationReason::FlagNotFound | EvaluationReason::EnvironmentNotFound => default.to_owned(),
            _ => match result.value.as_str() {
                Some(s) => s.to_owned(),
                None => default.to_owned(),
            },
        }
    }

    /// The keys of all flags, each once.
    pub fn all_flag_keys(&self) -> (r: Vec<String>)
        ensures
            r@.len() == self.keys().len(),
            forall|i: int| 0 <= i < r@.len() ==> (#[trigger] r@[i])@ == self.keys()[i],
            forall|k: Seq<char>| self.flag_for(k) is Some <==> self.keys().contains(k),
            forall|i: int, j: int|
                0 <= i < j < r@.len() ==> (#[trigger] r@[i])@ != (#[trigger] r@[j])@,
    {
        proof {
            use_type_invariant(self);
        }
        let mut r: Vec<String> = Vec::new();
        let mut i: usize = 0;
        while i < self.flags.len()
            invariant
                i <= self.flags@.len(),
                r@.len() == i,
                forall|j: int| 0 <= j < i ==> (#[trigger] r@[j])@ == self.flags@[j].key.view(),
            decreases self.flags@.len() - i,
        {
            r.push(self.flags[i].key.as_str().to_owned());
            i = i + 1;
        }
        proof {
            assert forall|k: Seq<char>| self.flag_for(k) is Some <==> self.keys().contains(k) by {
                if has_key(self.flags@, k) {
                    let x = choose|x: int| 0 <= x < self.flags@.len() && (#[trigger] self.flags@[x]).key.view() == k;
                    assert(self.keys()[x] == k);
                }
                if self.keys().contains(k) {
                    let x = choose|x: int| 0 <= x < self.keys().len() && self.keys()[x] == k;
                    assert(self.flags@[x].key.view() == k);
                }
            }
            assert forall|a: int, b: int| 0 <= a < b < r@.len() implies (#[trigger] r@[a])@ != (#[trigger] r@[b])@ by {
                assert(self.flags@[a].key.view() != self.flags@[b].key.view());
            }
        }
        r
    }

    /// The value of every flag for the context, by key.
    pub fn all_flags(&self, context: &EvaluationContext) -> (r: Vec<(String, FlagValue)>)
        ensures
            r@.len() == self.keys().len(),
            forall|i: int|
                0 <= i < r@.len() ==> (#[trigger] r@[i]).0@ == self.keys()[i] && r@[i].1@
                    == self.outcome(self.keys()[i], *context).value,
    {
        proof {
            use_type_invariant(self);
        }
        let mut r: Vec<(String, FlagValue)> = Vec::new();
        let mut i: usize = 0;
        while i < self.flags.len()
            invariant
                i <= self.flags@.len(),
                keys_unique(self.flags@),
                r@.len() == i,
                forall|j: int|
                    0 <= j < i ==> (#[trigger] r@[j]).0@ == self.keys()[j] && r@[j].1@
                        == self.outcome(self.keys()[j], *context).value,
            decreases self.flags@.len() - i,
        {
            let flag = &self.flags[i];
            proof {
                lemma_stored_at(self.flags@, i as int);
            }
            let result = self.evaluator.evaluate(flag, self.config.environment.as_str(), context);
            r.push((flag.key.as_str().to_owned(), result.value));
            i = i + 1;
        }
        r
    }

    /// Fetches the flags again; offline, or with nothing to fetch from,
    /// this succeeds at once.
    pub fn refresh(&self) -> (r: Result<(), ClientError>)
        ensures
            r is Ok,
    {
        Ok(())
    }

    /// Releases the client's resources; it holds none beyond memory.
    pub fn close(&self) {
    }
}

} // verus!
