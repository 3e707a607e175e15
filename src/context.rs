//! The evaluation context: who is asking, and with which attributes.

use vstd::prelude::*;

use crate::render::{append_rendered, render_value};
use crate::rule::{AttributeValue, Number};
use crate::text::{lemma_lex_lt_irreflexive, lemma_lex_lt_transitive, lex_lt, text_compare};

verus! {

/// An attribute entry: its name and its value.
pub type Entry = (String, AttributeValue);

/// Entries in strictly increasing order of their names (so names are unique).
pub open spec fn sorted_entries(s: Seq<Entry>) -> bool {
    forall|i: int, j: int| 0 <= i < j < s.len() ==> lex_lt(#[trigger] s[i].0@, #[trigger] s[j].0@)
}

/// Some entry is named `k`.
pub open spec fn has_name(s: Seq<Entry>, k: Seq<char>) -> bool {
    exists|i: int| 0 <= i < s.len() && (#[trigger] s[i]).0@ == k
}

/// An index of an entry named `k`, where there is one.
pub open spec fn index_of(s: Seq<Entry>, k: Seq<char>) -> int {
    choose|i: int| 0 <= i < s.len() && (#[trigger] s[i]).0@ == k
}

/// The entries as a map from names to values.
pub open spec fn entries_map(s: Seq<Entry>) -> Map<Seq<char>, AttributeValue> {
    Map::new(|k: Seq<char>| has_name(s, k), |k: Seq<char>| s[index_of(s, k)].1)
}

/// In sorted entries, an entry is found under its own name.
pub proof fn lemma_entry_in_map(s: Seq<Entry>, i: int)
    requires
        sorted_entries(s),
        0 <= i < s.len(),
    ensures
        entries_map(s).contains_key(s[i].0@),
        entries_map(s)[s[i].0@] == s[i].1,
        index_of(s, s[i].0@) == i,
{
    assert(has_name(s, s[i].0@));
    let j = index_of(s, s[i].0@);
    if j < i {
        lemma_lex_lt_irreflexive(s[i].0@);
    } else if i < j {
        lemma_lex_lt_irreflexive(s[i].0@);
    }
}

/// The anonymous identity's part for one entry: `name:rendering`.
pub open spec fn entry_text(e: Entry) -> Seq<char> {
    e.0@ + seq![':'] + render_value(e.1)
}

/// The parts of all entries, in order, separated by `,`.
pub open spec fn joined_entries(s: Seq<Entry>) -> Seq<char>
    decreases s.len(),
{
    if s.len() == 0 {
        Seq::empty()
    } else if s.len() == 1 {
        entry_text(s[0])
    } else {
        joined_entries(s.drop_last()) + seq![','] + entry_text(s.last())
    }
}

/// Sorted entries with the same names hold them at the same positions.
proof fn lemma_sorted_same_names(a: Seq<Entry>, b: Seq<Entry>)
    requires
        sorted_entries(a),
        sorted_entries(b),
        forall|k: Seq<char>| has_name(a, k) <==> has_name(b, k),
    ensures
        a.len() == b.len(),
        forall|i: int| 0 <= i < a.len() ==> (#[trigger] a[i]).0@ == b[i].0@,
    decreases a.len(),
{
    if a.len() == 0 {
        if b.len() > 0 {
            assert(has_name(b, b[0].0@));
        }
    } else if b.len() == 0 {
        assert(has_name(a, a[0].0@));
    } else {
        assert(has_name(a, a[0].0@));
        assert(has_name(b, b[0].0@));
        let j = choose|j: int| 0 <= j < b.len() && (#[trigger] b[j]).0@ == a[0].0@;
        let i = choose|i: int| 0 <= i < a.len() && (#[trigger] a[i]).0@ == b[0].0@;
        if j > 0 {
            assert(lex_lt(b[0].0@, b[j].0@));
            if i == 0 {
                lemma_lex_lt_irreflexive(a[0].0@);
            } else {
                assert(lex_lt(a[0].0@, a[i].0@));
                lemma_lex_lt_transitive(a[0].0@, b[0].0@, a[0].0@);
                lemma_lex_lt_irreflexive(a[0].0@);
            }
        }
        assert(a[0].0@ == b[0].0@);
        let ta = a.drop_first();
        let tb = b.drop_first();
        assert forall|k: Seq<char>| has_name(ta, k) <==> has_name(tb, k) by {
            if has_name(ta, k) {
                let x = choose|x: int| 0 <= x < ta.len() && (#[trigger] ta[x]).0@ == k;
                assert(a[x + 1].0@ == k);
                assert(lex_lt(a[0].0@, a[x + 1].0@));
                assert(has_name(b, k));
                let y = choose|y: int| 0 <= y < b.len() && (#[trigger] b[y]).0@ == k;
                if y == 0 {
                    lemma_lex_lt_irreflexive(k);
                }
                assert(tb[y - 1].0@ == k);
            }
            if has_name(tb, k) {
                let x = choose|x: int| 0 <= x < tb.len() && (#[trigger] tb[x]).0@ == k;
                assert(b[x + 1].0@ == k);
                assert(lex_lt(b[0].0@, b[x + 1].0@));
                assert(has_name(a, k));
                let y = choose|y: int| 0 <= y < a.len() && (#[trigger] a[y]).0@ == k;
                if y == 0 {
                    lemma_lex_lt_irreflexive(k);
                }
                assert(ta[y - 1].0@ == k);
            }
        }
        lemma_sorted_same_names(ta, tb);
        assert forall|i: int| 0 <= i < a.len() implies (#[trigger] a[i]).0@ == b[i].0@ by {
            if i > 0 {
                assert(ta[i - 1] == a[i]);
                assert(tb[i - 1] == b[i]);
            }
        }
    }
}

/// Entries that agree position by position in names and values have the same
/// joined text.
proof fn lemma_joined_pointwise(a: Seq<Entry>, b: Seq<Entry>)
    requires
        a.len() == b.len(),
        forall|i: int| 0 <= i < a.len() ==> (#[trigger] a[i]).0@ == b[i].0@ && a[i].1 == b[i].1,
    ensures
        joined_entries(a) == joined_entries(b),
    decreases a.len(),
{
    if a.len() > 1 {
        lemma_joined_pointwise(a.drop_last(), b.drop_last());
        assert(a.last().0@ == b.last().0@);
    } else if a.len() == 1 {
        assert(a[0].0@ == b[0].0@);
    }
}

/// Sorted entries with the same map have the same joined text.
pub proof fn lemma_joined_canonical(a: Seq<Entry>, b: Seq<Entry>)
    requires
        sorted_entries(a),
        sorted_entries(b),
        entries_map(a) == entries_map(b),
    ensures
        joined_entries(a) == joined_entries(b),
{
    assert forall|k: Seq<char>| has_name(a, k) <==> has_name(b, k) by {
        assert(entries_map(a).contains_key(k) == has_name(a, k));
        assert(entries_map(b).contains_key(k) == has_name(b, k));
    }
    lemma_sorted_same_names(a, b);
    assert forall|i: int| 0 <= i < a.len() implies (#[trigger] a[i]).0@ == b[i].0@ && a[i].1
        == b[i].1 by {
        lemma_entry_in_map(a, i);
        lemma_entry_in_map(b, i);
    }
    lemma_joined_pointwise(a, b);
}

/// Where `key` belongs in sorted entries: the index of the first entry whose
/// name is not below it, and whether that entry carries the name itself.
fn find_slot(s: &Vec<Entry>, key: &str) -> (r: (usize, bool))
    requires
        sorted_entries(s@),
    ensures
        r.0 <= s@.len(),
        forall|j: int| 0 <= j < r.0 ==> lex_lt(#[trigger] s@[j].0@, key@),
        r.1 ==> r.0 < s@.len() && s@[r.0 as int].0@ == key@,
        !r.1 ==> r.0 == s@.len() || lex_lt(key@, s@[r.0 as int].0@),
        r.1 == has_name(s@, key@),
{
    let mut i: usize = 0;
    while i < s.len()
        invariant
            i <= s@.len(),
            sorted_entries(s@),
            forall|j: int| 0 <= j < i ==> lex_lt(#[trigger] s@[j].0@, key@),
        decreases s@.len() - i,
    {
        let c = text_compare(s[i].0.as_str(), key);
        if c == 0 {
            assert(has_name(s@, key@));
            return (i, true);
        }
        if c > 0 {
            proof {
                assert forall|j: int| 0 <= j < s@.len() implies (#[trigger] s@[j]).0@ != key@ by {
                    if j < i {
                        lemma_lex_lt_irreflexive(key@);
                    } else if j > i {
                        assert(lex_lt(s@[i as int].0@, s@[j].0@));
                        lemma_lex_lt_transitive(key@, s@[i as int].0@, s@[j].0@);
                        lemma_lex_lt_irreflexive(key@);
                    }
                }
            }
            return (i, false);
        }
        i = i + 1;
    }
    proof {
        assert forall|j: int| 0 <= j < s@.len() implies (#[trigger] s@[j]).0@ != key@ by {
            lemma_lex_lt_irreflexive(key@);
        }
    }
    (i, false)
}

/// Sets `key` to `value` in sorted entries.
fn insert_entry(s: &mut Vec<Entry>, key: &str, value: AttributeValue)
    requires
        sorted_entries(old(s)@),
    ensures
        sorted_entries(final(s)@),
        entries_map(final(s)@) == entries_map(old(s)@).insert(key@, value),
{
    let (i, found) = find_slot(s, key);
    let ghost s0 = s@;
    if found {
        s.remove(i);
        s.insert(i, (key.to_owned(), value));
        proof {
            let s1 = s@;
            assert(s1 =~= s0.update(i as int, s1[i as int]));
            assert(sorted_entries(s1));
            assert forall|k: Seq<char>| #[trigger] has_name(s1, k) == has_name(s0, k) by {
                if has_name(s0, k) {
                    let x = choose|x: int| 0 <= x < s0.len() && (#[trigger] s0[x]).0@ == k;
                    assert(s1[x].0@ == k);
                }
                if has_name(s1, k) {
                    let x = choose|x: int| 0 <= x < s1.len() && (#[trigger] s1[x]).0@ == k;
                    assert(s0[x].0@ == k);
                }
            }
            assert forall|k: Seq<char>| #[trigger] has_name(s1, k) implies entries_map(s1)[k]
                == entries_map(s0).insert(key@, value)[k] by {
                let x = choose|x: int| 0 <= x < s1.len() && (#[trigger] s1[x]).0@ == k;
                lemma_entry_in_map(s1, x);
                lemma_entry_in_map(s1, i as int);
                lemma_entry_in_map(s0, x);
            }
            assert(entries_map(s1) =~= entries_map(s0).insert(key@, value));
        }
    } else {
        s.insert(i, (key.to_owned(), value));
        proof {
            let s1 = s@;
            assert(s1 =~= s0.insert(i as int, s1[i as int]));
            assert forall|a: int, b: int| 0 <= a < b < s1.len() implies lex_lt(
                #[trigger] s1[a].0@,
                #[trigger] s1[b].0@,
            ) by {
                if b < i {
                } else if a < i && b == i {
                } else if a < i {
                    if b > i + 1 {
                        assert(lex_lt(s0[i as int].0@, s0[b - 1].0@));
                        lemma_lex_lt_transitive(key@, s0[i as int].0@, s0[b - 1].0@);
                    }
                    assert(lex_lt(key@, s1[b].0@));
                    lemma_lex_lt_transitive(s1[a].0@, key@, s1[b].0@);
                } else if a == i {
                    if b > i + 1 {
                        assert(lex_lt(s0[i as int].0@, s0[b - 1].0@));
                        lemma_lex_lt_transitive(key@, s0[i as int].0@, s0[b - 1].0@);
                    }
                } else {
                    assert(s1[a] == s0[a - 1]);
                    assert(s1[b] == s0[b - 1]);
                }
            }
            assert forall|k: Seq<char>| #[trigger] has_name(s1, k) == (has_name(s0, k) || k
                == key@) by {
                if has_name(s0, k) {
                    let x = choose|x: int| 0 <= x < s0.len() && (#[trigger] s0[x]).0@ == k;
                    if x < i {
                        assert(s1[x].0@ == k);
                    } else {
                        assert(s1[x + 1].0@ == k);
                    }
                }
                if k == key@ {
                    assert(s1[i as int].0@ == k);
                }
                if has_name(s1, k) && k != key@ {
                    let x = choose|x: int| 0 <= x < s1.len() && (#[trigger] s1[x]).0@ == k;
                    if x < i {
                        assert(s0[x].0@ == k);
                    } else {
                        assert(s0[x - 1].0@ == k);
                    }
                }
            }
            assert forall|k: Seq<char>| #[trigger] has_name(s1, k) implies entries_map(s1)[k]
                == entries_map(s0).insert(key@, value)[k] by {
                let x = choose|x: int| 0 <= x < s1.len() && (#[trigger] s1[x]).0@ == k;
                lemma_entry_in_map(s1, x);
                if x < i {
                    lemma_entry_in_map(s0, x);
                } else if x > i {
                    lemma_entry_in_map(s0, x - 1);
                }
            }
            assert(entries_map(s1) =~= entries_map(s0).insert(key@, value));
        }
    }
}

/// Removes the entry named `key` from sorted entries, returning its value.
fn remove_entry(s: &mut Vec<Entry>, key: &str) -> (r: Option<AttributeValue>)
    requires
        sorted_entries(old(s)@),
    ensures
        sorted_entries(final(s)@),
        entries_map(final(s)@) == entries_map(old(s)@).remove(key@),
        r == (if entries_map(old(s)@).contains_key(key@) {
            Some(entries_map(old(s)@)[key@])
        } else {
            None
        }),
{
    let (i, found) = find_slot(s, key);
    let ghost s0 = s@;
    if found {
        proof {
            lemma_entry_in_map(s0, i as int);
        }
        let (_, v) = s.remove(i);
        proof {
            let s1 = s@;
            assert(s1 =~= s0.remove(i as int));
            assert forall|a: int, b: int| 0 <= a < b < s1.len() implies lex_lt(
                #[trigger] s1[a].0@,
                #[trigger] s1[b].0@,
            ) by {
                if a >= i {
                    assert(s1[a] == s0[a + 1]);
                }
                if b >= i {
                    assert(s1[b] == s0[b + 1]);
                }
            }
            assert forall|k: Seq<char>| #[trigger] has_name(s1, k) == (has_name(s0, k) && k
                != key@) by {
                if has_name(s0, k) && k != key@ {
                    let x = choose|x: int| 0 <= x < s0.len() && (#[trigger] s0[x]).0@ == k;
                    if x < i {
                        assert(s1[x].0@ == k);
                    } else {
                        assert(s1[x - 1].0@ == k);
                    }
                }
                if has_name(s1, k) {
                    let x = choose|x: int| 0 <= x < s1.len() && (#[trigger] s1[x]).0@ == k;
                    if x < i {
                        assert(s0[x].0@ == k);
                        lemma_entry_in_map(s0, x);
                    } else {
                        assert(s0[x + 1].0@ == k);
                        lemma_entry_in_map(s0, x + 1);
                    }
                }
            }
            assert forall|k: Seq<char>| #[trigger] has_name(s1, k) implies entries_map(s1)[k]
                == entries_map(s0)[k] by {
                let x = choose|x: int| 0 <= x < s1.len() && (#[trigger] s1[x]).0@ == k;
                lemma_entry_in_map(s1, x);
                if x < i {
                    lemma_entry_in_map(s0, x);
                } else {
                    lemma_entry_in_map(s0, x + 1);
                }
            }
            assert(entries_map(s1) =~= entries_map(s0).remove(key@));
        }
        Some(v)
    } else {
        proof {
            assert(entries_map(s0) =~= entries_map(s0).remove(key@));
        }
        None
    }
}

/// Per-request user identity and attributes for evaluating flags.
#[derive(Debug)]
pub struct EvaluationContext {
    /// The user's identifier, used for percentage rollouts.
    pub user_id: Option<String>,
    attributes: Vec<Entry>,
}

impl EvaluationContext {
    #[verifier::type_invariant]
    spec fn entries_sorted(&self) -> bool {
        sorted_entries(self.attributes@)
    }

    /// The attribute entries, in increasing order of their names.
    pub closed spec fn entries(&self) -> Seq<Entry> {
        self.attributes@
    }

    /// The user's identifier.
    pub closed spec fn user(&self) -> Option<String> {
        self.user_id
    }

    /// Well-formedness: entries sorted by name. Every context holds it.
    pub open spec fn wf(&self) -> bool {
        sorted_entries(self.entries())
    }

    /// The attributes, by name.
    pub open spec fn attribute_map(&self) -> Map<Seq<char>, AttributeValue> {
        entries_map(self.entries())
    }

    /// The key used for rollouts: the user id where there is one; otherwise
    /// `anonymous:` followed by each attribute's `name:rendering`, in
    /// increasing order of names, separated by `,`.
    pub open spec fn effective_id(&self) -> Seq<char> {
        match self.user() {
            Some(u) => u@,
            None => "anonymous:"@ + joined_entries(self.entries()),
        }
    }

    /// The user's identifier, borrowed.
    pub fn user_ref(&self) -> (r: Option<&str>)
        ensures
            match self.user() {
                Some(u) => r is Some && r->0@ == u@,
                None => r is None,
            },
    {
        match &self.user_id {
            Some(u) => Some(u.as_str()),
            None => None,
        }
    }

    /// An empty context: no user, no attributes.
    pub fn new() -> (r: EvaluationContext)
        ensures
            r.user() is None,
            r.attribute_map() == Map::<Seq<char>, AttributeValue>::empty(),
            r.wf(),
    {
        let r = EvaluationContext { user_id: None, attributes: Vec::new() };
        assert(r.attribute_map() =~= Map::<Seq<char>, AttributeValue>::empty());
        r
    }

    /// A context for a user, with no attributes.
    pub fn with_user_id(user_id: &str) -> (r: EvaluationContext)
        ensures
            r.user() is Some && r.user()->0@ == user_id@,
            r.attribute_map() == Map::<Seq<char>, AttributeValue>::empty(),
            r.wf(),
    {
        let r = EvaluationContext { user_id: Some(user_id.to_owned()), attributes: Vec::new() };
        assert(r.attribute_map() =~= Map::<Seq<char>, AttributeValue>::empty());
        r
    }

    /// Sets the user id.
    pub fn user_id(self, user_id: &str) -> (r: EvaluationContext)
        ensures
            r.user() is Some && r.user()->0@ == user_id@,
            r.attribute_map() == self.attribute_map(),
            r.wf(),
    {
        proof {
            use_type_invariant(&self);
        }
        let EvaluationContext { user_id: _, attributes } = self;
        EvaluationContext { user_id: Some(user_id.to_owned()), attributes }
    }

    /// Sets an attribute.
    pub fn set(self, key: &str, value: AttributeValue) -> (r: EvaluationContext)
        ensures
            r.user() == self.user(),
            r.attribute_map() == self.attribute_map().insert(key@, value),
            r.wf(),
    {
        proof {
            use_type_invariant(&self);
        }
        let EvaluationContext { user_id, attributes } = self;
        let mut attributes = attributes;
        insert_entry(&mut attributes, key, value);
        EvaluationContext { user_id, attributes }
    }

    /// Sets an attribute in place.
    pub fn set_mut(&mut self, key: &str, value: AttributeValue)
        ensures
            final(self).user() == old(self).user(),
            final(self).attribute_map() == old(self).attribute_map().insert(key@, value),
            final(self).wf(),
    {
        proof {
            use_type_invariant(&*self);
        }
        let mut attributes: Vec<Entry> = Vec::new();
        std::mem::swap(&mut attributes, &mut self.attributes);
        insert_entry(&mut attributes, key, value);
        self.attributes = attributes;
    }

    /// The value of an attribute.
    pub fn get(&self, key: &str) -> (r: Option<&AttributeValue>)
        ensures
            r is Some <==> self.attribute_map().contains_key(key@),
            r is Some ==> *r->0 == self.attribute_map()[key@],
    {
        proof {
            use_type_invariant(self);
        }
        let (i, found) = find_slot(&self.attributes, key);
        if found {
            proof {
                lemma_entry_in_map(self.attributes@, i as int);
            }
            Some(&self.attributes[i].1)
        } else {
            None
        }
    }

    /// The value of a string attribute.
    pub fn get_str(&self, key: &str) -> (r: Option<&str>)
        ensures
            match self.attribute_map().get(key@) {
                Some(AttributeValue::String(s)) => r is Some && r->0@ == s@,
                _ => r is None,
            },
    {
        match self.get(key) {
            Some(v) => v.as_str(),
            None => None,
        }
    }

    /// The value of a number attribute.
    pub fn get_number(&self, key: &str) -> (r: Option<Number>)
        ensures
            r == (match self.attribute_map().get(key@) {
                Some(AttributeValue::Number(n)) => Some(n),
                _ => None::<Number>,
            }),
    {
        match self.get(key) {
            Some(v) => v.as_number(),
            None => None,
        }
    }

    /// The value of a boolean attribute.
    pub fn get_bool(&self, key: &str) -> (r: Option<bool>)
        ensures
            r == (match self.attribute_map().get(key@) {
                Some(AttributeValue::Boolean(b)) => Some(b),
                _ => None::<bool>,
            }),
    {
        match self.get(key) {
            Some(v) => v.as_bool(),
            None => None,
        }
    }

    /// Whether the attribute is set.
    pub fn has(&self, key: &str) -> (r: bool)
        ensures
            r == self.attribute_map().contains_key(key@),
    {
        self.get(key).is_some()
    }

    /// Removes an attribute, returning its value.
    pub fn remove(&mut self, key: &str) -> (r: Option<AttributeValue>)
        ensures
            final(self).user() == old(self).user(),
            final(self).attribute_map() == old(self).attribute_map().remove(key@),
            r == old(self).attribute_map().get(key@),
            final(self).wf(),
    {
        proof {
            use_type_invariant(&*self);
        }
        let mut attributes: Vec<Entry> = Vec::new();
        std::mem::swap(&mut attributes, &mut self.attributes);
        let r = remove_entry(&mut attributes, key);
        self.attributes = attributes;
        r
    }

    /// The key used for rollouts, as [`EvaluationContext::effective_id`]
    /// states it.
    pub fn effective_user_id(&self) -> (r: String)
        ensures
            r@ == self.effective_id(),
            self.wf(),
    {
        proof {
            use_type_invariant(self);
        }
        match &self.user_id {
            Some(u) => u.clone(),
            None => {
                let mut out = String::from_str("anonymous:");
                let s = &self.attributes;
                let ghost start = out@;
                let mut i: usize = 0;
                while i < s.len()
                    invariant
                        i <= s@.len(),
                        out@ == start + joined_entries(s@.subrange(0, i as int)),
                    decreases s@.len() - i,
                {
                    proof {
                        reveal_strlit(",");
                        reveal_strlit(":");
                    }
                    if i > 0 {
                        out.append(",");
                    }
                    out.append(s[i].0.as_str());
                    out.append(":");
                    append_rendered(&mut out, &s[i].1);
                    proof {
                        let t = s@.subrange(0, i + 1);
                        assert(t.drop_last() =~= s@.subrange(0, i as int));
                        assert(t.last() == s@[i as int]);
                        if i == 0 {
                            assert(t[0] == s@[0]);
                            assert(s@.subrange(0, 0) =~= Seq::<Entry>::empty());
                        }
                        assert(out@ =~= start + joined_entries(t));
                    }
                    i = i + 1;
                }
                assert(s@.subrange(0, i as int) =~= s@);
                out
            },
        }
    }

    /// This context with `other`'s user id, where it has one, and `other`'s
    /// attributes set over its own.
    pub fn merge(self, other: EvaluationContext) -> (r: EvaluationContext)
        ensures
            r.user() == (if other.user() is Some {
                other.user()
            } else {
                self.user()
            }),
            r.attribute_map() == self.attribute_map().union_prefer_right(other.attribute_map()),
            r.wf(),
    {
        proof {
            use_type_invariant(&self);
            use_type_invariant(&other);
        }
        let ghost base = self.attribute_map();
        let ghost o = other.attributes@;
        let EvaluationContext { user_id, attributes } = self;
        let EvaluationContext { user_id: other_user, attributes: other_attributes } = other;
        let mut attributes = attributes;
        let mut rest = other_attributes;
        let user_id = match other_user {
            Some(u) => Some(u),
            None => user_id,
        };
        while rest.len() > 0
            invariant
                sorted_entries(attributes@),
                sorted_entries(o),
                rest@.len() <= o.len(),
                rest@ == o.subrange(0, rest@.len() as int),
                entries_map(attributes@) == base.union_prefer_right(
                    entries_map(o.subrange(rest@.len() as int, o.len() as int)),
                ),
            decreases rest@.len(),
        {
            let ghost n = rest@.len() as int;
            let (k, v) = rest.pop().unwrap();
            let ghost before = attributes@;
            insert_entry(&mut attributes, k.as_str(), v);
            proof {
                let tail = o.subrange(n, o.len() as int);
                let tail2 = o.subrange(n - 1, o.len() as int);
                assert(tail2[0] == o[n - 1]);
                assert forall|a: int, b: int| 0 <= a < b < tail2.len() implies lex_lt(
                    #[trigger] tail2[a].0@,
                    #[trigger] tail2[b].0@,
                ) by {
                    assert(tail2[a] == o[n - 1 + a]);
                    assert(tail2[b] == o[n - 1 + b]);
                }
                assert forall|a: int, b: int| 0 <= a < b < tail.len() implies lex_lt(
                    #[trigger] tail[a].0@,
                    #[trigger] tail[b].0@,
                ) by {
                    assert(tail[a] == o[n + a]);
                    assert(tail[b] == o[n + b]);
                }
                assert forall|kk: Seq<char>| #[trigger] has_name(tail2, kk) == (has_name(tail, kk)
                    || kk == o[n - 1].0@) by {
                    if has_name(tail, kk) {
                        let x = choose|x: int| 0 <= x < tail.len() && (#[trigger] tail[x]).0@ == kk;
                        assert(tail2[x + 1] == tail[x]);
                    }
                    if kk == o[n - 1].0@ {
                        assert(tail2[0].0@ == kk);
                    }
                    if has_name(tail2, kk) && kk != o[n - 1].0@ {
                        let x = choose|x: int|
                            0 <= x < tail2.len() && (#[trigger] tail2[x]).0@ == kk;
                        assert(x != 0);
                        assert(tail[x - 1] == tail2[x]);
                    }
                }
                assert forall|kk: Seq<char>| #[trigger] has_name(tail2, kk) implies entries_map(
                    tail2,
                )[kk] == entries_map(tail).insert(o[n - 1].0@, o[n - 1].1)[kk] by {
                    let x = choose|x: int| 0 <= x < tail2.len() && (#[trigger] tail2[x]).0@ == kk;
                    lemma_entry_in_map(tail2, x);
                    if x > 0 {
                        assert(tail[x - 1] == tail2[x]);
                        lemma_entry_in_map(tail, x - 1);
                        if kk == o[n - 1].0@ {
                            lemma_lex_lt_irreflexive(kk);
                        }
                    }
                }
                assert(entries_map(tail2) =~= entries_map(tail).insert(o[n - 1].0@, o[n - 1].1));
                assert(rest@ =~= o.subrange(0, n - 1));
                assert(entries_map(attributes@) =~= base.union_prefer_right(entries_map(tail2)));
            }
        }
        assert(o.subrange(0, o.len() as int) =~= o);
        EvaluationContext { user_id, attributes }
    }
}

impl Clone for EvaluationContext {
    fn clone(&self) -> (r: EvaluationContext)
        ensures
            r.wf(),
    {
        proof {
            use_type_invariant(self);
        }
        let s = &self.attributes;
        let mut attributes: Vec<Entry> = Vec::new();
        let mut i: usize = 0;
        while i < s.len()
            invariant
                i <= s@.len(),
                sorted_entries(s@),
                attributes@.len() == i,
                forall|j: int| 0 <= j < i ==> (#[trigger] attributes@[j]).0@ == s@[j].0@,
            decreases s@.len() - i,
        {
            attributes.push((s[i].0.clone(), s[i].1.clone()));
            i = i + 1;
        }
        assert(sorted_entries(attributes@));
        let user_id = match &self.user_id {
            Some(u) => Some(u.clone()),
            None => None,
        };
        EvaluationContext { user_id, attributes }
    }
}

impl Default for EvaluationContext {
    fn default() -> (r: EvaluationContext)
        ensures
            r.user() is None,
            r.attribute_map() == Map::<Seq<char>, AttributeValue>::empty(),
    {
        EvaluationContext::new()
    }
}

/// Two contexts with the same user id and the same attributes, however
/// they were set, have the same rollout key.
pub proof fn lemma_effective_id_canonical(a: EvaluationContext, b: EvaluationContext)
    requires
        a.wf(),
        b.wf(),
        a.user() == b.user(),
        a.attribute_map() == b.attribute_map(),
    ensures
        a.effective_id() == b.effective_id(),
{
    lemma_joined_canonical(a.entries(), b.entries());
}

/// Builds an evaluation context step by step.
pub struct ContextBuilder {
    context: EvaluationContext,
}

impl ContextBuilder {
    /// The context being built.
    pub closed spec fn current(&self) -> EvaluationContext {
        self.context
    }

    /// A builder for an empty context.
    pub fn new() -> (r: ContextBuilder)
        ensures
            r.current().user() is None,
            r.current().attribute_map() == Map::<Seq<char>, AttributeValue>::empty(),
    {
        ContextBuilder { context: EvaluationContext::new() }
    }

    /// Sets the user id.
    pub fn user_id(self, user_id: &str) -> (r: ContextBuilder)
        ensures
            r.current().user() is Some && r.current().user()->0@ == user_id@,
            r.current().attribute_map() == self.current().attribute_map(),
    {
        ContextBuilder { context: self.context.user_id(user_id) }
    }

    /// Sets the `email` attribute.
    pub fn email(self, email: &str) -> (r: ContextBuilder)
        ensures
            r.current().user() == self.current().user(),
            r.current().attribute_map() == self.current().attribute_map().insert(
                "email"@,
                AttributeValue::String(r.current().attribute_map()["email"@]->String_0),
            ),
            r.current().attribute_map()["email"@] is String,
            r.current().attribute_map()["email"@]->String_0@ == email@,
    {
        let v = AttributeValue::String(email.to_owned());
        self.attribute("email", v)
    }

    /// Sets the `plan` attribute.
    pub fn plan(self, plan: &str) -> (r: ContextBuilder)
        ensures
            r.current().user() == self.current().user(),
            r.current().attribute_map() == self.current().attribute_map().insert(
                "plan"@,
                AttributeValue::String(r.current().attribute_map()["plan"@]->String_0),
            ),
            r.current().attribute_map()["plan"@] is String,
            r.current().attribute_map()["plan"@]->String_0@ == plan@,
    {
        let v = AttributeValue::String(plan.to_owned());
        self.attribute("plan", v)
    }

    /// Sets the `country` attribute.
    pub fn country(self, country: &str) -> (r: ContextBuilder)
        ensures
            r.current().user() == self.current().user(),
            r.current().attribute_map() == self.current().attribute_map().insert(
                "country"@,
                AttributeValue::String(r.current().attribute_map()["country"@]->String_0),
            ),
            r.current().attribute_map()["country"@] is String,
            r.current().attribute_map()["country"@]->String_0@ == country@,
    {
        let v = AttributeValue::String(country.to_owned());
        self.attribute("country", v)
    }

    /// Sets an attribute.
    pub fn attribute(self, key: &str, value: AttributeValue) -> (r: ContextBuilder)
        ensures
            r.current().user() == self.current().user(),
            r.current().attribute_map() == self.current().attribute_map().insert(key@, value),
    {
        ContextBuilder { context: self.context.set(key, value) }
    }

    /// The context built.
    pub fn build(self) -> (r: EvaluationContext)
        ensures
            r == self.current(),
    {
        self.context
    }
}

impl Default for ContextBuilder {
    fn default() -> (r: ContextBuilder)
        ensures
            r.current().user() is None,
            r.current().attribute_map() == Map::<Seq<char>, AttributeValue>::empty(),
    {
        ContextBuilder::new()
    }
}

} // verus!
