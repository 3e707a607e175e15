//! Flags: keys, value types, values, and the per-environment configuration
//! that a flag owns.

use vstd::prelude::*;

use crate::environment::EnvironmentConfig;
use crate::ids::{FlagId, ProjectId, Timestamp};
use crate::text::text_eq;

verus! {

/// A character allowed in a flag key: an ASCII letter or digit, `-` or `_`.
pub open spec fn is_key_char(c: char) -> bool {
    ('a' <= c && c <= 'z') || ('A' <= c && c <= 'Z') || ('0' <= c && c <= '9') || c == '-'
        || c == '_'
}

/// A valid flag key: non-empty, made of key characters only.
pub open spec fn valid_flag_key(s: Seq<char>) -> bool {
    s.len() > 0 && forall|i: int| 0 <= i < s.len() ==> is_key_char(#[trigger] s[i])
}

/// Checks a flag key against [`valid_flag_key`].
pub fn check_flag_key(s: &str) -> (r: bool)
    ensures
        r == valid_flag_key(s@),
{
    let n = s.unicode_len();
    if n == 0 {
        return false;
    }
    let mut i: usize = 0;
    while i < n
        invariant
            n == s@.len(),
            i <= n,
            forall|j: int| 0 <= j < i ==> is_key_char(#[trigger] s@[j]),
        decreases n - i,
    {
        let c = s.get_char(i);
        if !(('a' <= c && c <= 'z') || ('A' <= c && c <= 'Z') || ('0' <= c && c <= '9') || c
            == '-' || c == '_') {
            return false;
        }
        i = i + 1;
    }
    true
}

/// Human-readable key of a flag (e.g. `new-checkout`), always valid.
#[derive(Debug)]
pub struct FlagKey(String);

impl FlagKey {
    #[verifier::type_invariant]
    spec fn key_is_valid(&self) -> bool {
        valid_flag_key(self.0@)
    }

    /// The characters of the key.
    pub closed spec fn view(&self) -> Seq<char> {
        self.0@
    }

    /// Makes a key; the key must be valid.
    pub fn new(key: &str) -> (r: FlagKey)
        requires
            valid_flag_key(key@),
        ensures
            r.view() == key@,
    {
        FlagKey(key.to_owned())
    }

    /// Makes a key, or `None` where the key is not valid.
    pub fn try_new(key: &str) -> (r: Option<FlagKey>)
        ensures
            r is Some <==> valid_flag_key(key@),
            r is Some ==> r->0.view() == key@,
    {
        if check_flag_key(key) {
            Some(FlagKey(key.to_owned()))
        } else {
            None
        }
    }

    /// The key as a string slice.
    pub fn as_str(&self) -> (r: &str)
        ensures
            r@ == self.view(),
            valid_flag_key(r@),
    {
        proof {
            use_type_invariant(self);
        }
        self.0.as_str()
    }
}

impl Clone for FlagKey {
    fn clone(&self) -> (r: FlagKey)
        ensures
            r.view() == self.view(),
    {
        proof {
            use_type_invariant(self);
        }
        FlagKey(self.0.clone())
    }
}

/// Identity of a user, kept for audit.
#[derive(Debug)]
pub struct UserId(pub String);

impl UserId {
    /// Makes a user identity.
    pub fn new(id: &str) -> (r: UserId)
        ensures
            r.0@ == id@,
    {
        UserId(id.to_owned())
    }
}

impl Clone for UserId {
    fn clone(&self) -> (r: UserId)
        ensures
            r == *self,
    {
        UserId(self.0.clone())
    }
}

/// The type of value a flag returns.
#[derive(Clone, Debug, PartialEq)]
pub enum FlagType {
    /// On or off.
    Boolean,
    /// One of several named variants.
    String { variants: Vec<String> },
}

impl Default for FlagType {
    fn default() -> (r: FlagType)
        ensures
            r is Boolean,
    {
        FlagType::Boolean
    }
}

/// A value returned by a flag evaluation.
#[derive(Debug, PartialEq)]
pub enum FlagValue {
    Boolean(bool),
    String(String),
}

/// What a flag value holds, for specifications.
pub enum ValueModel {
    Boolean(bool),
    String(Seq<char>),
}

impl View for FlagValue {
    type V = ValueModel;

    open spec fn view(&self) -> ValueModel {
        match *self {
            FlagValue::Boolean(b) => ValueModel::Boolean(b),
            FlagValue::String(s) => ValueModel::String(s@),
        }
    }
}

/// Truthiness of a flag value: a true boolean, or a non-empty string.
pub open spec fn truthy(v: ValueModel) -> bool {
    match v {
        ValueModel::Boolean(b) => b,
        ValueModel::String(s) => s.len() > 0,
    }
}

impl Clone for FlagValue {
    fn clone(&self) -> (r: FlagValue)
        ensures
            r == *self,
    {
        match self {
            FlagValue::Boolean(b) => FlagValue::Boolean(*b),
            FlagValue::String(s) => FlagValue::String(s.clone()),
        }
    }
}

impl Default for FlagValue {
    fn default() -> (r: FlagValue)
        ensures
            r == FlagValue::Boolean(false),
    {
        FlagValue::Boolean(false)
    }
}

impl FlagValue {
    /// The boolean, where this is a boolean value.
    pub fn as_bool(&self) -> (r: Option<bool>)
        ensures
            r == (match *self {
                FlagValue::Boolean(b) => Some(b),
                FlagValue::String(_) => None::<bool>,
            }),
    {
        match self {
            FlagValue::Boolean(b) => Some(*b),
            FlagValue::String(_) => None,
        }
    }

    /// The string, where this is a string value.
    pub fn as_str(&self) -> (r: Option<&str>)
        ensures
            match *self {
                FlagValue::String(s) => r is Some && r->0@ == s@,
                FlagValue::Boolean(_) => r is None,
            },
    {
        match self {
            FlagValue::String(s) => Some(s.as_str()),
            FlagValue::Boolean(_) => None,
        }
    }

    /// Whether this value is truthy.
    pub fn is_truthy(&self) -> (r: bool)
        ensures
            r == truthy(self@),
    {
        match self {
            FlagValue::Boolean(b) => *b,
            FlagValue::String(s) => !s.as_str().is_empty(),
        }
    }
}

impl From<bool> for FlagValue {
    fn from(value: bool) -> (r: FlagValue) {
        FlagValue::Boolean(value)
    }
}

impl vstd::std_specs::convert::FromSpecImpl<bool> for FlagValue {
    open spec fn obeys_from_spec() -> bool {
        true
    }

    open spec fn from_spec(v: bool) -> FlagValue {
        FlagValue::Boolean(v)
    }
}

impl From<String> for FlagValue {
    fn from(value: String) -> (r: FlagValue) {
        FlagValue::String(value)
    }
}

impl vstd::std_specs::convert::FromSpecImpl<String> for FlagValue {
    open spec fn obeys_from_spec() -> bool {
        true
    }

    open spec fn from_spec(v: String) -> FlagValue {
        FlagValue::String(v)
    }
}

impl<'a> From<&'a str> for FlagValue {
    fn from(value: &'a str) -> (r: FlagValue) {
        FlagValue::String(value.to_owned())
    }
}

impl<'a> vstd::std_specs::convert::FromSpecImpl<&'a str> for FlagValue {
    /// A string value cannot be named in specifications from a `&str`, so
    /// this conversion promises nothing there; use `FlagValue::String`.
    open spec fn obeys_from_spec() -> bool {
        false
    }

    open spec fn from_spec(v: &'a str) -> FlagValue {
        FlagValue::Boolean(false)
    }
}

} // verus!

verus! {

/// A flag's own default for a type: `false` for a boolean flag; the first
/// variant of a string flag, or the empty string where it has none.
pub open spec fn type_default(t: FlagType) -> ValueModel {
    match t {
        FlagType::Boolean => ValueModel::Boolean(false),
        FlagType::String { variants } => ValueModel::String(
            if variants@.len() > 0 {
                variants@[0]@
            } else {
                Seq::empty()
            },
        ),
    }
}

/// An environment entry of a flag: the environment key and the configuration.
pub type EnvironmentEntry = (String, EnvironmentConfig);

/// The configuration of the first entry whose key is `k`.
pub open spec fn lookup_env(envs: Seq<EnvironmentEntry>, k: Seq<char>) -> Option<EnvironmentConfig>
    decreases envs.len(),
{
    if envs.len() == 0 {
        None
    } else if envs[0].0@ == k {
        Some(envs[0].1)
    } else {
        lookup_env(envs.drop_first(), k)
    }
}

proof fn lemma_lookup_push(s: Seq<EnvironmentEntry>, e: EnvironmentEntry, k: Seq<char>)
    ensures
        lookup_env(s.push(e), k) == (match lookup_env(s, k) {
            Some(c) => Some(c),
            None => if e.0@ == k {
                Some(e.1)
            } else {
                None
            },
        }),
    decreases s.len(),
{
    if s.len() > 0 {
        assert(s.push(e)[0] == s[0]);
        assert(s.push(e).drop_first() =~= s.drop_first().push(e));
        lemma_lookup_push(s.drop_first(), e, k);
    } else {
        assert(s.push(e)[0] == e);
        assert(s.push(e).drop_first() =~= Seq::<EnvironmentEntry>::empty());
        assert(lookup_env(s.push(e).drop_first(), k) is None);
    }
}

proof fn lemma_lookup_update(s: Seq<EnvironmentEntry>, i: int, e: EnvironmentEntry, k: Seq<char>)
    requires
        0 <= i < s.len(),
        s[i].0@ == e.0@,
        forall|j: int| 0 <= j < i ==> (#[trigger] s[j]).0@ != e.0@,
    ensures
        lookup_env(s.update(i, e), k) == if k == e.0@ {
            Some(e.1)
        } else {
            lookup_env(s, k)
        },
    decreases i,
{
    if i > 0 {
        assert(s.update(i, e).drop_first() =~= s.drop_first().update(i - 1, e));
        assert forall|j: int| 0 <= j < i - 1 implies (#[trigger] s.drop_first()[j]).0@ != e.0@ by {
            assert(s[j + 1] == s.drop_first()[j]);
        }
        lemma_lookup_update(s.drop_first(), i - 1, e, k);
    } else {
        assert(s.update(i, e).drop_first() =~= s.drop_first());
    }
}

/// The index of the first entry whose key is `key`.
fn find_environment(envs: &Vec<EnvironmentEntry>, key: &str) -> (r: Option<usize>)
    ensures
        match r {
            Some(i) => {
                &&& i < envs@.len()
                &&& envs@[i as int].0@ == key@
                &&& forall|j: int| 0 <= j < i ==> (#[trigger] envs@[j]).0@ != key@
                &&& lookup_env(envs@, key@) == Some(envs@[i as int].1)
            },
            None => lookup_env(envs@, key@) is None,
        },
{
    let mut i: usize = 0;
    assert(envs@.subrange(0, envs@.len() as int) =~= envs@);
    while i < envs.len()
        invariant
            i <= envs@.len(),
            forall|j: int| 0 <= j < i ==> (#[trigger] envs@[j]).0@ != key@,
            lookup_env(envs@, key@) == lookup_env(envs@.subrange(i as int, envs@.len() as int), key@),
        decreases envs@.len() - i,
    {
        let ghost rest = envs@.subrange(i as int, envs@.len() as int);
        assert(rest[0] == envs@[i as int]);
        if text_eq(envs[i].0.as_str(), key) {
            return Some(i);
        }
        assert(rest.drop_first() =~= envs@.subrange(i + 1, envs@.len() as int));
        i = i + 1;
    }
    None
}

/// A feature flag with its configuration per environment.
#[derive(Clone, Debug)]
pub struct Flag {
    /// Unique identifier.
    pub id: FlagId,
    /// Human-readable key.
    pub key: FlagKey,
    /// Display name.
    pub name: String,
    /// Description.
    pub description: Option<String>,
    /// Type of value the flag returns.
    pub flag_type: FlagType,
    /// Configuration per environment key; the first entry for a key counts.
    pub environments: Vec<EnvironmentEntry>,
    /// Tags for organization.
    pub tags: Vec<String>,
    /// Project the flag belongs to.
    pub project_id: ProjectId,
    /// Creation time.
    pub created_at: Timestamp,
    /// Time of the last update.
    pub updated_at: Timestamp,
    /// User who created the flag.
    pub created_by: UserId,
}

impl Flag {
    /// A boolean flag with no environments; the key must be valid.
    pub fn new_boolean(key: &str, name: &str, project_id: ProjectId, created_by: UserId) -> (r: Flag)
        requires
            valid_flag_key(key@),
        ensures
            r.key.view() == key@,
            r.name@ == name@,
            r.description is None,
            r.flag_type is Boolean,
            r.environments@.len() == 0,
            r.tags@.len() == 0,
            r.project_id == project_id,
            r.created_at == r.updated_at,
            r.created_by == created_by,
    {
        let now = Timestamp::now();
        Flag {
            id: FlagId::new(),
            key: FlagKey::new(key),
            name: name.to_owned(),
            description: None,
            flag_type: FlagType::Boolean,
            environments: Vec::new(),
            tags: Vec::new(),
            project_id,
            created_at: now,
            updated_at: now,
            created_by,
        }
    }

    /// A string flag with the given variants and no environments; the key
    /// must be valid.
    pub fn new_string(
        key: &str,
        name: &str,
        variants: Vec<String>,
        project_id: ProjectId,
        created_by: UserId,
    ) -> (r: Flag)
        requires
            valid_flag_key(key@),
        ensures
            r.key.view() == key@,
            r.name@ == name@,
            r.description is None,
            r.flag_type == (FlagType::String { variants }),
            r.environments@.len() == 0,
            r.tags@.len() == 0,
            r.project_id == project_id,
            r.created_at == r.updated_at,
            r.created_by == created_by,
    {
        let now = Timestamp::now();
        Flag {
            id: FlagId::new(),
            key: FlagKey::new(key),
            name: name.to_owned(),
            description: None,
            flag_type: FlagType::String { variants },
            environments: Vec::new(),
            tags: Vec::new(),
            project_id,
            created_at: now,
            updated_at: now,
            created_by,
        }
    }

    /// Sets the description.
    pub fn with_description(self, description: &str) -> (r: Flag)
        ensures
            r == (Flag { description: r.description, ..self }),
            r.description is Some && r.description->0@ == description@,
    {
        let mut r = self;
        r.description = Some(description.to_owned());
        r
    }

    /// Adds a tag.
    pub fn with_tag(self, tag: &str) -> (r: Flag)
        ensures
            r == (Flag { tags: r.tags, ..self }),
            r.tags@.len() == self.tags@.len() + 1,
            r.tags@.drop_last() == self.tags@,
            r.tags@.last()@ == tag@,
    {
        let mut r = self;
        r.tags.push(tag.to_owned());
        assert(r.tags@.drop_last() =~= self.tags@);
        r
    }

    /// Sets the configuration of an environment, replacing any it had.
    pub fn with_environment(self, env_key: &str, config: EnvironmentConfig) -> (r: Flag)
        ensures
            r == (Flag { environments: r.environments, ..self }),
            forall|k: Seq<char>|
                #![trigger lookup_env(r.environments@, k)]
                lookup_env(r.environments@, k) == if k == env_key@ {
                    Some(config)
                } else {
                    lookup_env(self.environments@, k)
                },
    {
        let mut r = self;
        let ghost s0 = r.environments@;
        match find_environment(&r.environments, env_key) {
            Some(i) => {
                r.environments.remove(i);
                r.environments.insert(i, (env_key.to_owned(), config));
                proof {
                    let e = r.environments@[i as int];
                    assert(r.environments@ =~= s0.update(i as int, e));
                    assert forall|k: Seq<char>|
                        #![trigger lookup_env(r.environments@, k)]
                        lookup_env(r.environments@, k) == if k == env_key@ {
                            Some(config)
                        } else {
                            lookup_env(s0, k)
                        } by {
                        lemma_lookup_update(s0, i as int, e, k);
                    }
                }
            },
            None => {
                r.environments.push((env_key.to_owned(), config));
                proof {
                    let e = r.environments@.last();
                    assert(r.environments@ =~= s0.push(e));
                    assert forall|k: Seq<char>|
                        #![trigger lookup_env(r.environments@, k)]
                        lookup_env(r.environments@, k) == if k == env_key@ {
                            Some(config)
                        } else {
                            lookup_env(s0, k)
                        } by {
                        lemma_lookup_push(s0, e, k);
                        if k == env_key@ {
                            assert(lookup_env(s0, k) is None);
                        }
                    }
                }
            },
        }
        r
    }

    /// The configuration of an environment.
    pub fn get_environment(&self, env_key: &str) -> (r: Option<&EnvironmentConfig>)
        ensures
            match lookup_env(self.environments@, env_key@) {
                Some(c) => r is Some && *r->0 == c,
                None => r is None,
            },
    {
        match find_environment(&self.environments, env_key) {
            Some(i) => Some(&self.environments[i].1),
            None => None,
        }
    }

    /// The flag's own default value, by its type.
    pub fn default_value(&self) -> (r: FlagValue)
        ensures
            r@ == type_default(self.flag_type),
    {
        match &self.flag_type {
            FlagType::Boolean => FlagValue::Boolean(false),
            FlagType::String { variants } => {
                if variants.len() > 0 {
                    FlagValue::String(variants[0].clone())
                } else {
                    FlagValue::String(String::new())
                }
            },
        }
    }
}

} // verus!
