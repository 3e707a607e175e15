//! Identifiers and timestamps.
//!
//! Every entity is identified by the 128-bit value of a UUID (version 7 when
//! freshly made), and every instant is a count of microseconds since the Unix
//! epoch.

use vstd::prelude::*;

verus! {

/// Relies on `uuid::Uuid::now_v7` and `Uuid::as_u128`: a fresh time-ordered
/// UUID, whose version nibble is 7.
#[verifier::external_body]
fn fresh_uuid_bits() -> (r: u128)
    ensures
        (r >> 76u128) & 0xfu128 == 7,
{
    uuid::Uuid::now_v7().as_u128()
}

/// Relies on `chrono::Utc::now` and `DateTime::timestamp_micros`: the current
/// time in microseconds since the Unix epoch. Nothing is known of its value.
#[verifier::external_body]
fn now_micros() -> (r: i64) {
    chrono::Utc::now().timestamp_micros()
}

/// An instant, in microseconds since the Unix epoch.
#[derive(Clone, Copy, Debug, PartialEq, Eq, Hash, Structural)]
pub struct Timestamp(pub i64);

impl Timestamp {
    /// The current time.
    pub fn now() -> (r: Timestamp) {
        Timestamp(now_micros())
    }
}

/// Unique identifier for a flag.
#[derive(Clone, Copy, Debug, PartialEq, Eq, Hash, Structural)]
pub struct FlagId(pub u128);

impl FlagId {
    /// A new identifier from a fresh version-7 UUID.
    pub fn new() -> (r: FlagId)
        ensures
            (r.0 >> 76u128) & 0xfu128 == 7,
    {
        FlagId(fresh_uuid_bits())
    }

    /// The identifier whose UUID has the given 128-bit value.
    pub fn from_uuid(value: u128) -> (r: FlagId)
        ensures
            r.0 == value,
    {
        FlagId(value)
    }
}

/// Unique identifier for a targeting rule.
#[derive(Clone, Copy, Debug, PartialEq, Eq, Hash, Structural)]
pub struct RuleId(pub u128);

impl RuleId {
    /// A new identifier from a fresh version-7 UUID.
    pub fn new() -> (r: RuleId)
        ensures
            (r.0 >> 76u128) & 0xfu128 == 7,
    {
        RuleId(fresh_uuid_bits())
    }
}

/// Unique identifier for a segment.
#[derive(Clone, Copy, Debug, PartialEq, Eq, Hash, Structural)]
pub struct SegmentId(pub u128);

impl SegmentId {
    /// A new identifier from a fresh version-7 UUID.
    pub fn new() -> (r: SegmentId)
        ensures
            (r.0 >> 76u128) & 0xfu128 == 7,
    {
        SegmentId(fresh_uuid_bits())
    }

    /// The identifier whose UUID has the given 128-bit value.
    pub fn from_uuid(value: u128) -> (r: SegmentId)
        ensures
            r.0 == value,
    {
        SegmentId(value)
    }
}

/// Unique identifier for an environment.
#[derive(Clone, Copy, Debug, PartialEq, Eq, Hash, Structural)]
pub struct EnvironmentId(pub u128);

impl EnvironmentId {
    /// A new identifier from a fresh version-7 UUID.
    pub fn new() -> (r: EnvironmentId)
        ensures
            (r.0 >> 76u128) & 0xfu128 == 7,
    {
        EnvironmentId(fresh_uuid_bits())
    }

    /// The identifier whose UUID has the given 128-bit value.
    pub fn from_uuid(value: u128) -> (r: EnvironmentId)
        ensures
            r.0 == value,
    {
        EnvironmentId(value)
    }
}

/// Unique identifier for a tenant.
#[derive(Clone, Copy, Debug, PartialEq, Eq, Hash, Structural)]
pub struct TenantId(pub u128);

impl TenantId {
    /// A new identifier from a fresh version-7 UUID.
    pub fn new() -> (r: TenantId)
        ensures
            (r.0 >> 76u128) & 0xfu128 == 7,
    {
        TenantId(fresh_uuid_bits())
    }

    /// The identifier whose UUID has the given 128-bit value.
    pub fn from_uuid(value: u128) -> (r: TenantId)
        ensures
            r.0 == value,
    {
        TenantId(value)
    }
}

/// Unique identifier for a group of projects.
#[derive(Clone, Copy, Debug, PartialEq, Eq, Hash, Structural)]
pub struct GroupId(pub u128);

impl GroupId {
    /// A new identifier from a fresh version-7 UUID.
    pub fn new() -> (r: GroupId)
        ensures
            (r.0 >> 76u128) & 0xfu128 == 7,
    {
        GroupId(fresh_uuid_bits())
    }

    /// The identifier whose UUID has the given 128-bit value.
    pub fn from_uuid(value: u128) -> (r: GroupId)
        ensures
            r.0 == value,
    {
        GroupId(value)
    }
}

/// Unique identifier for a project.
#[derive(Clone, Copy, Debug, PartialEq, Eq, Hash, Structural)]
pub struct ProjectId(pub u128);

impl ProjectId {
    /// A new identifier from a fresh version-7 UUID.
    pub fn new() -> (r: ProjectId)
        ensures
            (r.0 >> 76u128) & 0xfu128 == 7,
    {
        ProjectId(fresh_uuid_bits())
    }

    /// The identifier whose UUID has the given 128-bit value.
    pub fn from_uuid(value: u128) -> (r: ProjectId)
        ensures
            r.0 == value,
    {
        ProjectId(value)
    }
}

} // verus!
