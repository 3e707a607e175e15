//! Projects, and the groups that organize them within a tenant.

use vstd::prelude::*;

use crate::ids::{GroupId, ProjectId, TenantId, Timestamp};

verus! {

/// An optional group of projects within a tenant.
#[derive(Clone, Debug)]
pub struct Group {
    /// Unique identifier.
    pub id: GroupId,
    /// Machine-readable key (e.g. `mobile-team`).
    pub key: String,
    /// Display name.
    pub name: String,
    /// Description.
    pub description: Option<String>,
    /// Tenant the group belongs to.
    pub tenant_id: TenantId,
    /// Creation time.
    pub created_at: Timestamp,
}

impl Group {
    /// A group without description.
    pub fn new(key: &str, name: &str, tenant_id: TenantId) -> (r: Group)
        ensures
            r.key@ == key@,
            r.name@ == name@,
            r.description is None,
            r.tenant_id == tenant_id,
    {
        Group {
            id: GroupId::new(),
            key: key.to_owned(),
            name: name.to_owned(),
            description: None,
            tenant_id,
            created_at: Timestamp::now(),
        }
    }

    /// Sets the description.
    pub fn with_description(self, description: &str) -> (r: Group)
        ensures
            r == (Group { description: r.description, ..self }),
            r.description is Some && r.description->0@ == description@,
    {
        let mut r = self;
        r.description = Some(description.to_owned());
        r
    }
}

/// A project: it holds flags and environments.
#[derive(Clone, Debug)]
pub struct Project {
    /// Unique identifier.
    pub id: ProjectId,
    /// Machine-readable key (e.g. `backend-api`).
    pub key: String,
    /// Display name.
    pub name: String,
    /// Description.
    pub description: Option<String>,
    /// Group the project belongs to, if any.
    pub group_id: Option<GroupId>,
    /// Tenant the project belongs to.
    pub tenant_id: TenantId,
    /// Creation time.
    pub created_at: Timestamp,
    /// Time of the last update.
    pub updated_at: Timestamp,
}

impl Project {
    /// A project without description or group.
    pub fn new(key: &str, name: &str, tenant_id: TenantId) -> (r: Project)
        ensures
            r.key@ == key@,
            r.name@ == name@,
            r.description is None,
            r.group_id is None,
            r.tenant_id == tenant_id,
            r.created_at == r.updated_at,
    {
        let now = Timestamp::now();
        Project {
            id: ProjectId::new(),
            key: key.to_owned(),
            name: name.to_owned(),
            description: None,
            group_id: None,
            tenant_id,
            created_at: now,
            updated_at: now,
        }
    }

    /// Sets the description.
    pub fn with_description(self, description: &str) -> (r: Project)
        ensures
            r == (Project { description: r.description, ..self }),
            r.description is Some && r.description->0@ == description@,
    {
        let mut r = self;
        r.description = Some(description.to_owned());
        r
    }

    /// Sets the group.
    pub fn with_group(self, group_id: GroupId) -> (r: Project)
        ensures
            r == (Project { group_id: Some(group_id), ..self }),
    {
        let mut r = self;
        r.group_id = Some(group_id);
        r
    }
}

} // verus!
