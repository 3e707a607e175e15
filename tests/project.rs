use flaps::{Group, Project, TenantId};

#[test]
fn test_create_project() {
    let tenant_id = TenantId::new();
    let project =
        Project::new("backend-api", "Backend API", tenant_id).with_description("Main backend service");

    assert_eq!(project.key, "backend-api");
    assert_eq!(project.name, "Backend API");
    assert!(project.description.is_some());
    assert!(project.group_id.is_none());
}

#[test]
fn test_create_project_with_group() {
    let tenant_id = TenantId::new();
    let group = Group::new("client-a", "Client A", tenant_id);
    let project = Project::new("client-a-api", "Client A API", tenant_id).with_group(group.id);

    assert_eq!(project.group_id, Some(group.id));
}

#[test]
fn fresh_ids_are_version_7_uuids() {
    let id = TenantId::new();
    assert_eq!((id.0 >> 76) & 0xf, 7);
    let group = Group::new("g", "G", id).with_description("d");
    assert_eq!(group.description, Some("d".to_string()));
}
