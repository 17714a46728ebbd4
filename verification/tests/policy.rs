use ferro::guards::graphql_content_gate;
use ferro::error::AuthError;
use ferro::policy::{
    authorize, perm_covers, require_read_type, scope_covers, AuthContext, ContentTypeId,
    Permission, Role, RoleId, Scope, UserId,
};

fn role(perms: Vec<Permission>) -> Role {
    Role { id: RoleId(1), name: "r".to_string(), description: None, permissions: perms }
}

fn ctx(roles: Vec<Role>) -> AuthContext {
    AuthContext { user_id: UserId(7), roles }
}

const POST: ContentTypeId = ContentTypeId(10);
const PAGE: ContentTypeId = ContentTypeId(11);

#[test]
fn admin_covers_everything() {
    let c = ctx(vec![role(vec![Permission::Admin])]);
    for want in [
        Permission::Read(Scope::Own),
        Permission::Publish(Scope::Type { id: POST }),
        Permission::ManageUsers,
        Permission::ManagePlugins,
        Permission::Admin,
    ] {
        assert!(c.has_permission(&want));
        assert!(authorize(&c, want).is_ok());
    }
}

#[test]
fn publish_implies_write_and_read_in_scope() {
    let g = Permission::Publish(Scope::Type { id: POST });
    assert!(perm_covers(&g, &Permission::Write(Scope::Type { id: POST })));
    assert!(perm_covers(&g, &Permission::Read(Scope::Type { id: POST })));
    assert!(!perm_covers(&g, &Permission::Read(Scope::Type { id: PAGE })));
    let w = Permission::Write(Scope::Global);
    assert!(perm_covers(&w, &Permission::Read(Scope::Own)));
    assert!(!perm_covers(&w, &Permission::Publish(Scope::Global)));
    assert!(!perm_covers(&Permission::Read(Scope::Global), &Permission::Write(Scope::Own)));
}

#[test]
fn scopes_cover_as_documented() {
    assert!(scope_covers(&Scope::Global, &Scope::Own));
    assert!(scope_covers(&Scope::Type { id: POST }, &Scope::Type { id: POST }));
    assert!(!scope_covers(&Scope::Type { id: POST }, &Scope::Type { id: PAGE }));
    assert!(!scope_covers(&Scope::Own, &Scope::Global));
    assert!(!scope_covers(&Scope::Type { id: POST }, &Scope::Global));
    assert!(scope_covers(&Scope::Own, &Scope::Own));
}

#[test]
fn manage_grants_cover_only_themselves() {
    assert!(perm_covers(&Permission::ManageSchema, &Permission::ManageSchema));
    assert!(!perm_covers(&Permission::ManageSchema, &Permission::ManageUsers));
    assert!(!perm_covers(&Permission::ManageUsers, &Permission::Read(Scope::Global)));
    assert!(!perm_covers(&Permission::Publish(Scope::Global), &Permission::Admin));
}

#[test]
fn authorize_denies_without_grant() {
    let c = ctx(vec![role(vec![Permission::Read(Scope::Global)]), role(vec![])]);
    assert!(authorize(&c, Permission::Read(Scope::Type { id: PAGE })).is_ok());
    assert!(matches!(
        authorize(&c, Permission::Write(Scope::Type { id: PAGE })),
        Err(AuthError::Forbidden)
    ));
    let none = ctx(vec![]);
    assert!(!none.has_permission(&Permission::Read(Scope::Own)));
}

#[test]
fn later_roles_are_consulted() {
    let c = ctx(vec![
        role(vec![Permission::ManageUsers]),
        role(vec![Permission::Read(Scope::Own), Permission::Write(Scope::Type { id: POST })]),
    ]);
    assert!(c.has_permission(&Permission::Read(Scope::Type { id: POST })));
    assert!(!c.has_permission(&Permission::Publish(Scope::Type { id: POST })));
}

#[test]
fn require_read_type_builds_type_scoped_read() {
    assert_eq!(require_read_type(POST), Permission::Read(Scope::Type { id: POST }));
}

#[test]
fn graphql_content_gate_cases() {
    let ty = ContentTypeId(7);
    assert_eq!(graphql_content_gate(None, ty, false).unwrap_err(), "unauthenticated");
    assert_eq!(graphql_content_gate(None, ty, true).unwrap_err(), "unauthenticated");
    let writer = ctx(vec![role(vec![Permission::Write(Scope::Type { id: ty })])]);
    assert!(graphql_content_gate(Some(&writer), ty, false).is_ok());
    assert_eq!(graphql_content_gate(Some(&writer), ty, true).unwrap_err(), "publish denied");
    assert_eq!(graphql_content_gate(Some(&writer), ContentTypeId(8), false).unwrap_err(), "write denied");
    let publisher = ctx(vec![role(vec![Permission::Publish(Scope::Global)])]);
    assert!(graphql_content_gate(Some(&publisher), ty, true).is_ok());
    assert!(graphql_content_gate(Some(&publisher), ty, false).is_ok());
}
