//! Role-based access control: which granted permission covers which
//! requested one, and the checks built on that relation.
//!
//! Permissions form a hierarchy: `Admin` covers everything; `Publish`
//! covers `Write` and `Read`, `Write` covers `Read`, each within a scope;
//! the `Global` scope covers every scope, a type scope covers only the same
//! type, and `Own` covers only `Own`. The `Manage*` grants cover only
//! themselves.

use vstd::prelude::*;
use crate::error::{AuthError, AuthResult};

verus! {

/// Identifier of a content type.
#[derive(Clone, Copy, Debug, PartialEq, Eq, Structural)]
pub struct ContentTypeId(pub u128);

/// Identifier of a user.
#[derive(Clone, Copy, Debug, PartialEq, Eq, Structural)]
pub struct UserId(pub u128);

/// Identifier of a role.
#[derive(Clone, Copy, Debug, PartialEq, Eq, Structural)]
pub struct RoleId(pub u128);

/// What a content permission applies to.
#[derive(Clone, Copy, Debug, PartialEq, Eq, Structural)]
pub enum Scope {
    /// Every content type.
    Global,
    /// One content type.
    Type { id: ContentTypeId },
    /// Content the caller authored.
    Own,
}

/// A grantable capability.
#[derive(Clone, Copy, Debug, PartialEq, Eq, Structural)]
pub enum Permission {
    Read(Scope),
    Write(Scope),
    Publish(Scope),
    ManageUsers,
    ManageSchema,
    ManagePlugins,
    Admin,
}

/// A named bundle of permissions.
#[derive(Clone, Debug)]
pub struct Role {
    pub id: RoleId,
    pub name: String,
    pub description: Option<String>,
    pub permissions: Vec<Permission>,
}

/// The caller of a request with its resolved roles.
#[derive(Clone, Debug)]
pub struct AuthContext {
    pub user_id: UserId,
    pub roles: Vec<Role>,
}

/// Whether a grant on scope `granted` covers a request on scope `wanted`.
pub open spec fn spec_scope_covers(granted: Scope, wanted: Scope) -> bool {
    match (granted, wanted) {
        (Scope::Global, _) => true,
        (Scope::Type { id: a }, Scope::Type { id: b }) => a == b,
        (Scope::Own, Scope::Own) => true,
        _ => false,
    }
}

/// Whether the granted permission covers the requested one.
pub open spec fn spec_perm_covers(granted: Permission, wanted: Permission) -> bool {
    match granted {
        Permission::Admin => true,
        Permission::Read(a) => match wanted {
            Permission::Read(b) => spec_scope_covers(a, b),
            _ => false,
        },
        Permission::Write(a) => match wanted {
            Permission::Read(b) => spec_scope_covers(a, b),
            Permission::Write(b) => spec_scope_covers(a, b),
            _ => false,
        },
        Permission::Publish(a) => match wanted {
            Permission::Read(b) => spec_scope_covers(a, b),
            Permission::Write(b) => spec_scope_covers(a, b),
            Permission::Publish(b) => spec_scope_covers(a, b),
            _ => false,
        },
        Permission::ManageUsers => wanted == Permission::ManageUsers,
        Permission::ManageSchema => wanted == Permission::ManageSchema,
        Permission::ManagePlugins => wanted == Permission::ManagePlugins,
    }
}

/// Whether some permission of some role covers `want`.
pub open spec fn roles_grant(roles: Seq<Role>, want: Permission) -> bool {
    exists|i: int, j: int|
        0 <= i < roles.len() && 0 <= j < roles[i].permissions@.len() && #[trigger] spec_perm_covers(
            roles[i].permissions@[j],
            want,
        )
}

/// Whether a grant on `granted` covers a request on `wanted`.
pub fn scope_covers(granted: &Scope, wanted: &Scope) -> (res: bool)
    ensures
        res == spec_scope_covers(*granted, *wanted),
{
    match (granted, wanted) {
        (Scope::Global, _) => true,
        (Scope::Type { id: a }, Scope::Type { id: b }) => a.0 == b.0,
        (Scope::Own, Scope::Own) => true,
        _ => false,
    }
}

/// Whether the granted permission covers the requested one.
pub fn perm_covers(granted: &Permission, wanted: &Permission) -> (res: bool)
    ensures
        res == spec_perm_covers(*granted, *wanted),
{
    if let Permission::Admin = granted {
        return true;
    }
    match (granted, wanted) {
        (Permission::Read(a), Permission::Read(b)) => scope_covers(a, b),
        (Permission::Write(a), Permission::Write(b)) => scope_covers(a, b),
        (Permission::Publish(a), Permission::Publish(b)) => scope_covers(a, b),
        (Permission::Write(a), Permission::Read(b)) => scope_covers(a, b),
        (Permission::Publish(a), Permission::Read(b)) => scope_covers(a, b),
        (Permission::Publish(a), Permission::Write(b)) => scope_covers(a, b),
        (Permission::ManageUsers, Permission::ManageUsers) => true,
        (Permission::ManageSchema, Permission::ManageSchema) => true,
        (Permission::ManagePlugins, Permission::ManagePlugins) => true,
        _ => false,
    }
}

impl AuthContext {
    /// Whether any permission of any of the caller's roles covers `want`.
    pub fn has_permission(&self, want: &Permission) -> (res: bool)
        ensures
            res == roles_grant(self.roles@, *want),
    {
        let mut i: usize = 0;
        while i < self.roles.len()
            invariant
                0 <= i <= self.roles@.len(),
                forall|a: int, b: int|
                    0 <= a < i && 0 <= b < self.roles@[a].permissions@.len()
                        ==> !#[trigger] spec_perm_covers(self.roles@[a].permissions@[b], *want),
            decreases self.roles@.len() - i,
        {
            let perms = &self.roles[i].permissions;
            let mut j: usize = 0;
            while j < perms.len()
                invariant
                    0 <= i < self.roles@.len(),
                    *perms == self.roles@[i as int].permissions,
                    0 <= j <= perms@.len(),
                    forall|b: int|
                        0 <= b < j ==> !#[trigger] spec_perm_covers(perms@[b], *want),
                decreases perms@.len() - j,
            {
                if perm_covers(&perms[j], want) {
                    assert(spec_perm_covers(self.roles@[i as int].permissions@[j as int], *want));
                    return true;
                }
                j += 1;
            }
            i += 1;
        }
        false
    }
}

/// `Ok` exactly when the caller holds a permission covering `want`;
/// otherwise `Forbidden`.
pub fn authorize(ctx: &AuthContext, want: Permission) -> (res: AuthResult<()>)
    ensures
        res is Ok <==> roles_grant(ctx.roles@, want),
        res matches Err(e) ==> e is Forbidden,
{
    if ctx.has_permission(&want) {
        Ok(())
    } else {
        Err(AuthError::Forbidden)
    }
}

/// The permission to read content of one type.
pub fn require_read_type(id: ContentTypeId) -> (res: Permission)
    ensures
        res == Permission::Read(Scope::Type { id }),
{
    Permission::Read(Scope::Type { id })
}

// ---------------------------------------------------------------------------
// Laws
// ---------------------------------------------------------------------------

/// Every permission covers itself.
pub proof fn lemma_covers_reflexive(p: Permission)
    ensures
        spec_perm_covers(p, p),
{
}

/// Coverage is transitive: what a covered grant would allow, the covering
/// grant allows too.
pub proof fn lemma_covers_transitive(p: Permission, q: Permission, r: Permission)
    requires
        spec_perm_covers(p, q),
        spec_perm_covers(q, r),
    ensures
        spec_perm_covers(p, r),
{
}

/// `Admin` covers every permission, and nothing but `Admin` covers `Admin`.
pub proof fn lemma_admin_is_top(p: Permission, g: Permission)
    ensures
        spec_perm_covers(Permission::Admin, p),
        spec_perm_covers(g, Permission::Admin) ==> g == Permission::Admin,
{
}

/// Whoever may publish in a scope may write there, and whoever may write
/// there may read.
pub proof fn lemma_publish_write_read(g: Permission, s: Scope)
    ensures
        spec_perm_covers(g, Permission::Publish(s)) ==> spec_perm_covers(g, Permission::Write(s)),
        spec_perm_covers(g, Permission::Write(s)) ==> spec_perm_covers(g, Permission::Read(s)),
{
}

/// A global grant of an action covers that action on every scope.
pub proof fn lemma_global_scope_covers_all(s: Scope)
    ensures
        spec_perm_covers(Permission::Read(Scope::Global), Permission::Read(s)),
        spec_perm_covers(Permission::Write(Scope::Global), Permission::Write(s)),
        spec_perm_covers(Permission::Publish(Scope::Global), Permission::Publish(s)),
{
}

/// A grant on one content type says nothing about another type.
pub proof fn lemma_type_scope_is_exact(a: ContentTypeId, b: ContentTypeId, g: Permission)
    requires
        a != b,
        g == Permission::Read(Scope::Type { id: a }) || g == Permission::Write(
            Scope::Type { id: a },
        ) || g == Permission::Publish(Scope::Type { id: a }),
    ensures
        !spec_perm_covers(g, Permission::Read(Scope::Type { id: b })),
        !spec_perm_covers(g, Permission::Write(Scope::Type { id: b })),
        !spec_perm_covers(g, Permission::Publish(Scope::Type { id: b })),
{
}

/// Adding a role never takes a permission away.
pub proof fn lemma_grant_monotone_in_roles(roles: Seq<Role>, extra: Role, want: Permission)
    requires
        roles_grant(roles, want),
    ensures
        roles_grant(roles.push(extra), want),
{
    let (i, j) = choose|i: int, j: int|
        0 <= i < roles.len() && 0 <= j < roles[i].permissions@.len() && #[trigger] spec_perm_covers(
            roles[i].permissions@[j],
            want,
        );
    assert(roles.push(extra)[i] == roles[i]);
    assert(spec_perm_covers(roles.push(extra)[i].permissions@[j], want));
}

/// Whoever holds a permission holds every permission it covers.
pub proof fn lemma_grant_downward_closed(roles: Seq<Role>, want: Permission, lesser: Permission)
    requires
        roles_grant(roles, want),
        spec_perm_covers(want, lesser),
    ensures
        roles_grant(roles, lesser),
{
    let (i, j) = choose|i: int, j: int|
        0 <= i < roles.len() && 0 <= j < roles[i].permissions@.len() && #[trigger] spec_perm_covers(
            roles[i].permissions@[j],
            want,
        );
    lemma_covers_transitive(roles[i].permissions@[j], want, lesser);
}

/// Every permission of every role, whatever its position among the role's
/// permissions and whatever the role's position, grants all it covers.
pub proof fn lemma_any_permission_grants(roles: Seq<Role>, i: int, j: int, want: Permission)
    requires
        0 <= i < roles.len(),
        0 <= j < roles[i].permissions@.len(),
        spec_perm_covers(roles[i].permissions@[j], want),
    ensures
        roles_grant(roles, want),
{
}

/// A grant always comes from some permission of some role that covers the
/// request: roles whose permissions cover nothing grant nothing.
pub proof fn lemma_grant_has_witness(roles: Seq<Role>, want: Permission)
    requires
        forall|i: int, j: int|
            0 <= i < roles.len() && 0 <= j < roles[i].permissions@.len() ==> !spec_perm_covers(
                #[trigger] roles[i].permissions@[j],
                want,
            ),
    ensures
        !roles_grant(roles, want),
{
}

/// The order of a role's permissions does not matter: swapping two of
/// them leaves every grant unchanged.
pub proof fn lemma_grant_ignores_permission_order(
    roles: Seq<Role>,
    i: int,
    a: int,
    b: int,
    swapped: Role,
    want: Permission,
)
    requires
        0 <= i < roles.len(),
        0 <= a < roles[i].permissions@.len(),
        0 <= b < roles[i].permissions@.len(),
        swapped.permissions@ == roles[i].permissions@.update(a, roles[i].permissions@[b]).update(
            b,
            roles[i].permissions@[a],
        ),
    ensures
        roles_grant(roles.update(i, swapped), want) == roles_grant(roles, want),
{
    let r2 = roles.update(i, swapped);
    if roles_grant(roles, want) {
        let (k, l) = choose|k: int, l: int|
            0 <= k < roles.len() && 0 <= l < roles[k].permissions@.len() && #[trigger] spec_perm_covers(
                roles[k].permissions@[l],
                want,
            );
        if k == i {
            let l2 = if l == a {
                b
            } else if l == b {
                a
            } else {
                l
            };
            assert(r2[i].permissions@[l2] == roles[i].permissions@[l]);
            lemma_any_permission_grants(r2, i, l2, want);
        } else {
            assert(r2[k] == roles[k]);
            lemma_any_permission_grants(r2, k, l, want);
        }
    }
    if roles_grant(r2, want) {
        let (k, l) = choose|k: int, l: int|
            0 <= k < r2.len() && 0 <= l < r2[k].permissions@.len() && #[trigger] spec_perm_covers(
                r2[k].permissions@[l],
                want,
            );
        if k == i {
            let l2 = if l == a {
                b
            } else if l == b {
                a
            } else {
                l
            };
            assert(roles[i].permissions@[l2] == r2[i].permissions@[l]);
            lemma_any_permission_grants(roles, i, l2, want);
        } else {
            assert(r2[k] == roles[k]);
            lemma_any_permission_grants(roles, k, l, want);
        }
    }
}

/// Coverage never goes up the action ladder: reading does not allow
/// writing or publishing, and writing does not allow publishing.
pub proof fn lemma_no_upward_coverage(s: Scope, t: Scope)
    ensures
        !spec_perm_covers(Permission::Read(s), Permission::Write(t)),
        !spec_perm_covers(Permission::Read(s), Permission::Publish(t)),
        !spec_perm_covers(Permission::Write(s), Permission::Publish(t)),
{
}

/// The management grants cover only themselves, and only themselves or
/// `Admin` cover them.
pub proof fn lemma_manage_grants_are_exact(g: Permission, w: Permission)
    ensures
        spec_perm_covers(Permission::ManageUsers, w) ==> w == Permission::ManageUsers,
        spec_perm_covers(Permission::ManageSchema, w) ==> w == Permission::ManageSchema,
        spec_perm_covers(Permission::ManagePlugins, w) ==> w == Permission::ManagePlugins,
        spec_perm_covers(g, Permission::ManageUsers) ==> g == Permission::ManageUsers || g
            == Permission::Admin,
        spec_perm_covers(g, Permission::ManageSchema) ==> g == Permission::ManageSchema || g
            == Permission::Admin,
        spec_perm_covers(g, Permission::ManagePlugins) ==> g == Permission::ManagePlugins || g
            == Permission::Admin,
{
}

/// Only a global grant reaches every scope: an `Own` grant covers only
/// `Own`, and a type grant covers neither `Global` nor `Own`.
pub proof fn lemma_narrow_scopes(id: ContentTypeId, s: Scope)
    ensures
        spec_scope_covers(Scope::Own, s) ==> s == Scope::Own,
        !spec_scope_covers(Scope::Type { id }, Scope::Global),
        !spec_scope_covers(Scope::Type { id }, Scope::Own),
        spec_scope_covers(s, Scope::Global) ==> s == Scope::Global,
{
}

} // verus!
