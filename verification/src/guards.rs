//! Request guards of the REST and GraphQL handlers: the permission each
//! content or schema operation needs, and the identity checks on request
//! bodies.

use vstd::prelude::*;
use crate::api_error::{ApiError, ApiResult};
use crate::policy::{authorize, roles_grant, AuthContext, ContentTypeId, Permission, Scope};

verus! {

/// Writing (creating, updating, deleting) entries of type `ty` needs
/// `Write` on that type; otherwise `Forbidden("write denied")`.
pub fn require_write(ctx: &AuthContext, ty: ContentTypeId) -> (res: ApiResult<()>)
    ensures
        res is Ok <==> roles_grant(ctx.roles@, Permission::Write(Scope::Type { id: ty })),
        res matches Err(e) ==> (e matches ApiError::Forbidden(m) && m@ == "write denied"@),
{
    match authorize(ctx, Permission::Write(Scope::Type { id: ty })) {
        Ok(()) => Ok(()),
        Err(_) => Err(ApiError::Forbidden("write denied".to_owned())),
    }
}

/// Publishing entries of type `ty` needs `Publish` on that type; otherwise
/// `Forbidden("publish denied")`.
pub fn require_publish(ctx: &AuthContext, ty: ContentTypeId) -> (res: ApiResult<()>)
    ensures
        res is Ok <==> roles_grant(ctx.roles@, Permission::Publish(Scope::Type { id: ty })),
        res matches Err(e) ==> (e matches ApiError::Forbidden(m) && m@ == "publish denied"@),
{
    match authorize(ctx, Permission::Publish(Scope::Type { id: ty })) {
        Ok(()) => Ok(()),
        Err(_) => Err(ApiError::Forbidden("publish denied".to_owned())),
    }
}

/// Creating, changing or deleting content types needs `ManageSchema`;
/// otherwise `Forbidden("schema management denied")`.
pub fn require_manage_schema(ctx: &AuthContext) -> (res: ApiResult<()>)
    ensures
        res is Ok <==> roles_grant(ctx.roles@, Permission::ManageSchema),
        res matches Err(e) ==> (e matches ApiError::Forbidden(m) && m@
            == "schema management denied"@),
{
    match authorize(ctx, Permission::ManageSchema) {
        Ok(()) => Ok(()),
        Err(_) => Err(ApiError::Forbidden("schema management denied".to_owned())),
    }
}

/// The GraphQL content mutations' gate: an unauthenticated caller is
/// refused with `unauthenticated`; writing (creating, updating, deleting)
/// entries of type `ty` needs `Write` on it, else `write denied`;
/// publishing needs `Publish` on it, else `publish denied`.
pub fn graphql_content_gate(caller: Option<&AuthContext>, ty: ContentTypeId, publish: bool) -> (res:
    Result<(), String>)
    ensures
        caller is None ==> (res matches Err(m) && m@ == "unauthenticated"@),
        caller matches Some(ctx) ==> if publish {
            &&& (res is Ok <==> roles_grant(ctx.roles@, Permission::Publish(Scope::Type { id: ty })))
            &&& (res matches Err(m) ==> m@ == "publish denied"@)
        } else {
            &&& (res is Ok <==> roles_grant(ctx.roles@, Permission::Write(Scope::Type { id: ty })))
            &&& (res matches Err(m) ==> m@ == "write denied"@)
        },
{
    let ctx = match caller {
        Some(c) => c,
        None => return Err("unauthenticated".to_owned()),
    };
    if publish {
        match authorize(ctx, Permission::Publish(Scope::Type { id: ty })) {
            Ok(()) => Ok(()),
            Err(_) => Err("publish denied".to_owned()),
        }
    } else {
        match authorize(ctx, Permission::Write(Scope::Type { id: ty })) {
            Ok(()) => Ok(()),
            Err(_) => Err("write denied".to_owned()),
        }
    }
}

/// A new entry posted under a type's URL must name that type.
pub fn check_body_type(body_type: ContentTypeId, url_type: ContentTypeId) -> (res: ApiResult<()>)
    ensures
        res is Ok <==> body_type == url_type,
        res matches Err(e) ==> (e matches ApiError::BadRequest(m) && m@
            == "type_id does not match URL type slug"@),
{
    if body_type.0 != url_type.0 {
        return Err(ApiError::BadRequest("type_id does not match URL type slug".to_owned()));
    }
    Ok(())
}

/// A content-type update must keep the type's id.
pub fn check_type_id_unchanged(new_id: ContentTypeId, old_id: ContentTypeId) -> (res: ApiResult<()>)
    ensures
        res is Ok <==> new_id == old_id,
        res matches Err(e) ==> (e matches ApiError::BadRequest(m) && m@
            == "content-type id cannot change"@),
{
    if new_id.0 != old_id.0 {
        return Err(ApiError::BadRequest("content-type id cannot change".to_owned()));
    }
    Ok(())
}

/// Whoever passes the publish guard for a type also passes the write guard
/// for it.
pub proof fn lemma_publish_guard_implies_write_guard(ctx: AuthContext, ty: ContentTypeId)
    requires
        roles_grant(ctx.roles@, Permission::Publish(Scope::Type { id: ty })),
    ensures
        roles_grant(ctx.roles@, Permission::Write(Scope::Type { id: ty })),
{
    crate::policy::lemma_grant_downward_closed(
        ctx.roles@,
        Permission::Publish(Scope::Type { id: ty }),
        Permission::Write(Scope::Type { id: ty }),
    );
}

} // verus!
