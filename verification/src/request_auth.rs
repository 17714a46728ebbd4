//! Decisions of request authentication around token verification and the
//! user store: whether a request carries a bearer token at all, whether
//! the user a verified token names is admitted, and which of the user's
//! roles are in force.

use vstd::prelude::*;
use crate::api_error::{ApiError, ApiResult};
use crate::csrf::{bearer_token, opt_view, spec_bearer_token};
use crate::policy::{AuthContext, Role, UserId};

verus! {

/// The bearer token of a request's `Authorization` header. `None` means
/// the request is unauthenticated: no header, another scheme, or a blank
/// token.
pub fn request_bearer(authorization: Option<&str>) -> (res: Option<String>)
    ensures
        match opt_view(authorization) {
            Some(h) => match spec_bearer_token(h) {
                Some(t) => res matches Some(r) && r@ == t,
                None => res is None,
            },
            None => res is None,
        },
{
    match authorization {
        Some(h) => bearer_token(h),
        None => None,
    }
}

/// The outcome of checking a bearer token's signature, issuer and expiry,
/// and of reading the user id from its subject claim.
#[derive(Debug)]
pub enum TokenCheck {
    /// The token failed verification.
    Rejected,
    /// The token verified; `subject` is the user id its subject claim
    /// holds, or `None` when the claim is not a user id.
    Verified { subject: Option<UserId> },
}

/// The user a token check names: a rejected token or a subject that is not
/// a user id makes the request `Unauthorized`.
pub fn token_subject(check: TokenCheck) -> (res: ApiResult<UserId>)
    ensures
        match check {
            TokenCheck::Verified { subject: Some(id) } => res == Ok::<UserId, ApiError>(id),
            _ => res matches Err(ApiError::Unauthorized),
        },
{
    match check {
        TokenCheck::Verified { subject: Some(id) } => Ok(id),
        _ => Err(ApiError::Unauthorized),
    }
}

/// Admission of the user a verified token names (`None` when the store has
/// no such user): unknown users are `Unauthorized`, inactive ones
/// `Forbidden("account disabled")`.
pub fn admit_user(active: Option<bool>) -> (res: ApiResult<()>)
    ensures
        active is None ==> res matches Err(ApiError::Unauthorized),
        active == Some(false) ==> (res matches Err(ApiError::Forbidden(m)) && m@
            == "account disabled"@),
        active == Some(true) ==> res is Ok,
{
    match active {
        None => Err(ApiError::Unauthorized),
        Some(false) => Err(ApiError::Forbidden("account disabled".to_owned())),
        Some(true) => Ok(()),
    }
}

/// The roles that were found, in order.
pub open spec fn found(lookups: Seq<Option<Role>>) -> Seq<Role>
    decreases lookups.len(),
{
    if lookups.len() == 0 {
        seq![]
    } else {
        let rest = found(lookups.drop_last());
        match lookups.last() {
            Some(r) => rest.push(r),
            None => rest,
        }
    }
}

/// The user's roles in force: the store's answers for each role id, with
/// ids it did not find skipped.
pub fn found_roles(lookups: Vec<Option<Role>>) -> (res: Vec<Role>)
    ensures
        res@ == found(lookups@),
{
    let ghost all = lookups@;
    let mut rest = lookups;
    let mut out: Vec<Role> = Vec::new();
    let mut i: usize = 0;
    assert(all.len() == rest.len());
    while rest.len() > 0
        invariant
            all.len() <= usize::MAX,
            i + rest@.len() == all.len(),
            rest@ == all.skip(i as int),
            out@ == found(all.take(i as int)),
        decreases rest@.len(),
    {
        let item = rest.remove(0);
        assert(item == all[i as int]);
        assert(all.take(i + 1).drop_last() =~= all.take(i as int));
        assert(all.take(i + 1).last() == all[i as int]);
        match item {
            Some(r) => out.push(r),
            None => {},
        }
        assert(rest@ =~= all.skip(i + 1));
        i += 1;
    }
    assert(all.take(all.len() as int) =~= all);
    out
}

/// The caller of a request whose token named `user_id`: admitted as
/// [`admit_user`] decides from the store's answer `active`, with the roles
/// the store found among `lookups` (one answer per role id of the user).
pub fn authenticated_context(user_id: UserId, active: Option<bool>, lookups: Vec<
    Option<Role>,
>) -> (res: ApiResult<AuthContext>)
    ensures
        res is Ok <==> active == Some(true),
        active is None ==> res matches Err(ApiError::Unauthorized),
        active == Some(false) ==> (res matches Err(ApiError::Forbidden(m)) && m@
            == "account disabled"@),
        res matches Ok(ctx) ==> ctx.user_id == user_id && ctx.roles@ == found(lookups@),
{
    match admit_user(active) {
        Ok(()) => {},
        Err(e) => {
            assert(active != Some(true));
            return Err(e);
        },
    }
    assert(active == Some(true)) by {
        if active is None {
        } else if active == Some(false) {
        }
    }
    let roles = found_roles(lookups);
    Ok(AuthContext { user_id, roles })
}

/// Credentials of a live-event subscription: a request already
/// authenticated by its header needs nothing more (`Ok(None)`); otherwise
/// the `token` query parameter is the token to verify, and without it the
/// request is `Unauthorized`.
pub fn stream_credentials(header_authenticated: bool, query_token: Option<&str>) -> (res:
    ApiResult<Option<String>>)
    ensures
        header_authenticated ==> res matches Ok(None),
        !header_authenticated ==> match query_token {
            Some(t) => res matches Ok(Some(r)) && r@ == t@,
            None => res matches Err(ApiError::Unauthorized),
        },
{
    if header_authenticated {
        return Ok(None);
    }
    match query_token {
        Some(t) => Ok(Some(t.to_owned())),
        None => Err(ApiError::Unauthorized),
    }
}

/// Every role the store found is kept, whatever its position: a found role
/// appended to the answers is appended to the roles in force.
pub proof fn lemma_found_keeps_each_role(lookups: Seq<Option<Role>>, r: Role)
    ensures
        found(lookups.push(Some(r))) == found(lookups).push(r),
{
    assert(lookups.push(Some(r)).drop_last() =~= lookups);
}

/// A role id the store did not find adds nothing.
pub proof fn lemma_found_skips_missing(lookups: Seq<Option<Role>>)
    ensures
        found(lookups.push(None)) == found(lookups),
{
    assert(lookups.push(None).drop_last() =~= lookups);
}

/// The roles found in two runs of answers are those of the first run
/// followed by those of the second.
pub proof fn lemma_found_concat(a: Seq<Option<Role>>, b: Seq<Option<Role>>)
    ensures
        found(a + b) == found(a) + found(b),
    decreases b.len(),
{
    if b.len() == 0 {
        assert(a + b =~= a);
        assert(found(b) =~= Seq::<Role>::empty());
        assert(found(a) + found(b) =~= found(a));
    } else {
        lemma_found_concat(a, b.drop_last());
        assert((a + b).drop_last() =~= a + b.drop_last());
        assert((a + b).last() == b.last());
        match b.last() {
            Some(r) => {
                assert(found(a) + found(b.drop_last()).push(r) =~= (found(a) + found(
                    b.drop_last(),
                )).push(r));
            },
            None => {},
        }
    }
}

/// Exactly one role is in force per role id the store found: as many roles
/// as `Some` answers, each of them one of the answers.
pub proof fn lemma_found_counts_answers(lookups: Seq<Option<Role>>)
    ensures
        found(lookups).len() == lookups.filter(|o: Option<Role>| o is Some).len(),
        forall|k: int| 0 <= k < found(lookups).len() ==> lookups.contains(Some(#[trigger] found(lookups)[k])),
    decreases lookups.len(),
{
    reveal(Seq::filter);
    if lookups.len() > 0 {
        let prev = lookups.drop_last();
        lemma_found_counts_answers(prev);
        assert forall|k: int| 0 <= k < found(lookups).len() implies lookups.contains(
            Some(#[trigger] found(lookups)[k]),
        ) by {
            if k < found(prev).len() {
                assert(found(lookups)[k] == found(prev)[k]);
                let w = choose|w: int| 0 <= w < prev.len() && prev[w] == Some(found(prev)[k]);
                assert(lookups[w] == prev[w]);
            } else {
                assert(lookups[lookups.len() - 1] == Some(found(lookups)[k]));
            }
        }
    }
}

} // verus!
