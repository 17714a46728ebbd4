//! The decisions of the login flow around the user store and the password
//! hasher: which stored account may attempt a login, and the session a
//! successful one opens.

use vstd::prelude::*;
use crate::error::{AuthError, AuthResult};
use crate::policy::UserId;
use crate::session::{Session, SessionTable, spec_get};

verus! {

/// What the user store holds about an account that matters for login.
#[derive(Debug)]
pub struct Account {
    pub id: UserId,
    pub active: bool,
    pub password_hash: Option<String>,
}

/// The first half of a login: unknown accounts and accounts without a
/// password are refused as invalid credentials, inactive ones as
/// disabled; otherwise the stored hash to check the password against.
pub fn login_gate(account: Option<&Account>) -> (res: AuthResult<String>)
    ensures
        match account {
            None => res matches Err(AuthError::InvalidCredentials),
            Some(a) => if !a.active {
                res matches Err(AuthError::AccountDisabled)
            } else {
                match a.password_hash {
                    None => res matches Err(AuthError::InvalidCredentials),
                    Some(h) => res matches Ok(r) && r@ == h@,
                }
            },
        },
{
    let a = match account {
        Some(a) => a,
        None => return Err(AuthError::InvalidCredentials),
    };
    if !a.active {
        return Err(AuthError::AccountDisabled);
    }
    match &a.password_hash {
        Some(h) => Ok(h.clone()),
        None => Err(AuthError::InvalidCredentials),
    }
}

/// The second half of a login: a wrong password is refused as invalid
/// credentials; a right one opens a session for the account, created at
/// `now` and expiring after the default lifetime.
pub fn login_finish(
    account: &Account,
    password_ok: bool,
    token: String,
    now: i128,
    ip: Option<String>,
    user_agent: Option<String>,
) -> (res: AuthResult<Session>)
    requires
        now <= i128::MAX - 1_209_600 * 1_000_000_000,
    ensures
        !password_ok ==> res matches Err(AuthError::InvalidCredentials),
        password_ok ==> (res matches Ok(s) && s.token == token && s.user_id == account.id
            && s.created_at == now && s.expires_at == now + 1_209_600 * 1_000_000_000 && s.ip == ip
            && s.user_agent == user_agent),
{
    if !password_ok {
        return Err(AuthError::InvalidCredentials);
    }
    Ok(Session::issue(token, account.id, now, ip, user_agent))
}

/// Resolves a session token: a missing session is `SessionNotFound`, an
/// expired one `SessionExpired`.
pub fn resolve_session(table: &SessionTable, token: &str, now: i128) -> (res: AuthResult<Session>)
    requires
        table.wf(),
    ensures
        match spec_get(table.view(), token@, now) {
            Ok(Some(s)) => res == Ok::<Session, AuthError>(s),
            Ok(None) => res matches Err(AuthError::SessionNotFound),
            Err(e) => res == Err::<Session, AuthError>(e),
        },
{
    match table.get(token, now) {
        Ok(Some(s)) => Ok(s),
        Ok(None) => Err(AuthError::SessionNotFound),
        Err(e) => Err(e),
    }
}

} // verus!
