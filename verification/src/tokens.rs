//! The admin client's token slots: the access token and the refresh token
//! it keeps between page loads (in the browser these live in
//! `localStorage` under [`TOKEN_KEY`] and [`REFRESH_KEY`]).

use vstd::prelude::*;
use crate::session::copy_opt_string;

verus! {

/// Storage key of the access token.
pub const TOKEN_KEY: &'static str = "ferro.admin.token";

/// Storage key of the refresh token.
pub const REFRESH_KEY: &'static str = "ferro.admin.refresh";

/// The two token slots.
#[derive(Debug)]
pub struct TokenStorage {
    access: Option<String>,
    refresh: Option<String>,
}

/// The text of an optional `String`.
pub open spec fn opt_string_view(s: Option<String>) -> Option<Seq<char>> {
    match s {
        Some(v) => Some(v@),
        None => None,
    }
}

/// The text of an optional string slice.
pub open spec fn opt_str_view(s: Option<&str>) -> Option<Seq<char>> {
    match s {
        Some(v) => Some(v@),
        None => None,
    }
}

impl TokenStorage {
    /// The stored access token.
    pub closed spec fn access(&self) -> Option<Seq<char>> {
        opt_string_view(self.access)
    }

    /// The stored refresh token.
    pub closed spec fn refresh(&self) -> Option<Seq<char>> {
        opt_string_view(self.refresh)
    }

    /// Empty slots.
    pub fn new() -> (res: TokenStorage)
        ensures
            res.access() is None,
            res.refresh() is None,
    {
        TokenStorage { access: None, refresh: None }
    }

    /// Slots holding the given values (as read back from storage).
    pub fn from_parts(access: Option<String>, refresh: Option<String>) -> (res: TokenStorage)
        ensures
            res.access() == opt_string_view(access),
            res.refresh() == opt_string_view(refresh),
    {
        TokenStorage { access, refresh }
    }
}

fn own(s: Option<&str>) -> (res: Option<String>)
    ensures
        opt_string_view(res) == opt_str_view(s),
{
    match s {
        Some(v) => Some(v.to_owned()),
        None => None,
    }
}

/// The stored access token, if any.
pub fn get_token(store: &TokenStorage) -> (res: Option<String>)
    ensures
        opt_string_view(res) == store.access(),
{
    copy_opt_string(&store.access)
}

/// The stored refresh token, if any.
pub fn get_refresh(store: &TokenStorage) -> (res: Option<String>)
    ensures
        opt_string_view(res) == store.refresh(),
{
    copy_opt_string(&store.refresh)
}

/// Sets both slots: `Some` stores the value, `None` removes it.
pub fn set_tokens(store: &mut TokenStorage, access: Option<&str>, refresh: Option<&str>)
    ensures
        final(store).access() == opt_str_view(access),
        final(store).refresh() == opt_str_view(refresh),
{
    store.access = own(access);
    store.refresh = own(refresh);
}

/// Removes both tokens.
pub fn clear_tokens(store: &mut TokenStorage)
    ensures
        final(store).access() is None,
        final(store).refresh() is None,
{
    set_tokens(store, None, None);
}

} // verus!
