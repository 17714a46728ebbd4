//! The admin client's request policy: one retry after a refresh-token
//! rotation on `401`, what a refresh attempt does to the stored tokens,
//! the single-flight latch that coalesces concurrent refreshes, and the
//! message shown for a failed call. Sending requests is the browser's job.

use vstd::prelude::*;
use vstd::string::*;
use crate::tokens::{
    clear_tokens, get_token, opt_string_view, set_tokens, TokenStorage,
};
use crate::text::push_char;

verus! {

/// What to do after the first response to a call.
#[derive(Clone, Copy, Debug, PartialEq, Eq, Structural)]
pub enum RetryDecision {
    /// Use this response.
    Done,
    /// Refresh the tokens, and resend once if that succeeded.
    RefreshThenResend,
}

/// A `401` is retried once through a refresh when a refresh token is
/// stored; every other response is final.
pub fn after_first_response(status: u16, has_refresh_token: bool) -> (res: RetryDecision)
    ensures
        res == if status == 401 && has_refresh_token {
            RetryDecision::RefreshThenResend
        } else {
            RetryDecision::Done
        },
{
    if status == 401 && has_refresh_token {
        RetryDecision::RefreshThenResend
    } else {
        RetryDecision::Done
    }
}

/// How a refresh exchange ended.
#[derive(Debug)]
pub enum RefreshOutcome {
    /// No refresh token was stored, so nothing was sent.
    NoRefreshToken,
    /// The request could not be built.
    BuildFailed,
    /// The request could not be sent.
    SendFailed,
    /// The server refused the refresh token.
    Refused,
    /// The answer was not JSON.
    BadBody,
    /// The answer's `token` and `refresh_token` fields, when strings.
    Tokens { access: Option<String>, refresh: Option<String> },
}

/// Applies a refresh outcome to the stored tokens and tells whether a new
/// access token is now available: a failed send or a refusal clears both
/// tokens; an answer stores both fields as given (absent ones are
/// removed); other failures leave the tokens alone.
pub fn apply_refresh(store: &mut TokenStorage, outcome: RefreshOutcome) -> (res: bool)
    ensures
        match outcome {
            RefreshOutcome::SendFailed | RefreshOutcome::Refused => {
                &&& final(store).access() is None
                &&& final(store).refresh() is None
                &&& !res
            },
            RefreshOutcome::Tokens { access, refresh } => {
                &&& final(store).access() == opt_string_view(access)
                &&& final(store).refresh() == opt_string_view(refresh)
                &&& res == access is Some
            },
            _ => *final(store) == *old(store) && !res,
        },
{
    match outcome {
        RefreshOutcome::SendFailed | RefreshOutcome::Refused => {
            clear_tokens(store);
            false
        },
        RefreshOutcome::Tokens { access, refresh } => {
            let ok = access.is_some();
            let a = match &access {
                Some(s) => Some(s.as_str()),
                None => None,
            };
            let r = match &refresh {
                Some(s) => Some(s.as_str()),
                None => None,
            };
            set_tokens(store, a, r);
            ok
        },
        _ => false,
    }
}

/// Single-flight latch: at most one refresh exchange runs at a time.
#[derive(Debug)]
pub struct RefreshLatch {
    inflight: bool,
}

impl RefreshLatch {
    /// Whether a refresh is running.
    pub closed spec fn busy(&self) -> bool {
        self.inflight
    }

    /// An idle latch.
    pub fn new() -> (res: RefreshLatch)
        ensures
            !res.busy(),
    {
        RefreshLatch { inflight: false }
    }

    /// Claims the latch: `true` when this caller should run the refresh
    /// (the latch was idle and is now busy), `false` when one is already
    /// running (the latch stays busy).
    pub fn begin(&mut self) -> (res: bool)
        ensures
            res == !old(self).busy(),
            final(self).busy(),
    {
        if self.inflight {
            false
        } else {
            self.inflight = true;
            true
        }
    }

    /// Releases the latch after a refresh.
    pub fn end(&mut self)
        ensures
            !final(self).busy(),
    {
        self.inflight = false;
    }
}

/// What a caller that found a refresh already running reports: whether an
/// access token is stored (the running refresh will have rotated it).
pub fn coalesced_refresh_result(store: &TokenStorage) -> (res: bool)
    ensures
        res == store.access() is Some,
{
    get_token(store).is_some()
}

/// Decimal text of `n`.
pub open spec fn decimal(n: nat) -> Seq<char>
    decreases n,
{
    if n < 10 {
        seq![(48 + n) as char]
    } else {
        decimal(n / 10).push((48 + n % 10) as char)
    }
}

/// Decimal text of `n`.
pub fn decimal_string(n: u16) -> (res: String)
    ensures
        res@ == decimal(n as nat),
    decreases n,
{
    if n < 10 {
        let mut s = String::new();
        push_char(&mut s, (48 + n as u8) as char);
        return s;
    }
    let mut s = decimal_string(n / 10);
    push_char(&mut s, (48 + (n % 10) as u8) as char);
    s
}

/// The message of a failed call: the error body's `message` when it has
/// one, otherwise the status code.
pub fn http_error_message(status: u16, body_message: Option<&str>) -> (res: String)
    ensures
        res@ == match body_message {
            Some(m) => m@,
            None => decimal(status as nat),
        },
{
    match body_message {
        Some(m) => m.to_owned(),
        None => decimal_string(status),
    }
}

/// The message of a failed upload: the error body's `message` when it has
/// one, otherwise `HTTP <status>`.
pub fn upload_error_message(status: u16, body_message: Option<&str>) -> (res: String)
    ensures
        res@ == match body_message {
            Some(m) => m@,
            None => "HTTP "@ + decimal(status as nat),
        },
{
    match body_message {
        Some(m) => m.to_owned(),
        None => {
            let mut s = String::new();
            s.append("HTTP ");
            let d = decimal_string(status);
            s.append(d.as_str());
            s
        },
    }
}

} // verus!
