use ferro::client::{
    after_first_response, apply_refresh, coalesced_refresh_result, decimal_string,
    http_error_message, upload_error_message, RefreshLatch, RefreshOutcome, RetryDecision,
};
use ferro::tokens::{get_refresh, get_token, set_tokens, TokenStorage};

fn stored(a: &str, r: &str) -> TokenStorage {
    let mut s = TokenStorage::new();
    set_tokens(&mut s, Some(a), Some(r));
    s
}

#[test]
fn only_401_with_refresh_token_is_retried() {
    assert_eq!(after_first_response(401, true), RetryDecision::RefreshThenResend);
    assert_eq!(after_first_response(401, false), RetryDecision::Done);
    assert_eq!(after_first_response(403, true), RetryDecision::Done);
    assert_eq!(after_first_response(200, true), RetryDecision::Done);
}

#[test]
fn refusal_and_send_failure_clear_tokens() {
    for outcome in [RefreshOutcome::Refused, RefreshOutcome::SendFailed] {
        let mut s = stored("a", "r");
        assert!(!apply_refresh(&mut s, outcome));
        assert_eq!(get_token(&s), None);
        assert_eq!(get_refresh(&s), None);
    }
}

#[test]
fn other_failures_keep_tokens() {
    for outcome in [RefreshOutcome::NoRefreshToken, RefreshOutcome::BuildFailed, RefreshOutcome::BadBody] {
        let mut s = stored("a", "r");
        assert!(!apply_refresh(&mut s, outcome));
        assert_eq!(get_token(&s).as_deref(), Some("a"));
        assert_eq!(get_refresh(&s).as_deref(), Some("r"));
    }
}

#[test]
fn rotated_tokens_are_stored() {
    let mut s = stored("a", "r");
    let ok = apply_refresh(
        &mut s,
        RefreshOutcome::Tokens { access: Some("a2".into()), refresh: Some("r2".into()) },
    );
    assert!(ok);
    assert_eq!(get_token(&s).as_deref(), Some("a2"));
    assert_eq!(get_refresh(&s).as_deref(), Some("r2"));
    let ok = apply_refresh(&mut s, RefreshOutcome::Tokens { access: None, refresh: Some("r3".into()) });
    assert!(!ok);
    assert_eq!(get_token(&s), None);
    assert_eq!(get_refresh(&s).as_deref(), Some("r3"));
}

#[test]
fn latch_coalesces() {
    let mut latch = RefreshLatch::new();
    assert!(latch.begin());
    assert!(!latch.begin());
    latch.end();
    assert!(latch.begin());
    assert!(coalesced_refresh_result(&stored("a", "r")));
    assert!(!coalesced_refresh_result(&TokenStorage::new()));
}

#[test]
fn messages() {
    assert_eq!(decimal_string(0), "0");
    assert_eq!(decimal_string(404), "404");
    assert_eq!(decimal_string(65535), "65535");
    assert_eq!(http_error_message(500, None), "500");
    assert_eq!(http_error_message(500, Some("boom")), "boom");
    assert_eq!(upload_error_message(413, None), "HTTP 413");
    assert_eq!(upload_error_message(413, Some("too big")), "too big");
}
