use ferro::csrf::{
    bearer_token, csrf_allows, csrf_cookie, ct_eq, extract_cookie, has_bearer, mint, COOKIE_NAME,
    HEADER_NAME,
};

#[test]
fn ct_eq_handles_length_mismatch() {
    assert!(!ct_eq(b"abc", b"abcd"));
    assert!(ct_eq(b"abc", b"abc"));
    assert!(!ct_eq(b"abc", b"abd"));
}

#[test]
fn cookie_extract_picks_named_segment() {
    let header = "foo=bar; ferro_csrf=token123; baz=qux";
    assert_eq!(extract_cookie(Some(header), COOKIE_NAME).as_deref(), Some("token123"));
}

#[test]
fn cookie_extract_misses_when_absent() {
    assert!(extract_cookie(Some("foo=bar"), COOKIE_NAME).is_none());
}

#[test]
fn bearer_detection_handles_case_and_whitespace() {
    assert!(has_bearer(Some(" Bearer xyz")));
    assert!(!has_bearer(Some("Basic xyz")));
}

#[test]
fn cookie_extract_without_header_is_none() {
    assert!(extract_cookie(None, COOKIE_NAME).is_none());
}

#[test]
fn cookie_extract_trims_parts_and_takes_first_match() {
    assert_eq!(
        extract_cookie(Some("  ferro_csrf=a ;ferro_csrf=b"), COOKIE_NAME).as_deref(),
        Some("a")
    );
    // A longer name sharing the prefix does not match.
    assert!(extract_cookie(Some("ferro_csrfx=1"), COOKIE_NAME).is_none());
    assert_eq!(extract_cookie(Some("ferro_csrf="), COOKIE_NAME).as_deref(), Some(""));
}

#[test]
fn lowercase_bearer_detected_and_absent_header_is_not_bearer() {
    assert!(has_bearer(Some("bearer t")));
    assert!(has_bearer(Some("\t\nBearer t")));
    assert!(!has_bearer(Some("BEARER t")));
    assert!(!has_bearer(None));
}

#[test]
fn bearer_token_strips_scheme_and_trims() {
    assert_eq!(bearer_token("Bearer  abc ").as_deref(), Some("abc"));
    assert_eq!(bearer_token("bearer xyz").as_deref(), Some("xyz"));
    assert_eq!(bearer_token("Bearer    ").as_deref(), None);
    assert_eq!(bearer_token(" Bearer abc").as_deref(), None);
    assert_eq!(bearer_token("Basic abc").as_deref(), None);
}

#[test]
fn safe_methods_and_bearer_requests_pass() {
    let cookie = Some("ferro_csrf=abc123");
    assert!(csrf_allows("GET", None, cookie, None));
    assert!(csrf_allows("HEAD", None, cookie, None));
    assert!(csrf_allows("OPTIONS", None, cookie, None));
    assert!(csrf_allows("POST", Some("Bearer not-a-real-jwt"), cookie, Some("wrong")));
}

#[test]
fn post_without_cookie_passes_check() {
    assert!(csrf_allows("POST", None, None, None));
    assert!(csrf_allows("POST", None, Some("other=1"), None));
}

#[test]
fn cookie_requires_matching_nonempty_header() {
    let cookie = Some("ferro_csrf=abc123");
    assert!(csrf_allows("POST", None, cookie, Some("abc123")));
    assert!(!csrf_allows("POST", None, cookie, None));
    assert!(!csrf_allows("POST", None, cookie, Some("different")));
    assert!(!csrf_allows("DELETE", None, Some("ferro_csrf="), Some("")));
}

#[test]
fn cookie_string_and_mint() {
    assert_eq!(csrf_cookie("deadbeef"), "ferro_csrf=deadbeef; Path=/; SameSite=Strict");
    let (token, cookie) = mint();
    assert_eq!(token.len(), 64);
    assert!(token.chars().all(|c| c.is_ascii_hexdigit() && !c.is_ascii_uppercase()));
    assert_eq!(cookie, format!("ferro_csrf={token}; Path=/; SameSite=Strict"));
    assert_eq!(HEADER_NAME, "x-csrf-token");
}

#[test]
fn minted_cookie_reads_back_and_passes() {
    let (token, cookie) = mint();
    // The browser sends back the name=value pair of the Set-Cookie value.
    let sent = cookie.split(';').next().unwrap();
    assert_eq!(extract_cookie(Some(sent), COOKIE_NAME).as_deref(), Some(token.as_str()));
    assert!(csrf_allows("POST", None, Some(sent), Some(&token)));
}
