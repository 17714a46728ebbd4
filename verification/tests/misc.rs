use ferro::admin::{format_dt, join_or_dash, ApiError as AdminError};
use ferro::api_error::{ApiError, StorageError};
use ferro::error::AuthError;
use ferro::jwt::{parse_user_id, JwtClaims, JWT_TTL_SECS};
use ferro::policy::UserId;
use ferro::options::{event_kind, event_matches, AuthOptions, HookEvent};
use ferro::preview::{escape_html, render_header, wrap_document, ContentStatus};
use ferro::tokens::{clear_tokens, get_refresh, get_token, set_tokens, TokenStorage};

#[test]
fn tokens_read_back_what_was_set() {
    let mut s = TokenStorage::new();
    assert_eq!(get_token(&s), None);
    set_tokens(&mut s, Some("acc"), Some("ref"));
    assert_eq!(get_token(&s).as_deref(), Some("acc"));
    assert_eq!(get_refresh(&s).as_deref(), Some("ref"));
    set_tokens(&mut s, Some("acc2"), None);
    assert_eq!(get_token(&s).as_deref(), Some("acc2"));
    assert_eq!(get_refresh(&s), None);
    clear_tokens(&mut s);
    assert_eq!(get_token(&s), None);
    assert_eq!(get_refresh(&s), None);
}

#[test]
fn escape_html_replaces_the_five_specials() {
    assert_eq!(escape_html(r#"<a href="x">'&'</a>"#), "&lt;a href=&quot;x&quot;&gt;&#39;&amp;&#39;&lt;/a&gt;");
    assert_eq!(escape_html("plain · text"), "plain · text");
}

#[test]
fn wrap_document_frames_title_and_body() {
    let doc = wrap_document("A <b>", "<p>hi</p>");
    assert!(doc.starts_with("<!doctype html>\n<html lang=\"en\">"));
    assert!(doc.contains("<title>Preview · A &lt;b&gt;</title>"));
    assert!(doc.contains(":root { color-scheme: light dark;"));
    assert!(doc.ends_with("<body>\n<p>hi</p>\n</body>\n</html>"));
}

#[test]
fn header_shows_pill_and_escaped_fields() {
    let h = render_header(ContentStatus::Draft, "About <Ferro>", "Page", "about");
    assert_eq!(
        h,
        "<header class=\"preview-header\"><span class=\"preview-pill preview-pill-draft\">draft</span>\
         <h1>About &lt;Ferro&gt;</h1><p class=\"preview-meta\">Page · about</p></header>"
    );
    assert!(render_header(ContentStatus::Published, "t", "k", "s").contains("preview-pill-published"));
}

#[test]
fn format_dt_examples() {
    assert_eq!(format_dt("2024-05-06T07:08:09.123Z"), "2024-05-06 07:08:09");
    assert_eq!(format_dt("2024-05-06T07:08:09Z"), "2024-05-06 07:08:09");
    assert_eq!(format_dt("not a date"), "not a date");
    assert_eq!(format_dt("Z"), "Z");
    assert_eq!(format_dt("Tuesday"), "Tuesday");
    assert_eq!(format_dt("2024-05-06T07:08"), "2024-05-06 07:08");
    assert_eq!(format_dt("2024/05/06T07:08:09Z"), "2024/05/06T07:08:09Z");
    assert_eq!(format_dt("2024-05-06"), "2024-05-06");
}

#[test]
fn join_or_dash_examples() {
    assert_eq!(join_or_dash(&[]), "—");
    assert_eq!(join_or_dash(&["a".to_string()]), "a");
    assert_eq!(join_or_dash(&["a".to_string(), "b".to_string(), "c".to_string()]), "a, b, c");
}

#[test]
fn admin_error_accessors() {
    let n = AdminError::Network("down".into());
    assert_eq!(n.message(), "down");
    assert_eq!(n.status(), None);
    let h = AdminError::Http { status: 404, message: "not found".into(), body: None };
    assert_eq!(h.message(), "not found");
    assert_eq!(h.status(), Some(404));
}

#[test]
fn api_error_statuses() {
    assert_eq!(ApiError::NotFound.status_and_code(), (404, "not_found"));
    assert_eq!(ApiError::Storage(StorageError::NotFound).status_and_code(), (404, "not_found"));
    assert_eq!(ApiError::Storage(StorageError::Other("x".into())).status_and_code(), (500, "internal"));
    assert_eq!(ApiError::Auth(AuthError::InvalidCredentials).status_and_code(), (401, "unauthorized"));
    assert_eq!(ApiError::Auth(AuthError::Forbidden).status_and_code(), (403, "forbidden"));
    assert_eq!(ApiError::Auth(AuthError::SessionExpired).status_and_code(), (500, "internal"));
    assert_eq!(ApiError::Forbidden("no".into()).status_and_code(), (403, "forbidden"));
    assert_eq!(ApiError::RateLimited(5).status_and_code(), (429, "rate_limited"));
    assert_eq!(ApiError::Unavailable("p".into()).status_and_code(), (503, "unavailable"));
    assert_eq!(ApiError::BadRequest("b".into()).status_and_code(), (400, "bad_request"));
    assert_eq!(ApiError::Core("c".into()).status_and_code(), (400, "bad_request"));
    assert_eq!(ApiError::Unauthorized.status_and_code(), (401, "unauthorized"));
    assert_eq!(ApiError::Internal("i".into()).status_and_code(), (500, "internal"));
}

#[test]
fn claims_expire_after_ttl() {
    let c = JwtClaims::issue("u1".into(), "ferro".into(), 1_000, JWT_TTL_SECS, vec!["admin".into()]);
    assert_eq!(c.iat, 1_000);
    assert_eq!(c.exp, 1_000 + 12 * 60 * 60);
    assert_eq!(c.sub, "u1");
    assert_eq!(c.roles, vec!["admin".to_string()]);
}

#[test]
fn event_names_and_filter() {
    let created = HookEvent::ContentCreated { type_slug: "post".into() };
    let migrated = HookEvent::TypeMigrated { type_slug: "page".into() };
    assert_eq!(event_kind(&created), "content.created");
    assert_eq!(event_kind(&migrated), "type.migrated");
    assert_eq!(event_kind(&HookEvent::Other), "event");
    assert!(event_matches(&created, None));
    assert!(event_matches(&HookEvent::Other, None));
    assert!(event_matches(&created, Some("post")));
    assert!(!event_matches(&created, Some("page")));
    assert!(event_matches(&migrated, Some("page")));
    assert!(!event_matches(&HookEvent::Other, Some("post")));
    assert!(event_matches(&HookEvent::ContentDeleted { type_slug: "post".into() }, Some("post")));
    assert!(!AuthOptions::default().allow_public_signup);
}

#[test]
fn escaping_distributes_over_concatenation() {
    let a = "x < y & \"z\"";
    let b = "'q' > &amp;";
    assert_eq!(escape_html(&format!("{a}{b}")), format!("{}{}", escape_html(a), escape_html(b)));
    let out = escape_html(b);
    assert_eq!(out, "&#39;q&#39; &gt; &amp;amp;");
    for (i, _) in out.match_indices('&') {
        let rest = &out[i..];
        assert!(["&lt;", "&gt;", "&amp;", "&quot;", "&#39;"].iter().any(|e| rest.starts_with(e)));
    }
}

#[test]
fn subject_claims_read_as_ulids() {
    assert_eq!(
        parse_user_id("01ARZ3NDEKTSV4RRFFQ69G5FAV"),
        Some(UserId(1777027686520646174104517696511196507))
    );
    assert_eq!(parse_user_id("01arz3ndektsv4rrffq69g5fav"), parse_user_id("01ARZ3NDEKTSV4RRFFQ69G5FAV"));
    assert_eq!(parse_user_id("7ZZZZZZZZZZZZZZZZZZZZZZZZZ"), Some(UserId(u128::MAX)));
    assert_eq!(parse_user_id("80000000000000000000000000"), None);
    assert_eq!(parse_user_id("01ARZ3NDEKTSV4RRFFQ69G5FA"), None);
    assert_eq!(parse_user_id("01ARZ3NDEKTSV4RRFFQ69G5FAU"), None);
    assert_eq!(parse_user_id("01ARZ3NDEKTSV4RRFFQ69G5FAI"), None);
    let claims = JwtClaims::issue("not-an-id".into(), "ferro".into(), 0, 60, vec![]);
    match claims.user_id() {
        Err(AuthError::Hash(m)) => assert_eq!(m, "invalid sub claim"),
        other => panic!("unexpected {:?}", other),
    }
    let claims = JwtClaims::issue("00000000000000000000000001".into(), "ferro".into(), 0, 60, vec![]);
    assert!(matches!(claims.user_id(), Ok(UserId(1))));
}
