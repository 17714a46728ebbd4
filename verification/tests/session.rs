use ferro::error::AuthError;
use ferro::policy::UserId;
use ferro::service::{login_finish, login_gate, resolve_session, Account};
use ferro::session::{default_ttl, new_token, to_hex, Session, SessionTable, NANOS_PER_SEC};

fn session(token: &str, expires_at: i128) -> Session {
    Session {
        token: token.to_string(),
        user_id: UserId(1),
        created_at: 0,
        expires_at,
        ip: None,
        user_agent: None,
    }
}

#[test]
fn default_ttl_is_fourteen_days() {
    assert_eq!(default_ttl(), 14 * 24 * 60 * 60);
}

#[test]
fn new_token_is_64_lowercase_hex_and_fresh() {
    let a = new_token();
    let b = new_token();
    assert_eq!(a.len(), 64);
    assert!(a.chars().all(|c| matches!(c, '0'..='9' | 'a'..='f')));
    assert_ne!(a, b);
    assert_eq!(to_hex(&[0x00, 0xff, 0x1a]), "00ff1a");
}

#[test]
fn expiry_is_inclusive() {
    let s = session("t", 100);
    assert!(!s.is_expired(99));
    assert!(s.is_expired(100));
    assert!(s.is_expired(101));
}

#[test]
fn issue_sets_expiry_after_default_ttl() {
    let s = Session::issue("tok".to_string(), UserId(3), 5, Some("1.2.3.4".into()), None);
    assert_eq!(s.created_at, 5);
    assert_eq!(s.expires_at, 5 + 1_209_600 * NANOS_PER_SEC);
    assert_eq!(s.user_id, UserId(3));
    assert_eq!(s.ip.as_deref(), Some("1.2.3.4"));
}

#[test]
fn put_get_delete_round_trip() {
    let mut t = SessionTable::new();
    t.put(session("a", 100));
    t.put(session("b", 200));
    let got = t.get("a", 50).unwrap().unwrap();
    assert_eq!(got.token, "a");
    assert_eq!(got.expires_at, 100);
    assert!(matches!(t.get("a", 100), Err(AuthError::SessionExpired)));
    assert!(t.get("zzz", 0).unwrap().is_none());
    // Replacing keeps one entry per token.
    t.put(session("a", 300));
    assert_eq!(t.get("a", 150).unwrap().unwrap().expires_at, 300);
    t.delete("a");
    assert!(t.get("a", 0).unwrap().is_none());
    assert_eq!(t.get("b", 0).unwrap().unwrap().expires_at, 200);
}

#[test]
fn purge_removes_only_expired() {
    let mut t = SessionTable::new();
    t.put(session("a", 10));
    t.put(session("b", 20));
    t.put(session("c", 30));
    assert_eq!(t.purge_expired(20), 2);
    assert!(t.get("a", 0).unwrap().is_none());
    assert!(t.get("b", 0).unwrap().is_none());
    assert_eq!(t.get("c", 0).unwrap().unwrap().expires_at, 30);
    assert_eq!(t.purge_expired(20), 0);
}

#[test]
fn login_gate_refuses_as_documented() {
    assert!(matches!(login_gate(None), Err(AuthError::InvalidCredentials)));
    let disabled = Account { id: UserId(1), active: false, password_hash: Some("h".into()) };
    assert!(matches!(login_gate(Some(&disabled)), Err(AuthError::AccountDisabled)));
    let no_hash = Account { id: UserId(1), active: true, password_hash: None };
    assert!(matches!(login_gate(Some(&no_hash)), Err(AuthError::InvalidCredentials)));
    let ok = Account { id: UserId(1), active: true, password_hash: Some("$argon2id$x".into()) };
    assert_eq!(login_gate(Some(&ok)).unwrap(), "$argon2id$x");
}

#[test]
fn login_finish_opens_session_only_for_right_password() {
    let acct = Account { id: UserId(9), active: true, password_hash: Some("h".into()) };
    assert!(matches!(
        login_finish(&acct, false, "t".into(), 0, None, None),
        Err(AuthError::InvalidCredentials)
    ));
    let s = login_finish(&acct, true, "t".into(), 1_000, None, Some("ua".into())).unwrap();
    assert_eq!(s.user_id, UserId(9));
    assert_eq!(s.expires_at, 1_000 + 1_209_600 * NANOS_PER_SEC);
    assert_eq!(s.user_agent.as_deref(), Some("ua"));
}

#[test]
fn resolve_session_maps_missing_to_not_found() {
    let mut t = SessionTable::new();
    t.put(session("a", 10));
    assert!(matches!(resolve_session(&t, "nope", 0), Err(AuthError::SessionNotFound)));
    assert!(matches!(resolve_session(&t, "a", 10), Err(AuthError::SessionExpired)));
    assert_eq!(resolve_session(&t, "a", 9).unwrap().token, "a");
}
