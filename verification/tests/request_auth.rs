use ferro::api_error::ApiError;
use ferro::policy::{Permission, Role, RoleId, Scope, UserId};
use ferro::request_auth::{
    admit_user, authenticated_context, found_roles, request_bearer, stream_credentials,
    token_subject, TokenCheck,
};

fn role(id: u128, name: &str) -> Role {
    Role { id: RoleId(id), name: name.into(), description: None, permissions: vec![Permission::Read(Scope::Own)] }
}

#[test]
fn request_bearer_cases() {
    assert_eq!(request_bearer(None), None);
    assert_eq!(request_bearer(Some("Bearer abc")).as_deref(), Some("abc"));
    assert_eq!(request_bearer(Some("Bearer not-a-real-token")).as_deref(), Some("not-a-real-token"));
    assert_eq!(request_bearer(Some("Basic abc")), None);
    assert_eq!(request_bearer(Some("bearer   ")), None);
}

#[test]
fn admit_user_cases() {
    assert!(matches!(admit_user(None), Err(ApiError::Unauthorized)));
    match admit_user(Some(false)) {
        Err(ApiError::Forbidden(m)) => assert_eq!(m, "account disabled"),
        other => panic!("unexpected {other:?}"),
    }
    assert!(admit_user(Some(true)).is_ok());
}

#[test]
fn found_roles_skips_missing_in_order() {
    let got = found_roles(vec![Some(role(1, "a")), None, Some(role(2, "b")), None]);
    let names: Vec<_> = got.iter().map(|r| r.name.as_str()).collect();
    assert_eq!(names, vec!["a", "b"]);
    assert!(found_roles(vec![None]).is_empty());
}

#[test]
fn stream_credentials_cases() {
    assert!(matches!(stream_credentials(true, None), Ok(None)));
    assert_eq!(stream_credentials(false, Some("tok")).unwrap().as_deref(), Some("tok"));
    assert!(matches!(stream_credentials(false, None), Err(ApiError::Unauthorized)));
}

#[test]
fn failed_token_checks_are_unauthorized() {
    assert!(matches!(token_subject(TokenCheck::Rejected), Err(ApiError::Unauthorized)));
    assert!(matches!(
        token_subject(TokenCheck::Verified { subject: None }),
        Err(ApiError::Unauthorized)
    ));
    assert!(matches!(
        token_subject(TokenCheck::Verified { subject: Some(UserId(7)) }),
        Ok(UserId(7))
    ));
}

#[test]
fn authenticated_context_admits_and_resolves_roles() {
    assert!(matches!(authenticated_context(UserId(1), None, vec![]), Err(ApiError::Unauthorized)));
    match authenticated_context(UserId(1), Some(false), vec![Some(role(1, "a"))]) {
        Err(ApiError::Forbidden(m)) => assert_eq!(m, "account disabled"),
        other => panic!("unexpected {:?}", other),
    }
    let ctx = authenticated_context(UserId(9), Some(true), vec![Some(role(1, "a")), None, Some(role(3, "c"))])
        .unwrap();
    assert_eq!(ctx.user_id, UserId(9));
    let names: Vec<&str> = ctx.roles.iter().map(|r| r.name.as_str()).collect();
    assert_eq!(names, vec!["a", "c"]);
}
