use ferro::pages::{
    field_slug_summary, mentions_already_enabled, plugins_load_error, toggle_role,
    totp_panel_step, users_load_error, TotpPanelAction, TotpPanelEvent, TotpPanelState,
};

fn panel() -> TotpPanelState {
    TotpPanelState {
        enabled: false,
        secret: String::new(),
        uri: String::new(),
        code: String::new(),
        status: String::new(),
        status_err: false,
    }
}

#[test]
fn load_error_lines() {
    assert_eq!(plugins_load_error(Some(403), "forbidden"), "forbidden (your role doesn't have ManagePlugins)");
    assert_eq!(
        plugins_load_error(Some(503), "unavailable"),
        "Plugin host not initialized — check ferro.toml [plugins]."
    );
    assert_eq!(plugins_load_error(Some(500), "boom"), "boom");
    assert_eq!(plugins_load_error(None, "offline"), "offline");
    assert_eq!(users_load_error(Some(403), "forbidden"), "forbidden (your role doesn't have ManageUsers)");
    assert_eq!(users_load_error(Some(503), "down"), "down");
}

#[test]
fn field_summary_joins_present_slugs() {
    assert_eq!(
        field_slug_summary(&[Some("title".into()), None, Some("body".into()), Some("tags".into())]),
        "title, body, tags"
    );
    assert_eq!(field_slug_summary(&[None, None]), "");
    assert_eq!(field_slug_summary(&[]), "");
    assert_eq!(field_slug_summary(&[None, Some("only".into())]), "only");
}

#[test]
fn role_checkboxes() {
    let roles = vec!["a".to_string(), "b".to_string()];
    assert_eq!(toggle_role(roles.clone(), "c", true), vec!["a", "b", "c"]);
    assert_eq!(toggle_role(roles.clone(), "a", false), vec!["b"]);
    assert_eq!(toggle_role(roles, "a", true), vec!["b", "a"]);
}

#[test]
fn already_enabled_detection() {
    assert!(mentions_already_enabled("TOTP Already Enabled for this user"));
    assert!(mentions_already_enabled("already enabled"));
    assert!(!mentions_already_enabled("already-enabled"));
    assert!(!mentions_already_enabled("enabled"));
}

#[test]
fn totp_panel_setup_enable_disable() {
    let (s, a) = totp_panel_step(panel(), TotpPanelEvent::BeginSetup);
    assert!(matches!(a, TotpPanelAction::PostSetup));
    assert_eq!(s.status, "Generating secret…");
    let (s, a) = totp_panel_step(
        s,
        TotpPanelEvent::SetupOk { secret: Some("SECRET".into()), uri: Some("otpauth://x".into()) },
    );
    assert!(matches!(a, TotpPanelAction::Nothing));
    assert_eq!(s.secret, "SECRET");
    assert_eq!(s.uri, "otpauth://x");
    assert_eq!(s.status, "");
    let (s, _) = totp_panel_step(s, TotpPanelEvent::CodeInput("123456".into()));
    let (s, a) = totp_panel_step(s, TotpPanelEvent::ConfirmEnable);
    match a {
        TotpPanelAction::PostEnable { secret, code } => {
            assert_eq!(secret, "SECRET");
            assert_eq!(code, "123456");
        }
        other => panic!("unexpected {:?}", other),
    }
    assert_eq!(s.status, "Verifying…");
    let (s, _) = totp_panel_step(s, TotpPanelEvent::EnableOk);
    assert!(s.enabled);
    assert_eq!(s.secret, "");
    assert_eq!(s.code, "");
    assert!(!s.status_err);
    assert_eq!(s.status, "TOTP enabled. New logins now require a code.");
    let (s, _) = totp_panel_step(s, TotpPanelEvent::CodeInput("654321".into()));
    let (s, a) = totp_panel_step(s, TotpPanelEvent::ConfirmDisable);
    assert!(matches!(a, TotpPanelAction::PostDisable { ref code } if code == "654321"));
    let (s, _) = totp_panel_step(s, TotpPanelEvent::DisableErr { message: "bad code".into() });
    assert!(s.status_err);
    assert_eq!(s.status, "bad code");
    assert!(s.enabled);
    let (s, _) = totp_panel_step(s, TotpPanelEvent::DisableOk);
    assert!(!s.enabled);
    assert_eq!(s.status, "TOTP disabled.");
}

#[test]
fn totp_panel_setup_errors() {
    let (s, _) = totp_panel_step(
        panel(),
        TotpPanelEvent::SetupErr { status: Some(400), message: "TOTP already enabled".into() },
    );
    assert!(s.enabled);
    assert!(s.status_err);
    assert_eq!(s.status, "TOTP already enabled");
    let (s, _) = totp_panel_step(
        panel(),
        TotpPanelEvent::SetupErr { status: Some(500), message: "already enabled".into() },
    );
    assert!(!s.enabled);
    let mut p = panel();
    p.secret = "S".into();
    p.code = "1".into();
    let (s, a) = totp_panel_step(p, TotpPanelEvent::Cancel);
    assert!(matches!(a, TotpPanelAction::Nothing));
    assert_eq!(s.secret, "");
    assert_eq!(s.code, "");
    let (s, _) = totp_panel_step(panel(), TotpPanelEvent::EnableErr { message: "wrong".into() });
    assert!(s.status_err && !s.enabled);
}
