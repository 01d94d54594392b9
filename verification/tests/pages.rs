use chrono::TimeZone;
use sui_id::formatters::UtcTime;
use sui_id::i18n::Locale;
use sui_id::pages::{
    audit_row, client_edit_view, client_row, dashboard_view, fmt_time, fmt_time_or,
    fmt_time_seconds, join_strings, me_security_tabs, me_security_view, mfa_summary,
    passkey_delete_url, profile_view, route_tabs, session_revoke_url, settings_tabs,
    signing_key_row, user_row, AuditLogEntry, ClientActions, ClientEditData, ClientSummary,
    DashboardData, FlashKind, MeAuditEntry, MeSecurityData, MeSessionDescriptor, MeTab,
    PasskeyDescriptor, ProfileData, RouteTab, SettingsTab, SigningKeySummary, UserActions,
    UserSummary,
};

fn at(y: i32, mo: u32, d: u32, h: u32, mi: u32, s: u32) -> UtcTime {
    let secs = chrono::Utc.with_ymd_and_hms(y, mo, d, h, mi, s).unwrap().timestamp();
    UtcTime::from_timestamp(secs).unwrap()
}

fn summary(deleted: bool, disabled: bool, admin: bool, mfa: bool) -> UserSummary {
    UserSummary {
        id: "u-1".into(),
        username: "bob".into(),
        display_name: None,
        is_admin: admin,
        is_disabled: disabled,
        is_deleted: deleted,
        mfa_enabled: mfa,
        created_at: at(2024, 5, 12, 14, 7, 30),
    }
}

#[test]
fn flash_classes() {
    assert_eq!(FlashKind::Info.class(), "flash info");
    assert_eq!(FlashKind::Warn.class(), "flash warn");
    assert_eq!(FlashKind::Error.class(), "flash error");
}

#[test]
fn user_rows() {
    let r = user_row(&summary(false, false, true, true), "alice");
    assert_eq!(r.status, "admin");
    assert_eq!(r.display, "");
    assert_eq!(r.created, "2024-05-12 14:07 UTC");
    match r.actions {
        UserActions::Manage { reset_mfa_url, disabled_url, delete_url, action_label, action_target } => {
            assert_eq!(reset_mfa_url.as_deref(), Some("/admin/users/u-1/mfa-reset"));
            assert_eq!(disabled_url, "/admin/users/u-1/disabled");
            assert_eq!(delete_url, "/admin/users/u-1/delete");
            assert_eq!(action_label, "Disable");
            assert_eq!(action_target, "true");
        }
        other => panic!("unexpected {:?}", other),
    }
    let d = user_row(&summary(false, true, true, false), "alice");
    assert_eq!(d.status, "disabled");
    match d.actions {
        UserActions::Manage { reset_mfa_url, action_label, action_target, .. } => {
            assert_eq!(reset_mfa_url, None);
            assert_eq!(action_label, "Enable");
            assert_eq!(action_target, "false");
        }
        other => panic!("unexpected {:?}", other),
    }
    assert!(matches!(user_row(&summary(true, true, false, false), "alice").actions, UserActions::Gone));
    assert_eq!(user_row(&summary(true, true, false, false), "alice").status, "deleted");
    assert!(matches!(user_row(&summary(true, false, false, false), "bob").actions, UserActions::Yourself));
    assert_eq!(user_row(&summary(false, false, false, false), "x").status, "active");
}

#[test]
fn client_rows() {
    let c = ClientSummary {
        id: "c9".into(),
        name: "App".into(),
        allowed_scopes: "  ".into(),
        post_logout_redirect_uris: vec![],
        confidential: false,
        is_disabled: false,
        is_deleted: false,
    };
    let r = client_row(&c);
    assert_eq!(r.status, "active");
    assert_eq!(r.kind, "public");
    assert_eq!(r.scopes_display, "(any)");
    assert_eq!(r.logout_display, "(falls back to redirect_uris)");
    match r.actions {
        ClientActions::Manage { edit_url, disabled_url, delete_url, action_label, .. } => {
            assert_eq!(edit_url, "/admin/clients/c9/edit");
            assert_eq!(disabled_url, "/admin/clients/c9/disabled");
            assert_eq!(delete_url, "/admin/clients/c9/delete");
            assert_eq!(action_label, "Disable");
        }
        other => panic!("unexpected {:?}", other),
    }
    let c2 = ClientSummary {
        allowed_scopes: "openid".into(),
        post_logout_redirect_uris: vec!["a".into(), "b".into(), "c".into()],
        confidential: true,
        is_deleted: true,
        ..c
    };
    let r2 = client_row(&c2);
    assert_eq!(r2.status, "deleted");
    assert_eq!(r2.kind, "confidential");
    assert_eq!(r2.scopes_display, "openid");
    assert_eq!(r2.logout_display, "3 URI(s)");
    assert!(matches!(r2.actions, ClientActions::Gone));
}

#[test]
fn edit_view_and_join() {
    let v = client_edit_view(&ClientEditData {
        id: "c1".into(),
        name: "App".into(),
        redirect_uris: vec!["https://a".into(), "https://b".into()],
        allowed_scopes: "openid".into(),
        post_logout_redirect_uris: vec![],
        confidential: true,
        is_disabled: true,
    });
    assert_eq!(v.post_url, "/admin/clients/c1/edit");
    assert_eq!(v.kind, "confidential");
    assert_eq!(v.status, "disabled");
    assert_eq!(v.redirect_uris_value, "https://a\nhttps://b");
    assert_eq!(v.post_logout_value, "");
    assert_eq!(join_strings(&vec!["x".into()], ", "), "x");
}

#[test]
fn keys_sessions_passkeys() {
    let key = |id: &str, active: bool, rotated: Option<UtcTime>| SigningKeySummary {
        id: id.into(),
        algorithm: "EdDSA".into(),
        is_active: active,
        created_at: at(2023, 1, 2, 3, 4, 5),
        rotated_at: rotated,
    };
    let active = signing_key_row(&key("k1", true, None));
    assert_eq!(active.status, "active");
    assert_eq!(active.delete_url, None);
    assert_eq!(active.created, "2023-01-02 03:04 UTC");
    assert_eq!(active.rotated, "-");
    let retired = signing_key_row(&key("k0", false, Some(at(2024, 2, 29, 23, 59, 59))));
    assert_eq!(retired.status, "retired");
    assert_eq!(retired.rotated, "2024-02-29 23:59 UTC");
    assert_eq!(retired.delete_url.as_deref(), Some("/admin/signing-keys/k0/delete"));
    assert_eq!(passkey_delete_url("p7"), "/admin/profile/webauthn/p7/delete");
    assert_eq!(session_revoke_url("s1", true), None);
    assert_eq!(session_revoke_url("s1", false).as_deref(), Some("/me/security/sessions/s1/revoke"));
}

#[test]
fn mfa_summaries() {
    assert_eq!(mfa_summary(false, 0), None);
    assert_eq!(mfa_summary(true, 0).as_deref(), Some("authenticator app"));
    assert_eq!(mfa_summary(false, 1).as_deref(), Some("1 passkey"));
    assert_eq!(mfa_summary(true, 2).as_deref(), Some("authenticator app, 2 passkeys"));
}

#[test]
fn tab_strips() {
    let t = settings_tabs(SettingsTab::Logs, Locale::En);
    assert_eq!(t.len(), 6);
    assert_eq!(t.iter().filter(|l| l.current).count(), 1);
    assert!(t[3].current);
    assert_eq!(t[3].href, "/admin/settings/logs");
    assert_eq!(t[5].label, "Advanced");
    assert_eq!(SettingsTab::Other.key(), "other");
    let m = me_security_tabs(MeTab::Passkey, Locale::Ja);
    assert_eq!(m.len(), 5);
    assert!(m[2].current && !m[0].current);
    assert_eq!(m[2].href, "/me/security/passkeys");
    let tabs = vec![
        RouteTab { key: "mfa", href: "/me/security/mfa", label: "MFA" },
        RouteTab { key: "basic", href: "/admin/settings/basic", label: "Basic" },
    ];
    assert_eq!(route_tabs("basic", &tabs), vec![false, true]);
    assert_eq!(route_tabs("none", &tabs), vec![false, false]);
}

#[test]
fn timestamps() {
    let t = at(2024, 5, 12, 14, 7, 9);
    assert_eq!(fmt_time(&t), "2024-05-12 14:07 UTC");
    assert_eq!(fmt_time_seconds(&t), "2024-05-12 14:07:09 UTC");
    assert_eq!(fmt_time_or(&None, "never"), "never");
    assert_eq!(fmt_time(&at(999, 1, 1, 0, 0, 0)), "0999-01-01 00:00 UTC");
    assert_eq!(fmt_time(&at(12345, 6, 7, 8, 9, 0)), "+12345-06-07 08:09 UTC");
}

#[test]
fn audit_rows() {
    let r = audit_row(&AuditLogEntry {
        at: at(2024, 5, 12, 14, 7, 0),
        actor: None,
        action: "auth.mfa.failure".into(),
        target: None,
        result: "denied".into(),
    });
    assert_eq!(r.when, "2024-05-12 14:07 UTC");
    assert_eq!(r.actor, "-");
    assert_eq!(r.target, "");
    assert_eq!(r.result, "denied");
}

#[test]
fn profile_page() {
    let v = profile_view(ProfileData {
        username: "alice".into(),
        totp_enabled: true,
        fresh_recovery_codes: Some(vec!["a-b".into()]),
        passkeys: vec![
            PasskeyDescriptor {
                id: "p1".into(),
                nickname: "YubiKey".into(),
                created_at: at(2024, 1, 1, 9, 0, 0),
                last_used_at: None,
            },
            PasskeyDescriptor {
                id: "p2".into(),
                nickname: "Laptop".into(),
                created_at: at(2024, 1, 2, 9, 0, 0),
                last_used_at: Some(at(2024, 3, 4, 5, 6, 7)),
            },
        ],
    });
    assert_eq!(v.heading, "Profile - alice");
    assert_eq!(v.recovery_codes, Some(vec!["a-b".to_string()]));
    assert!(v.totp_enabled);
    assert_eq!(v.passkey_rows.len(), 2);
    assert_eq!(v.passkey_rows[0].last_used, "never");
    assert_eq!(v.passkey_rows[1].last_used, "2024-03-04 05:06 UTC");
    assert_eq!(v.passkey_rows[1].delete_url, "/admin/profile/webauthn/p2/delete");
}

#[test]
fn security_page() {
    let v = me_security_view(MeSecurityData {
        username: "bob".into(),
        is_admin: false,
        totp_enabled: false,
        passkey_count: 0,
        current_session_id: "s1".into(),
        sessions: vec![
            MeSessionDescriptor {
                id: "s1".into(),
                created_at: at(2024, 5, 1, 10, 0, 1),
                expires_at: at(2024, 5, 2, 10, 0, 1),
                auth_methods: "password".into(),
                is_current: true,
            },
            MeSessionDescriptor {
                id: "s2".into(),
                created_at: at(2024, 5, 1, 11, 0, 0),
                expires_at: at(2024, 5, 2, 11, 0, 0),
                auth_methods: "password + TOTP".into(),
                is_current: false,
            },
        ],
        recent_events: vec![MeAuditEntry {
            at: at(2024, 5, 1, 10, 0, 1),
            action: "auth.login".into(),
            result: "ok".into(),
            note: None,
        }],
    });
    assert_eq!(v.mfa_summary, None);
    assert!(!v.admin_link);
    assert_eq!(v.current_session, "s1");
    assert_eq!(v.session_rows[0].started, "2024-05-01 10:00:01 UTC");
    assert_eq!(v.session_rows[0].revoke_url, None);
    assert_eq!(v.session_rows[1].revoke_url.as_deref(), Some("/me/security/sessions/s2/revoke"));
    assert_eq!(v.session_rows[1].factors, "password + TOTP");
    assert_eq!(v.event_rows[0].note, "");
    assert_eq!(v.event_rows[0].when, "2024-05-01 10:00:01 UTC");
}

#[test]
fn dashboard_page() {
    let v = dashboard_view(DashboardData {
        admin_username: "root".into(),
        user_count: 1234,
        client_count: 0,
        issuer: "https://id.example".into(),
    });
    assert_eq!(v.greeting, "Hello, root.");
    assert_eq!(v.users, "1234");
    assert_eq!(v.clients, "0");
}
