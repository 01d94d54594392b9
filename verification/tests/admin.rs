use sui_id::admin::{
    checkbox_value, create_client_request, create_user_request, disabled_value, enrolment_code,
    is_truthy, login_reply, login_username, mfa_challenge_reply, nonempty_trimmed_lines,
    parse_u32_value, CreateClientForm, CreateUserForm, CsrfOnlyForm, DisableForm, LoginForm,
    LoginOutcome, LoginReply, MfaChallengeReply, MfaConfirmForm, PendingCookie,
};
use sui_id::admin::{profile_change_reply, qr_or_fallback, render_qr_svg, ProfileChange, QR_FALLBACK};
use sui_id::pages::FlashKind;

fn s(x: &str) -> String {
    x.to_string()
}

#[test]
fn truthy_values() {
    assert!(is_truthy("true"));
    assert!(is_truthy("on"));
    assert!(is_truthy("1"));
    assert!(!is_truthy("TRUE"));
    assert!(!is_truthy("yes"));
    assert!(!is_truthy(""));
    assert!(checkbox_value(&None, true));
    assert!(!checkbox_value(&None, false));
    assert!(!checkbox_value(&Some(s("off")), true));
    assert!(disabled_value(&DisableForm { disabled: s("on"), csrf: s("") }));
    assert!(!disabled_value(&DisableForm { disabled: s("false"), csrf: s("") }));
}

#[test]
fn textarea_lines() {
    assert_eq!(
        nonempty_trimmed_lines("https://a/cb\r\n\n  https://b/cb  \n"),
        vec![s("https://a/cb"), s("https://b/cb")]
    );
    assert!(nonempty_trimmed_lines("").is_empty());
    assert!(nonempty_trimmed_lines(" \n\t\n").is_empty());
    assert_eq!(nonempty_trimmed_lines("x"), vec![s("x")]);
}

#[test]
fn user_form_becomes_request() {
    let form = CreateUserForm {
        username: s("  alice "),
        display_name: s("  Alice A. "),
        password: s("correct horse battery"),
        is_admin: Some(s("on")),
        csrf: s("t"),
    };
    let r = create_user_request(&form);
    assert_eq!(r.username, "alice");
    assert_eq!(r.display_name.as_deref(), Some("  Alice A. "));
    assert_eq!(r.password, "correct horse battery");
    assert!(r.is_admin);
    let blank = CreateUserForm {
        username: s("bob"),
        display_name: s("   "),
        password: s("p"),
        is_admin: None,
        csrf: s(""),
    };
    let r = create_user_request(&blank);
    assert_eq!(r.display_name, None);
    assert!(!r.is_admin);
}

#[test]
fn client_form_becomes_request() {
    let form = CreateClientForm {
        name: s(" App "),
        redirect_uris: s("https://a/cb\n\nhttps://b/cb"),
        confidential: None,
        allowed_scopes: s("   "),
        post_logout_redirect_uris: s(""),
        csrf: s(""),
    };
    let r = create_client_request(&form);
    assert_eq!(r.name, "App");
    assert_eq!(r.redirect_uris, vec![s("https://a/cb"), s("https://b/cb")]);
    assert!(r.confidential);
    assert_eq!(r.allowed_scopes, "openid profile");
    assert!(r.post_logout_redirect_uris.is_empty());
    let form2 = CreateClientForm {
        name: s("Spa"),
        redirect_uris: s("http://127.0.0.1/cb"),
        confidential: Some(s("false")),
        allowed_scopes: s(" openid email "),
        post_logout_redirect_uris: s(" http://127.0.0.1/bye \n"),
        csrf: s(""),
    };
    let r2 = create_client_request(&form2);
    assert!(!r2.confidential);
    assert_eq!(r2.allowed_scopes, "openid email");
    assert_eq!(r2.post_logout_redirect_uris, vec![s("http://127.0.0.1/bye")]);
}

fn login(next: &str) -> LoginForm {
    LoginForm { username: s("  admin "), password: s("pw"), next: s(next) }
}

#[test]
fn login_replies() {
    assert_eq!(login_username(&login("")), "admin");
    match login_reply(&login("/admin/users"), LoginOutcome::SessionEstablished) {
        LoginReply::SignedIn { to } => assert_eq!(to, "/admin/users"),
        other => panic!("unexpected {:?}", other),
    }
    match login_reply(&login("https://evil"), LoginOutcome::SessionEstablished) {
        LoginReply::SignedIn { to } => assert_eq!(to, "/admin"),
        other => panic!("unexpected {:?}", other),
    }
    match login_reply(&login("/x"), LoginOutcome::MfaRequired) {
        LoginReply::ToMfaChallenge { next_cookie } => assert_eq!(next_cookie.as_deref(), Some("/x")),
        other => panic!("unexpected {:?}", other),
    }
    match login_reply(&login(""), LoginOutcome::MfaRequired) {
        LoginReply::ToMfaChallenge { next_cookie } => assert_eq!(next_cookie, None),
        other => panic!("unexpected {:?}", other),
    }
    match login_reply(&login(""), LoginOutcome::Failed) {
        LoginReply::Rejected { flash, next } => {
            assert_eq!(flash.kind, FlashKind::Error);
            assert_eq!(flash.text, "Sign-in failed. Check your username and password.");
            assert_eq!(next, None);
        }
        other => panic!("unexpected {:?}", other),
    }
}

#[test]
fn mfa_challenge_replies() {
    assert!(matches!(
        mfa_challenge_reply(PendingCookie::Missing, true, &None),
        MfaChallengeReply::BackToLogin
    ));
    assert!(matches!(
        mfa_challenge_reply(PendingCookie::Malformed, true, &None),
        MfaChallengeReply::BackToLogin
    ));
    match mfa_challenge_reply(PendingCookie::Valid, true, &Some(s("/admin/clients"))) {
        MfaChallengeReply::SignedIn { to, audit } => {
            assert_eq!(to, "/admin/clients");
            assert_eq!(audit.action, "auth.mfa.success");
            assert_eq!(audit.result, "ok");
            assert!(audit.about_user);
        }
        other => panic!("unexpected {:?}", other),
    }
    match mfa_challenge_reply(PendingCookie::Valid, true, &Some(s("evil"))) {
        MfaChallengeReply::SignedIn { to, .. } => assert_eq!(to, "/admin"),
        other => panic!("unexpected {:?}", other),
    }
    match mfa_challenge_reply(PendingCookie::Valid, false, &None) {
        MfaChallengeReply::Denied { flash, audit } => {
            assert_eq!(flash.text, "Verification failed. Try again, or use a recovery code.");
            assert_eq!(audit.action, "auth.mfa.failure");
            assert_eq!(audit.result, "denied");
            assert!(!audit.about_user);
        }
        other => panic!("unexpected {:?}", other),
    }
}

#[test]
fn u32_parsing_matches_std() {
    for t in ["0", "123456", "+7", "4294967295", "4294967296", "", "+", "-1", "12a", " 1", "007"] {
        assert_eq!(parse_u32_value(t), t.parse::<u32>().ok(), "input {:?}", t);
    }
}

#[test]
fn enrolment_code_reading() {
    assert_eq!(enrolment_code(&MfaConfirmForm { code: s(" 123456 "), csrf: s("") }), Ok(123456));
    assert_eq!(
        enrolment_code(&MfaConfirmForm { code: s("12 34"), csrf: s("") }),
        Err("verification code must be 6 digits")
    );
}

#[test]
fn csrf_only_default_is_empty() {
    assert_eq!(CsrfOnlyForm::default().csrf, "");
}

#[test]
fn profile_change_replies() {
    let (a, f) = profile_change_reply(ProfileChange::MfaEnabled);
    assert_eq!(a.action, "mfa.enable");
    assert_eq!(a.result, "ok");
    assert_eq!(f.unwrap().text, "Two-factor authentication is now enabled.");
    let (a, f) = profile_change_reply(ProfileChange::MfaDisabled);
    assert_eq!(a.action, "mfa.disable");
    assert!(f.is_none());
    let (a, f) = profile_change_reply(ProfileChange::RecoveryCodesRegenerated);
    assert_eq!(a.action, "mfa.recovery_codes_regenerate");
    assert_eq!(f.unwrap().kind, FlashKind::Info);
}

#[test]
fn qr_rendering() {
    let svg = render_qr_svg("otpauth://totp/sui-id:alice?secret=JBSWY3DPEHPK3PXP&issuer=sui-id");
    assert!(svg.contains("<svg"));
    assert_ne!(svg, QR_FALLBACK);
    let too_long = "a".repeat(8000);
    assert_eq!(render_qr_svg(&too_long), QR_FALLBACK);
    assert_eq!(qr_or_fallback(None), QR_FALLBACK);
    assert_eq!(qr_or_fallback(Some("<svg/>".to_string())), "<svg/>");
}
