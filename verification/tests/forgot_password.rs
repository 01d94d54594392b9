use sui_id::forgot_password::{
    reset_flow_step, ResetAction, ResetFlow, ResetInput,
    encode_token, hash_token, html_escape, issue_reset_token, mint_random_token,
    normalize_email, notify_password_changed, reset_after_count, reset_after_lookup,
    reset_after_send, reset_after_smtp, reset_completed, reset_link, reset_mail_for,
    validate_token, ResetError, ResetUser, SecurityEvent, SmtpSettings,
    StoredResetToken,
};

fn hex(b: &[u8]) -> String {
    b.iter().map(|x| format!("{:02x}", x)).collect()
}

#[test]
fn escaping() {
    assert_eq!(html_escape("<a href=\"x\">Tom & 'Jerry'</a>"), "&lt;a href=&quot;x&quot;&gt;Tom &amp; &#39;Jerry&#39;&lt;/a&gt;");
    assert_eq!(html_escape("plain 日本"), "plain 日本");
    assert_eq!(html_escape("&amp;"), "&amp;amp;");
}

#[test]
fn token_encoding_and_hash() {
    assert_eq!(encode_token(&[0u8; 32]), "A".repeat(43));
    assert_eq!(encode_token(&[255u8; 32]), format!("{}8", "_".repeat(42)));
    assert_eq!(hex(&hash_token("abc")), "ba7816bf8f01cfea414140de5dae2223b00361a396177a9cb410ff61f20015ad");
}

#[test]
fn minted_tokens() {
    let (a, ha) = mint_random_token().expect("randomness");
    let (b, _) = mint_random_token().expect("randomness");
    assert_eq!(a.len(), 43);
    assert!(a.chars().all(|c| c.is_ascii_alphanumeric() || c == '-' || c == '_'));
    assert_eq!(ha, hash_token(&a));
    assert_ne!(a, b);
}

#[test]
fn emails_are_normalised() {
    assert_eq!(normalize_email("  Alice@Example.COM \n"), "alice@example.com");
    assert_eq!(normalize_email("ÉMILE@X.fr"), "émile@x.fr");
}

#[test]
fn links() {
    assert_eq!(reset_link("https://id.example/", "tok"), "https://id.example/reset-password?token=tok");
    assert_eq!(reset_link("https://id.example///", "t"), "https://id.example/reset-password?token=t");
    assert_eq!(reset_link("", "t"), "/reset-password?token=t");
}

fn user(disabled: bool, deleted: bool, display: Option<&str>) -> ResetUser {
    ResetUser {
        id: "u1".into(),
        username: "alice".into(),
        display_name: display.map(|d| d.to_string()),
        is_disabled: disabled,
        is_deleted: deleted,
    }
}

#[test]
fn request_flow_steps() {
    assert!(matches!(reset_after_lookup(&None), (SecurityEvent::PasswordResetRequested { user_id: None }, false)));
    match reset_after_lookup(&Some(user(true, false, None))) {
        (SecurityEvent::PasswordResetRequested { user_id: Some(id) }, false) => assert_eq!(id, "u1"),
        other => panic!("unexpected {:?}", other),
    }
    match reset_after_lookup(&Some(user(false, false, None))) {
        (SecurityEvent::PasswordResetRequested { user_id: Some(id) }, true) => assert_eq!(id, "u1"),
        other => panic!("unexpected {:?}", other),
    }
    assert!(reset_after_count("u1", 2).is_none());
    match reset_after_count("u1", 3) {
        Some(SecurityEvent::PasswordResetThrottled { user_id, outstanding }) => {
            assert_eq!(user_id, "u1");
            assert_eq!(outstanding, 3);
        }
        other => panic!("unexpected {:?}", other),
    }
    let (plain, row) = issue_reset_token("u1", 1_000, &Some("10.0.0.1".into())).expect("randomness");
    assert_eq!(row.token_hash, hash_token(&plain));
    assert_eq!(row.expires_at, 2_800);
    assert_eq!(row.issued_at, 1_000);
    assert_eq!(row.requester_ip.as_deref(), Some("10.0.0.1"));
    match reset_after_smtp("u1", &None) {
        Err(SecurityEvent::PasswordResetEmailFailed { reason, .. }) => assert_eq!(reason, "smtp_unconfigured"),
        other => panic!("unexpected {:?}", other),
    }
    let off = Some(SmtpSettings { enabled: false, base_url: "https://x".into() });
    assert!(reset_after_smtp("u1", &off).is_err());
    let on = Some(SmtpSettings { enabled: true, base_url: "https://x/".into() });
    assert_eq!(reset_after_smtp("u1", &on).unwrap(), "https://x/");
    assert!(matches!(reset_after_send("u1", &Ok(())), SecurityEvent::PasswordResetEmailSent { .. }));
    match reset_after_send("u1", &Err("timeout".into())) {
        SecurityEvent::PasswordResetEmailFailed { reason, .. } => assert_eq!(reason, "timeout"),
        other => panic!("unexpected {:?}", other),
    }
}

#[test]
fn reset_mail_contents() {
    let m = reset_mail_for("alice@example.com", &user(false, false, Some("<Al>")), "https://x/", "T0k");
    assert_eq!(m.to, "alice@example.com");
    assert_eq!(m.subject, "パスワードのリセット — sui-id");
    assert_eq!(
        m.text_body,
        "<Al> 様\n\nsui-id でパスワードリセットの依頼を受け付けました。\n以下のリンクから 30 分以内に新しいパスワードを設定してください。\n\nhttps://x/reset-password?token=T0k\n\nこのメールに心当たりがない場合は無視してください。\n"
    );
    assert_eq!(
        m.html_body.unwrap(),
        "<p>&lt;Al&gt; 様</p><p>sui-id でパスワードリセットの依頼を受け付けました。下のボタンから 30 分以内に新しいパスワードを設定してください。</p><p><a href=\"https://x/reset-password?token=T0k\">パスワードを再設定する</a></p><p>このメールに心当たりがない場合は無視してください。</p>"
    );
    let m2 = reset_mail_for("a@b", &user(false, false, None), "https://x", "t");
    assert!(m2.text_body.starts_with("alice 様\n"));
}

#[test]
fn changed_mail_contents() {
    let m = notify_password_changed("a@b.c", &None);
    assert_eq!(m.subject, "パスワードが変更されました — sui-id");
    assert_eq!(
        m.text_body,
        " 様\n\nsui-id のあなたのアカウントのパスワードが変更されました。\n心当たりがない場合は、すぐに /me/security から他のセッションを\n取り消し、サポートに連絡してください。\n"
    );
    let m2 = notify_password_changed("a@b.c", &Some("Bo & Co".into()));
    assert!(m2.html_body.unwrap().starts_with("<p>Bo &amp; Co 様</p>"));
}

#[test]
fn token_verdicts() {
    let t = StoredResetToken { user_id: "u1".into(), consumed: false, expires_at: 100 };
    assert_eq!(validate_token(&Some(t.clone()), 100), Ok("u1".to_string()));
    assert_eq!(validate_token(&Some(t.clone()), 101), Err(ResetError::InvalidCredentials));
    let used = StoredResetToken { consumed: true, ..t };
    assert_eq!(validate_token(&Some(used), 50), Err(ResetError::InvalidCredentials));
    assert_eq!(validate_token(&None, 0), Err(ResetError::InvalidCredentials));
}

#[test]
fn completion() {
    let (ev, mail) = reset_completed("u1", &Some("a@b".into()), &Some("A".into()));
    assert!(matches!(ev, SecurityEvent::PasswordResetCompleted { .. }));
    assert_eq!(mail.unwrap().to, "a@b");
    let (_, none) = reset_completed("u1", &None, &None);
    assert!(none.is_none());
}

fn begin(email: &str) -> (ResetFlow, Option<SecurityEvent>, ResetAction) {
    reset_flow_step(
        ResetFlow::Idle,
        ResetInput::Begin { email: email.into(), now: 1_000, requester_ip: None },
    )
}

fn finished_ok(a: &ResetAction) -> bool {
    matches!(a, ResetAction::Finish { reply: Ok(()) })
}

#[test]
fn flow_unknown_address_answers_ok() {
    let (state, ev, act) = begin("  Nobody@Example.com ");
    assert!(ev.is_none());
    match &act {
        ResetAction::FindUserByEmail { email } => assert_eq!(email, "nobody@example.com"),
        other => panic!("unexpected {:?}", other),
    }
    let (state, ev, act) = reset_flow_step(state, ResetInput::UserFound(None));
    assert!(matches!(state, ResetFlow::Done));
    assert!(matches!(ev, Some(SecurityEvent::PasswordResetRequested { user_id: None })));
    assert!(finished_ok(&act));
}

#[test]
fn flow_matched_address_runs_to_the_mail() {
    let (state, _, _) = begin("alice@example.com");
    let (state, ev, act) = reset_flow_step(state, ResetInput::UserFound(Some(user(false, false, Some("Alice")))));
    assert!(matches!(ev, Some(SecurityEvent::PasswordResetRequested { user_id: Some(_) })));
    assert!(matches!(act, ResetAction::CountOutstanding { now: 1_000, .. }));
    let (state, ev, act) = reset_flow_step(state, ResetInput::Outstanding(0));
    assert!(ev.is_none());
    let row = match act {
        ResetAction::StoreToken { row } => row,
        other => panic!("unexpected {:?}", other),
    };
    assert_eq!(row.expires_at, 2_800);
    let (state, _, act) = reset_flow_step(state, ResetInput::TokenStored);
    assert!(matches!(act, ResetAction::LoadMailSettings));
    let settings = Some(SmtpSettings { enabled: true, base_url: "https://id.example/".into() });
    let (state, ev, act) = reset_flow_step(state, ResetInput::MailSettings(settings));
    assert!(ev.is_none());
    let mail = match act {
        ResetAction::SendMail { mail } => mail,
        other => panic!("unexpected {:?}", other),
    };
    assert_eq!(mail.to, "alice@example.com");
    assert!(mail.text_body.starts_with("Alice 様\n"));
    assert!(mail.text_body.contains("https://id.example/reset-password?token="));
    let (state, ev, act) = reset_flow_step(state, ResetInput::MailSent(Err("smtp down".into())));
    assert!(matches!(state, ResetFlow::Done));
    assert!(matches!(ev, Some(SecurityEvent::PasswordResetEmailFailed { .. })));
    assert!(finished_ok(&act));
}

#[test]
fn flow_throttled_and_unconfigured_answer_ok() {
    let (state, _, _) = begin("alice@example.com");
    let (state, _, _) = reset_flow_step(state, ResetInput::UserFound(Some(user(false, false, None))));
    let (_, ev, act) = reset_flow_step(state, ResetInput::Outstanding(3));
    assert!(matches!(ev, Some(SecurityEvent::PasswordResetThrottled { outstanding: 3, .. })));
    assert!(finished_ok(&act));

    let (state, _, _) = begin("alice@example.com");
    let (state, _, _) = reset_flow_step(state, ResetInput::UserFound(Some(user(false, false, None))));
    let (state, _, _) = reset_flow_step(state, ResetInput::Outstanding(1));
    let (state, _, _) = reset_flow_step(state, ResetInput::TokenStored);
    let (_, ev, act) = reset_flow_step(state, ResetInput::MailSettings(None));
    assert!(matches!(ev, Some(SecurityEvent::PasswordResetEmailFailed { .. })));
    assert!(finished_ok(&act));

    let (state, _, _) = begin("bob@example.com");
    let (_, ev, act) = reset_flow_step(state, ResetInput::UserFound(Some(user(false, true, None))));
    assert!(matches!(ev, Some(SecurityEvent::PasswordResetRequested { user_id: Some(_) })));
    assert!(finished_ok(&act));
}
