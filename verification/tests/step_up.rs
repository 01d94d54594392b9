use sui_id::i18n::Locale;
use sui_id::pages::FlashKind;
use sui_id::step_up::{
    sanitise_return_to, step_up_code_reply, webauthn_finish_reply, CodeCheck, StepUpReply,
    WebauthnFinishReply,
};

#[test]
fn return_to_keeps_same_origin_paths() {
    assert_eq!(sanitise_return_to("/me/security/sessions"), "/me/security/sessions");
    assert_eq!(sanitise_return_to("/admin?tab=1"), "/admin?tab=1");
    assert_eq!(sanitise_return_to("/"), "/");
}

#[test]
fn return_to_rejects_everything_else() {
    assert_eq!(sanitise_return_to(""), "/me/security");
    assert_eq!(sanitise_return_to("https://attacker.example/"), "/me/security");
    assert_eq!(sanitise_return_to("//attacker.example/"), "/me/security");
    assert_eq!(sanitise_return_to("/\\attacker.example"), "/me/security");
    assert_eq!(sanitise_return_to("/a\\b"), "/me/security");
    assert_eq!(sanitise_return_to("/a\nb"), "/me/security");
    assert_eq!(sanitise_return_to("/a\rb"), "/me/security");
    assert_eq!(sanitise_return_to("/a\0b"), "/me/security");
    assert_eq!(sanitise_return_to("me/security"), "/me/security");
}

#[test]
fn sanitising_is_idempotent_on_examples() {
    for raw in ["", "/x", "//y", "/a\\b", "http://z"] {
        let once = sanitise_return_to(raw);
        assert_eq!(sanitise_return_to(&once), once);
    }
}

#[test]
fn code_reply_per_outcome() {
    match step_up_code_reply("/me/security/sessions", CodeCheck::Accepted, Locale::En) {
        StepUpReply::Redirect { to } => assert_eq!(to, "/me/security/sessions"),
        other => panic!("unexpected {:?}", other),
    }
    match step_up_code_reply("//evil", CodeCheck::InvalidCredentials, Locale::En) {
        StepUpReply::ChallengeAgain { return_to, flash } => {
            assert_eq!(return_to, "/me/security");
            assert_eq!(flash.kind, FlashKind::Error);
            assert_eq!(flash.text, "The code is incorrect. Please try again.");
        }
        other => panic!("unexpected {:?}", other),
    }
    assert!(matches!(
        step_up_code_reply("/x", CodeCheck::OtherFailure, Locale::Ja),
        StepUpReply::Fail
    ));
}

#[test]
fn webauthn_finish_reply_per_outcome() {
    assert_eq!(webauthn_finish_reply("/x", false, true), WebauthnFinishReply::InvalidCredentials);
    assert_eq!(
        webauthn_finish_reply("/x", true, true),
        WebauthnFinishReply::Redirect { to: "/x".to_string() }
    );
    assert_eq!(
        webauthn_finish_reply("https://e", true, true),
        WebauthnFinishReply::Redirect { to: "/me/security".to_string() }
    );
    assert_eq!(webauthn_finish_reply("/x", true, false), WebauthnFinishReply::StepUpFailed);
}
