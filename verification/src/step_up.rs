//! Step-up re-authentication: the forms of the step-up endpoints, the
//! validation of the `return_to` target, and the reply each outcome of a
//! verification gets.
//!
//! `return_to` is a relative path on this origin. Anything else (absolute
//! URLs, protocol-relative `//host`, backslashes, line breaks, NUL) collapses
//! to `/me/security`: after a successful re-authentication the user is never
//! sent off-site.

use vstd::prelude::*;
use crate::i18n::{Locale, strings_table};
use crate::pages::{Flash, FlashKind};

verus! {

/// Where a rejected or missing `return_to` leads.
pub const STEP_UP_FALLBACK: &'static str = "/me/security";

/// A character that may not appear anywhere in a `return_to` path.
pub open spec fn forbidden_in_path(c: char) -> bool {
    c == '\\' || c == '\n' || c == '\r' || c == '\0'
}

/// A path-only target: starts with `/`, is not `//...` or `/\...`, and holds
/// no backslash, line break or NUL.
pub open spec fn safe_return_to(s: Seq<char>) -> bool {
    &&& s.len() > 0
    &&& s[0] == '/'
    &&& !(s.len() >= 2 && (s[1] == '/' || s[1] == '\\'))
    &&& forall|i: int| 0 <= i < s.len() ==> !forbidden_in_path(#[trigger] s[i])
}

/// What `sanitise_return_to` makes of a raw target.
pub open spec fn sanitised(s: Seq<char>) -> Seq<char> {
    if safe_return_to(s) {
        s
    } else {
        STEP_UP_FALLBACK@
    }
}

/// Keep `raw` when it is a safe same-origin path, otherwise fall back to
/// `/me/security`.
pub fn sanitise_return_to(raw: &str) -> (r: String)
    ensures
        r@ == sanitised(raw@),
{
    let n = raw.unicode_len();
    if n == 0 {
        return STEP_UP_FALLBACK.to_owned();
    }
    if raw.get_char(0) != '/' {
        return STEP_UP_FALLBACK.to_owned();
    }
    if n >= 2 {
        let c1 = raw.get_char(1);
        if c1 == '/' || c1 == '\\' {
            return STEP_UP_FALLBACK.to_owned();
        }
    }
    let mut i: usize = 0;
    while i < n
        invariant
            n == raw@.len(),
            i <= n,
            forall|j: int| 0 <= j < i ==> !forbidden_in_path(#[trigger] raw@[j]),
        decreases n - i,
    {
        let c = raw.get_char(i);
        if c == '\\' || c == '\n' || c == '\r' || c == '\0' {
            assert(!safe_return_to(raw@));
            return STEP_UP_FALLBACK.to_owned();
        }
        i = i + 1;
    }
    raw.to_owned()
}

/// The fallback target is itself a safe path.
pub proof fn lemma_fallback_is_safe()
    ensures
        safe_return_to(STEP_UP_FALLBACK@),
{
    reveal_strlit("/me/security");
}

/// Whatever comes in, what `sanitise_return_to` returns is a safe
/// same-origin path.
pub proof fn lemma_sanitised_is_safe(s: Seq<char>)
    ensures
        safe_return_to(sanitised(s)),
{
    lemma_fallback_is_safe();
}

/// Sanitising twice gives what sanitising once gives.
pub proof fn lemma_sanitise_idempotent(s: Seq<char>)
    ensures
        sanitised(sanitised(s)) == sanitised(s),
{
    lemma_fallback_is_safe();
}

/// A target that is already safe passes through unchanged.
pub proof fn lemma_safe_target_kept(s: Seq<char>)
    requires
        safe_return_to(s),
    ensures
        sanitised(s) == s,
{
}

/// Query string of `GET /me/security/step-up`.
#[derive(Debug, Clone)]
pub struct ReturnToQuery {
    pub return_to: String,
}

/// Form of `POST /me/security/step-up`.
#[derive(Debug, Clone)]
pub struct StepUpForm {
    pub csrf: String,
    pub code: String,
    pub return_to: String,
}

/// Form of `POST /me/security/step-up/webauthn/start`.
#[derive(Debug, Clone)]
pub struct WebauthnStartForm {
    pub csrf: String,
    pub return_to: String,
}

/// Reply of `POST /me/security/step-up/webauthn/start`: the challenge JSON
/// that the browser hands to `navigator.credentials.get()`.
#[derive(Debug, Clone)]
pub struct WebauthnStartResponse {
    pub challenge_json: String,
}

/// Form of `POST /me/security/step-up/webauthn/finish`.
#[derive(Debug, Clone)]
pub struct WebauthnFinishForm {
    pub csrf: String,
    pub credential: String,
    pub return_to: String,
}

/// How verifying a TOTP or recovery code came out.
#[derive(Debug, Clone, Copy, PartialEq, Eq, Structural)]
pub enum CodeCheck {
    Accepted,
    InvalidCredentials,
    OtherFailure,
}

/// What the code form's handler answers.
#[derive(Debug, Clone)]
pub enum StepUpReply {
    /// 303 to the (sanitised) target.
    Redirect { to: String },
    /// 400 with the challenge page shown again under an error banner.
    ChallengeAgain { return_to: String, flash: Flash },
    /// The failure is passed on as an error page.
    Fail,
}

/// The reply to a submitted code, given how verification came out.
pub fn step_up_code_reply(raw_return_to: &str, check: CodeCheck, lang: Locale) -> (r: StepUpReply)
    ensures
        check == CodeCheck::Accepted ==> (r matches StepUpReply::Redirect { to } && to@
            == sanitised(raw_return_to@)),
        check == CodeCheck::InvalidCredentials ==> (r matches StepUpReply::ChallengeAgain {
            return_to,
            flash,
        } && return_to@ == sanitised(raw_return_to@) && flash.kind == FlashKind::Error
            && flash.text@ == strings_table(lang).step_up_code_invalid@),
        check == CodeCheck::OtherFailure ==> r matches StepUpReply::Fail,
{
    let return_to = sanitise_return_to(raw_return_to);
    match check {
        CodeCheck::Accepted => StepUpReply::Redirect { to: return_to },
        CodeCheck::InvalidCredentials => {
            let t = lang.strings();
            let flash = Flash { kind: FlashKind::Error, text: t.step_up_code_invalid.to_owned() };
            StepUpReply::ChallengeAgain { return_to, flash }
        },
        CodeCheck::OtherFailure => StepUpReply::Fail,
    }
}

/// What the WebAuthn finish handler answers.
#[derive(Debug, Clone, PartialEq, Eq)]
pub enum WebauthnFinishReply {
    /// 303 to the (sanitised) target; the pending-ceremony cookie is cleared.
    Redirect { to: String },
    /// 400 with `{"error":"step_up_failed"}`; the cookie is cleared too.
    StepUpFailed,
    /// No usable pending-ceremony cookie: the request fails as invalid
    /// credentials before any verification.
    InvalidCredentials,
}

/// The reply of the WebAuthn finish endpoint. `pending_cookie_ok` says
/// whether the pending-ceremony cookie was present and parsed;
/// `assertion_ok` is the verification outcome (not consulted without it).
pub fn webauthn_finish_reply(raw_return_to: &str, pending_cookie_ok: bool, assertion_ok: bool) -> (r:
    WebauthnFinishReply)
    ensures
        !pending_cookie_ok ==> r == WebauthnFinishReply::InvalidCredentials,
        pending_cookie_ok && assertion_ok ==> (r matches WebauthnFinishReply::Redirect { to }
            && to@ == sanitised(raw_return_to@)),
        pending_cookie_ok && !assertion_ok ==> r == WebauthnFinishReply::StepUpFailed,
{
    let return_to = sanitise_return_to(raw_return_to);
    if !pending_cookie_ok {
        WebauthnFinishReply::InvalidCredentials
    } else if assertion_ok {
        WebauthnFinishReply::Redirect { to: return_to }
    } else {
        WebauthnFinishReply::StepUpFailed
    }
}

} // verus!
