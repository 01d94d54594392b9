//! The admin panel's forms and the rules its handlers apply to them: how
//! checkbox values read, how the user and client creation forms become
//! creation requests, where a sign-in leads, and how the MFA challenge is
//! answered.

use vstd::prelude::*;
use vstd::utf8::encode_utf8;

use crate::pages::{Flash, FlashKind};
use crate::text::{
    before_char, find_char, starts_with_char, str_chars, str_eq,
    string_from_chars, sub_chars, trim, trim_bounds, trim_str,
};

verus! {

// ---------- forms ----------

/// `POST /admin/login`.
#[derive(Debug, Clone)]
pub struct LoginForm {
    pub username: String,
    pub password: String,
    pub next: String,
}

/// `POST /admin/login/mfa`.
#[derive(Debug, Clone)]
pub struct MfaChallengeForm {
    pub code: String,
    pub csrf: String,
}

/// `POST /admin/users`.
#[derive(Debug, Clone)]
pub struct CreateUserForm {
    pub username: String,
    pub display_name: String,
    pub password: String,
    pub is_admin: Option<String>,
    pub csrf: String,
}

/// `POST /admin/users/{id}/disabled` and `/admin/clients/{id}/disabled`.
#[derive(Debug, Clone)]
pub struct DisableForm {
    pub disabled: String,
    pub csrf: String,
}

/// A confirmation-style POST with no field but the CSRF token.
#[derive(Debug, Clone)]
pub struct CsrfOnlyForm {
    pub csrf: String,
}

impl Default for CsrfOnlyForm {
    fn default() -> (r: CsrfOnlyForm)
        ensures
            r.csrf@ == Seq::<char>::empty(),
    {
        CsrfOnlyForm { csrf: String::new() }
    }
}

/// `POST /admin/clients`.
#[derive(Debug, Clone)]
pub struct CreateClientForm {
    pub name: String,
    pub redirect_uris: String,
    pub confidential: Option<String>,
    pub allowed_scopes: String,
    pub post_logout_redirect_uris: String,
    pub csrf: String,
}

/// `POST /admin/profile/mfa/enroll/confirm`.
#[derive(Debug, Clone)]
pub struct MfaConfirmForm {
    pub code: String,
    pub csrf: String,
}

// ---------- field rules ----------

/// A checkbox or flag value that reads as "yes".
pub open spec fn truthy(v: Seq<char>) -> bool {
    v == "true"@ || v == "on"@ || v == "1"@
}

/// Whether a form value reads as "yes": `true`, `on` or `1`.
pub fn is_truthy(v: &str) -> (r: bool)
    ensures
        r == truthy(v@),
{
    str_eq(v, "true") || str_eq(v, "on") || str_eq(v, "1")
}

/// An optional checkbox: absent means `default`.
pub open spec fn checkbox(v: Option<String>, default: bool) -> bool {
    match v {
        Some(s) => truthy(s@),
        None => default,
    }
}

pub fn checkbox_value(v: &Option<String>, default: bool) -> (r: bool)
    ensures
        r == checkbox(*v, default),
{
    match v {
        Some(s) => is_truthy(s.as_str()),
        None => default,
    }
}

/// The value of a `/admin/users/{id}/disabled` or
/// `/admin/clients/{id}/disabled` form.
pub fn disabled_value(form: &DisableForm) -> (r: bool)
    ensures
        r == truthy(form.disabled@),
{
    is_truthy(form.disabled.as_str())
}

/// The non-empty trimmed lines of a textarea, in order (`str::lines`,
/// `trim`, drop empty).
pub open spec fn trimmed_lines(s: Seq<char>) -> Seq<Seq<char>>
    decreases s.len(),
{
    let line = before_char(s, '\n');
    let head = if trim(line).len() > 0 {
        seq![trim(line)]
    } else {
        Seq::empty()
    };
    if line.len() >= s.len() {
        head
    } else {
        head + trimmed_lines(s.skip(line.len() as int + 1))
    }
}

pub open spec fn strings_view(v: Seq<String>) -> Seq<Seq<char>> {
    v.map_values(|x: String| x@)
}

/// The non-empty trimmed lines of a textarea.
pub fn nonempty_trimmed_lines(s: &str) -> (r: Vec<String>)
    ensures
        strings_view(r@) == trimmed_lines(s@),
{
    let v = str_chars(s);
    let n = v.len();
    let mut out: Vec<String> = Vec::new();
    let mut i: usize = 0;
    proof {
        assert(v@.skip(0) =~= v@);
        assert(strings_view(out@) + trimmed_lines(v@) =~= trimmed_lines(v@));
    }
    loop
        invariant
            i <= n,
            n == v@.len(),
            v@ == s@,
            trimmed_lines(s@) == strings_view(out@) + trimmed_lines(v@.skip(i as int)),
        decreases n - i,
    {
        let j = find_char(&v, i, n, '\n');
        let ghost rest = v@.skip(i as int);
        proof {
            assert(v@.subrange(i as int, n as int) =~= rest);
            assert(rest.take(j - i) =~= v@.subrange(i as int, j as int));
        }
        let (a, b) = trim_bounds(&v, i, j);
        let ghost before = strings_view(out@);
        if a < b {
            let w = sub_chars(&v, a, b);
            let line = string_from_chars(&w);
            out.push(line);
            proof {
                assert(strings_view(out@) =~= before.push(w@));
            }
        }
        proof {
            let line = before_char(rest, '\n');
            assert(line == v@.subrange(i as int, j as int));
            let head = if trim(line).len() > 0 {
                seq![trim(line)]
            } else {
                Seq::<Seq<char>>::empty()
            };
            assert(strings_view(out@) =~= before + head);
        }
        if j >= n {
            proof {
                let line = before_char(rest, '\n');
                assert(line.len() >= rest.len());
                assert(strings_view(out@) + Seq::<Seq<char>>::empty() =~= strings_view(out@));
            }
            return out;
        }
        proof {
            let line = before_char(rest, '\n');
            assert(rest.skip(line.len() as int + 1) =~= v@.skip(j + 1));
            let head = if trim(line).len() > 0 {
                seq![trim(line)]
            } else {
                Seq::<Seq<char>>::empty()
            };
            assert(trimmed_lines(rest) == head + trimmed_lines(v@.skip(j + 1)));
            assert(before + (head + trimmed_lines(v@.skip(j + 1))) =~= (before + head)
                + trimmed_lines(v@.skip(j + 1)));
        }
        i = j + 1;
    }
}

/// Every URI read from a textarea is non-empty: blank lines are dropped.
pub proof fn lemma_trimmed_lines_nonempty(s: Seq<char>)
    ensures
        forall|i: int| 0 <= i < trimmed_lines(s).len() ==> (#[trigger] trimmed_lines(s)[i]).len() > 0,
    decreases s.len(),
{
    let line = before_char(s, '\n');
    crate::text::lemma_before_char_len(s, '\n');
    let head = if trim(line).len() > 0 {
        seq![trim(line)]
    } else {
        Seq::<Seq<char>>::empty()
    };
    if line.len() < s.len() {
        let rest = s.skip(line.len() as int + 1);
        lemma_trimmed_lines_nonempty(rest);
        assert forall|i: int| 0 <= i < trimmed_lines(s).len() implies (
        #[trigger] trimmed_lines(s)[i]).len() > 0 by {
            if i >= head.len() {
                assert(trimmed_lines(s)[i] == trimmed_lines(rest)[i - head.len()]);
            } else {
                assert(trimmed_lines(s)[i] == head[i]);
            }
        }
    }
}

/// The scope policy of a new client: the trimmed field, or
/// `openid profile` when it is blank.
pub open spec fn scope_policy(raw: Seq<char>) -> Seq<char> {
    if trim(raw).len() == 0 {
        "openid profile"@
    } else {
        trim(raw)
    }
}

pub fn allowed_scopes_value(raw: &str) -> (r: String)
    ensures
        r@ == scope_policy(raw@),
{
    let t = trim_str(raw);
    if t.unicode_len() == 0 {
        "openid profile".to_owned()
    } else {
        t
    }
}

/// The optional display name: `None` when the field is blank after
/// trimming, otherwise the field as typed.
pub open spec fn display_name_of(raw: Seq<char>) -> Option<Seq<char>> {
    if trim(raw).len() == 0 {
        None
    } else {
        Some(raw)
    }
}

pub open spec fn opt_view(o: Option<String>) -> Option<Seq<char>> {
    match o {
        Some(s) => Some(s@),
        None => None,
    }
}

pub fn display_name_value(raw: &str) -> (r: Option<String>)
    ensures
        opt_view(r) == display_name_of(raw@),
{
    let t = trim_str(raw);
    if t.unicode_len() == 0 {
        None
    } else {
        Some(raw.to_owned())
    }
}

// ---------- creation requests ----------

/// What a submitted user form asks the admin use case to create.
#[derive(Debug, Clone)]
pub struct CreateUserRequest {
    pub username: String,
    pub password: String,
    pub display_name: Option<String>,
    pub is_admin: bool,
}

/// Read the user creation form: the username trimmed, the display name
/// optional, administrator only when the box was ticked.
pub fn create_user_request(form: &CreateUserForm) -> (r: CreateUserRequest)
    ensures
        r.username@ == trim(form.username@),
        r.password@ == form.password@,
        opt_view(r.display_name) == display_name_of(form.display_name@),
        r.is_admin == checkbox(form.is_admin, false),
{
    CreateUserRequest {
        username: trim_str(form.username.as_str()),
        password: form.password.clone(),
        display_name: display_name_value(form.display_name.as_str()),
        is_admin: checkbox_value(&form.is_admin, false),
    }
}

/// What a submitted client form asks the admin use case to register.
#[derive(Debug, Clone)]
pub struct CreateClientRequest {
    pub name: String,
    pub redirect_uris: Vec<String>,
    pub confidential: bool,
    pub allowed_scopes: String,
    pub post_logout_redirect_uris: Vec<String>,
}

/// Read the client registration form: one URI per non-blank line,
/// confidential unless the box was submitted unticked, and the scope
/// policy `openid profile` when left blank.
pub fn create_client_request(form: &CreateClientForm) -> (r: CreateClientRequest)
    ensures
        r.name@ == trim(form.name@),
        strings_view(r.redirect_uris@) == trimmed_lines(form.redirect_uris@),
        r.confidential == checkbox(form.confidential, true),
        r.allowed_scopes@ == scope_policy(form.allowed_scopes@),
        strings_view(r.post_logout_redirect_uris@) == trimmed_lines(
            form.post_logout_redirect_uris@,
        ),
{
    CreateClientRequest {
        name: trim_str(form.name.as_str()),
        redirect_uris: nonempty_trimmed_lines(form.redirect_uris.as_str()),
        confidential: checkbox_value(&form.confidential, true),
        allowed_scopes: allowed_scopes_value(form.allowed_scopes.as_str()),
        post_logout_redirect_uris: nonempty_trimmed_lines(
            form.post_logout_redirect_uris.as_str(),
        ),
    }
}

// ---------- sign-in ----------

/// Whether a sequence starts with `/`.
pub open spec fn starts_with_slash(s: Seq<char>) -> bool {
    s.len() > 0 && s[0] == '/'
}

/// Where a completed sign-in leads: the `next` target when it is a path
/// starting with `/`, otherwise the dashboard.
pub open spec fn sign_in_target(next: Seq<char>) -> Seq<char> {
    if starts_with_slash(next) {
        next
    } else {
        "/admin"@
    }
}

pub fn sign_in_target_value(next: &str) -> (r: String)
    ensures
        r@ == sign_in_target(next@),
{
    if starts_with_char(next, '/') {
        next.to_owned()
    } else {
        "/admin".to_owned()
    }
}

/// How checking a username and password came out.
#[derive(Debug, Clone, Copy, PartialEq, Eq, Structural)]
pub enum LoginOutcome {
    /// The password was right and no second factor is enrolled.
    SessionEstablished,
    /// The password was right; a second factor is still owed.
    MfaRequired,
    /// Unknown user, wrong password, disabled account and the like.
    Failed,
}

/// What `POST /admin/login` answers.
#[derive(Debug, Clone)]
pub enum LoginReply {
    /// Set the session cookie and redirect.
    SignedIn { to: String },
    /// Set the pending-MFA cookie (and, when `next_cookie` is given, the
    /// cookie remembering the target) and redirect to the challenge.
    ToMfaChallenge { next_cookie: Option<String> },
    /// 401 with the sign-in page shown again.
    Rejected { flash: Flash, next: Option<String> },
}

/// Where the MFA challenge page lives.
pub const MFA_CHALLENGE_PATH: &'static str = "/admin/login/mfa";

/// The banner shown when a sign-in fails.
pub const SIGN_IN_FAILED: &'static str = "Sign-in failed. Check your username and password.";

/// `Some(s)` unless `s` is empty.
pub open spec fn unless_empty(s: Seq<char>) -> Option<Seq<char>> {
    if s.len() == 0 {
        None
    } else {
        Some(s)
    }
}

/// The reply to a sign-in attempt, given its outcome. The username is
/// trimmed before it is checked (see `login_username`).
pub fn login_reply(form: &LoginForm, outcome: LoginOutcome) -> (r: LoginReply)
    ensures
        outcome == LoginOutcome::SessionEstablished ==> (r matches LoginReply::SignedIn { to }
            && to@ == sign_in_target(form.next@)),
        outcome == LoginOutcome::MfaRequired ==> (r matches LoginReply::ToMfaChallenge {
            next_cookie,
        } && opt_view(next_cookie) == unless_empty(form.next@)),
        outcome == LoginOutcome::Failed ==> (r matches LoginReply::Rejected { flash, next }
            && flash.kind == FlashKind::Error && flash.text@ == SIGN_IN_FAILED@ && opt_view(
            next,
        ) == unless_empty(form.next@)),
{
    match outcome {
        LoginOutcome::SessionEstablished => LoginReply::SignedIn {
            to: sign_in_target_value(form.next.as_str()),
        },
        LoginOutcome::MfaRequired => {
            let next_cookie = if form.next.unicode_len() > 0 {
                Some(form.next.clone())
            } else {
                None
            };
            LoginReply::ToMfaChallenge { next_cookie }
        },
        LoginOutcome::Failed => {
            let flash = Flash { kind: FlashKind::Error, text: SIGN_IN_FAILED.to_owned() };
            let next = if form.next.unicode_len() > 0 {
                Some(form.next.clone())
            } else {
                None
            };
            LoginReply::Rejected { flash, next }
        },
    }
}

/// The username that is checked: the field trimmed.
pub fn login_username(form: &LoginForm) -> (r: String)
    ensures
        r@ == trim(form.username@),
{
    trim_str(form.username.as_str())
}

/// Whatever `next` holds, a completed sign-in redirects to a path on this
/// server: the target always starts with `/`.
pub proof fn lemma_sign_in_target_is_path(next: Seq<char>)
    ensures
        starts_with_slash(sign_in_target(next)),
{
    reveal_strlit("/admin");
}

// ---------- MFA challenge ----------

/// The state of the pending-MFA cookie of a challenge submission.
#[derive(Debug, Clone, Copy, PartialEq, Eq, Structural)]
pub enum PendingCookie {
    Missing,
    Malformed,
    Valid,
}

/// An audit record that a handler appends.
#[derive(Debug, Clone, Copy)]
pub struct AuditNote {
    pub action: &'static str,
    pub result: &'static str,
    /// Whether actor and target are the signed-in user (otherwise both are
    /// left empty).
    pub about_user: bool,
}

/// What `POST /admin/login/mfa` answers.
#[derive(Debug, Clone)]
pub enum MfaChallengeReply {
    /// No usable pending cookie: back to the sign-in page.
    BackToLogin,
    /// Session cookie set, pending cookies cleared, redirect.
    SignedIn { to: String, audit: AuditNote },
    /// 401 with the challenge shown again.
    Denied { flash: Flash, audit: AuditNote },
}

pub const MFA_FAILED: &'static str = "Verification failed. Try again, or use a recovery code.";

/// The target remembered in the optional `next` cookie, when it is a path.
pub open spec fn remembered_target(next_cookie: Option<Seq<char>>) -> Seq<char> {
    match next_cookie {
        Some(n) => sign_in_target(n),
        None => "/admin"@,
    }
}

/// The reply to an MFA challenge submission. `code_ok` is the verification
/// outcome and is only consulted with a valid pending cookie.
pub fn mfa_challenge_reply(pending: PendingCookie, code_ok: bool, next_cookie: &Option<String>) -> (r:
    MfaChallengeReply)
    ensures
        pending != PendingCookie::Valid ==> r matches MfaChallengeReply::BackToLogin,
        pending == PendingCookie::Valid && code_ok ==> (r matches MfaChallengeReply::SignedIn {
            to,
            audit,
        } && to@ == remembered_target(opt_view(*next_cookie)) && audit.action@
            == "auth.mfa.success"@ && audit.result@ == "ok"@ && audit.about_user),
        pending == PendingCookie::Valid && !code_ok ==> (r matches MfaChallengeReply::Denied {
            flash,
            audit,
        } && flash.kind == FlashKind::Error && flash.text@ == MFA_FAILED@ && audit.action@
            == "auth.mfa.failure"@ && audit.result@ == "denied"@ && !audit.about_user),
{
    match pending {
        PendingCookie::Missing => MfaChallengeReply::BackToLogin,
        PendingCookie::Malformed => MfaChallengeReply::BackToLogin,
        PendingCookie::Valid => {
            if code_ok {
                let to = match next_cookie {
                    Some(n) => sign_in_target_value(n.as_str()),
                    None => "/admin".to_owned(),
                };
                MfaChallengeReply::SignedIn {
                    to,
                    audit: AuditNote {
                        action: "auth.mfa.success",
                        result: "ok",
                        about_user: true,
                    },
                }
            } else {
                MfaChallengeReply::Denied {
                    flash: Flash { kind: FlashKind::Error, text: MFA_FAILED.to_owned() },
                    audit: AuditNote {
                        action: "auth.mfa.failure",
                        result: "denied",
                        about_user: false,
                    },
                }
            }
        },
    }
}

// ---------- MFA enrolment ----------

/// Value of a run of ASCII decimal digits.
pub open spec fn digits_value(s: Seq<char>) -> nat
    decreases s.len(),
{
    if s.len() == 0 {
        0
    } else {
        digits_value(s.drop_last()) * 10 + ((s.last() as nat) - ('0' as nat)) as nat
    }
}

pub open spec fn is_digit(c: char) -> bool {
    '0' <= c && c <= '9'
}

pub open spec fn all_digits(s: Seq<char>) -> bool {
    forall|i: int| 0 <= i < s.len() ==> is_digit(#[trigger] s[i])
}

/// `u32::from_str`: an optional `+`, then one or more decimal digits whose
/// value fits in 32 bits.
pub open spec fn parse_u32(s: Seq<char>) -> Option<u32> {
    let d = if s.len() > 0 && s[0] == '+' {
        s.drop_first()
    } else {
        s
    };
    if d.len() > 0 && all_digits(d) && digits_value(d) <= u32::MAX {
        Some(digits_value(d) as u32)
    } else {
        None
    }
}

pub(crate) proof fn lemma_digits_value_prefix(s: Seq<char>, k: int)
    requires
        0 <= k <= s.len(),
        all_digits(s),
    ensures
        digits_value(s.take(k)) <= digits_value(s),
    decreases s.len(),
{
    if k < s.len() {
        let t = s.drop_last();
        assert(t.take(k) =~= s.take(k));
        assert(is_digit(s[s.len() - 1]));
        lemma_digits_value_prefix(t, k);
    } else {
        assert(s.take(k) =~= s);
    }
}

/// `u32::from_str` on a string slice.
pub fn parse_u32_value(s: &str) -> (r: Option<u32>)
    ensures
        r == parse_u32(s@),
{
    let v = str_chars(s);
    let n = v.len();
    let start: usize = if n > 0 && v[0] == '+' {
        1
    } else {
        0
    };
    let ghost d = if s@.len() > 0 && s@[0] == '+' {
        s@.drop_first()
    } else {
        s@
    };
    assert(d =~= v@.skip(start as int));
    if start >= n {
        return None;
    }
    let mut acc: u64 = 0;
    let mut i: usize = start;
    while i < n
        invariant
            start <= i <= n,
            n == v@.len(),
            v@ == s@,
            d == v@.skip(start as int),
            d == (if s@.len() > 0 && s@[0] == '+' {
                s@.drop_first()
            } else {
                s@
            }),
            start < n,
            acc == digits_value(d.take(i - start)),
            acc <= u32::MAX,
            all_digits(d.take(i - start)),
        decreases n - i,
    {
        let c = v[i];
        if c < '0' || c > '9' {
            assert(d[i - start] == c);
            assert(!all_digits(d));
            return None;
        }
        let dv: u64 = (c as u32 - '0' as u32) as u64;
        let next = acc * 10 + dv;
        proof {
            let p = d.take(i - start + 1);
            assert(p.drop_last() =~= d.take(i - start));
            assert(p.last() == c);
            assert(digits_value(p) == acc * 10 + dv);
            assert forall|k: int| 0 <= k < p.len() implies is_digit(#[trigger] p[k]) by {
                if k < p.len() - 1 {
                    assert(p[k] == d.take(i - start)[k]);
                }
            }
        }
        if next > 0xFFFF_FFFF {
            proof {
                let p = d.take(i - start + 1);
                if all_digits(d) {
                    lemma_digits_value_prefix(d, i - start + 1);
                }
            }
            return None;
        }
        acc = next;
        i = i + 1;
    }
    assert(d.take(n - start) =~= d);
    Some(acc as u32)
}

/// The error text when the enrolment code does not parse.
pub const CODE_MUST_BE_DIGITS: &'static str = "verification code must be 6 digits";

/// The code of an enrolment confirmation: the field trimmed and read as a
/// `u32`; otherwise a bad request.
pub fn enrolment_code(form: &MfaConfirmForm) -> (r: Result<u32, &'static str>)
    ensures
        parse_u32(trim(form.code@)) matches Some(c) ==> r == Ok::<u32, &'static str>(c),
        parse_u32(trim(form.code@)) is None ==> r == Err::<u32, &'static str>(CODE_MUST_BE_DIGITS),
{
    let t = trim_str(form.code.as_str());
    match parse_u32_value(t.as_str()) {
        Some(c) => Ok(c),
        None => Err(CODE_MUST_BE_DIGITS),
    }
}

// ---------- profile (MFA settings) ----------

/// A change a user makes to their second factors.
#[derive(Debug, Clone, Copy, PartialEq, Eq, Structural)]
pub enum ProfileChange {
    /// TOTP enrolment confirmed.
    MfaEnabled,
    /// TOTP removed.
    MfaDisabled,
    /// Recovery codes replaced.
    RecoveryCodesRegenerated,
}

/// The audit record of a profile change (always about the user, result
/// `ok`) and the banner shown with the refreshed profile page; disabling
/// redirects to `/admin/profile` instead and shows no banner.
pub fn profile_change_reply(change: ProfileChange) -> (r: (AuditNote, Option<Flash>))
    ensures
        r.0.result@ == "ok"@,
        r.0.about_user,
        change == ProfileChange::MfaEnabled ==> r.0.action@ == "mfa.enable"@,
        change == ProfileChange::MfaEnabled ==> (r.1 matches Some(f) && f.kind == FlashKind::Info
            && f.text@ == "Two-factor authentication is now enabled."@),
        change == ProfileChange::MfaDisabled ==> (r.0.action@ == "mfa.disable"@ && r.1 is None),
        change == ProfileChange::RecoveryCodesRegenerated ==> r.0.action@
            == "mfa.recovery_codes_regenerate"@,
        change == ProfileChange::RecoveryCodesRegenerated ==> (r.1 matches Some(f) && f.kind
            == FlashKind::Info && f.text@
            == "Recovery codes regenerated. Save the new ones - the old ones no longer work."@),
{
    match change {
        ProfileChange::MfaEnabled => (
            AuditNote { action: "mfa.enable", result: "ok", about_user: true },
            Some(
                Flash {
                    kind: FlashKind::Info,
                    text: "Two-factor authentication is now enabled.".to_owned(),
                },
            ),
        ),
        ProfileChange::MfaDisabled => (
            AuditNote { action: "mfa.disable", result: "ok", about_user: true },
            None,
        ),
        ProfileChange::RecoveryCodesRegenerated => (
            AuditNote { action: "mfa.recovery_codes_regenerate", result: "ok", about_user: true },
            Some(
                Flash {
                    kind: FlashKind::Info,
                    text: "Recovery codes regenerated. Save the new ones - the old ones no longer work.".to_owned(),
                },
            ),
        ),
    }
}

// ---------- TOTP enrolment page ----------

/// The SVG image that `qrcode` renders for the data with the given minimum
/// size and quiet zone, or `None` when the data does not fit in a QR code.
pub uninterp spec fn qr_svg(data: Seq<u8>, min_size: u32, quiet_zone: bool) -> Option<Seq<char>>;

/// Calls `QrCode::new(data)` and, when it succeeds, renders it with
/// `render::<svg::Color>().min_dimensions(min_size, min_size)
/// .quiet_zone(quiet_zone).build()`. Claimed: the outcome is the named
/// function of the arguments (`None` exactly when `QrCode::new` fails).
/// `min_dimensions` adds the module count to the size in `u32` arithmetic,
/// so sizes near `u32::MAX` are left out.
#[verifier::external_body]
fn render_qr(data: &[u8], min_size: u32, quiet_zone: bool) -> (r: Option<String>)
    requires
        min_size <= 10_000,
    ensures
        match r {
            Some(svg) => qr_svg(data@, min_size, quiet_zone) == Some(svg@),
            None => qr_svg(data@, min_size, quiet_zone) is None,
        },
{
    match qrcode::QrCode::new(data) {
        Ok(code) => Some(
            code.render::<qrcode::render::svg::Color>().min_dimensions(min_size, min_size)
                .quiet_zone(quiet_zone).build(),
        ),
        Err(_) => None,
    }
}

/// Shown in place of the QR code when the URI cannot be encoded.
pub const QR_FALLBACK: &'static str = "<p class=\"muted\">QR rendering failed; use the secret key below instead.</p>";

/// The QR block of the enrolment page, given the rendering outcome: the
/// image, or the note pointing at the secret key.
pub fn qr_or_fallback(svg: Option<String>) -> (r: String)
    ensures
        match svg {
            Some(s) => r@ == s@,
            None => r@ == QR_FALLBACK@,
        },
{
    match svg {
        Some(s) => s,
        None => QR_FALLBACK.to_owned(),
    }
}

/// The QR code of an `otpauth://` URI as SVG (at least 220 px square,
/// with a quiet zone), or the fallback note.
pub fn render_qr_svg(uri: &str) -> (r: String)
    ensures
        match qr_svg(encode_utf8(uri@), 220, true) {
            Some(s) => r@ == s,
            None => r@ == QR_FALLBACK@,
        },
{
    let svg = render_qr(uri.as_bytes(), 220, true);
    qr_or_fallback(svg)
}

} // verus!
