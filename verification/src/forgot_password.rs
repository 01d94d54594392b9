//! Forgot-password / password-reset rules.
//!
//! A reset token is 32 random bytes, URL-safe base64 without padding; only
//! its SHA-256 is stored. It lives 30 minutes and is single-use. A reset
//! request never tells the caller whether the address matched: every
//! outcome is recorded as a security event and the request answers
//! `Ok(())` (stated by `reset_flow_step`).
//!
//! The lookups, the token store and the mailer are outside this library;
//! `reset_flow_step` takes what the previous outside step returned and
//! says what comes next.

use base64ct::Encoding;
use rand::RngCore;
use sha2::Digest;
use vstd::prelude::*;
use vstd::string::StringExecFns;
use vstd::utf8::encode_utf8;

use crate::text::{str_chars, string_from_chars, sub_chars, trim, trim_str};

verus! {

// ---------- outside computations ----------

/// SHA-256 of a byte string, as returned by `sha2`.
pub uninterp spec fn sha256(data: Seq<u8>) -> Seq<u8>;

/// Calls `Sha256::digest(data).to_vec()`. Claimed: the result is the
/// named digest of the input, 32 bytes long (the output size of SHA-256).
#[verifier::external_body]
pub(crate) fn sha256_digest(data: &[u8]) -> (r: Vec<u8>)
    ensures
        r@ == sha256(data@),
        r@.len() == 32,
{
    sha2::Sha256::digest(data).to_vec()
}

/// Fills 32 bytes from the operating system's RNG
/// (`OsRng.try_fill_bytes`); `None` when the operating system cannot supply
/// randomness. Nothing is claimed of the bytes but their number, nor of
/// when the RNG fails.
#[verifier::external_body]
fn os_random_32() -> (r: Option<Vec<u8>>)
    ensures
        r matches Some(b) ==> b@.len() == 32,
{
    let mut bytes = [0u8; 32];
    match rand::rngs::OsRng.try_fill_bytes(&mut bytes) {
        Ok(()) => Some(bytes.to_vec()),
        Err(_) => None,
    }
}

/// The URL-safe base64 alphabet (`A-Z a-z 0-9 - _`).
pub open spec fn b64url_char(v: int) -> char {
    if v < 26 {
        ('A' as int + v) as char
    } else if v < 52 {
        ('a' as int + (v - 26)) as char
    } else if v < 62 {
        ('0' as int + (v - 52)) as char
    } else if v == 62 {
        '-'
    } else {
        '_'
    }
}

/// URL-safe base64 without padding: each 3 bytes become 4 characters, a
/// trailing 2 bytes become 3 and a trailing byte becomes 2.
pub open spec fn b64url(s: Seq<u8>) -> Seq<char>
    decreases s.len(),
{
    if s.len() == 0 {
        Seq::empty()
    } else if s.len() == 1 {
        let a = s[0] as int;
        seq![b64url_char(a / 4), b64url_char((a % 4) * 16)]
    } else if s.len() == 2 {
        let a = s[0] as int;
        let b = s[1] as int;
        seq![b64url_char(a / 4), b64url_char((a % 4) * 16 + b / 16), b64url_char((b % 16) * 4)]
    } else {
        b64url_quad(s[0] as int, s[1] as int, s[2] as int) + b64url(s.skip(3))
    }
}

/// Four characters for three bytes.
pub open spec fn b64url_quad(a: int, b: int, c: int) -> Seq<char> {
    seq![
        b64url_char(a / 4),
        b64url_char((a % 4) * 16 + b / 16),
        b64url_char((b % 16) * 4 + c / 64),
        b64url_char(c % 64),
    ]
}

/// Calls `Base64UrlUnpadded::encode_string` (base64ct). Claimed: the
/// result is the unpadded URL-safe base64 of the input. The call panics
/// when four times the input length overflows `usize`, which `requires`
/// leaves out.
#[verifier::external_body]
fn encode_b64url(bytes: &[u8]) -> (r: String)
    requires
        bytes@.len() * 4 <= usize::MAX,
    ensures
        r@ == b64url(bytes@),
{
    base64ct::Base64UrlUnpadded::encode_string(bytes)
}

/// Unicode lowercase mapping of a string, as `str::to_lowercase` does it.
pub uninterp spec fn unicode_lowercase(s: Seq<char>) -> Seq<char>;

/// Calls `str::to_lowercase`. Claimed: the result depends on the text
/// alone (Rust's mapping is locale-independent); what the mapping is, is
/// left to the named function.
#[verifier::external_body]
fn to_lowercase(s: &str) -> (r: String)
    ensures
        r@ == unicode_lowercase(s@),
{
    s.to_lowercase()
}

// ---------- tokens ----------

/// Character of the token alphabet.
pub open spec fn url_safe(c: char) -> bool {
    ('A' <= c && c <= 'Z') || ('a' <= c && c <= 'z') || ('0' <= c && c <= '9') || c == '-'
        || c == '_'
}

proof fn lemma_b64url_char_safe(v: int)
    requires
        0 <= v < 64,
    ensures
        url_safe(b64url_char(v)),
{
}

/// Length and alphabet of an encoding: `ceil(4n/3)` characters, all URL-safe.
pub proof fn lemma_b64url_shape(s: Seq<u8>)
    ensures
        b64url(s).len() == (4 * s.len() + 2) / 3,
        forall|i: int| 0 <= i < b64url(s).len() ==> url_safe(#[trigger] b64url(s)[i]),
    decreases s.len(),
{
    if s.len() >= 3 {
        lemma_b64url_shape(s.skip(3));
        let a = s[0] as int;
        let b = s[1] as int;
        let c = s[2] as int;
        let head = b64url_quad(a, b, c);
        lemma_b64url_char_safe(a / 4);
        lemma_b64url_char_safe((a % 4) * 16 + b / 16);
        lemma_b64url_char_safe((b % 16) * 4 + c / 64);
        lemma_b64url_char_safe(c % 64);
        assert forall|i: int| 0 <= i < b64url(s).len() implies url_safe(#[trigger] b64url(s)[i]) by {
            if i >= 4 {
                assert(b64url(s)[i] == b64url(s.skip(3))[i - 4]);
            } else {
                assert(b64url(s)[i] == head[i]);
            }
        }
    } else if s.len() == 2 {
        let a = s[0] as int;
        let b = s[1] as int;
        lemma_b64url_char_safe(a / 4);
        lemma_b64url_char_safe((a % 4) * 16 + b / 16);
        lemma_b64url_char_safe((b % 16) * 4);
    } else if s.len() == 1 {
        let a = s[0] as int;
        lemma_b64url_char_safe(a / 4);
        lemma_b64url_char_safe((a % 4) * 16);
    }
}

/// The plaintext of a reset token made from the given 32 bytes.
pub fn encode_token(bytes: &[u8]) -> (r: String)
    requires
        bytes@.len() == 32,
    ensures
        r@ == b64url(bytes@),
        r@.len() == 43,
        forall|i: int| 0 <= i < r@.len() ==> url_safe(#[trigger] r@[i]),
{
    proof {
        lemma_b64url_shape(bytes@);
    }
    encode_b64url(bytes)
}

/// The stored form of a token: SHA-256 of its UTF-8 bytes.
pub open spec fn token_hash(plaintext: Seq<char>) -> Seq<u8> {
    sha256(encode_utf8(plaintext))
}

/// SHA-256 of the token's UTF-8 bytes.
pub fn hash_token(plaintext: &str) -> (r: Vec<u8>)
    ensures
        r@ == token_hash(plaintext@),
        r@.len() == 32,
{
    sha256_digest(plaintext.as_bytes())
}

/// A fresh token: 43 URL-safe characters encoding 32 random bytes, with
/// the hash that is stored for it; `None` when no randomness is available.
pub open spec fn fresh_token(plaintext: Seq<char>, hash: Seq<u8>) -> bool {
    &&& plaintext.len() == 43
    &&& forall|i: int| 0 <= i < plaintext.len() ==> url_safe(#[trigger] plaintext[i])
    &&& exists|b: Seq<u8>| b.len() == 32 && plaintext == b64url(b)
    &&& hash == token_hash(plaintext)
}

pub fn mint_random_token() -> (r: Option<(String, Vec<u8>)>)
    ensures
        r matches Some((p, h)) ==> fresh_token(p@, h@),
{
    let bytes = match os_random_32() {
        Some(b) => b,
        None => {
            return None;
        },
    };
    let plaintext = encode_token(bytes.as_slice());
    let hash = hash_token(plaintext.as_str());
    Some((plaintext, hash))
}

// ---------- addresses, links and mail ----------

/// How an address is compared with the stored ones: trimmed, then
/// lowercased.
pub open spec fn normalized_email(email: Seq<char>) -> Seq<char> {
    unicode_lowercase(trim(email))
}

pub fn normalize_email(email: &str) -> (r: String)
    ensures
        r@ == normalized_email(email@),
{
    let t = trim_str(email);
    to_lowercase(t.as_str())
}

/// `str::trim_end_matches('/')`.
pub open spec fn trim_end_slashes(s: Seq<char>) -> Seq<char>
    decreases s.len(),
{
    if s.len() > 0 && s.last() == '/' {
        trim_end_slashes(s.drop_last())
    } else {
        s
    }
}

/// The link mailed to the user.
pub open spec fn reset_link_text(base_url: Seq<char>, token: Seq<char>) -> Seq<char> {
    trim_end_slashes(base_url) + "/reset-password?token="@ + token
}

pub fn reset_link(base_url: &str, token: &str) -> (r: String)
    ensures
        r@ == reset_link_text(base_url@, token@),
{
    let v = str_chars(base_url);
    let mut end: usize = v.len();
    assert(v@.take(v@.len() as int) =~= v@);
    while end > 0 && v[end - 1] == '/'
        invariant
            end <= v@.len(),
            v@ == base_url@,
            trim_end_slashes(base_url@) == trim_end_slashes(v@.take(end as int)),
        decreases end,
    {
        assert(v@.take(end as int).drop_last() =~= v@.take(end - 1));
        end = end - 1;
    }
    assert(v@ == base_url@);
    assert(v@.take(v@.len() as int) =~= v@);
    let w = sub_chars(&v, 0, end);
    assert(w@ =~= v@.take(end as int));
    let mut r = string_from_chars(&w);
    r.append("/reset-password?token=");
    r.append(token);
    r
}

/// HTML escaping of one character.
pub open spec fn escape_char(c: char) -> Seq<char> {
    if c == '&' {
        "&amp;"@
    } else if c == '<' {
        "&lt;"@
    } else if c == '>' {
        "&gt;"@
    } else if c == '"' {
        "&quot;"@
    } else if c == '\'' {
        "&#39;"@
    } else {
        seq![c]
    }
}

/// Escape `& < > " '` for HTML text and attribute values.
pub open spec fn escape_html(s: Seq<char>) -> Seq<char>
    decreases s.len(),
{
    if s.len() == 0 {
        Seq::empty()
    } else {
        escape_html(s.drop_last()) + escape_char(s.last())
    }
}

/// Escape `& < > " '` for HTML text and attribute values.
pub fn html_escape(s: &str) -> (r: String)
    ensures
        r@ == escape_html(s@),
{
    let v = str_chars(s);
    let mut r = String::new();
    let mut i: usize = 0;
    while i < v.len()
        invariant
            i <= v@.len(),
            v@ == s@,
            r@ == escape_html(v@.take(i as int)),
        decreases v@.len() - i,
    {
        let c = v[i];
        if c == '&' {
            r.append("&amp;");
        } else if c == '<' {
            r.append("&lt;");
        } else if c == '>' {
            r.append("&gt;");
        } else if c == '"' {
            r.append("&quot;");
        } else if c == '\'' {
            r.append("&#39;");
        } else {
            let mut one = String::new();
            crate::text::push_char(&mut one, c);
            r.append(one.as_str());
        }
        assert(v@.take(i + 1).drop_last() =~= v@.take(i as int));
        i = i + 1;
    }
    assert(v@.take(v@.len() as int) =~= v@);
    r
}

/// A markup character that escaping removes.
pub open spec fn markup_char(c: char) -> bool {
    c == '<' || c == '>' || c == '"' || c == '\''
}

/// Escaped text holds no raw `<`, `>`, `"` or `'`.
pub proof fn lemma_escape_removes_markup(s: Seq<char>)
    ensures
        forall|i: int| 0 <= i < escape_html(s).len() ==> !markup_char(#[trigger] escape_html(s)[i]),
    decreases s.len(),
{
    reveal_strlit("&amp;");
    reveal_strlit("&lt;");
    reveal_strlit("&gt;");
    reveal_strlit("&quot;");
    reveal_strlit("&#39;");
    if s.len() > 0 {
        let p = escape_html(s.drop_last());
        let e = escape_char(s.last());
        lemma_escape_removes_markup(s.drop_last());
        assert forall|i: int| 0 <= i < escape_html(s).len() implies !markup_char(
            #[trigger] escape_html(s)[i],
        ) by {
            if i < p.len() {
                assert(escape_html(s)[i] == p[i]);
            } else {
                assert(escape_html(s)[i] == e[i - p.len()]);
            }
        }
    }
}

/// Text with none of `& < > " '` is left as it is.
pub proof fn lemma_escape_plain_identity(s: Seq<char>)
    requires
        forall|i: int| 0 <= i < s.len() ==> !markup_char(#[trigger] s[i]) && s[i] != '&',
    ensures
        escape_html(s) == s,
    decreases s.len(),
{
    if s.len() > 0 {
        let t = s.drop_last();
        assert forall|i: int| 0 <= i < t.len() implies !markup_char(#[trigger] t[i]) && t[i]
            != '&' by {
            assert(t[i] == s[i]);
        }
        lemma_escape_plain_identity(t);
        assert(s.last() == s[s.len() - 1]);
        assert(t + seq![s.last()] =~= s);
    }
}

/// A mail to be handed to the mailer.
#[derive(Debug, Clone)]
pub struct OutgoingMail {
    pub to: String,
    pub subject: String,
    pub text_body: String,
    pub html_body: Option<String>,
}

pub const RESET_SUBJECT: &'static str = "パスワードのリセット — sui-id";

pub const CHANGED_SUBJECT: &'static str = "パスワードが変更されました — sui-id";

/// Plain-text body of the reset mail.
pub open spec fn reset_text_body(display: Seq<char>, link: Seq<char>) -> Seq<char> {
    display + " 様\n\nsui-id でパスワードリセットの依頼を受け付けました。\n以下のリンクから 30 分以内に新しいパスワードを設定してください。\n\n"@
        + link + "\n\nこのメールに心当たりがない場合は無視してください。\n"@
}

/// HTML body of the reset mail; both inserted values are escaped.
pub open spec fn reset_html_body(display: Seq<char>, link: Seq<char>) -> Seq<char> {
    "<p>"@ + escape_html(display)
        + " 様</p><p>sui-id でパスワードリセットの依頼を受け付けました。下のボタンから 30 分以内に新しいパスワードを設定してください。</p><p><a href=\""@
        + escape_html(link)
        + "\">パスワードを再設定する</a></p><p>このメールに心当たりがない場合は無視してください。</p>"@
}

/// The reset mail for the given address, greeting and link.
pub fn reset_mail(to: &str, display: &str, link: &str) -> (r: OutgoingMail)
    ensures
        r.to@ == to@,
        r.subject@ == RESET_SUBJECT@,
        r.text_body@ == reset_text_body(display@, link@),
        r.html_body matches Some(h) && h@ == reset_html_body(display@, link@),
{
    let mut text = display.to_owned();
    text.append(" 様\n\nsui-id でパスワードリセットの依頼を受け付けました。\n以下のリンクから 30 分以内に新しいパスワードを設定してください。\n\n");
    text.append(link);
    text.append("\n\nこのメールに心当たりがない場合は無視してください。\n");
    let mut html = "<p>".to_owned();
    let d = html_escape(display);
    html.append(d.as_str());
    html.append(" 様</p><p>sui-id でパスワードリセットの依頼を受け付けました。下のボタンから 30 分以内に新しいパスワードを設定してください。</p><p><a href=\"");
    let l = html_escape(link);
    html.append(l.as_str());
    html.append("\">パスワードを再設定する</a></p><p>このメールに心当たりがない場合は無視してください。</p>");
    OutgoingMail {
        to: to.to_owned(),
        subject: RESET_SUBJECT.to_owned(),
        text_body: text,
        html_body: Some(html),
    }
}

/// Plain-text body of the password-changed notice.
pub open spec fn changed_text_body(display: Seq<char>) -> Seq<char> {
    display + " 様\n\nsui-id のあなたのアカウントのパスワードが変更されました。\n心当たりがない場合は、すぐに /me/security から他のセッションを\n取り消し、サポートに連絡してください。\n"@
}

/// HTML body of the password-changed notice.
pub open spec fn changed_html_body(display: Seq<char>) -> Seq<char> {
    "<p>"@ + escape_html(display)
        + " 様</p><p>sui-id のあなたのアカウントのパスワードが変更されました。</p><p>心当たりがない場合は、すぐに <a href=\"/me/security\">セキュリティ設定</a>から他のセッションを取り消し、サポートに連絡してください。</p>"@
}

/// The display name a notice greets: the stored one, or nothing.
pub open spec fn greeting_of(display_name: Option<String>) -> Seq<char> {
    match display_name {
        Some(d) => d@,
        None => Seq::empty(),
    }
}

/// The "your password has just been changed" notice.
pub fn notify_password_changed(to_email: &str, display_name: &Option<String>) -> (r: OutgoingMail)
    ensures
        r.to@ == to_email@,
        r.subject@ == CHANGED_SUBJECT@,
        r.text_body@ == changed_text_body(greeting_of(*display_name)),
        r.html_body matches Some(h) && h@ == changed_html_body(greeting_of(*display_name)),
{
    let display: String = match display_name {
        Some(d) => d.clone(),
        None => String::new(),
    };
    let mut text = display.clone();
    text.append(" 様\n\nsui-id のあなたのアカウントのパスワードが変更されました。\n心当たりがない場合は、すぐに /me/security から他のセッションを\n取り消し、サポートに連絡してください。\n");
    let mut html = "<p>".to_owned();
    let d = html_escape(display.as_str());
    html.append(d.as_str());
    html.append(" 様</p><p>sui-id のあなたのアカウントのパスワードが変更されました。</p><p>心当たりがない場合は、すぐに <a href=\"/me/security\">セキュリティ設定</a>から他のセッションを取り消し、サポートに連絡してください。</p>");
    OutgoingMail {
        to: to_email.to_owned(),
        subject: CHANGED_SUBJECT.to_owned(),
        text_body: text,
        html_body: Some(html),
    }
}

// ---------- the reset request ----------

/// Lifetime of a reset token: 30 minutes.
pub const TOKEN_TTL_SECS: i64 = 1800;

/// Above this many live tokens a user gets no new one.
pub const MAX_OUTSTANDING_TOKENS_PER_USER: i64 = 3;

/// The account an address resolved to.
#[derive(Debug, Clone)]
pub struct ResetUser {
    pub id: String,
    pub username: String,
    pub display_name: Option<String>,
    pub is_disabled: bool,
    pub is_deleted: bool,
}

/// Security events of the reset flow.
#[derive(Debug, Clone)]
pub enum SecurityEvent {
    PasswordResetRequested { user_id: Option<String> },
    PasswordResetThrottled { user_id: String, outstanding: i64 },
    PasswordResetEmailSent { user_id: String },
    PasswordResetEmailFailed { user_id: String, reason: String },
    PasswordResetCompleted { user_id: String },
}

/// The `PasswordResetRequested` event of a lookup: it names the account
/// when the address matched one.
pub open spec fn requested_event_ok(e: SecurityEvent, user: Option<ResetUser>) -> bool {
    e matches SecurityEvent::PasswordResetRequested { user_id } && match user {
        Some(u) => user_id matches Some(id) && id@ == u.id@,
        None => user_id is None,
    }
}

/// Whether the request goes on to issue a token: the address matched an
/// account that is neither disabled nor deleted.
pub open spec fn lookup_goes_on(user: Option<ResetUser>) -> bool {
    user matches Some(u) && !u.is_disabled && !u.is_deleted
}

/// Step 1, after looking the address up: the `PasswordResetRequested`
/// event, recorded whether or not the address matched, and whether the
/// request goes on (only for an active account).
pub fn reset_after_lookup(user: &Option<ResetUser>) -> (r: (SecurityEvent, bool))
    ensures
        requested_event_ok(r.0, *user),
        r.1 == lookup_goes_on(*user),
{
    match user {
        None => (SecurityEvent::PasswordResetRequested { user_id: None }, false),
        Some(u) => (
            SecurityEvent::PasswordResetRequested { user_id: Some(u.id.clone()) },
            !u.is_disabled && !u.is_deleted,
        ),
    }
}

/// Step 2, after counting the user's live tokens: at the ceiling the
/// request ends with a `PasswordResetThrottled` event.
pub fn reset_after_count(user_id: &str, outstanding: i64) -> (r: Option<SecurityEvent>)
    ensures
        outstanding >= MAX_OUTSTANDING_TOKENS_PER_USER ==> (r matches Some(
            SecurityEvent::PasswordResetThrottled { user_id: id, outstanding: n },
        ) && id@ == user_id@ && n == outstanding),
        outstanding < MAX_OUTSTANDING_TOKENS_PER_USER ==> r is None,
{
    if outstanding >= MAX_OUTSTANDING_TOKENS_PER_USER {
        Some(SecurityEvent::PasswordResetThrottled { user_id: user_id.to_owned(), outstanding })
    } else {
        None
    }
}

/// A token row as it is stored (times in Unix seconds).
#[derive(Debug, Clone)]
pub struct NewResetToken {
    pub user_id: String,
    pub token_hash: Vec<u8>,
    pub issued_at: i64,
    pub expires_at: i64,
    pub requester_ip: Option<String>,
}

/// The row stored for a token issued to `user_id` at `now`.
pub open spec fn issued_row(row: NewResetToken, plaintext: Seq<char>, user_id: Seq<char>, now: i64, requester_ip: Option<String>) -> bool {
    &&& row.user_id@ == user_id
    &&& row.token_hash@ == token_hash(plaintext)
    &&& row.issued_at == now
    &&& row.expires_at == now + TOKEN_TTL_SECS
    &&& row.requester_ip == requester_ip
}

/// Step 3: mint a token for the user. The plaintext goes into the mail,
/// the row (with only the hash) into the store; `None` when no randomness
/// is available.
pub fn issue_reset_token(user_id: &str, now: i64, requester_ip: &Option<String>) -> (r: Option<(
    String,
    NewResetToken,
)>)
    requires
        now <= i64::MAX - TOKEN_TTL_SECS,
    ensures
        r matches Some((p, row)) ==> fresh_token(p@, row.token_hash@) && issued_row(
            row,
            p@,
            user_id@,
            now,
            *requester_ip,
        ),
{
    let (plaintext, hash) = match mint_random_token() {
        Some(t) => t,
        None => {
            return None;
        },
    };
    let row = NewResetToken {
        user_id: user_id.to_owned(),
        token_hash: hash,
        issued_at: now,
        expires_at: now + TOKEN_TTL_SECS,
        requester_ip: requester_ip.clone(),
    };
    Some((plaintext, row))
}

/// The mail settings the link is built from.
#[derive(Debug, Clone)]
pub struct SmtpSettings {
    pub enabled: bool,
    pub base_url: String,
}

/// Step 4, after loading the mail settings: the base URL of the link, or
/// (mail disabled or unconfigured) the event that ends the request.
pub fn reset_after_smtp(user_id: &str, smtp: &Option<SmtpSettings>) -> (r: Result<
    String,
    SecurityEvent,
>)
    ensures
        smtp matches Some(c) ==> (c.enabled ==> (r matches Ok(b) && b@ == c.base_url@)),
        !(smtp matches Some(c) && c.enabled) ==> (r matches Err(
            SecurityEvent::PasswordResetEmailFailed { user_id: id, reason },
        ) && id@ == user_id@ && reason@ == "smtp_unconfigured"@),
{
    match smtp {
        Some(c) => {
            if c.enabled {
                return Ok(c.base_url.clone());
            }
        },
        None => {},
    }
    Err(
        SecurityEvent::PasswordResetEmailFailed {
            user_id: user_id.to_owned(),
            reason: "smtp_unconfigured".to_owned(),
        },
    )
}

/// Whom the reset mail greets: the display name, or the username.
pub open spec fn greeting_for(u: ResetUser) -> Seq<char> {
    match u.display_name {
        Some(d) => d@,
        None => u.username@,
    }
}

/// Step 5: the mail with the link, to the normalised address.
pub fn reset_mail_for(email: &str, user: &ResetUser, base_url: &str, token: &str) -> (r:
    OutgoingMail)
    ensures
        r.to@ == email@,
        r.subject@ == RESET_SUBJECT@,
        r.text_body@ == reset_text_body(greeting_for(*user), reset_link_text(base_url@, token@)),
        r.html_body matches Some(h) && h@ == reset_html_body(
            greeting_for(*user),
            reset_link_text(base_url@, token@),
        ),
{
    let link = reset_link(base_url, token);
    match &user.display_name {
        Some(d) => reset_mail(email, d.as_str(), link.as_str()),
        None => reset_mail(email, user.username.as_str(), link.as_str()),
    }
}

/// Step 6, after handing the mail over: the event that records the result.
pub fn reset_after_send(user_id: &str, sent: &Result<(), String>) -> (r: SecurityEvent)
    ensures
        sent is Ok ==> (r matches SecurityEvent::PasswordResetEmailSent { user_id: id } && id@
            == user_id@),
        sent matches Err(e) ==> (r matches SecurityEvent::PasswordResetEmailFailed {
            user_id: id,
            reason,
        } && id@ == user_id@ && reason@ == e@),
{
    match sent {
        Ok(()) => SecurityEvent::PasswordResetEmailSent { user_id: user_id.to_owned() },
        Err(e) => SecurityEvent::PasswordResetEmailFailed {
            user_id: user_id.to_owned(),
            reason: e.clone(),
        },
    }
}

// ---------- the reset request as a whole ----------

/// Where a reset request stands between two outside steps.
#[derive(Debug, Clone)]
pub enum ResetFlow {
    Idle,
    AwaitUser { email: String, now: i64, requester_ip: Option<String> },
    AwaitCount { email: String, now: i64, requester_ip: Option<String>, user: ResetUser },
    AwaitStore { email: String, user: ResetUser, plaintext: String },
    AwaitMailSettings { email: String, user: ResetUser, plaintext: String },
    AwaitSend { user_id: String },
    Done,
}

/// What the last outside step brought back.
#[derive(Debug)]
pub enum ResetInput {
    /// `POST /forgot-password` with the typed address, the time and the
    /// requester's address.
    Begin { email: String, now: i64, requester_ip: Option<String> },
    /// The account the normalised address belongs to, if any.
    UserFound(Option<ResetUser>),
    /// The user's live tokens.
    Outstanding(i64),
    /// The new token's row was stored.
    TokenStored,
    /// The mail settings.
    MailSettings(Option<SmtpSettings>),
    /// The mailer's outcome.
    MailSent(Result<(), String>),
}

/// What to do next.
#[derive(Debug)]
pub enum ResetAction {
    FindUserByEmail { email: String },
    CountOutstanding { user_id: String, now: i64 },
    StoreToken { row: NewResetToken },
    LoadMailSettings,
    SendMail { mail: OutgoingMail },
    /// Answer the request.
    Finish { reply: Result<(), ResetError> },
}

/// The inputs each state waits for (and the time bound a new token needs).
pub open spec fn reset_flow_accepts(state: ResetFlow, input: ResetInput) -> bool {
    match state {
        ResetFlow::Idle => input matches ResetInput::Begin { now, .. } && now <= i64::MAX
            - TOKEN_TTL_SECS,
        ResetFlow::AwaitUser { now, .. } => input is UserFound && now <= i64::MAX - TOKEN_TTL_SECS,
        ResetFlow::AwaitCount { now, .. } => input is Outstanding && now <= i64::MAX
            - TOKEN_TTL_SECS,
        ResetFlow::AwaitStore { .. } => input is TokenStored,
        ResetFlow::AwaitMailSettings { .. } => input is MailSettings,
        ResetFlow::AwaitSend { .. } => input is MailSent,
        ResetFlow::Done => false,
    }
}

pub open spec fn finished_ok(next: ResetFlow, action: ResetAction) -> bool {
    &&& next is Done
    &&& (action matches ResetAction::Finish { reply } && reply is Ok)
}

pub open spec fn smtp_ready(smtp: Option<SmtpSettings>) -> bool {
    smtp matches Some(c) && c.enabled
}

/// One step of a reset request: the next state, the security event to
/// record (if any), and the next action.
pub open spec fn reset_step_ok(
    state: ResetFlow,
    input: ResetInput,
    next: ResetFlow,
    event: Option<SecurityEvent>,
    action: ResetAction,
) -> bool {
    match state {
        ResetFlow::Idle => match input {
            ResetInput::Begin { email, now, requester_ip } => {
                &&& (next matches ResetFlow::AwaitUser { email: e, now: n, requester_ip: ip } && e@
                    == normalized_email(email@) && n == now && ip == requester_ip)
                &&& event is None
                &&& (action matches ResetAction::FindUserByEmail { email: f } && f@
                    == normalized_email(email@))
            },
            _ => false,
        },
        ResetFlow::AwaitUser { email, now, requester_ip } => match input {
            ResetInput::UserFound(user) => {
                &&& (event matches Some(e) && requested_event_ok(e, user))
                &&& (!lookup_goes_on(user) ==> finished_ok(next, action))
                &&& (lookup_goes_on(user) ==> next == ResetFlow::AwaitCount {
                    email,
                    now,
                    requester_ip,
                    user: user->Some_0,
                })
                &&& (lookup_goes_on(user) ==> (action matches ResetAction::CountOutstanding {
                    user_id,
                    now: n,
                } && user_id@ == user->Some_0.id@ && n == now))
            },
            _ => false,
        },
        ResetFlow::AwaitCount { email, now, requester_ip, user } => match input {
            ResetInput::Outstanding(n) => if n >= MAX_OUTSTANDING_TOKENS_PER_USER {
                &&& finished_ok(next, action)
                &&& (event matches Some(
                    SecurityEvent::PasswordResetThrottled { user_id, outstanding },
                ) && user_id@ == user.id@ && outstanding == n)
            } else {
                ||| {
                    &&& finished_ok(next, action)
                    &&& (event matches Some(
                        SecurityEvent::PasswordResetEmailFailed { user_id, reason },
                    ) && user_id@ == user.id@ && reason@ == "randomness_unavailable"@)
                }
                ||| {
                    &&& event is None
                    &&& (next matches ResetFlow::AwaitStore { email: e, user: u, plaintext } && e
                        == email && u == user && (action matches ResetAction::StoreToken { row }
                        && fresh_token(plaintext@, row.token_hash@) && issued_row(
                        row,
                        plaintext@,
                        user.id@,
                        now,
                        requester_ip,
                    )))
                }
            },
            _ => false,
        },
        ResetFlow::AwaitStore { email, user, plaintext } => match input {
            ResetInput::TokenStored => {
                &&& next == ResetFlow::AwaitMailSettings { email, user, plaintext }
                &&& event is None
                &&& action is LoadMailSettings
            },
            _ => false,
        },
        ResetFlow::AwaitMailSettings { email, user, plaintext } => match input {
            ResetInput::MailSettings(smtp) => if smtp_ready(smtp) {
                &&& (next matches ResetFlow::AwaitSend { user_id } && user_id@ == user.id@)
                &&& event is None
                &&& (action matches ResetAction::SendMail { mail } && mail.to@ == email@
                    && mail.subject@ == RESET_SUBJECT@ && mail.text_body@ == reset_text_body(
                    greeting_for(user),
                    reset_link_text(smtp->Some_0.base_url@, plaintext@),
                ) && (mail.html_body matches Some(h) && h@ == reset_html_body(
                    greeting_for(user),
                    reset_link_text(smtp->Some_0.base_url@, plaintext@),
                )))
            } else {
                &&& finished_ok(next, action)
                &&& (event matches Some(SecurityEvent::PasswordResetEmailFailed { user_id, reason })
                    && user_id@ == user.id@ && reason@ == "smtp_unconfigured"@)
            },
            _ => false,
        },
        ResetFlow::AwaitSend { user_id } => match input {
            ResetInput::MailSent(sent) => {
                &&& finished_ok(next, action)
                &&& (sent is Ok ==> (event matches Some(
                    SecurityEvent::PasswordResetEmailSent { user_id: id },
                ) && id@ == user_id@))
                &&& (sent matches Err(msg) ==> (event matches Some(
                    SecurityEvent::PasswordResetEmailFailed { user_id: id, reason },
                ) && id@ == user_id@ && reason@ == msg@))
            },
            _ => false,
        },
        ResetFlow::Done => false,
    }
}

/// Advance a reset request by one outside step. Whatever the lookup, the
/// count, the random source, the mail settings or the mailer brought back,
/// a request that finishes answers `Ok(())`, so the reply never tells
/// whether the address matched. A token that cannot be minted is recorded
/// as a `PasswordResetEmailFailed` event with reason
/// `randomness_unavailable`.
pub fn reset_flow_step(state: ResetFlow, input: ResetInput) -> (r: (
    ResetFlow,
    Option<SecurityEvent>,
    ResetAction,
))
    requires
        reset_flow_accepts(state, input),
    ensures
        reset_step_ok(state, input, r.0, r.1, r.2),
        r.2 matches ResetAction::Finish { reply } ==> reply is Ok,
{
    match state {
        ResetFlow::Idle => match input {
            ResetInput::Begin { email, now, requester_ip } => {
                let normalized = normalize_email(email.as_str());
                let query = normalized.clone();
                (
                    ResetFlow::AwaitUser { email: normalized, now, requester_ip },
                    None,
                    ResetAction::FindUserByEmail { email: query },
                )
            },
            _ => (ResetFlow::Done, None, ResetAction::Finish { reply: Ok(()) }),
        },
        ResetFlow::AwaitUser { email, now, requester_ip } => match input {
            ResetInput::UserFound(user) => {
                let (event, goes_on) = reset_after_lookup(&user);
                match user {
                    Some(u) => {
                        if goes_on {
                            let user_id = u.id.clone();
                            (
                                ResetFlow::AwaitCount { email, now, requester_ip, user: u },
                                Some(event),
                                ResetAction::CountOutstanding { user_id, now },
                            )
                        } else {
                            (ResetFlow::Done, Some(event), ResetAction::Finish { reply: Ok(()) })
                        }
                    },
                    None => (ResetFlow::Done, Some(event), ResetAction::Finish { reply: Ok(()) }),
                }
            },
            _ => (ResetFlow::Done, None, ResetAction::Finish { reply: Ok(()) }),
        },
        ResetFlow::AwaitCount { email, now, requester_ip, user } => match input {
            ResetInput::Outstanding(n) => {
                match reset_after_count(user.id.as_str(), n) {
                    Some(event) => (
                        ResetFlow::Done,
                        Some(event),
                        ResetAction::Finish { reply: Ok(()) },
                    ),
                    None => match issue_reset_token(user.id.as_str(), now, &requester_ip) {
                        Some((plaintext, row)) => (
                            ResetFlow::AwaitStore { email, user, plaintext },
                            None,
                            ResetAction::StoreToken { row },
                        ),
                        None => (
                            ResetFlow::Done,
                            Some(
                                SecurityEvent::PasswordResetEmailFailed {
                                    user_id: user.id.clone(),
                                    reason: "randomness_unavailable".to_owned(),
                                },
                            ),
                            ResetAction::Finish { reply: Ok(()) },
                        ),
                    },
                }
            },
            _ => (ResetFlow::Done, None, ResetAction::Finish { reply: Ok(()) }),
        },
        ResetFlow::AwaitStore { email, user, plaintext } => match input {
            ResetInput::TokenStored => (
                ResetFlow::AwaitMailSettings { email, user, plaintext },
                None,
                ResetAction::LoadMailSettings,
            ),
            _ => (ResetFlow::Done, None, ResetAction::Finish { reply: Ok(()) }),
        },
        ResetFlow::AwaitMailSettings { email, user, plaintext } => match input {
            ResetInput::MailSettings(smtp) => {
                match reset_after_smtp(user.id.as_str(), &smtp) {
                    Ok(base_url) => {
                        let mail = reset_mail_for(
                            email.as_str(),
                            &user,
                            base_url.as_str(),
                            plaintext.as_str(),
                        );
                        (
                            ResetFlow::AwaitSend { user_id: user.id.clone() },
                            None,
                            ResetAction::SendMail { mail },
                        )
                    },
                    Err(event) => (
                        ResetFlow::Done,
                        Some(event),
                        ResetAction::Finish { reply: Ok(()) },
                    ),
                }
            },
            _ => (ResetFlow::Done, None, ResetAction::Finish { reply: Ok(()) }),
        },
        ResetFlow::AwaitSend { user_id } => match input {
            ResetInput::MailSent(sent) => {
                let event = reset_after_send(user_id.as_str(), &sent);
                (ResetFlow::Done, Some(event), ResetAction::Finish { reply: Ok(()) })
            },
            _ => (ResetFlow::Done, None, ResetAction::Finish { reply: Ok(()) }),
        },
        ResetFlow::Done => (ResetFlow::Done, None, ResetAction::Finish { reply: Ok(()) }),
    }
}

// ---------- redeeming a token ----------

/// Errors of the reset flow.
#[derive(Debug, Clone, Copy, PartialEq, Eq, Structural)]
pub enum ResetError {
    /// Unknown, consumed or expired token (the caller learns no more).
    InvalidCredentials,
}

/// What the store holds about a token found by its hash.
#[derive(Debug, Clone)]
pub struct StoredResetToken {
    pub user_id: String,
    pub consumed: bool,
    pub expires_at: i64,
}

/// A token is accepted when it was found, is unconsumed and has not
/// expired (it is still good at the second it expires).
pub open spec fn token_accepted(row: Option<StoredResetToken>, now: i64) -> bool {
    match row {
        Some(t) => !t.consumed && now <= t.expires_at,
        None => false,
    }
}

/// Decide on a token looked up by its hash: the user it belongs to, or
/// `InvalidCredentials`.
pub fn validate_token(row: &Option<StoredResetToken>, now: i64) -> (r: Result<String, ResetError>)
    ensures
        token_accepted(*row, now) ==> (r matches Ok(u) && u@ == row->Some_0.user_id@),
        !token_accepted(*row, now) ==> r == Err::<String, ResetError>(
            ResetError::InvalidCredentials,
        ),
{
    match row {
        None => Err(ResetError::InvalidCredentials),
        Some(t) => {
            if t.consumed {
                Err(ResetError::InvalidCredentials)
            } else if t.expires_at < now {
                Err(ResetError::InvalidCredentials)
            } else {
                Ok(t.user_id.clone())
            }
        },
    }
}

/// The row that redeeming leaves behind: the same token, consumed.
pub open spec fn consumed(t: StoredResetToken) -> StoredResetToken {
    StoredResetToken { consumed: true, ..t }
}

/// A token just issued is accepted for its whole lifetime.
pub proof fn lemma_issued_token_accepted(user_id: String, issued_at: i64, now: i64)
    requires
        issued_at <= now <= issued_at + TOKEN_TTL_SECS,
        issued_at + TOKEN_TTL_SECS <= i64::MAX,
    ensures
        token_accepted(
            Some(
                StoredResetToken {
                    user_id,
                    consumed: false,
                    expires_at: (issued_at + TOKEN_TTL_SECS) as i64,
                },
            ),
            now,
        ),
{
}

/// A token is single-use: once consumed it is refused, whenever asked.
pub proof fn lemma_consumed_token_refused(t: StoredResetToken, now: i64)
    ensures
        !token_accepted(Some(consumed(t)), now),
{
}

/// A token is refused once its lifetime is over.
pub proof fn lemma_expired_token_refused(t: StoredResetToken, now: i64)
    requires
        now > t.expires_at,
    ensures
        !token_accepted(Some(t), now),
{
}

/// After a successful reset: the completion event, and the notice to the
/// user's address when there is one.
pub fn reset_completed(user_id: &str, email: &Option<String>, display_name: &Option<String>) -> (r: (
    SecurityEvent,
    Option<OutgoingMail>,
))
    ensures
        r.0 matches SecurityEvent::PasswordResetCompleted { user_id: id } && id@ == user_id@,
        email is None ==> r.1 is None,
        email matches Some(e) ==> (r.1 matches Some(m) && m.to@ == e@ && m.subject@
            == CHANGED_SUBJECT@ && m.text_body@ == changed_text_body(greeting_of(*display_name))),
{
    let event = SecurityEvent::PasswordResetCompleted { user_id: user_id.to_owned() };
    let mail = match email {
        Some(e) => Some(notify_password_changed(e.as_str(), display_name)),
        None => None,
    };
    (event, mail)
}

} // verus!
