//! What the server-rendered pages show: the flash banner, and for each row
//! of the admin tables and each block of the security pages, the labels,
//! links and actions that the page lays out. The HTML itself is produced
//! outside this library from these values.

use vstd::prelude::*;
use vstd::string::StringExecFns;

use crate::admin::strings_view;
use crate::formatters::{utc_calendar_date, UtcTime};
use crate::i18n::{strings_table, Locale};
use crate::text::{dec_digits, two_digits, str_eq, trim, trim_str, u64_digits, append_chars};

verus! {

/// Severity of a flash banner displayed at the top of a page.
#[derive(Debug, Clone, Copy, PartialEq, Eq, Structural)]
pub enum FlashKind {
    Info,
    Warn,
    Error,
}

impl FlashKind {
    /// The CSS class of the banner.
    pub fn class(self) -> (r: &'static str)
        ensures
            r@ == flash_class(self),
    {
        match self {
            FlashKind::Info => "flash info",
            FlashKind::Warn => "flash warn",
            FlashKind::Error => "flash error",
        }
    }
}

/// `FlashKind::class`, as text.
pub open spec fn flash_class(k: FlashKind) -> Seq<char> {
    match k {
        FlashKind::Info => "flash info"@,
        FlashKind::Warn => "flash warn"@,
        FlashKind::Error => "flash error"@,
    }
}

/// A one-line message shown at the top of a page.
#[derive(Debug, Clone)]
pub struct Flash {
    pub kind: FlashKind,
    pub text: String,
}

/// `prefix + id + suffix`, the shape of every per-row link.
pub fn row_link(prefix: &str, id: &str, suffix: &str) -> (r: String)
    ensures
        r@ == prefix@ + id@ + suffix@,
{
    let mut r = prefix.to_owned();
    r.append(id);
    r.append(suffix);
    r
}

// ---------- timestamps ----------

/// `%Y-%m-%d %H:%M UTC`, the admin tables' timestamp pattern.
pub const MINUTE_PATTERN: &'static str = "%Y-%m-%d %H:%M UTC";

/// `%Y-%m-%d %H:%M:%S UTC`, the security page's timestamp pattern.
pub const SECOND_PATTERN: &'static str = "%Y-%m-%d %H:%M:%S UTC";

/// `n` in decimal, zero-padded to at least four digits.
pub open spec fn pad4(n: nat) -> Seq<char> {
    let d = dec_digits(n);
    if d.len() >= 4 {
        d
    } else {
        Seq::new((4 - d.len()) as nat, |i: int| '0') + d
    }
}

/// chrono's `%Y`: four digits, zero-padded, for years 0 to 9999; otherwise
/// a sign followed by at least four digits.
pub open spec fn year_text(y: int) -> Seq<char> {
    if 0 <= y <= 9999 {
        pad4(y as nat)
    } else if y < 0 {
        seq!['-'] + pad4((-y) as nat)
    } else {
        seq!['+'] + pad4(y as nat)
    }
}

/// `%Y-%m-%d %H:%M UTC` (or `%Y-%m-%d %H:%M:%S UTC`) of the UTC instant
/// `secs` seconds after the Unix epoch.
pub open spec fn utc_timestamp_text(secs: int, with_seconds: bool) -> Seq<char> {
    match utc_calendar_date(secs) {
        Some((y, m, d)) => {
            let tod = secs % 86400;
            year_text(y) + seq!['-'] + two_digits(m as nat) + seq!['-'] + two_digits(d as nat)
                + seq![' '] + two_digits((tod / 3600) as nat) + seq![':'] + two_digits(
                (tod % 3600 / 60) as nat,
            ) + (if with_seconds {
                seq![':'] + two_digits((secs % 60) as nat)
            } else {
                Seq::empty()
            }) + seq![' ', 'U', 'T', 'C']
        },
        None => Seq::empty(),
    }
}

/// Calls `DateTime::<Utc>::from_timestamp(secs, 0)` and formats the
/// instant with `format(pattern).to_string()`. Claimed: `Some` exactly when
/// chrono represents the instant (the same range as `utc_calendar_date`),
/// and then the text is the calendar date and time of day (`%Y` as chrono
/// writes it, `%m %d %H %M %S` as two digits) in the pattern's layout.
/// Only the two patterns this library uses are admitted: `to_string`
/// panics on a pattern chrono cannot render.
#[verifier::external_body]
fn chrono_format(secs: i64, pattern: &str) -> (r: Option<String>)
    requires
        pattern@ == MINUTE_PATTERN@ || pattern@ == SECOND_PATTERN@,
    ensures
        r is Some <==> utc_calendar_date(secs as int) is Some,
        r matches Some(s) ==> s@ == utc_timestamp_text(secs as int, pattern@ == SECOND_PATTERN@),
{
    match chrono::DateTime::<chrono::Utc>::from_timestamp(secs, 0) {
        Some(dt) => Some(dt.format(pattern).to_string()),
        None => None,
    }
}

proof fn lemma_patterns_differ()
    ensures
        MINUTE_PATTERN@ != SECOND_PATTERN@,
{
    reveal_strlit("%Y-%m-%d %H:%M UTC");
    reveal_strlit("%Y-%m-%d %H:%M:%S UTC");
    assert(MINUTE_PATTERN@.len() == 18);
    assert(SECOND_PATTERN@.len() == 21);
}

/// An admin-table timestamp, e.g. `2024-05-12 14:07 UTC`.
pub fn fmt_time(t: &UtcTime) -> (r: String)
    ensures
        r@ == utc_timestamp_text(t.secs(), false),
{
    let secs = t.timestamp();
    proof {
        lemma_patterns_differ();
    }
    chrono_format(secs, MINUTE_PATTERN).unwrap()
}

/// A security-page timestamp, e.g. `2024-05-12 14:07:09 UTC`.
pub fn fmt_time_seconds(t: &UtcTime) -> (r: String)
    ensures
        r@ == utc_timestamp_text(t.secs(), true),
{
    let secs = t.timestamp();
    chrono_format(secs, SECOND_PATTERN).unwrap()
}

/// An optional timestamp, or the given placeholder.
pub open spec fn time_or(t: Option<UtcTime>, placeholder: Seq<char>) -> Seq<char> {
    match t {
        Some(x) => utc_timestamp_text(x.secs(), false),
        None => placeholder,
    }
}

pub fn fmt_time_or(t: &Option<UtcTime>, placeholder: &str) -> (r: String)
    ensures
        r@ == time_or(*t, placeholder@),
{
    match t {
        Some(x) => fmt_time(x),
        None => placeholder.to_owned(),
    }
}

// ---------- users ----------

/// A user as the users table lists it.
#[derive(Debug, Clone)]
pub struct UserSummary {
    pub id: String,
    pub username: String,
    pub display_name: Option<String>,
    pub is_admin: bool,
    pub is_disabled: bool,
    pub is_deleted: bool,
    pub mfa_enabled: bool,
    pub created_at: UtcTime,
}

/// The status column: deleted, then disabled, then admin, else active.
pub open spec fn user_status(u: UserSummary) -> Seq<char> {
    if u.is_deleted {
        "deleted"@
    } else if u.is_disabled {
        "disabled"@
    } else if u.is_admin {
        "admin"@
    } else {
        "active"@
    }
}

/// The action column of a user row.
#[derive(Debug, Clone)]
pub enum UserActions {
    /// The signed-in administrator's own row: "(you)".
    Yourself,
    /// A deleted user: "-".
    Gone,
    /// The forms of a manageable user.
    Manage {
        /// Present when the user has MFA enabled.
        reset_mfa_url: Option<String>,
        disabled_url: String,
        delete_url: String,
        /// "Enable" for a disabled user, "Disable" otherwise.
        action_label: &'static str,
        /// The `disabled` value the toggle submits.
        action_target: &'static str,
    },
}

/// One row of the users table.
#[derive(Debug, Clone)]
pub struct UserRowView {
    pub status: &'static str,
    pub display: String,
    pub mfa_on: bool,
    /// Creation time, admin-table format.
    pub created: String,
    pub actions: UserActions,
}

pub open spec fn display_or_empty(d: Option<String>) -> Seq<char> {
    match d {
        Some(s) => s@,
        None => Seq::empty(),
    }
}

/// What a row of the users table shows.
pub fn user_row(u: &UserSummary, current_user: &str) -> (r: UserRowView)
    ensures
        r.status@ == user_status(*u),
        r.display@ == display_or_empty(u.display_name),
        r.mfa_on == u.mfa_enabled,
        r.created@ == utc_timestamp_text(u.created_at.secs(), false),
        u.username@ == current_user@ ==> r.actions matches UserActions::Yourself,
        u.username@ != current_user@ && u.is_deleted ==> r.actions matches UserActions::Gone,
        u.username@ != current_user@ && !u.is_deleted ==> (r.actions matches UserActions::Manage {
            reset_mfa_url,
            disabled_url,
            delete_url,
            action_label,
            action_target,
        } && (u.mfa_enabled ==> (reset_mfa_url matches Some(x) && x@ == "/admin/users/"@ + u.id@
            + "/mfa-reset"@)) && (!u.mfa_enabled ==> reset_mfa_url is None) && disabled_url@
            == "/admin/users/"@ + u.id@ + "/disabled"@ && delete_url@ == "/admin/users/"@ + u.id@
            + "/delete"@ && action_label@ == (if u.is_disabled {
            "Enable"@
        } else {
            "Disable"@
        }) && action_target@ == (if u.is_disabled {
            "false"@
        } else {
            "true"@
        })),
{
    let status: &'static str = if u.is_deleted {
        "deleted"
    } else if u.is_disabled {
        "disabled"
    } else if u.is_admin {
        "admin"
    } else {
        "active"
    };
    let display = match &u.display_name {
        Some(d) => d.clone(),
        None => String::new(),
    };
    let actions = if str_eq(u.username.as_str(), current_user) {
        UserActions::Yourself
    } else if u.is_deleted {
        UserActions::Gone
    } else {
        let reset_mfa_url = if u.mfa_enabled {
            Some(row_link("/admin/users/", u.id.as_str(), "/mfa-reset"))
        } else {
            None
        };
        UserActions::Manage {
            reset_mfa_url,
            disabled_url: row_link("/admin/users/", u.id.as_str(), "/disabled"),
            delete_url: row_link("/admin/users/", u.id.as_str(), "/delete"),
            action_label: if u.is_disabled {
                "Enable"
            } else {
                "Disable"
            },
            action_target: if u.is_disabled {
                "false"
            } else {
                "true"
            },
        }
    };
    let created = fmt_time(&u.created_at);
    UserRowView { status, display, mfa_on: u.mfa_enabled, created, actions }
}

// ---------- clients ----------

/// A client as the clients table lists it.
#[derive(Debug, Clone)]
pub struct ClientSummary {
    pub id: String,
    pub name: String,
    pub allowed_scopes: String,
    pub post_logout_redirect_uris: Vec<String>,
    pub confidential: bool,
    pub is_disabled: bool,
    pub is_deleted: bool,
}

pub open spec fn client_status(deleted: bool, disabled: bool) -> Seq<char> {
    if deleted {
        "deleted"@
    } else if disabled {
        "disabled"@
    } else {
        "active"@
    }
}

pub open spec fn client_kind(confidential: bool) -> Seq<char> {
    if confidential {
        "confidential"@
    } else {
        "public"@
    }
}

/// The scopes column: "(any)" for a blank policy.
pub open spec fn scopes_display(scopes: Seq<char>) -> Seq<char> {
    if trim(scopes).len() == 0 {
        "(any)"@
    } else {
        scopes
    }
}

/// The logout-URI column: the count, or the fallback note.
pub open spec fn logout_display(n: nat) -> Seq<char> {
    if n == 0 {
        "(falls back to redirect_uris)"@
    } else {
        dec_digits(n) + " URI(s)"@
    }
}

/// The action column of a client row.
#[derive(Debug, Clone)]
pub enum ClientActions {
    Gone,
    Manage {
        edit_url: String,
        disabled_url: String,
        delete_url: String,
        action_label: &'static str,
        action_target: &'static str,
    },
}

/// One row of the clients table.
#[derive(Debug, Clone)]
pub struct ClientRowView {
    pub status: &'static str,
    pub kind: &'static str,
    pub scopes_display: String,
    pub logout_display: String,
    pub actions: ClientActions,
}

/// What a row of the clients table shows.
pub fn client_row(c: &ClientSummary) -> (r: ClientRowView)
    ensures
        r.status@ == client_status(c.is_deleted, c.is_disabled),
        r.kind@ == client_kind(c.confidential),
        r.scopes_display@ == scopes_display(c.allowed_scopes@),
        r.logout_display@ == logout_display(c.post_logout_redirect_uris@.len()),
        c.is_deleted ==> r.actions matches ClientActions::Gone,
        !c.is_deleted ==> (r.actions matches ClientActions::Manage {
            edit_url,
            disabled_url,
            delete_url,
            action_label,
            action_target,
        } && edit_url@ == "/admin/clients/"@ + c.id@ + "/edit"@ && disabled_url@
            == "/admin/clients/"@ + c.id@ + "/disabled"@ && delete_url@ == "/admin/clients/"@
            + c.id@ + "/delete"@ && action_label@ == (if c.is_disabled {
            "Enable"@
        } else {
            "Disable"@
        }) && action_target@ == (if c.is_disabled {
            "false"@
        } else {
            "true"@
        })),
{
    let status: &'static str = if c.is_deleted {
        "deleted"
    } else if c.is_disabled {
        "disabled"
    } else {
        "active"
    };
    let kind: &'static str = if c.confidential {
        "confidential"
    } else {
        "public"
    };
    let t = trim_str(c.allowed_scopes.as_str());
    let scopes = if t.unicode_len() == 0 {
        "(any)".to_owned()
    } else {
        c.allowed_scopes.clone()
    };
    let n = c.post_logout_redirect_uris.len();
    let logout = if n == 0 {
        "(falls back to redirect_uris)".to_owned()
    } else {
        let mut s = String::new();
        let d = u64_digits(n as u64);
        append_chars(&mut s, &d);
        s.append(" URI(s)");
        s
    };
    let actions = if c.is_deleted {
        ClientActions::Gone
    } else {
        ClientActions::Manage {
            edit_url: row_link("/admin/clients/", c.id.as_str(), "/edit"),
            disabled_url: row_link("/admin/clients/", c.id.as_str(), "/disabled"),
            delete_url: row_link("/admin/clients/", c.id.as_str(), "/delete"),
            action_label: if c.is_disabled {
                "Enable"
            } else {
                "Disable"
            },
            action_target: if c.is_disabled {
                "false"
            } else {
                "true"
            },
        }
    };
    ClientRowView { status, kind, scopes_display: scopes, logout_display: logout, actions }
}

/// The lines joined with `sep` between them.
pub open spec fn joined(v: Seq<Seq<char>>, sep: Seq<char>) -> Seq<char>
    decreases v.len(),
{
    if v.len() == 0 {
        Seq::empty()
    } else if v.len() == 1 {
        v[0]
    } else {
        joined(v.drop_last(), sep) + sep + v.last()
    }
}

/// `slice.join(sep)`.
pub fn join_strings(v: &Vec<String>, sep: &str) -> (r: String)
    ensures
        r@ == joined(strings_view(v@), sep@),
{
    let mut r = String::new();
    let mut i: usize = 0;
    while i < v.len()
        invariant
            i <= v@.len(),
            r@ == joined(strings_view(v@.take(i as int)), sep@),
        decreases v@.len() - i,
    {
        proof {
            assert(strings_view(v@.take(i + 1)).drop_last() =~= strings_view(v@.take(i as int)));
            assert(strings_view(v@.take(i + 1)).last() == v@[i as int]@);
        }
        if i > 0 {
            r.append(sep);
        } else {
            assert(strings_view(v@.take(1)) =~= seq![v@[0]@]);
        }
        r.append(v[i].as_str());
        i = i + 1;
    }
    assert(v@.take(v@.len() as int) =~= v@);
    r
}

/// The client edit page.
#[derive(Debug, Clone)]
pub struct ClientEditView {
    pub post_url: String,
    pub kind: &'static str,
    pub status: &'static str,
    /// The redirect URIs, one per line.
    pub redirect_uris_value: String,
    /// The post-logout URIs, one per line.
    pub post_logout_value: String,
}

/// What the client edit page is built from.
#[derive(Debug, Clone)]
pub struct ClientEditData {
    pub id: String,
    pub name: String,
    pub redirect_uris: Vec<String>,
    pub allowed_scopes: String,
    pub post_logout_redirect_uris: Vec<String>,
    pub confidential: bool,
    pub is_disabled: bool,
}

/// The computed parts of the client edit page; name and scopes are shown
/// as stored.
pub fn client_edit_view(data: &ClientEditData) -> (r: ClientEditView)
    ensures
        r.post_url@ == "/admin/clients/"@ + data.id@ + "/edit"@,
        r.kind@ == client_kind(data.confidential),
        r.status@ == client_status(false, data.is_disabled),
        r.redirect_uris_value@ == joined(strings_view(data.redirect_uris@), "\n"@),
        r.post_logout_value@ == joined(strings_view(data.post_logout_redirect_uris@), "\n"@),
{
    ClientEditView {
        post_url: row_link("/admin/clients/", data.id.as_str(), "/edit"),
        kind: if data.confidential {
            "confidential"
        } else {
            "public"
        },
        status: if data.is_disabled {
            "disabled"
        } else {
            "active"
        },
        redirect_uris_value: join_strings(&data.redirect_uris, "\n"),
        post_logout_value: join_strings(&data.post_logout_redirect_uris, "\n"),
    }
}

// ---------- signing keys ----------

/// A signing key as the signing-key table lists it.
#[derive(Debug, Clone)]
pub struct SigningKeySummary {
    pub id: String,
    pub algorithm: String,
    pub is_active: bool,
    pub created_at: UtcTime,
    pub rotated_at: Option<UtcTime>,
}

/// One row of the signing-key table: its status, times, and the delete
/// link of a retired key (the active key cannot be deleted).
#[derive(Debug, Clone)]
pub struct SigningKeyRowView {
    pub status: &'static str,
    pub created: String,
    /// When it was retired, or `-`.
    pub rotated: String,
    pub delete_url: Option<String>,
}

pub fn signing_key_row(k: &SigningKeySummary) -> (r: SigningKeyRowView)
    ensures
        r.status@ == (if k.is_active {
            "active"@
        } else {
            "retired"@
        }),
        r.created@ == utc_timestamp_text(k.created_at.secs(), false),
        r.rotated@ == time_or(k.rotated_at, "-"@),
        k.is_active ==> r.delete_url is None,
        !k.is_active ==> (r.delete_url matches Some(u) && u@ == "/admin/signing-keys/"@ + k.id@
            + "/delete"@),
{
    let created = fmt_time(&k.created_at);
    let rotated = fmt_time_or(&k.rotated_at, "-");
    if k.is_active {
        SigningKeyRowView { status: "active", created, rotated, delete_url: None }
    } else {
        SigningKeyRowView {
            status: "retired",
            created,
            rotated,
            delete_url: Some(row_link("/admin/signing-keys/", k.id.as_str(), "/delete")),
        }
    }
}

// ---------- audit ----------

/// An audit entry as the audit table lists it.
#[derive(Debug, Clone)]
pub struct AuditLogEntry {
    pub at: UtcTime,
    pub actor: Option<String>,
    pub action: String,
    pub target: Option<String>,
    pub result: String,
}

/// One row of the audit table.
#[derive(Debug, Clone)]
pub struct AuditRowView {
    pub when: String,
    /// The acting user, or `-`.
    pub actor: String,
    pub action: String,
    /// The target, or nothing.
    pub target: String,
    pub result: String,
}

pub open spec fn text_or(o: Option<String>, placeholder: Seq<char>) -> Seq<char> {
    match o {
        Some(s) => s@,
        None => placeholder,
    }
}

pub fn audit_row(e: &AuditLogEntry) -> (r: AuditRowView)
    ensures
        r.when@ == utc_timestamp_text(e.at.secs(), false),
        r.actor@ == text_or(e.actor, "-"@),
        r.action@ == e.action@,
        r.target@ == text_or(e.target, Seq::empty()),
        r.result@ == e.result@,
{
    AuditRowView {
        when: fmt_time(&e.at),
        actor: match &e.actor {
            Some(a) => a.clone(),
            None => "-".to_owned(),
        },
        action: e.action.clone(),
        target: match &e.target {
            Some(t) => t.clone(),
            None => String::new(),
        },
        result: e.result.clone(),
    }
}

// ---------- profile and security pages ----------

/// The delete link of a registered passkey.
pub fn passkey_delete_url(id: &str) -> (r: String)
    ensures
        r@ == "/admin/profile/webauthn/"@ + id@ + "/delete"@,
{
    row_link("/admin/profile/webauthn/", id, "/delete")
}

/// The revoke link of a session; the current session has none.
pub fn session_revoke_url(id: &str, is_current: bool) -> (r: Option<String>)
    ensures
        is_current ==> r is None,
        !is_current ==> (r matches Some(u) && u@ == "/me/security/sessions/"@ + id@
            + "/revoke"@),
{
    if is_current {
        None
    } else {
        Some(row_link("/me/security/sessions/", id, "/revoke"))
    }
}

/// "N passkey" or "N passkeys".
pub open spec fn passkey_phrase(n: nat) -> Seq<char> {
    dec_digits(n) + " passkey"@ + (if n == 1 {
        Seq::<char>::empty()
    } else {
        "s"@
    })
}

/// The second-factor summary of the security page: `None` when no factor
/// is enrolled (the page then warns), otherwise the enrolled factors.
pub open spec fn mfa_summary_text(totp_enabled: bool, passkey_count: nat) -> Option<Seq<char>> {
    if !totp_enabled && passkey_count == 0 {
        None
    } else if totp_enabled && passkey_count == 0 {
        Some("authenticator app"@)
    } else if !totp_enabled {
        Some(passkey_phrase(passkey_count))
    } else {
        Some("authenticator app"@ + ", "@ + passkey_phrase(passkey_count))
    }
}

pub fn mfa_summary(totp_enabled: bool, passkey_count: u64) -> (r: Option<String>)
    ensures
        match r {
            Some(s) => mfa_summary_text(totp_enabled, passkey_count as nat) == Some(s@),
            None => mfa_summary_text(totp_enabled, passkey_count as nat) is None,
        },
{
    if !totp_enabled && passkey_count == 0 {
        return None;
    }
    let mut s = String::new();
    if totp_enabled {
        s.append("authenticator app");
    }
    if passkey_count > 0 {
        if totp_enabled {
            s.append(", ");
        }
        let d = u64_digits(passkey_count);
        append_chars(&mut s, &d);
        s.append(" passkey");
        if passkey_count != 1 {
            s.append("s");
        }
    }
    Some(s)
}

/// What the profile (MFA settings) page is built from.
#[derive(Debug, Clone)]
pub struct ProfileData {
    pub username: String,
    /// TOTP is set up.
    pub totp_enabled: bool,
    /// Codes just issued, shown exactly once.
    pub fresh_recovery_codes: Option<Vec<String>>,
    pub passkeys: Vec<PasskeyDescriptor>,
}

/// A registered WebAuthn passkey.
#[derive(Debug, Clone)]
pub struct PasskeyDescriptor {
    pub id: String,
    pub nickname: String,
    pub created_at: UtcTime,
    pub last_used_at: Option<UtcTime>,
}

/// One row of the passkey table.
#[derive(Debug, Clone)]
pub struct PasskeyRowView {
    pub nickname: String,
    pub registered: String,
    /// When it was last used, or `never`.
    pub last_used: String,
    pub delete_url: String,
}

/// The profile page: heading, the one-time recovery codes, which TOTP
/// block to show, and the passkey table (empty: "No passkeys registered
/// yet.").
#[derive(Debug, Clone)]
pub struct ProfileView {
    pub heading: String,
    pub recovery_codes: Option<Vec<String>>,
    pub totp_enabled: bool,
    pub passkey_rows: Vec<PasskeyRowView>,
}

pub open spec fn passkey_row_of(r: PasskeyRowView, p: PasskeyDescriptor) -> bool {
    &&& r.nickname@ == p.nickname@
    &&& r.registered@ == utc_timestamp_text(p.created_at.secs(), false)
    &&& r.last_used@ == time_or(p.last_used_at, "never"@)
    &&& r.delete_url@ == "/admin/profile/webauthn/"@ + p.id@ + "/delete"@
}

pub fn profile_view(data: ProfileData) -> (r: ProfileView)
    ensures
        r.heading@ == "Profile - "@ + data.username@,
        r.recovery_codes == data.fresh_recovery_codes,
        r.totp_enabled == data.totp_enabled,
        r.passkey_rows@.len() == data.passkeys@.len(),
        forall|i: int|
            0 <= i < data.passkeys@.len() ==> passkey_row_of(
                #[trigger] r.passkey_rows@[i],
                data.passkeys@[i],
            ),
{
    let mut rows: Vec<PasskeyRowView> = Vec::new();
    let mut i: usize = 0;
    while i < data.passkeys.len()
        invariant
            i <= data.passkeys@.len(),
            rows@.len() == i,
            forall|j: int| 0 <= j < i ==> passkey_row_of(#[trigger] rows@[j], data.passkeys@[j]),
        decreases data.passkeys@.len() - i,
    {
        let p = &data.passkeys[i];
        rows.push(
            PasskeyRowView {
                nickname: p.nickname.clone(),
                registered: fmt_time(&p.created_at),
                last_used: fmt_time_or(&p.last_used_at, "never"),
                delete_url: passkey_delete_url(p.id.as_str()),
            },
        );
        i = i + 1;
    }
    let mut heading = "Profile - ".to_owned();
    heading.append(data.username.as_str());
    ProfileView {
        heading,
        recovery_codes: data.fresh_recovery_codes,
        totp_enabled: data.totp_enabled,
        passkey_rows: rows,
    }
}

/// What the self-service security page is built from.
#[derive(Debug, Clone)]
pub struct MeSecurityData {
    pub username: String,
    pub is_admin: bool,
    pub totp_enabled: bool,
    pub passkey_count: u64,
    /// The session of the current request: marked in the list and kept
    /// alive by "sign out everywhere else".
    pub current_session_id: String,
    pub sessions: Vec<MeSessionDescriptor>,
    pub recent_events: Vec<MeAuditEntry>,
}

/// A session of the signed-in user.
#[derive(Debug, Clone)]
pub struct MeSessionDescriptor {
    pub id: String,
    pub created_at: UtcTime,
    pub expires_at: UtcTime,
    /// Display of the factors used, e.g. "password + TOTP".
    pub auth_methods: String,
    pub is_current: bool,
}

/// An event of the user's activity timeline.
#[derive(Debug, Clone)]
pub struct MeAuditEntry {
    pub at: UtcTime,
    pub action: String,
    pub result: String,
    pub note: Option<String>,
}

/// One row of the session list.
#[derive(Debug, Clone)]
pub struct SessionRowView {
    pub started: String,
    pub expires: String,
    pub factors: String,
    /// `None` for the current session ("current session").
    pub revoke_url: Option<String>,
}

/// One row of the activity timeline.
#[derive(Debug, Clone)]
pub struct EventRowView {
    pub when: String,
    pub action: String,
    pub result: String,
    pub note: String,
}

/// The security page: who is signed in, the admin link, the second-factor
/// summary (`None`: the warning banner), sessions and recent events.
#[derive(Debug, Clone)]
pub struct MeSecurityView {
    pub username: String,
    pub admin_link: bool,
    pub mfa_summary: Option<String>,
    pub session_rows: Vec<SessionRowView>,
    pub event_rows: Vec<EventRowView>,
    /// Posted by "sign out everywhere else" as the session to keep.
    pub current_session: String,
}

pub open spec fn session_row_of(r: SessionRowView, s: MeSessionDescriptor) -> bool {
    &&& r.started@ == utc_timestamp_text(s.created_at.secs(), true)
    &&& r.expires@ == utc_timestamp_text(s.expires_at.secs(), true)
    &&& r.factors@ == s.auth_methods@
    &&& (s.is_current ==> r.revoke_url is None)
    &&& (!s.is_current ==> (r.revoke_url matches Some(u) && u@ == "/me/security/sessions/"@
        + s.id@ + "/revoke"@))
}

pub open spec fn event_row_of(r: EventRowView, e: MeAuditEntry) -> bool {
    &&& r.when@ == utc_timestamp_text(e.at.secs(), true)
    &&& r.action@ == e.action@
    &&& r.result@ == e.result@
    &&& r.note@ == text_or(e.note, Seq::empty())
}

pub fn me_security_view(data: MeSecurityData) -> (r: MeSecurityView)
    ensures
        r.username@ == data.username@,
        r.admin_link == data.is_admin,
        match r.mfa_summary {
            Some(m) => mfa_summary_text(data.totp_enabled, data.passkey_count as nat) == Some(m@),
            None => mfa_summary_text(data.totp_enabled, data.passkey_count as nat) is None,
        },
        r.current_session@ == data.current_session_id@,
        r.session_rows@.len() == data.sessions@.len(),
        forall|i: int|
            0 <= i < data.sessions@.len() ==> session_row_of(
                #[trigger] r.session_rows@[i],
                data.sessions@[i],
            ),
        r.event_rows@.len() == data.recent_events@.len(),
        forall|i: int|
            0 <= i < data.recent_events@.len() ==> event_row_of(
                #[trigger] r.event_rows@[i],
                data.recent_events@[i],
            ),
{
    let mut sessions: Vec<SessionRowView> = Vec::new();
    let mut i: usize = 0;
    while i < data.sessions.len()
        invariant
            i <= data.sessions@.len(),
            sessions@.len() == i,
            forall|j: int| 0 <= j < i ==> session_row_of(#[trigger] sessions@[j], data.sessions@[j]),
        decreases data.sessions@.len() - i,
    {
        let s = &data.sessions[i];
        sessions.push(
            SessionRowView {
                started: fmt_time_seconds(&s.created_at),
                expires: fmt_time_seconds(&s.expires_at),
                factors: s.auth_methods.clone(),
                revoke_url: session_revoke_url(s.id.as_str(), s.is_current),
            },
        );
        i = i + 1;
    }
    let mut events: Vec<EventRowView> = Vec::new();
    let mut k: usize = 0;
    while k < data.recent_events.len()
        invariant
            k <= data.recent_events@.len(),
            events@.len() == k,
            forall|j: int|
                0 <= j < k ==> event_row_of(#[trigger] events@[j], data.recent_events@[j]),
        decreases data.recent_events@.len() - k,
    {
        let e = &data.recent_events[k];
        events.push(
            EventRowView {
                when: fmt_time_seconds(&e.at),
                action: e.action.clone(),
                result: e.result.clone(),
                note: match &e.note {
                    Some(n) => n.clone(),
                    None => String::new(),
                },
            },
        );
        k = k + 1;
    }
    MeSecurityView {
        username: data.username,
        admin_link: data.is_admin,
        mfa_summary: mfa_summary(data.totp_enabled, data.passkey_count),
        session_rows: sessions,
        event_rows: events,
        current_session: data.current_session_id,
    }
}

/// What the dashboard is built from.
#[derive(Debug, Clone)]
pub struct DashboardData {
    pub admin_username: String,
    pub user_count: u64,
    pub client_count: u64,
    pub issuer: String,
}

/// The dashboard's greeting and service overview.
#[derive(Debug, Clone)]
pub struct DashboardView {
    pub greeting: String,
    pub issuer: String,
    pub users: String,
    pub clients: String,
}

pub fn dashboard_view(data: DashboardData) -> (r: DashboardView)
    ensures
        r.greeting@ == "Hello, "@ + data.admin_username@ + "."@,
        r.issuer@ == data.issuer@,
        r.users@ == dec_digits(data.user_count as nat),
        r.clients@ == dec_digits(data.client_count as nat),
{
    let mut greeting = "Hello, ".to_owned();
    greeting.append(data.admin_username.as_str());
    greeting.append(".");
    let mut users = String::new();
    append_chars(&mut users, &u64_digits(data.user_count));
    let mut clients = String::new();
    append_chars(&mut clients, &u64_digits(data.client_count));
    DashboardView { greeting, issuer: data.issuer, users, clients }
}

// ---------- tab strips ----------

/// Tabs of the self-service security pages.
#[derive(Debug, Clone, Copy, PartialEq, Eq, Structural)]
pub enum MeTab {
    Overview,
    Mfa,
    Passkey,
    Sessions,
    Language,
}

/// Tabs of the settings pages.
#[derive(Debug, Clone, Copy, PartialEq, Eq, Structural)]
pub enum SettingsTab {
    Basic,
    Security,
    Authentication,
    Logs,
    Email,
    Other,
}

pub open spec fn settings_key(t: SettingsTab) -> Seq<char> {
    match t {
        SettingsTab::Basic => "basic"@,
        SettingsTab::Security => "security"@,
        SettingsTab::Authentication => "authentication"@,
        SettingsTab::Logs => "logs"@,
        SettingsTab::Email => "email"@,
        SettingsTab::Other => "other"@,
    }
}

impl SettingsTab {
    /// The slug of the tab's route.
    pub fn key(self) -> (r: &'static str)
        ensures
            r@ == settings_key(self),
    {
        match self {
            SettingsTab::Basic => "basic",
            SettingsTab::Security => "security",
            SettingsTab::Authentication => "authentication",
            SettingsTab::Logs => "logs",
            SettingsTab::Email => "email",
            SettingsTab::Other => "other",
        }
    }
}

/// A link of a tab strip.
#[derive(Debug, Clone, Copy)]
pub struct TabLink {
    pub label: &'static str,
    pub href: &'static str,
    /// The active tab (`aria-current="page"` / `tab--active`).
    pub current: bool,
}

pub open spec fn settings_order() -> Seq<SettingsTab> {
    seq![
        SettingsTab::Basic,
        SettingsTab::Security,
        SettingsTab::Authentication,
        SettingsTab::Logs,
        SettingsTab::Email,
        SettingsTab::Other,
    ]
}

/// The settings tab strip: six links in a fixed order, labelled in the
/// request's locale, exactly the active one marked current.
pub fn settings_tabs(active: SettingsTab, lang: Locale) -> (r: Vec<TabLink>)
    ensures
        r@.len() == 6,
        forall|i: int| 0 <= i < 6 ==> (#[trigger] r@[i]).current == (settings_order()[i] == active),
        r@[0].label@ == strings_table(lang).settings_tab_basic@ && r@[0].href@ == "/admin/settings/basic"@,
        r@[1].label@ == strings_table(lang).settings_tab_security@ && r@[1].href@ == "/admin/settings/security"@,
        r@[2].label@ == strings_table(lang).settings_tab_authentication@ && r@[2].href@ == "/admin/settings/authentication"@,
        r@[3].label@ == strings_table(lang).settings_tab_logs@ && r@[3].href@ == "/admin/settings/logs"@,
        r@[4].label@ == strings_table(lang).settings_tab_email@ && r@[4].href@ == "/admin/settings/email"@,
        r@[5].label@ == strings_table(lang).settings_tab_advanced@ && r@[5].href@ == "/admin/settings/other"@,
{
    let t = lang.strings();
    let mut r: Vec<TabLink> = Vec::new();
    r.push(TabLink { label: t.settings_tab_basic, href: "/admin/settings/basic", current: active == SettingsTab::Basic });
    r.push(TabLink { label: t.settings_tab_security, href: "/admin/settings/security", current: active == SettingsTab::Security });
    r.push(TabLink { label: t.settings_tab_authentication, href: "/admin/settings/authentication", current: active == SettingsTab::Authentication });
    r.push(TabLink { label: t.settings_tab_logs, href: "/admin/settings/logs", current: active == SettingsTab::Logs });
    r.push(TabLink { label: t.settings_tab_email, href: "/admin/settings/email", current: active == SettingsTab::Email });
    r.push(TabLink { label: t.settings_tab_advanced, href: "/admin/settings/other", current: active == SettingsTab::Other });
    r
}

pub open spec fn me_order() -> Seq<MeTab> {
    seq![MeTab::Overview, MeTab::Mfa, MeTab::Passkey, MeTab::Sessions, MeTab::Language]
}

/// The security-page tab strip: five links, exactly the active one current.
pub fn me_security_tabs(active: MeTab, lang: Locale) -> (r: Vec<TabLink>)
    ensures
        r@.len() == 5,
        forall|i: int| 0 <= i < 5 ==> (#[trigger] r@[i]).current == (me_order()[i] == active),
        r@[0].label@ == strings_table(lang).me_tab_overview@ && r@[0].href@ == "/me/security/overview"@,
        r@[1].label@ == strings_table(lang).me_tab_mfa@ && r@[1].href@ == "/me/security/mfa"@,
        r@[2].label@ == strings_table(lang).me_tab_passkey@ && r@[2].href@ == "/me/security/passkeys"@,
        r@[3].label@ == strings_table(lang).me_tab_sessions@ && r@[3].href@ == "/me/security/sessions"@,
        r@[4].label@ == strings_table(lang).me_tab_language@ && r@[4].href@ == "/me/security/language"@,
{
    let t = lang.strings();
    let mut r: Vec<TabLink> = Vec::new();
    r.push(TabLink { label: t.me_tab_overview, href: "/me/security/overview", current: active == MeTab::Overview });
    r.push(TabLink { label: t.me_tab_mfa, href: "/me/security/mfa", current: active == MeTab::Mfa });
    r.push(TabLink { label: t.me_tab_passkey, href: "/me/security/passkeys", current: active == MeTab::Passkey });
    r.push(TabLink { label: t.me_tab_sessions, href: "/me/security/sessions", current: active == MeTab::Sessions });
    r.push(TabLink { label: t.me_tab_language, href: "/me/security/language", current: active == MeTab::Language });
    r
}

/// A single entry of a route-based tab strip.
#[derive(Debug, Clone, Copy)]
pub struct RouteTab {
    pub key: &'static str,
    pub href: &'static str,
    pub label: &'static str,
}

/// Which entries of a route tab strip are current: those whose key equals
/// the current slug (none, on a sub-route).
pub fn route_tabs(current: &str, tabs: &Vec<RouteTab>) -> (r: Vec<bool>)
    ensures
        r@.len() == tabs@.len(),
        forall|i: int| 0 <= i < tabs@.len() ==> r@[i] == (tabs@[i].key@ == current@),
{
    let mut r: Vec<bool> = Vec::new();
    let mut i: usize = 0;
    while i < tabs.len()
        invariant
            i <= tabs@.len(),
            r@.len() == i,
            forall|j: int| 0 <= j < i ==> r@[j] == (tabs@[j].key@ == current@),
        decreases tabs@.len() - i,
    {
        r.push(str_eq(tabs[i].key, current));
        i = i + 1;
    }
    r
}

} // verus!
