//! Schema migrations: which migrations exist, which of them a database at
//! a given schema version still needs, how the stored version is read, and
//! which migrations must run with foreign-key enforcement switched off.
//!
//! The applied version is recorded in `sui_meta` under `schema_version`;
//! each migration runs in its own transaction and bumps that value.

use vstd::prelude::*;

use crate::admin::{all_digits, digits_value, is_digit, lemma_digits_value_prefix};
use crate::text::{digit_char, is_ws, str_chars, trim_start};

verus! {

/// The highest schema version the bundled migrations produce.
pub const MAX_SCHEMA_VERSION: i32 = 22;

/// Key of the applied version in `sui_meta`.
pub const META_KEY_SCHEMA_VERSION: &'static str = "schema_version";

/// First line of a migration that rebuilds parent tables and must run with
/// foreign keys off (set before its transaction begins).
pub const FK_DISABLE_MARKER: &'static str = "-- MIGRATION:FK_DISABLE_REQUIRED";

/// The file of each bundled migration version.
pub open spec fn migration_file_name(version: int) -> Option<Seq<char>> {
    if version == 1 {
        Some("0001_initial.sql"@)
    } else if version == 2 {
        Some("0002_client_scope_and_logout_uris.sql"@)
    } else if version == 3 {
        Some("0003_totp_mfa.sql"@)
    } else if version == 4 {
        Some("0004_webauthn.sql"@)
    } else if version == 5 {
        Some("0005_revoked_access_tokens.sql"@)
    } else if version == 6 {
        Some("0006_session_auth_methods.sql"@)
    } else if version == 7 {
        Some("0007_user_lockout.sql"@)
    } else if version == 8 {
        Some("0008_refresh_token_family.sql"@)
    } else if version == 9 {
        Some("0009_audit_hash_chain.sql"@)
    } else if version == 10 {
        Some("0010_session_step_up.sql"@)
    } else if version == 11 {
        Some("0011_audit_log_at_action_index.sql"@)
    } else if version == 12 {
        Some("0012_users_email.sql"@)
    } else if version == 13 {
        Some("0013_webauthn_step_up.sql"@)
    } else if version == 14 {
        Some("0014_smtp_config.sql"@)
    } else if version == 15 {
        Some("0015_password_reset_tokens.sql"@)
    } else if version == 16 {
        Some("0016_i18n.sql"@)
    } else if version == 17 {
        Some("0017_hibp_mode.sql"@)
    } else if version == 18 {
        Some("0018_session_limits.sql"@)
    } else if version == 19 {
        Some("0019_auth_flow_integrity.sql"@)
    } else if version == 20 {
        Some("0020_user_identity_invariants.sql"@)
    } else if version == 21 {
        Some("0021_schema_invariants.sql"@)
    } else if version == 22 {
        Some("0022_boolean_checks.sql"@)
    } else {
        None
    }
}

/// The four-digit, zero-padded decimal of `v` (0 to 9999).
pub open spec fn four_digits(v: int) -> Seq<char> {
    seq![
        digit_char((v / 1000) as nat),
        digit_char((v / 100 % 10) as nat),
        digit_char((v / 10 % 10) as nat),
        digit_char((v % 10) as nat),
    ]
}

/// Every bundled version has a file, and the file's name starts with the
/// version number, zero-padded to four digits, then `_`, and ends in
/// `.sql`; no other version has one.
pub proof fn lemma_migration_file_numbered(v: int)
    ensures
        1 <= v <= MAX_SCHEMA_VERSION ==> (migration_file_name(v) matches Some(f) && f.len() > 9
            && f.take(4) == four_digits(v) && f[4] == '_' && f.skip(f.len() - 4) == ".sql"@),
        !(1 <= v <= MAX_SCHEMA_VERSION) ==> migration_file_name(v) is None,
{
    reveal_strlit("0001_initial.sql");
    reveal_strlit("0002_client_scope_and_logout_uris.sql");
    reveal_strlit("0003_totp_mfa.sql");
    reveal_strlit("0004_webauthn.sql");
    reveal_strlit("0005_revoked_access_tokens.sql");
    reveal_strlit("0006_session_auth_methods.sql");
    reveal_strlit("0007_user_lockout.sql");
    reveal_strlit("0008_refresh_token_family.sql");
    reveal_strlit("0009_audit_hash_chain.sql");
    reveal_strlit("0010_session_step_up.sql");
    reveal_strlit("0011_audit_log_at_action_index.sql");
    reveal_strlit("0012_users_email.sql");
    reveal_strlit("0013_webauthn_step_up.sql");
    reveal_strlit("0014_smtp_config.sql");
    reveal_strlit("0015_password_reset_tokens.sql");
    reveal_strlit("0016_i18n.sql");
    reveal_strlit("0017_hibp_mode.sql");
    reveal_strlit("0018_session_limits.sql");
    reveal_strlit("0019_auth_flow_integrity.sql");
    reveal_strlit("0020_user_identity_invariants.sql");
    reveal_strlit("0021_schema_invariants.sql");
    reveal_strlit("0022_boolean_checks.sql");
    reveal_strlit(".sql");
    if 1 <= v <= MAX_SCHEMA_VERSION {
        let f = migration_file_name(v)->Some_0;
        assert(f.take(4) =~= four_digits(v));
        assert(f.skip(f.len() - 4) =~= ".sql"@);
    }
}

/// The file each migration version is read from.
pub fn migration_file(version: i32) -> (r: Option<&'static str>)
    ensures
        r is Some <==> 1 <= version <= MAX_SCHEMA_VERSION,
        match r {
            Some(f) => migration_file_name(version as int) == Some(f@),
            None => migration_file_name(version as int) is None,
        },
{
    match version {
        1 => Some("0001_initial.sql"),
        2 => Some("0002_client_scope_and_logout_uris.sql"),
        3 => Some("0003_totp_mfa.sql"),
        4 => Some("0004_webauthn.sql"),
        5 => Some("0005_revoked_access_tokens.sql"),
        6 => Some("0006_session_auth_methods.sql"),
        7 => Some("0007_user_lockout.sql"),
        8 => Some("0008_refresh_token_family.sql"),
        9 => Some("0009_audit_hash_chain.sql"),
        10 => Some("0010_session_step_up.sql"),
        11 => Some("0011_audit_log_at_action_index.sql"),
        12 => Some("0012_users_email.sql"),
        13 => Some("0013_webauthn_step_up.sql"),
        14 => Some("0014_smtp_config.sql"),
        15 => Some("0015_password_reset_tokens.sql"),
        16 => Some("0016_i18n.sql"),
        17 => Some("0017_hibp_mode.sql"),
        18 => Some("0018_session_limits.sql"),
        19 => Some("0019_auth_flow_integrity.sql"),
        20 => Some("0020_user_identity_invariants.sql"),
        21 => Some("0021_schema_invariants.sql"),
        22 => Some("0022_boolean_checks.sql"),
        _ => None,
    }
}

/// The versions a database at `current` still needs, up to and including
/// `max_version`, in the order they run.
pub open spec fn pending(current: int, max_version: int) -> Seq<int> {
    let lo = if current < 0 {
        0
    } else {
        current
    };
    let hi = if max_version > MAX_SCHEMA_VERSION {
        MAX_SCHEMA_VERSION as int
    } else {
        max_version
    };
    if hi <= lo {
        Seq::empty()
    } else {
        Seq::new((hi - lo) as nat, |k: int| lo + 1 + k)
    }
}

pub open spec fn versions_view(v: Seq<i32>) -> Seq<int> {
    v.map_values(|x: i32| x as int)
}

/// The migrations to apply, in order: every bundled version above
/// `current` and at most `max_version` (`run` passes the highest).
pub fn pending_migrations(current: i32, max_version: i32) -> (r: Vec<i32>)
    ensures
        versions_view(r@) == pending(current as int, max_version as int),
{
    let lo: i32 = if current < 0 {
        0
    } else {
        current
    };
    let hi: i32 = if max_version > MAX_SCHEMA_VERSION {
        MAX_SCHEMA_VERSION
    } else {
        max_version
    };
    let mut r: Vec<i32> = Vec::new();
    if hi <= lo {
        assert(versions_view(r@) =~= pending(current as int, max_version as int));
        return r;
    }
    let mut v: i32 = lo + 1;
    while v <= hi
        invariant
            lo < hi <= MAX_SCHEMA_VERSION,
            lo + 1 <= v <= hi + 1,
            versions_view(r@) == Seq::new((v - lo - 1) as nat, |k: int| lo + 1 + k),
        decreases hi + 1 - v,
    {
        let ghost before = versions_view(r@);
        r.push(v);
        assert(versions_view(r@) =~= before.push(v as int));
        assert(versions_view(r@) =~= Seq::new((v - lo) as nat, |k: int| lo + 1 + k));
        v = v + 1;
    }
    assert(versions_view(r@) =~= pending(current as int, max_version as int));
    r
}

/// Every version that is pending is above `current`, at most the cap, and
/// has a migration file; they come in increasing order without gaps.
pub proof fn lemma_pending_in_range(current: int, max_version: int)
    ensures
        forall|i: int|
            0 <= i < pending(current, max_version).len() ==> {
                let v = #[trigger] pending(current, max_version)[i];
                &&& current < v
                &&& v <= max_version
                &&& 1 <= v <= MAX_SCHEMA_VERSION
            },
        forall|i: int, j: int|
            0 <= i < j < pending(current, max_version).len() ==> pending(current, max_version)[i]
                < pending(current, max_version)[j],
{
}

/// Once every migration ran, nothing is pending any more: running the
/// migrations a second time applies none.
pub proof fn lemma_rerun_applies_nothing(current: int)
    ensures
        pending(
            if current > MAX_SCHEMA_VERSION {
                current
            } else {
                MAX_SCHEMA_VERSION as int
            },
            MAX_SCHEMA_VERSION as int,
        ).len() == 0,
{
}

/// Running up to an intermediate version and then the rest applies every
/// migration exactly once, in order.
pub proof fn lemma_pending_splits(current: int, mid: int)
    requires
        0 <= current <= mid <= MAX_SCHEMA_VERSION,
    ensures
        pending(current, MAX_SCHEMA_VERSION as int) == pending(current, mid) + pending(
            mid,
            MAX_SCHEMA_VERSION as int,
        ),
{
    assert(pending(current, MAX_SCHEMA_VERSION as int) =~= pending(current, mid) + pending(
        mid,
        MAX_SCHEMA_VERSION as int,
    ));
}

/// `i32::from_str`: an optional sign, then one or more decimal digits whose
/// value fits in 32 signed bits.
pub open spec fn parse_i32(s: Seq<char>) -> Option<i32> {
    let neg = s.len() > 0 && s[0] == '-';
    let d = if s.len() > 0 && (s[0] == '+' || s[0] == '-') {
        s.drop_first()
    } else {
        s
    };
    let v = if neg {
        -(digits_value(d) as int)
    } else {
        digits_value(d) as int
    };
    if d.len() > 0 && all_digits(d) && i32::MIN <= v <= i32::MAX {
        Some(v as i32)
    } else {
        None
    }
}

/// `i32::from_str` on a string slice.
pub fn parse_i32_value(s: &str) -> (r: Option<i32>)
    ensures
        r == parse_i32(s@),
{
    let v = str_chars(s);
    let n = v.len();
    let neg = n > 0 && v[0] == '-';
    let start: usize = if n > 0 && (v[0] == '+' || v[0] == '-') {
        1
    } else {
        0
    };
    let ghost d = if s@.len() > 0 && (s@[0] == '+' || s@[0] == '-') {
        s@.drop_first()
    } else {
        s@
    };
    assert(d =~= v@.skip(start as int));
    if start >= n {
        return None;
    }
    // magnitude limit: 2^31 for negatives, 2^31 - 1 otherwise
    let limit: u64 = if neg {
        0x8000_0000
    } else {
        0x7FFF_FFFF
    };
    let mut acc: u64 = 0;
    let mut i: usize = start;
    while i < n
        invariant
            start <= i <= n,
            n == v@.len(),
            v@ == s@,
            d == v@.skip(start as int),
            d == (if s@.len() > 0 && (s@[0] == '+' || s@[0] == '-') {
                s@.drop_first()
            } else {
                s@
            }),
            neg == (s@.len() > 0 && s@[0] == '-'),
            limit == (if neg {
                0x8000_0000u64
            } else {
                0x7FFF_FFFFu64
            }),
            start < n,
            acc == digits_value(d.take(i - start)),
            acc <= limit,
            all_digits(d.take(i - start)),
        decreases n - i,
    {
        let c = v[i];
        if c < '0' || c > '9' {
            assert(d[i - start] == c);
            assert(!all_digits(d));
            return None;
        }
        let dv: u64 = (c as u32 - '0' as u32) as u64;
        let next = acc * 10 + dv;
        proof {
            let p = d.take(i - start + 1);
            assert(p.drop_last() =~= d.take(i - start));
            assert(p.last() == c);
            assert(digits_value(p) == acc * 10 + dv);
            assert forall|k: int| 0 <= k < p.len() implies is_digit(#[trigger] p[k]) by {
                if k < p.len() - 1 {
                    assert(p[k] == d.take(i - start)[k]);
                }
            }
        }
        if next > limit {
            proof {
                if all_digits(d) {
                    lemma_digits_value_prefix(d, i - start + 1);
                }
            }
            return None;
        }
        acc = next;
        i = i + 1;
    }
    assert(d.take(n - start) =~= d);
    if neg {
        if acc == 0x8000_0000 {
            Some(i32::MIN)
        } else {
            Some(-(acc as i32))
        }
    } else {
        Some(acc as i32)
    }
}

/// The applied version as stored in `sui_meta`: its value read as an
/// `i32`, or 0 when absent or unreadable.
pub open spec fn stored_version(value: Option<Seq<char>>) -> i32 {
    match value {
        Some(s) => match parse_i32(s) {
            Some(v) => v,
            None => 0,
        },
        None => 0,
    }
}

pub fn current_schema_version(value: Option<&str>) -> (r: i32)
    ensures
        r == stored_version(
            match value {
                Some(s) => Some(s@),
                None => None,
            },
        ),
{
    match value {
        Some(s) => match parse_i32_value(s) {
            Some(v) => v,
            None => 0,
        },
        None => 0,
    }
}

/// Whether a migration's SQL asks for foreign keys to be off: after
/// leading whitespace, it starts with the marker line.
pub open spec fn fk_disable_required(sql: Seq<char>) -> bool {
    let t = trim_start(sql);
    t.len() >= FK_DISABLE_MARKER@.len() && t.take(FK_DISABLE_MARKER@.len() as int)
        == FK_DISABLE_MARKER@
}

pub fn needs_fk_disable(sql: &str) -> (r: bool)
    ensures
        r == fk_disable_required(sql@),
{
    let v = str_chars(sql);
    let mut a: usize = 0;
    while a < v.len() && crate::text::is_ws_exec(v[a])
        invariant
            a <= v@.len(),
            forall|i: int| 0 <= i < a ==> is_ws(v@[i]),
        decreases v@.len() - a,
    {
        a = a + 1;
    }
    proof {
        crate::text::lemma_trim_start_index(v@, a as int);
    }
    let m = str_chars(FK_DISABLE_MARKER);
    let n = v.len();
    if n - a < m.len() {
        return false;
    }
    let mut k: usize = 0;
    while k < m.len()
        invariant
            k <= m@.len(),
            m@ == FK_DISABLE_MARKER@,
            n == v@.len(),
            v@ == sql@,
            a <= n,
            trim_start(sql@) == v@.skip(a as int),
            a + m@.len() <= n,
            forall|j: int| 0 <= j < k ==> v@[a + j] == m@[j],
        decreases m@.len() - k,
    {
        if v[a + k] != m[k] {
            assert(v@.skip(a as int).take(m@.len() as int)[k as int] != m@[k as int]);
            return false;
        }
        k = k + 1;
    }
    assert(v@.skip(a as int).take(m@.len() as int) =~= m@);
    true
}

} // verus!
