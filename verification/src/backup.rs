//! Backup and restore rules. A backup is a tar archive of two entries, the
//! database snapshot and the master key; restoring refuses to overwrite
//! either file unless forced. The file system work stays with the caller.

use vstd::prelude::*;
use vstd::utf8::encode_utf8;

use crate::tar::{
    archive, parse_tar, pow8, read_tar, storable, write_tar_entry, write_tar_terminator,
    TarError,
};
use crate::text::{push_char, str_eq};

verus! {

/// Name of the database snapshot inside a backup.
pub const ENTRY_DB: &'static str = "sui-id.sqlite";

/// Name of the master key file inside a backup.
pub const ENTRY_KEY: &'static str = "sui-id.key";

pub open spec fn entry_db_chars() -> Seq<char> {
    seq!['s', 'u', 'i', '-', 'i', 'd', '.', 's', 'q', 'l', 'i', 't', 'e']
}

pub open spec fn entry_key_chars() -> Seq<char> {
    seq!['s', 'u', 'i', '-', 'i', 'd', '.', 'k', 'e', 'y']
}

/// Provenance metadata written into every backup.
#[derive(Debug, Clone)]
pub struct Manifest {
    pub format_version: u32,
    pub sui_id_version: String,
    pub schema_version: i64,
    pub created_at: String,
    pub hostname: String,
    pub issuer: String,
}

/// Options of a backup run.
#[derive(Debug, Clone)]
pub struct BackupOptions {
    /// When `Some`, the backup is encrypted under a key derived from the
    /// passphrase; when `None`, a plain tarball is produced.
    pub passphrase: Option<String>,
}

/// Options of a restore run.
#[derive(Debug, Clone)]
pub struct RestoreOptions {
    pub force: bool,
    /// Required when the backup file is encrypted.
    pub passphrase: Option<String>,
}

impl Default for BackupOptions {
    /// A plain (unencrypted) backup.
    fn default() -> (r: BackupOptions)
        ensures
            r.passphrase is None,
    {
        BackupOptions { passphrase: None }
    }
}

impl Default for RestoreOptions {
    /// No overwriting, no passphrase.
    fn default() -> (r: RestoreOptions)
        ensures
            !r.force,
            r.passphrase is None,
    {
        RestoreOptions { force: false, passphrase: None }
    }
}

/// What `verify-backup` reports.
#[derive(Debug, Clone)]
pub struct VerifyReport {
    pub manifest: Manifest,
    pub encrypted: bool,
    /// Total bytes of the tar.
    pub tar_bytes: usize,
    /// Bytes of the inner SQLite snapshot.
    pub db_bytes: usize,
    /// Whether the master key entry is present.
    pub key_present: bool,
}

/// Why a backup cannot be taken.
#[derive(Debug, Clone, Copy, PartialEq, Eq, Structural)]
pub enum BackupError {
    /// The destination file already exists.
    DestinationExists,
    /// The configured database file does not exist.
    DatabaseMissing,
    /// The configured key file does not exist.
    KeyFileMissing,
}

/// Why a backup cannot be restored.
#[derive(Debug, Clone, Copy, PartialEq, Eq, Structural)]
pub enum RestoreError {
    /// The archive itself is unreadable.
    Archive(TarError),
    /// The archive has no database entry.
    MissingDatabaseEntry,
    /// The archive has no key entry.
    MissingKeyEntry,
    /// A database exists at the destination and `force` was not given.
    DatabaseExists,
    /// A key file exists at the destination and `force` was not given.
    KeyFileExists,
}

/// Checks made before a backup: never overwrite, and both sources exist.
pub fn backup_preflight(dest_exists: bool, db_exists: bool, key_exists: bool) -> (r: Result<
    (),
    BackupError,
>)
    ensures
        r == (if dest_exists {
            Err(BackupError::DestinationExists)
        } else if !db_exists {
            Err(BackupError::DatabaseMissing)
        } else if !key_exists {
            Err(BackupError::KeyFileMissing)
        } else {
            Ok(())
        }),
{
    if dest_exists {
        Err(BackupError::DestinationExists)
    } else if !db_exists {
        Err(BackupError::DatabaseMissing)
    } else if !key_exists {
        Err(BackupError::KeyFileMissing)
    } else {
        Ok(())
    }
}

/// `path` as an SQLite string literal: single quotes doubled.
pub open spec fn sql_quoted(path: Seq<char>) -> Seq<char>
    decreases path.len(),
{
    if path.len() == 0 {
        Seq::empty()
    } else if path[0] == '\'' {
        seq!['\'', '\''] + sql_quoted(path.drop_first())
    } else {
        seq![path[0]] + sql_quoted(path.drop_first())
    }
}

pub open spec fn vacuum_into_prefix() -> Seq<char> {
    seq!['V', 'A', 'C', 'U', 'U', 'M', ' ', 'I', 'N', 'T', 'O', ' ', '\'']
}

/// The statement that writes a consistent snapshot of the database to
/// `target`.
pub fn vacuum_into_sql(target: &str) -> (r: String)
    ensures
        r@ == vacuum_into_prefix() + sql_quoted(target@) + seq!['\''],
{
    let v = crate::text::str_chars(target);
    let mut r = String::new();
    let pre = "VACUUM INTO '";
    proof {
        reveal_strlit("VACUUM INTO '");
        assert(pre@ =~= vacuum_into_prefix());
    }
    r.append(pre);
    let ghost r0 = r@;
    let mut i: usize = 0;
    while i < v.len()
        invariant
            i <= v.len(),
            v@ == target@,
            r0 == vacuum_into_prefix(),
            r@ == r0 + sql_quoted(v@.take(i as int)),
        decreases v.len() - i,
    {
        proof {
            lemma_sql_quoted_push(v@.take(i as int), v@[i as int]);
            assert(v@.take(i + 1) =~= v@.take(i as int).push(v@[i as int]));
        }
        if v[i] == '\'' {
            push_char(&mut r, '\'');
            push_char(&mut r, '\'');
            assert(r@ =~= r0 + sql_quoted(v@.take(i as int)) + seq!['\'', '\'']);
        } else {
            push_char(&mut r, v[i]);
            assert(r@ =~= r0 + sql_quoted(v@.take(i as int)) + seq![v@[i as int]]);
        }
        i = i + 1;
    }
    assert(v@.take(v.len() as int) =~= v@);
    push_char(&mut r, '\'');
    r
}

proof fn lemma_sql_quoted_push(s: Seq<char>, c: char)
    ensures
        sql_quoted(s.push(c)) == sql_quoted(s) + (if c == '\'' {
            seq!['\'', '\'']
        } else {
            seq![c]
        }),
    decreases s.len(),
{
    if s.len() == 0 {
        assert(s.push(c).drop_first() =~= Seq::<char>::empty());
        assert(sql_quoted(Seq::<char>::empty()) =~= Seq::<char>::empty());
        assert(s =~= Seq::<char>::empty());
        assert(sql_quoted(s.push(c)) =~= sql_quoted(s) + (if c == '\'' {
            seq!['\'', '\'']
        } else {
            seq![c]
        }));
    } else {
        lemma_sql_quoted_push(s.drop_first(), c);
        assert(s.push(c).drop_first() =~= s.drop_first().push(c));
        assert(sql_quoted(s.push(c)) =~= sql_quoted(s) + (if c == '\'' {
            seq!['\'', '\'']
        } else {
            seq![c]
        }));
    }
}

/// The two entries of a backup of `db` and `key`.
pub open spec fn backup_entries(db: Seq<u8>, key: Seq<u8>) -> Seq<(Seq<char>, Seq<u8>)> {
    seq![(entry_db_chars(), db), (entry_key_chars(), key)]
}

/// The archive bytes of a backup: the database entry, the key entry, and
/// the end-of-archive marker.
pub fn backup_archive(db_bytes: &[u8], key_bytes: &[u8]) -> (r: Vec<u8>)
    ensures
        r@ == archive(backup_entries(db_bytes@, key_bytes@)),
{
    let mut out: Vec<u8> = Vec::new();
    proof {
        reveal_strlit("sui-id.sqlite");
        reveal_strlit("sui-id.key");
        assert(ENTRY_DB@ =~= entry_db_chars());
        assert(ENTRY_KEY@ =~= entry_key_chars());
        lemma_entry_names_encoding();
    }
    let r1 = write_tar_entry(&mut out, ENTRY_DB, db_bytes);
    let r2 = write_tar_entry(&mut out, ENTRY_KEY, key_bytes);
    write_tar_terminator(&mut out);
    proof {
        let es = backup_entries(db_bytes@, key_bytes@);
        let e1 = es.drop_first();
        let e2 = e1.drop_first();
        assert(e2 =~= Seq::<(Seq<char>, Seq<u8>)>::empty());
        assert(crate::tar::entries_bytes(e2) =~= Seq::<u8>::empty());
        assert(e1[0] == es[1]);
        assert(crate::tar::entries_bytes(e1) == crate::tar::entry_bytes(
            encode_utf8(entry_key_chars()),
            key_bytes@,
        ) + crate::tar::entries_bytes(e2));
        assert(crate::tar::entries_bytes(es) == crate::tar::entry_bytes(
            encode_utf8(entry_db_chars()),
            db_bytes@,
        ) + crate::tar::entries_bytes(e1));
        assert(out@ =~= archive(es));
    }
    out
}

/// The entry names are short ASCII strings: their UTF-8 encodings are
/// under 100 bytes and hold no NUL.
proof fn lemma_entry_names_encoding()
    ensures
        encode_utf8(entry_db_chars()).len() < 100,
        forall|i: int|
            0 <= i < encode_utf8(entry_db_chars()).len() ==> encode_utf8(entry_db_chars())[i] != 0,
        encode_utf8(entry_key_chars()).len() < 100,
        forall|i: int|
            0 <= i < encode_utf8(entry_key_chars()).len() ==> encode_utf8(entry_key_chars())[i]
                != 0,
{
    lemma_ascii_name(entry_db_chars());
    lemma_ascii_name(entry_key_chars());
}

proof fn lemma_ascii_name(n: Seq<char>)
    requires
        n.len() < 100,
        forall|i: int| 0 <= i < n.len() ==> '\u{1}' <= #[trigger] n[i] <= '\u{7f}',
    ensures
        encode_utf8(n).len() < 100,
        forall|i: int| 0 <= i < encode_utf8(n).len() ==> encode_utf8(n)[i] != 0,
{
    assert(vstd::utf8::is_ascii_chars(n));
    vstd::utf8::is_ascii_chars_encode_utf8(n);
    assert forall|i: int| 0 <= i < encode_utf8(n).len() implies encode_utf8(n)[i] != 0 by {
        assert(n[i] as u8 == encode_utf8(n)[i]);
        let c = n[i];
        assert(1 <= (c as u32) <= 127);
    }
}

/// Data of the first entry named `name`.
pub open spec fn find_entry(es: Seq<(Seq<char>, Seq<u8>)>, name: Seq<char>) -> Option<Seq<u8>>
    decreases es.len(),
{
    if es.len() == 0 {
        None
    } else if es[0].0 == name {
        Some(es[0].1)
    } else {
        find_entry(es.drop_first(), name)
    }
}

/// The outcome of a restore from an archive, before any file is written.
pub open spec fn restore_outcome(
    archive_bytes: Seq<u8>,
    force: bool,
    db_exists: bool,
    key_exists: bool,
) -> Result<(Seq<u8>, Seq<u8>), RestoreError> {
    match parse_tar(archive_bytes) {
        Err(e) => Err(RestoreError::Archive(e)),
        Ok(es) => match find_entry(es, entry_db_chars()) {
            None => Err(RestoreError::MissingDatabaseEntry),
            Some(db) => match find_entry(es, entry_key_chars()) {
                None => Err(RestoreError::MissingKeyEntry),
                Some(key) => if !force && db_exists {
                    Err(RestoreError::DatabaseExists)
                } else if !force && key_exists {
                    Err(RestoreError::KeyFileExists)
                } else {
                    Ok((db, key))
                },
            },
        },
    }
}

/// Data of the first entry named `name`, by index into `es`.
fn find_entry_exec(es: &Vec<(String, Vec<u8>)>, name: &str) -> (r: Option<usize>)
    ensures
        match r {
            Some(i) => i < es@.len() && find_entry(crate::tar::entries_view(es@), name@) == Some(
                es@[i as int].1@,
            ),
            None => find_entry(crate::tar::entries_view(es@), name@) is None,
        },
{
    let ghost ev = crate::tar::entries_view(es@);
    let mut i: usize = 0;
    assert(ev.skip(0) =~= ev);
    while i < es.len()
        invariant
            i <= es@.len(),
            ev == crate::tar::entries_view(es@),
            find_entry(ev, name@) == find_entry(ev.skip(i as int), name@),
        decreases es@.len() - i,
    {
        assert(ev.skip(i as int)[0] == (es@[i as int].0@, es@[i as int].1@));
        if str_eq(es[i].0.as_str(), name) {
            return Some(i);
        }
        assert(ev.skip(i as int).drop_first() =~= ev.skip(i + 1));
        i = i + 1;
    }
    None
}

/// Decide a restore: read the archive, find both entries, and refuse to
/// overwrite an existing database or key file unless `force` is set.
/// Returns the database and key bytes to write.
pub fn restore_plan(archive_bytes: &[u8], force: bool, db_exists: bool, key_exists: bool) -> (r:
    Result<(Vec<u8>, Vec<u8>), RestoreError>)
    ensures
        match r {
            Ok((db, key)) => restore_outcome(archive_bytes@, force, db_exists, key_exists) == Ok::<
                (Seq<u8>, Seq<u8>),
                RestoreError,
            >((db@, key@)),
            Err(e) => restore_outcome(archive_bytes@, force, db_exists, key_exists) == Err::<
                (Seq<u8>, Seq<u8>),
                RestoreError,
            >(e),
        },
{
    let entries = match read_tar(archive_bytes) {
        Ok(es) => es,
        Err(e) => {
            return Err(RestoreError::Archive(e));
        },
    };
    proof {
        reveal_strlit("sui-id.sqlite");
        reveal_strlit("sui-id.key");
        assert(ENTRY_DB@ =~= entry_db_chars());
        assert(ENTRY_KEY@ =~= entry_key_chars());
    }
    let di = match find_entry_exec(&entries, ENTRY_DB) {
        Some(i) => i,
        None => {
            return Err(RestoreError::MissingDatabaseEntry);
        },
    };
    let ki = match find_entry_exec(&entries, ENTRY_KEY) {
        Some(i) => i,
        None => {
            return Err(RestoreError::MissingKeyEntry);
        },
    };
    if !force {
        if db_exists {
            return Err(RestoreError::DatabaseExists);
        }
        if key_exists {
            return Err(RestoreError::KeyFileExists);
        }
    }
    let db = entries[di].1.clone();
    let key = entries[ki].1.clone();
    Ok((db, key))
}

/// A backup restores to exactly the database and key it was taken from,
/// whenever the destination is free or the restore is forced.
pub proof fn lemma_backup_restore_roundtrip(
    db: Seq<u8>,
    key: Seq<u8>,
    force: bool,
    db_exists: bool,
    key_exists: bool,
)
    requires
        db.len() < pow8(11),
        key.len() < pow8(11),
        force || (!db_exists && !key_exists),
    ensures
        restore_outcome(archive(backup_entries(db, key)), force, db_exists, key_exists) == Ok::<
            (Seq<u8>, Seq<u8>),
            RestoreError,
        >((db, key)),
{
    let es = backup_entries(db, key);
    lemma_entry_names_encoding();
    assert(storable(es[0]));
    assert(storable(es[1]));
    crate::tar::lemma_tar_roundtrip(es);
    assert(es.drop_first()[0] == es[1]);
    assert(entry_key_chars() != entry_db_chars()) by {
        assert(entry_key_chars()[7] != entry_db_chars()[7]);
    }
    assert(find_entry(es, entry_db_chars()) == Some(db));
    assert(find_entry(es.drop_first(), entry_key_chars()) == Some(key));
    assert(find_entry(es, entry_key_chars()) == Some(key));
}

/// Without `force`, a restore never overwrites: if a database or key file
/// is already in place, it is refused whatever the archive holds.
pub proof fn lemma_restore_never_clobbers(archive_bytes: Seq<u8>, db_exists: bool, key_exists: bool)
    requires
        db_exists || key_exists,
    ensures
        restore_outcome(archive_bytes, false, db_exists, key_exists) is Err,
{
}

} // verus!
