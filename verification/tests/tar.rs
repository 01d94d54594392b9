use sui_id::backup::{
    backup_archive, backup_preflight, restore_plan, vacuum_into_sql, BackupError, BackupOptions,
    RestoreError, RestoreOptions, ENTRY_DB, ENTRY_KEY,
};
use sui_id::tar::{read_octal, read_tar, write_octal, write_tar_entry, write_tar_terminator, TarError};

#[test]
fn tar_round_trip_two_entries() {
    let mut f: Vec<u8> = Vec::new();
    write_tar_entry(&mut f, "a", b"hello").unwrap();
    write_tar_entry(&mut f, "b", b"world!!!").unwrap();
    write_tar_terminator(&mut f);
    let entries = read_tar(&f).unwrap();
    assert_eq!(entries.len(), 2);
    assert_eq!(entries[0].0, "a");
    assert_eq!(entries[0].1, b"hello");
    assert_eq!(entries[1].0, "b");
    assert_eq!(entries[1].1, b"world!!!");
}

fn sample_backup() -> Vec<u8> {
    let mut f: Vec<u8> = Vec::new();
    write_tar_entry(&mut f, ENTRY_DB, b"db-bytes").unwrap();
    write_tar_entry(&mut f, ENTRY_KEY, b"key-bytes").unwrap();
    write_tar_terminator(&mut f);
    f
}

#[test]
fn restore_refuses_to_overwrite_without_force() {
    let archive = sample_backup();
    // db & key already exist, so restore must refuse.
    let r = restore_plan(&archive, false, true, true);
    assert!(r.is_err(), "expected refusal to overwrite without --force");
    // With --force, it succeeds.
    let (db, key) = restore_plan(&archive, true, true, true).expect("force restore");
    assert_eq!(db, b"db-bytes");
    assert_eq!(key, b"key-bytes");
}

#[test]
fn restore_creates_files_when_destinations_dont_exist() {
    let archive = sample_backup();
    let (db, key) = restore_plan(&archive, false, false, false).expect("restore");
    assert_eq!(db, b"db-bytes");
    assert_eq!(key, b"key-bytes");
}

#[test]
fn restore_errors_name_the_reason() {
    let archive = sample_backup();
    assert_eq!(restore_plan(&archive, false, true, false), Err(RestoreError::DatabaseExists));
    assert_eq!(restore_plan(&archive, false, false, true), Err(RestoreError::KeyFileExists));
    let mut only_db: Vec<u8> = Vec::new();
    write_tar_entry(&mut only_db, ENTRY_DB, b"x").unwrap();
    write_tar_terminator(&mut only_db);
    assert_eq!(restore_plan(&only_db, true, false, false), Err(RestoreError::MissingKeyEntry));
    let mut only_key: Vec<u8> = Vec::new();
    write_tar_entry(&mut only_key, ENTRY_KEY, b"x").unwrap();
    write_tar_terminator(&mut only_key);
    assert_eq!(restore_plan(&only_key, true, false, false), Err(RestoreError::MissingDatabaseEntry));
    assert_eq!(restore_plan(&[], true, false, false), Err(RestoreError::Archive(TarError::NoEntries)));
}

#[test]
fn backup_archive_restores_byte_for_byte() {
    let key = b"AAAAAAAAAAAAAAAAAAAAAAAAAAAAAAAAAAAAAAAAAAA=";
    let db: Vec<u8> = (0..1500u32).map(|i| (i % 251) as u8).collect();
    let archive = backup_archive(&db, key);
    assert_eq!(archive.len() % 512, 0);
    let (db2, key2) = restore_plan(&archive, false, false, false).unwrap();
    assert_eq!(db2, db);
    assert_eq!(key2, key.to_vec());
}

#[test]
fn backup_preflight_order() {
    assert_eq!(backup_preflight(true, false, false), Err(BackupError::DestinationExists));
    assert_eq!(backup_preflight(false, false, true), Err(BackupError::DatabaseMissing));
    assert_eq!(backup_preflight(false, true, false), Err(BackupError::KeyFileMissing));
    assert_eq!(backup_preflight(false, true, true), Ok(()));
}

#[test]
fn vacuum_statement_quotes_the_path() {
    assert_eq!(vacuum_into_sql("/tmp/a.sqlite"), "VACUUM INTO '/tmp/a.sqlite'");
    assert_eq!(vacuum_into_sql("/tmp/it's"), "VACUUM INTO '/tmp/it''s'");
}

#[test]
fn octal_fields_round_trip() {
    let mut buf = [0u8; 12];
    write_octal(&mut buf, 1234567);
    assert_eq!(&buf, b"00004553207\0");
    assert_eq!(read_octal(&buf), Ok(1234567));
    let mut mode = [0u8; 8];
    write_octal(&mut mode, 0o600);
    assert_eq!(&mode, b"0000600\0");
    assert_eq!(read_octal(b"12 "), Ok(0o12));
    assert_eq!(read_octal(b"9"), Err(TarError::InvalidOctal));
}

#[test]
fn tar_name_too_long_is_refused_and_leaves_output() {
    let mut out = vec![1u8, 2, 3];
    let name = "n".repeat(100);
    assert_eq!(write_tar_entry(&mut out, &name, b"x"), Err(TarError::NameTooLong));
    assert_eq!(out, vec![1u8, 2, 3]);
    let ok_name = "n".repeat(99);
    assert!(write_tar_entry(&mut out, &ok_name, b"x").is_ok());
}

#[test]
fn read_tar_errors() {
    assert_eq!(read_tar(&[0u8; 1024]), Err(TarError::NoEntries));
    let mut f: Vec<u8> = Vec::new();
    write_tar_entry(&mut f, "a", &[7u8; 600]).unwrap();
    f.truncate(700);
    assert_eq!(read_tar(&f), Err(TarError::Truncated));
}

#[test]
fn option_defaults() {
    let b = BackupOptions::default();
    assert!(b.passphrase.is_none());
    let r = RestoreOptions::default();
    assert!(!r.force);
    assert!(r.passphrase.is_none());
}

#[test]
fn read_tar_reports_bad_headers() {
    let mut f: Vec<u8> = Vec::new();
    write_tar_entry(&mut f, "a", b"x").unwrap();
    write_tar_terminator(&mut f);
    let mut bad_name = f.clone();
    bad_name[0] = 0xff;
    assert_eq!(read_tar(&bad_name), Err(TarError::NameNotUtf8));
    let mut bad_size = f.clone();
    bad_size[124] = b'9';
    assert_eq!(read_tar(&bad_size), Err(TarError::InvalidOctal));
    assert_eq!(restore_plan(&bad_size, true, false, false), Err(RestoreError::Archive(TarError::InvalidOctal)));
}

#[test]
fn octal_fields_of_any_length() {
    let mut wide = [0u8; 30];
    write_octal(&mut wide, 0o17);
    assert_eq!(read_octal(&wide), Ok(0o17));
    let max = b"1777777777777777777777";
    assert_eq!(read_octal(max), Ok(u64::MAX));
    let over = b"2000000000000000000000";
    assert_eq!(read_octal(over), Err(TarError::InvalidOctal));
}

#[test]
fn bytes_after_the_terminator_are_ignored() {
    let mut f: Vec<u8> = Vec::new();
    write_tar_entry(&mut f, "a", b"hello").unwrap();
    write_tar_terminator(&mut f);
    let plain = read_tar(&f).unwrap();
    f.extend_from_slice(b"trailing garbage that is not a header");
    assert_eq!(read_tar(&f).unwrap(), plain);
}
