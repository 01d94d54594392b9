use sui_id::migrations::{
    current_schema_version, migration_file, needs_fk_disable, parse_i32_value, pending_migrations,
    MAX_SCHEMA_VERSION,
};

#[test]
fn pending_versions() {
    assert_eq!(pending_migrations(0, MAX_SCHEMA_VERSION), (1..=22).collect::<Vec<i32>>());
    assert_eq!(pending_migrations(20, MAX_SCHEMA_VERSION), vec![21, 22]);
    assert!(pending_migrations(22, MAX_SCHEMA_VERSION).is_empty());
    assert!(pending_migrations(30, MAX_SCHEMA_VERSION).is_empty());
    assert_eq!(pending_migrations(3, 5), vec![4, 5]);
    assert_eq!(pending_migrations(-4, 2), vec![1, 2]);
    assert!(pending_migrations(5, 99).len() == 17);
}

#[test]
fn files() {
    assert_eq!(migration_file(1), Some("0001_initial.sql"));
    assert_eq!(migration_file(22), Some("0022_boolean_checks.sql"));
    assert_eq!(migration_file(0), None);
    assert_eq!(migration_file(23), None);
}

#[test]
fn stored_version() {
    assert_eq!(current_schema_version(None), 0);
    assert_eq!(current_schema_version(Some("17")), 17);
    assert_eq!(current_schema_version(Some("x")), 0);
    assert_eq!(current_schema_version(Some("-3")), -3);
}

#[test]
fn i32_parsing_matches_std() {
    for t in ["0", "-0", "+5", "-2147483648", "2147483647", "2147483648", "-2147483649", "", "-", "+", "1-", " 3"] {
        assert_eq!(parse_i32_value(t), t.parse::<i32>().ok(), "input {:?}", t);
    }
}

#[test]
fn fk_marker() {
    assert!(needs_fk_disable("-- MIGRATION:FK_DISABLE_REQUIRED\nCREATE TABLE x(a);"));
    assert!(needs_fk_disable("\n  -- MIGRATION:FK_DISABLE_REQUIRED"));
    assert!(!needs_fk_disable("CREATE TABLE x(a);\n-- MIGRATION:FK_DISABLE_REQUIRED"));
    assert!(!needs_fk_disable("-- MIGRATION:FK_DISABLE"));
    assert!(!needs_fk_disable(""));
}
