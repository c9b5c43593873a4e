use local_store::migrate::{ensure_current, parse_version, SchemaState};
use local_store::schema::{get_all_schemas, DB_VERSION, TABLE_NAMES};

#[test]
fn fresh_store_reaches_target_version() {
    let mut s = SchemaState::new();
    assert_eq!(s.version, 0);
    ensure_current(&mut s);
    assert_eq!(s.version, DB_VERSION);
    // The metadata relation plus one relation per entity kind.
    assert_eq!(s.tables.len(), 9);
    assert_eq!(s.tables[0], "_metadata");
    for (i, name) in TABLE_NAMES.iter().enumerate() {
        assert_eq!(s.tables[i + 1], *name);
    }
}

#[test]
fn migration_twice_is_identical() {
    let mut s = SchemaState::new();
    ensure_current(&mut s);
    let version_once = s.version;
    let tables_once = s.tables.clone();
    ensure_current(&mut s);
    assert_eq!(s.version, version_once);
    assert_eq!(s.tables, tables_once);
}

#[test]
fn migration_preserves_existing_tables() {
    let mut s = SchemaState::new();
    s.tables.push("legacy".to_string());
    ensure_current(&mut s);
    assert!(s.tables.contains(&"legacy".to_string()));
    assert!(s.tables.contains(&"notes".to_string()));
    assert_eq!(s.tables.len(), 10);
}

#[test]
fn current_store_is_left_untouched() {
    let mut s = SchemaState::new();
    s.version = DB_VERSION;
    ensure_current(&mut s);
    assert_eq!(s.version, DB_VERSION);
    assert_eq!(s.tables.len(), 0);
}

#[test]
fn parse_version_reads_digit_runs() {
    assert_eq!(parse_version(None), 0);
    assert_eq!(parse_version(Some(&"".to_string())), 0);
    assert_eq!(parse_version(Some(&"1".to_string())), 1);
    assert_eq!(parse_version(Some(&"42".to_string())), 42);
    assert_eq!(parse_version(Some(&"007".to_string())), 7);
    assert_eq!(parse_version(Some(&"abc".to_string())), 0);
    assert_eq!(parse_version(Some(&"4a2".to_string())), 0);
    assert_eq!(parse_version(Some(&"-3".to_string())), 0);
    assert_eq!(parse_version(Some(&"18446744073709551615".to_string())), u64::MAX);
    // One past the largest representable version is malformed.
    assert_eq!(parse_version(Some(&"18446744073709551616".to_string())), 0);
}

#[test]
fn schema_registry_lists_every_relation() {
    let schemas = get_all_schemas();
    assert_eq!(schemas.len(), 9);
    assert!(schemas[0].contains("_metadata"));
    for (i, name) in TABLE_NAMES.iter().enumerate() {
        assert!(schemas[i + 1].contains(name));
        assert!(schemas[i + 1].contains("CREATE TABLE IF NOT EXISTS"));
        assert!(schemas[i + 1].contains("sync_status"));
    }
}
