use mysql2pg_middleware::executor::{
    column_kind, extract_insert_table_name, find_last_insert_id_update_target, ColumnKind, PgParam,
};
use tokio_postgres::types::Type;

#[test]
fn rewrites_matomo_sequence_last_insert_id_update() {
    // The exact SQL Matomo's Sequence::getNextId() issues.
    let sql = "UPDATE matomo_sequence SET value = LAST_INSERT_ID(value + 1) WHERE name = ?";
    let (column, wrapped) = find_last_insert_id_update_target(sql).expect("should detect LAST_INSERT_ID target");
    assert_eq!(column, "value");
    assert!(wrapped.contains("UPDATE matomo_sequence SET value = value + 1 WHERE name = ?"));
    assert!(wrapped.contains("RETURNING \"value\""));
    assert!(wrapped.contains("__mw_row_count__"));
    assert!(wrapped.contains("__mw_last_insert_id__"));
    assert!(!wrapped.contains("LAST_INSERT_ID"));
}

#[test]
fn does_not_misdetect_ordinary_updates() {
    assert!(find_last_insert_id_update_target("UPDATE matomo_option SET option_value = ? WHERE option_name = ?").is_none());
}

#[test]
fn extract_insert_table_name_supports_quoted_identifiers() {
    assert_eq!(
        extract_insert_table_name(r#"INSERT INTO "site" ("name") VALUES ($1)"#).as_deref(),
        Some("site")
    );
}

#[test]
fn extract_insert_table_name_supports_unquoted_identifiers() {
    assert_eq!(
        extract_insert_table_name("INSERT INTO site (name) VALUES ($1)").as_deref(),
        Some("site")
    );
}

#[test]
fn renders_every_type_matomo_reads_over_prepared_statements() {
    // Guards against the "<unrendered>" placeholder regression: over the extended
    // protocol these types arrive in binary form, and a type this function does
    // not decode is emitted as a placeholder that clients then try to parse as a
    // date. Each type here must have an explicit arm in `value_to_string`.
    for ty in [
        Type::TIMESTAMP,
        Type::TIMESTAMPTZ,
        Type::DATE,
        Type::TIME,
        Type::NUMERIC,
    ] {
        assert!(
            column_kind(ty.name()) != ColumnKind::Other,
            "{ty} falls through to the <unrendered> placeholder"
        );
    }
}

#[test]
fn binary_parameter_uses_postgres_bytea_binary_format() {
    let param = PgParam::Bytes(vec![0x2d, 0xf0, 0x86, 0x00, 0xf4]);
    let encoded = param.encode(true).unwrap();

    assert!(encoded.binary);
    assert_eq!(encoded.bytes, Some(vec![0x2d, 0xf0, 0x86, 0x00, 0xf4]));
}

#[test]
fn byte_parameter_remains_text_for_text_targets() {
    let param = PgParam::Bytes(b"Matomo".to_vec());
    let encoded = param.encode(false).unwrap();

    assert!(!encoded.binary);
    assert_eq!(encoded.bytes, Some(b"Matomo".to_vec()));
}
