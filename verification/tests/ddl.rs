use extenddb_storage::catalog::{index_type_from_text, IndexType};
use extenddb_storage::ddl::{data_table_ddl, drop_table_ddl, index_order_ddl, index_table_ddl};
use extenddb_storage::index_rows::{backfill_next_offset, backfill_select_sql};
use extenddb_storage::types::ScalarAttributeType::{B, N, S};

#[test]
fn data_table_without_sort_key() {
    assert_eq!(
        data_table_ddl("\"t1\"", &vec![]),
        "CREATE TABLE \"t1\" (\n                    pk TEXT NOT NULL PRIMARY KEY,\n                    item_data JSONB NOT NULL\n                )"
    );
}

#[test]
fn data_table_with_one_sort_key() {
    assert_eq!(
        data_table_ddl("t", &vec![N]),
        "CREATE TABLE t (\n                    pk TEXT NOT NULL,\n                    sk_s TEXT,\n                    sk_n NUMERIC,\n                    sk_b BYTEA,\n                    item_data JSONB NOT NULL,\n                    PRIMARY KEY (pk, sk_n)\n                )"
    );
}

#[test]
fn data_table_with_several_sort_keys() {
    assert_eq!(
        data_table_ddl("t", &vec![S, B]),
        "CREATE TABLE t (\n    pk TEXT NOT NULL,\n    sk_s TEXT,\n    sk_n NUMERIC,\n    sk_b BYTEA,\n    sk2_s TEXT,\n    sk2_n NUMERIC,\n    sk2_b BYTEA,\n    item_data JSONB NOT NULL,\n    PRIMARY KEY (pk, sk_s, sk2_b)\n)"
    );
}

#[test]
fn index_tables_key_each_base_item_once() {
    assert_eq!(
        index_table_ddl("i", 1, &vec![S]),
        "CREATE TABLE i (\n    pk TEXT NOT NULL,\n    sk_s TEXT,\n    sk_n NUMERIC,\n    sk_b BYTEA,\n    base_pk TEXT NOT NULL,\n    base_sk_s TEXT,\n    base_sk_n NUMERIC,\n    base_sk_b BYTEA,\n    item_data JSONB NOT NULL,\n    PRIMARY KEY (pk, base_pk, base_sk_s)\n)"
    );
    assert_eq!(
        index_table_ddl("i", 0, &vec![]),
        "CREATE TABLE i (\n    pk TEXT NOT NULL,\n    base_pk TEXT NOT NULL,\n    item_data JSONB NOT NULL,\n    PRIMARY KEY (pk, base_pk)\n)"
    );
}

#[test]
fn index_ordering_and_dropping() {
    assert_eq!(
        index_order_ddl("i", &vec![N], &vec![S, S]).unwrap(),
        "CREATE INDEX ON i (pk, sk_n, base_pk, base_sk_s, base_sk2_s)"
    );
    assert_eq!(index_order_ddl("i", &vec![], &vec![S]), None);
    assert_eq!(drop_table_ddl("t"), "DROP TABLE IF EXISTS t");
}

#[test]
fn index_types_read_back() {
    assert_eq!(index_type_from_text("GSI").unwrap(), IndexType::Gsi);
    assert_eq!(index_type_from_text("LSI").unwrap(), IndexType::Lsi);
    assert_eq!(index_type_from_text("VEC").unwrap_err().message(), "unknown index type in database: VEC");
}

#[test]
fn backfills_go_on_after_full_batches() {
    assert_eq!(
        backfill_select_sql("b"),
        "SELECT item_data FROM b ORDER BY pk, sk_s, sk_n, sk_b LIMIT $1 OFFSET $2"
    );
    assert_eq!(backfill_next_offset(0, 500), Some(500));
    assert_eq!(backfill_next_offset(500, 499), None);
    assert_eq!(backfill_next_offset(500, 0), None);
}
