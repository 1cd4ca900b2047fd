use extenddb_storage::backup::{
    backup_arn, backup_not_found, pitr_status, restore_insert_sql, restored_billing_mode, restored_throughput,
    snapshot_select_sql, table_not_found,
};
use extenddb_storage::catalog::BillingMode;
use extenddb_storage::error::StorageError;

#[test]
fn backup_arns_carry_the_millisecond_timestamp() {
    assert_eq!(
        backup_arn("us-east-1", "123456789012", "T", 1_700_000_000_123),
        "arn:aws:dynamodb:us-east-1:123456789012:table/T/backup/1700000000123"
    );
    assert_eq!(backup_arn("r", "a", "t", u128::MAX), format!("arn:aws:dynamodb:r:a:table/t/backup/{}", u128::MAX));
}

#[test]
fn missing_backups_and_tables_are_reported() {
    assert!(matches!(backup_not_found("arn:b"), StorageError::Validation(m) if m == "Backup not found: arn:b"));
    assert!(matches!(table_not_found("T"), StorageError::TableNotFound(m) if m == "Table not found: T"));
}

#[test]
fn restored_tables_keep_on_demand_billing() {
    assert_eq!(restored_billing_mode("PAY_PER_REQUEST"), BillingMode::PayPerRequest);
    assert_eq!(restored_billing_mode("PROVISIONED"), BillingMode::Provisioned);
    assert_eq!(restored_billing_mode(""), BillingMode::Provisioned);
    let pt = restored_throughput();
    assert_eq!((pt.read_capacity_units, pt.write_capacity_units), (5, 5));
}

#[test]
fn backup_statements() {
    assert_eq!(snapshot_select_sql("d1", true), "SELECT pk, sk, item_data FROM d1");
    assert_eq!(snapshot_select_sql("d1", false), "SELECT pk, item_data FROM d1");
    assert_eq!(restore_insert_sql("d2", true), "INSERT INTO d2 (pk, sk, item_data) VALUES ($1, $2, $3)");
    assert_eq!(restore_insert_sql("d2", false), "INSERT INTO d2 (pk, item_data) VALUES ($1, $2)");
    assert_eq!(pitr_status(true), "ENABLED");
    assert_eq!(pitr_status(false), "DISABLED");
}
