use extenddb_storage::catalog::{check_base_table_only, create_table_error};
use extenddb_storage::catalog::{
    check_deletion_protection, check_no_op_update, effective_billing_mode, has_billing_summary,
    require_active, table_status_from_text, BillingMode, CurrentBilling, ProvisionedThroughput,
    TableStatus,
};
use extenddb_storage::error::StorageError;

#[test]
fn table_statuses_read_back_from_their_text() {
    for t in [TableStatus::Creating, TableStatus::Updating, TableStatus::Deleting, TableStatus::Active] {
        assert_eq!(table_status_from_text(t.as_text()).unwrap(), t);
    }
    let err = table_status_from_text("ARCHIVED").unwrap_err();
    assert_eq!(err.message(), "unknown table status in database: ARCHIVED");
    assert!(table_status_from_text("active").is_err());
}

#[test]
fn billing_modes_and_summaries() {
    assert_eq!(BillingMode::Provisioned.as_text(), "PROVISIONED");
    assert_eq!(BillingMode::PayPerRequest.as_text(), "PAY_PER_REQUEST");
    assert_eq!(effective_billing_mode(None), BillingMode::Provisioned);
    assert_eq!(effective_billing_mode(Some(BillingMode::PayPerRequest)), BillingMode::PayPerRequest);
    assert!(has_billing_summary("PAY_PER_REQUEST"));
    assert!(!has_billing_summary("PROVISIONED"));
}

#[test]
fn only_active_tables_accept_updates() {
    assert!(require_active("ACTIVE", "T").is_ok());
    match require_active("CREATING", "T") {
        Err(StorageError::TableNotActive(n)) => assert_eq!(n, "T"),
        other => panic!("unexpected {other:?}"),
    }
}

#[test]
fn deletion_protection_refuses_the_delete() {
    assert!(check_deletion_protection(false, "arn:t").is_ok());
    match check_deletion_protection(true, "arn:t") {
        Err(StorageError::DeletionProtected(a)) => assert_eq!(a, "arn:t"),
        other => panic!("unexpected {other:?}"),
    }
}

fn current(mode: Option<&str>, r: i64, w: i64) -> CurrentBilling {
    CurrentBilling { billing_mode: mode.map(|m| m.to_string()), read_capacity_units: r, write_capacity_units: w }
}

#[test]
fn an_update_to_the_same_throughput_is_rejected_with_both_values() {
    let pt = ProvisionedThroughput { read_capacity_units: 5, write_capacity_units: 10 };
    let cur = current(Some("PROVISIONED"), 5, 10);
    let err = check_no_op_update(Some(BillingMode::Provisioned), Some(pt), Some(&cur)).unwrap_err();
    assert!(matches!(err, StorageError::NoOpUpdate(_)));
    assert_eq!(
        err.message(),
        "The provisioned throughput for the table will not change. The requested value equals the current value. \
         Current ReadCapacityUnits provisioned for the table: 5. Requested ReadCapacityUnits: 5. \
         Current WriteCapacityUnits provisioned for the table: 10. Requested WriteCapacityUnits: 10."
    );
    // A table with no stored billing mode counts as provisioned.
    assert!(check_no_op_update(Some(BillingMode::Provisioned), Some(pt), Some(&current(None, 5, 10))).is_err());
}

#[test]
fn a_real_change_passes_the_no_op_check() {
    let pt = ProvisionedThroughput { read_capacity_units: 5, write_capacity_units: 10 };
    assert!(check_no_op_update(Some(BillingMode::Provisioned), Some(pt), Some(&current(Some("PROVISIONED"), 5, 11))).is_ok());
    assert!(check_no_op_update(Some(BillingMode::Provisioned), Some(pt), Some(&current(Some("PAY_PER_REQUEST"), 5, 10))).is_ok());
    assert!(check_no_op_update(Some(BillingMode::PayPerRequest), Some(pt), Some(&current(Some("PROVISIONED"), 5, 10))).is_ok());
    assert!(check_no_op_update(None, Some(pt), Some(&current(Some("PROVISIONED"), 5, 10))).is_ok());
    assert!(check_no_op_update(Some(BillingMode::Provisioned), None, Some(&current(Some("PROVISIONED"), 5, 10))).is_ok());
    assert!(check_no_op_update(Some(BillingMode::Provisioned), Some(pt), None).is_ok());
}

#[test]
fn negative_capacities_render_with_their_sign() {
    let pt = ProvisionedThroughput { read_capacity_units: -1, write_capacity_units: i64::MIN };
    let err = check_no_op_update(Some(BillingMode::Provisioned), Some(pt), Some(&current(None, -1, i64::MIN))).unwrap_err();
    assert!(err.message().contains("Requested ReadCapacityUnits: -1."));
    assert!(err.message().ends_with("Requested WriteCapacityUnits: -9223372036854775808."));
}

#[test]
fn base_table_only_backends_refuse_indexes() {
    assert!(check_base_table_only(None, Some(0), None).is_ok());
    let err = check_base_table_only(Some(1), None, None).unwrap_err();
    assert_eq!(err.message(), "secondary and vector indexes are not supported by the browser/WASM backend");
    assert!(check_base_table_only(None, None, Some(2)).is_err());
    assert!(matches!(create_table_error(true, "T", "x".into()), StorageError::TableAlreadyExists(n) if n == "T"));
    assert!(matches!(create_table_error(false, "T", "disk".into()), StorageError::Internal(m) if m == "disk"));
}
