//! On-demand backups: how a backup is named, what a restored table is
//! created with, and how continuous backups are reported.
use vstd::prelude::*;

use crate::catalog::{billing_mode_text, BillingMode, ProvisionedThroughput};
use crate::error::StorageError;
use crate::text::{decimal, push_decimal_u128, str_eq};

verus! {

/// The ARN of a backup of a table, taken at `millis` milliseconds after
/// the Unix epoch.
pub open spec fn spec_backup_arn(region: Seq<char>, account_id: Seq<char>, table_name: Seq<char>, millis: nat) -> Seq<
    char,
> {
    "arn:aws:dynamodb:"@ + region + ":"@ + account_id + ":table/"@ + table_name + "/backup/"@ + decimal(millis)
}

/// Returns the ARN of a backup of a table, taken at `millis` milliseconds
/// after the Unix epoch.
pub fn backup_arn(region: &str, account_id: &str, table_name: &str, millis: u128) -> (arn: String)
    ensures
        arn@ == spec_backup_arn(region@, account_id@, table_name@, millis as nat),
{
    let mut arn = "arn:aws:dynamodb:".to_owned();
    arn.append(region);
    arn.append(":");
    arn.append(account_id);
    arn.append(":table/");
    arn.append(table_name);
    arn.append("/backup/");
    push_decimal_u128(&mut arn, millis);
    arn
}

/// The text of the error for a backup that does not exist.
pub open spec fn backup_not_found_text(arn: Seq<char>) -> Seq<char> {
    "Backup not found: "@ + arn
}

/// The error for a backup that does not exist or is not available.
pub fn backup_not_found(arn: &str) -> (e: StorageError)
    ensures
        e matches StorageError::Validation(m) && m@ == backup_not_found_text(arn@),
{
    let mut m = "Backup not found: ".to_owned();
    m.append(arn);
    StorageError::Validation(m)
}

/// The text of the error for a table that does not exist.
pub open spec fn table_not_found_text(table_name: Seq<char>) -> Seq<char> {
    "Table not found: "@ + table_name
}

/// The error for a table that does not exist.
pub fn table_not_found(table_name: &str) -> (e: StorageError)
    ensures
        e matches StorageError::TableNotFound(m) && m@ == table_not_found_text(table_name@),
{
    let mut m = "Table not found: ".to_owned();
    m.append(table_name);
    StorageError::TableNotFound(m)
}

/// The billing mode of a table restored from a backup: on-demand when the
/// backup stored it so, provisioned otherwise.
pub fn restored_billing_mode(stored: &str) -> (b: BillingMode)
    ensures
        b == if stored@ == billing_mode_text(BillingMode::PayPerRequest) {
            BillingMode::PayPerRequest
        } else {
            BillingMode::Provisioned
        },
{
    if str_eq(stored, "PAY_PER_REQUEST") {
        BillingMode::PayPerRequest
    } else {
        BillingMode::Provisioned
    }
}

/// The capacity a restored table is created with.
pub fn restored_throughput() -> (pt: ProvisionedThroughput)
    ensures
        pt.read_capacity_units == 5,
        pt.write_capacity_units == 5,
{
    ProvisionedThroughput { read_capacity_units: 5, write_capacity_units: 5 }
}

/// The statement that copies the rows of a table's data table into a
/// backup, with or without a sort key column.
pub fn snapshot_select_sql(data_table: &str, has_sk: bool) -> (sql: String)
    ensures
        sql@ == if has_sk {
            "SELECT pk, sk, item_data FROM "@ + data_table@
        } else {
            "SELECT pk, item_data FROM "@ + data_table@
        },
{
    let mut sql = if has_sk {
        "SELECT pk, sk, item_data FROM ".to_owned()
    } else {
        "SELECT pk, item_data FROM ".to_owned()
    };
    sql.append(data_table);
    sql
}

/// The statement that writes a backed-up row into a restored table, with
/// or without a sort key column.
pub fn restore_insert_sql(data_table: &str, has_sk: bool) -> (sql: String)
    ensures
        sql@ == if has_sk {
            "INSERT INTO "@ + data_table@ + " (pk, sk, item_data) VALUES ($1, $2, $3)"@
        } else {
            "INSERT INTO "@ + data_table@ + " (pk, item_data) VALUES ($1, $2)"@
        },
{
    let mut sql = "INSERT INTO ".to_owned();
    sql.append(data_table);
    if has_sk {
        sql.append(" (pk, sk, item_data) VALUES ($1, $2, $3)");
    } else {
        sql.append(" (pk, item_data) VALUES ($1, $2)");
    }
    sql
}

/// The point-in-time recovery status a table reports.
pub fn pitr_status(enabled: bool) -> (s: &'static str)
    ensures
        s@ == if enabled {
            "ENABLED"@
        } else {
            "DISABLED"@
        },
{
    if enabled {
        "ENABLED"
    } else {
        "DISABLED"
    }
}

} // verus!
