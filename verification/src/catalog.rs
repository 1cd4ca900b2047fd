//! Table catalog rules: the table status and billing mode as the catalog
//! stores them, and the checks that control-plane requests apply before
//! they change a table.
use vstd::prelude::*;

use crate::error::StorageError;
use crate::text::{push_signed_decimal, signed_decimal, str_eq};

verus! {

/// The lifecycle state of a table.
#[derive(PartialEq, Eq, Structural, Clone, Copy, Debug)]
pub enum TableStatus {
    Creating,
    Updating,
    Deleting,
    Active,
}

/// The text under which the catalog stores a table status.
pub open spec fn table_status_text(s: TableStatus) -> Seq<char> {
    match s {
        TableStatus::Creating => "CREATING"@,
        TableStatus::Updating => "UPDATING"@,
        TableStatus::Deleting => "DELETING"@,
        TableStatus::Active => "ACTIVE"@,
    }
}

/// The text of the error for a status the catalog does not know.
pub open spec fn unknown_status_message(s: Seq<char>) -> Seq<char> {
    "unknown table status in database: "@ + s
}

impl TableStatus {
    /// The text under which the catalog stores the status.
    pub fn as_text(&self) -> (r: &'static str)
        ensures
            r@ == table_status_text(*self),
    {
        match self {
            TableStatus::Creating => "CREATING",
            TableStatus::Updating => "UPDATING",
            TableStatus::Deleting => "DELETING",
            TableStatus::Active => "ACTIVE",
        }
    }
}

/// Reads a table status stored in the catalog. An unknown text is an
/// error, not a silent fallback.
pub fn table_status_from_text(s: &str) -> (r: Result<TableStatus, StorageError>)
    ensures
        match r {
            Ok(t) => table_status_text(t) == s@,
            Err(e) => {
                &&& forall|t: TableStatus| table_status_text(t) != s@
                &&& e matches StorageError::Internal(m) && m@ == unknown_status_message(s@)
            },
        },
{
    if str_eq(s, "ACTIVE") {
        Ok(TableStatus::Active)
    } else if str_eq(s, "CREATING") {
        Ok(TableStatus::Creating)
    } else if str_eq(s, "DELETING") {
        Ok(TableStatus::Deleting)
    } else if str_eq(s, "UPDATING") {
        Ok(TableStatus::Updating)
    } else {
        let mut m = "unknown table status in database: ".to_owned();
        m.append(s);
        Err(StorageError::Internal(m))
    }
}

/// Reading back the stored text of a status gives that status.
pub proof fn lemma_table_status_round_trip(t: TableStatus, u: TableStatus)
    requires
        table_status_text(t) == table_status_text(u),
    ensures
        t == u,
{
    reveal_strlit("CREATING");
    reveal_strlit("UPDATING");
    reveal_strlit("DELETING");
    reveal_strlit("ACTIVE");
    assert(table_status_text(t)[0] == table_status_text(u)[0]);
    assert(table_status_text(TableStatus::Creating)[0] == 'C');
    assert(table_status_text(TableStatus::Updating)[0] == 'U');
    assert(table_status_text(TableStatus::Deleting)[0] == 'D');
    assert(table_status_text(TableStatus::Active)[0] == 'A');
}

/// How a table is billed.
#[derive(PartialEq, Eq, Structural, Clone, Copy, Debug)]
pub enum BillingMode {
    Provisioned,
    PayPerRequest,
}

/// The text under which the catalog stores a billing mode.
pub open spec fn billing_mode_text(b: BillingMode) -> Seq<char> {
    match b {
        BillingMode::Provisioned => "PROVISIONED"@,
        BillingMode::PayPerRequest => "PAY_PER_REQUEST"@,
    }
}

impl BillingMode {
    /// The text under which the catalog stores the billing mode.
    pub fn as_text(&self) -> (r: &'static str)
        ensures
            r@ == billing_mode_text(*self),
    {
        match self {
            BillingMode::Provisioned => "PROVISIONED",
            BillingMode::PayPerRequest => "PAY_PER_REQUEST",
        }
    }
}

/// The billing mode a new table gets: the requested one, else provisioned.
pub fn effective_billing_mode(requested: Option<BillingMode>) -> (b: BillingMode)
    ensures
        b == match requested {
            Some(m) => m,
            None => BillingMode::Provisioned,
        },
{
    match requested {
        Some(m) => m,
        None => BillingMode::Provisioned,
    }
}

/// Whether a table description carries a billing-mode summary: only a
/// table stored as on-demand has one.
pub fn has_billing_summary(stored_billing_mode: &str) -> (r: bool)
    ensures
        r == (stored_billing_mode@ == billing_mode_text(BillingMode::PayPerRequest)),
{
    str_eq(stored_billing_mode, "PAY_PER_REQUEST")
}

/// A stored billing mode has a summary exactly when it is on-demand.
pub proof fn lemma_billing_summary_iff_on_demand(b: BillingMode)
    ensures
        (billing_mode_text(b) == billing_mode_text(BillingMode::PayPerRequest)) <==> b
            == BillingMode::PayPerRequest,
{
    reveal_strlit("PROVISIONED");
    reveal_strlit("PAY_PER_REQUEST");
    if b == BillingMode::Provisioned {
        assert(billing_mode_text(b)[1] != billing_mode_text(BillingMode::PayPerRequest)[1]);
    }
}

/// Rejects a request on a table that is not `ACTIVE`.
pub fn require_active(stored_status: &str, table_name: &str) -> (r: Result<(), StorageError>)
    ensures
        match r {
            Ok(()) => stored_status@ == table_status_text(TableStatus::Active),
            Err(e) => {
                &&& stored_status@ != table_status_text(TableStatus::Active)
                &&& e matches StorageError::TableNotActive(n) && n@ == table_name@
            },
        },
{
    if str_eq(stored_status, "ACTIVE") {
        Ok(())
    } else {
        Err(StorageError::TableNotActive(table_name.to_owned()))
    }
}

/// Rejects deleting a table that has deletion protection enabled.
pub fn check_deletion_protection(enabled: bool, table_arn: &str) -> (r: Result<(), StorageError>)
    ensures
        match r {
            Ok(()) => !enabled,
            Err(e) => {
                &&& enabled
                &&& e matches StorageError::DeletionProtected(a) && a@ == table_arn@
            },
        },
{
    if enabled {
        Err(StorageError::DeletionProtected(table_arn.to_owned()))
    } else {
        Ok(())
    }
}

/// Read and write capacity units.
#[derive(PartialEq, Eq, Structural, Clone, Copy, Debug)]
pub struct ProvisionedThroughput {
    pub read_capacity_units: i64,
    pub write_capacity_units: i64,
}

/// What the catalog holds of a table's current billing: its stored billing
/// mode, if any, and its capacity units (zero where none are stored).
pub struct CurrentBilling {
    pub billing_mode: Option<String>,
    pub read_capacity_units: i64,
    pub write_capacity_units: i64,
}

/// Whether the table is billed as provisioned: stored so, or with no stored
/// mode at all.
pub open spec fn current_is_provisioned(c: &CurrentBilling) -> bool {
    match c.billing_mode {
        Some(m) => m@ == billing_mode_text(BillingMode::Provisioned),
        None => true,
    }
}

/// Whether an update asks for provisioned billing with exactly the capacity
/// the table already has.
pub open spec fn is_no_op_update(
    billing: Option<BillingMode>,
    throughput: Option<ProvisionedThroughput>,
    current: Option<&CurrentBilling>,
) -> bool {
    &&& billing == Some(BillingMode::Provisioned)
    &&& throughput matches Some(pt)
    &&& current matches Some(c)
    &&& current_is_provisioned(c)
    &&& c.read_capacity_units == pt.read_capacity_units
    &&& c.write_capacity_units == pt.write_capacity_units
}

/// The description of a rejected no-op throughput update.
pub open spec fn no_op_message(cur_rcu: int, req_rcu: int, cur_wcu: int, req_wcu: int) -> Seq<char> {
    "The provisioned throughput for the table will not change. The requested value equals the current value. Current ReadCapacityUnits provisioned for the table: "@
        + signed_decimal(cur_rcu) + ". Requested ReadCapacityUnits: "@ + signed_decimal(req_rcu)
        + ". Current WriteCapacityUnits provisioned for the table: "@ + signed_decimal(cur_wcu)
        + ". Requested WriteCapacityUnits: "@ + signed_decimal(req_wcu) + "."@
}

/// Rejects an update that sets provisioned billing with the throughput the
/// table already has. `current` is what the catalog holds of the table, or
/// `None` when it holds no row for it.
pub fn check_no_op_update(
    billing: Option<BillingMode>,
    throughput: Option<ProvisionedThroughput>,
    current: Option<&CurrentBilling>,
) -> (r: Result<(), StorageError>)
    ensures
        match r {
            Ok(()) => !is_no_op_update(billing, throughput, current),
            Err(e) => {
                &&& is_no_op_update(billing, throughput, current)
                &&& e matches StorageError::NoOpUpdate(m) && m@ == no_op_message(
                    current.unwrap().read_capacity_units as int,
                    throughput.unwrap().read_capacity_units as int,
                    current.unwrap().write_capacity_units as int,
                    throughput.unwrap().write_capacity_units as int,
                )
            },
        },
        (throughput matches Some(pt) && current matches Some(c) && (pt.read_capacity_units
            != c.read_capacity_units || pt.write_capacity_units != c.write_capacity_units)) ==> r is Ok,
{
    match (billing, throughput, current) {
        (Some(BillingMode::Provisioned), Some(pt), Some(c)) => {
            let provisioned = match &c.billing_mode {
                Some(m) => str_eq(m.as_str(), "PROVISIONED"),
                None => true,
            };
            if provisioned && c.read_capacity_units == pt.read_capacity_units
                && c.write_capacity_units == pt.write_capacity_units {
                let mut m = "The provisioned throughput for the table will not change. The requested value equals the current value. Current ReadCapacityUnits provisioned for the table: ".to_owned();
                push_signed_decimal(&mut m, c.read_capacity_units);
                m.append(". Requested ReadCapacityUnits: ");
                push_signed_decimal(&mut m, pt.read_capacity_units);
                m.append(". Current WriteCapacityUnits provisioned for the table: ");
                push_signed_decimal(&mut m, c.write_capacity_units);
                m.append(". Requested WriteCapacityUnits: ");
                push_signed_decimal(&mut m, pt.write_capacity_units);
                m.append(".");
                Err(StorageError::NoOpUpdate(m))
            } else {
                Ok(())
            }
        },
        _ => Ok(()),
    }
}

/// An update is refused as a no-op only when it changes nothing: it asks
/// for provisioned billing on a table billed so, with the read capacity and
/// the write capacity both equal to the table's. A request that differs in
/// either capacity, or asks for on-demand billing, or names no throughput,
/// goes ahead; and a request that repeats the current provisioned capacity
/// exactly is always refused.
pub proof fn lemma_no_op_means_nothing_changes(
    billing: Option<BillingMode>,
    throughput: Option<ProvisionedThroughput>,
    current: Option<&CurrentBilling>,
)
    ensures
        is_no_op_update(billing, throughput, current) ==> {
            &&& billing == Some(BillingMode::Provisioned)
            &&& throughput is Some && current is Some
            &&& throughput.unwrap().read_capacity_units == current.unwrap().read_capacity_units
            &&& throughput.unwrap().write_capacity_units == current.unwrap().write_capacity_units
        },
        (throughput matches Some(pt) && current matches Some(c) && pt.read_capacity_units
            != c.read_capacity_units) ==> !is_no_op_update(billing, throughput, current),
        (throughput matches Some(pt) && current matches Some(c) && pt.write_capacity_units
            != c.write_capacity_units) ==> !is_no_op_update(billing, throughput, current),
        billing != Some(BillingMode::Provisioned) ==> !is_no_op_update(billing, throughput, current),
        (throughput matches Some(pt) && current matches Some(c) && billing == Some(BillingMode::Provisioned)
            && c.billing_mode is None && pt.read_capacity_units == c.read_capacity_units
            && pt.write_capacity_units == c.write_capacity_units) ==> is_no_op_update(billing, throughput, current),
        (throughput matches Some(pt) && current matches Some(c) && billing == Some(BillingMode::Provisioned)
            && c.billing_mode is Some && c.billing_mode.unwrap()@ == "PROVISIONED"@
            && pt.read_capacity_units == c.read_capacity_units && pt.write_capacity_units
            == c.write_capacity_units) ==> is_no_op_update(
            billing,
            throughput,
            current,
        ),
{
}

/// The text of the error for a table with indexes on a backend that
/// stores base tables only.
pub open spec fn indexes_unsupported_text() -> Seq<char> {
    "secondary and vector indexes are not supported by the browser/WASM backend"@
}

/// Whether a requested list of indexes holds any index.
pub open spec fn any_requested(count: Option<usize>) -> bool {
    count matches Some(n) && n > 0
}

/// Refuses to create a table with global, local or vector indexes on a
/// backend that stores base tables only, rather than dropping them
/// silently. Each argument is the length of the requested list, if any.
pub fn check_base_table_only(global: Option<usize>, local: Option<usize>, vector: Option<usize>) -> (r:
    Result<(), StorageError>)
    ensures
        r is Ok <==> !(any_requested(global) || any_requested(local) || any_requested(vector)),
        r matches Err(e) ==> e matches StorageError::Validation(m) && m@ == indexes_unsupported_text(),
{
    let any = |c: Option<usize>| -> (b: bool)
        ensures
            b == any_requested(c),
        {
            match c {
                Some(n) => n > 0,
                None => false,
            }
        };
    if any(global) || any(local) || any(vector) {
        Err(
            StorageError::Validation(
                "secondary and vector indexes are not supported by the browser/WASM backend".to_owned(),
            ),
        )
    } else {
        Ok(())
    }
}

/// The error a table creation reports when the catalog refuses the row: a
/// unique violation means the table exists; anything else is internal.
pub fn create_table_error(unique_violation: bool, table_name: &str, detail: String) -> (e: StorageError)
    ensures
        if unique_violation {
            e matches StorageError::TableAlreadyExists(n) && n@ == table_name@
        } else {
            e matches StorageError::Internal(m) && m@ == detail@
        },
{
    if unique_violation {
        StorageError::TableAlreadyExists(table_name.to_owned())
    } else {
        StorageError::Internal(detail)
    }
}

/// The kind of a secondary index.
#[derive(PartialEq, Eq, Structural, Clone, Copy, Debug)]
pub enum IndexType {
    Gsi,
    Lsi,
}

/// The text under which the catalog stores an index kind.
pub open spec fn index_type_text(t: IndexType) -> Seq<char> {
    match t {
        IndexType::Gsi => "GSI"@,
        IndexType::Lsi => "LSI"@,
    }
}

/// The text of the error for an index kind the catalog does not know.
pub open spec fn unknown_index_type_message(s: Seq<char>) -> Seq<char> {
    "unknown index type in database: "@ + s
}

/// Reads an index kind stored in the catalog.
pub fn index_type_from_text(s: &str) -> (r: Result<IndexType, StorageError>)
    ensures
        match r {
            Ok(t) => index_type_text(t) == s@,
            Err(e) => {
                &&& forall|t: IndexType| index_type_text(t) != s@
                &&& e matches StorageError::Internal(m) && m@ == unknown_index_type_message(s@)
            },
        },
{
    if str_eq(s, "GSI") {
        Ok(IndexType::Gsi)
    } else if str_eq(s, "LSI") {
        Ok(IndexType::Lsi)
    } else {
        let mut m = "unknown index type in database: ".to_owned();
        m.append(s);
        Err(StorageError::Internal(m))
    }
}

} // verus!
