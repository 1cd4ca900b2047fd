//! Index rows: which index rows a write removes and adds, whether the
//! index is maintained inside the write or after it, and the SQL text that
//! inserts and deletes a row of an index table.
use vstd::prelude::*;

use crate::index::{has_all_keys, item_has_index_keys};
use crate::key::{sk_column_n, spec_sk_column_n};
use crate::text::{decimal, push_decimal, str_eq, views};
use crate::types::{Item, KeySchemaElement, ScalarAttributeType};

verus! {

/// What a synchronous index update does for one write.
#[derive(PartialEq, Eq, Structural, Clone, Copy, Debug)]
pub struct IndexRowPlan {
    /// Delete the index row of the item as it was before the write.
    pub delete_old: bool,
    /// Insert an index row for the item as it is after the write.
    pub insert_new: bool,
}

/// Whether an index is maintained inside the write's transaction: a local
/// index always is, another index only when its delay is zero.
pub open spec fn is_synchronous(index_type: Seq<char>, delay_ms: u64) -> bool {
    index_type == "LSI"@ || delay_ms == 0
}

/// The index rows a synchronous update of one index removes and adds. It
/// returns `None` for an index that is updated after the write commits.
/// The old row goes when the item before the write had every index key;
/// a new row comes when the item after the write has every index key.
pub fn sync_index_plan(
    index_type: &str,
    delay_ms: u64,
    index_ks: &[KeySchemaElement],
    old_item: Option<&Item>,
    new_item: Option<&Item>,
) -> (r: Option<IndexRowPlan>)
    ensures
        r is Some <==> is_synchronous(index_type@, delay_ms),
        r matches Some(p) ==> {
            &&& p.delete_old == (old_item matches Some(o) && has_all_keys(o@, index_ks@))
            &&& p.insert_new == (new_item matches Some(n) && has_all_keys(n@, index_ks@))
        },
{
    if !str_eq(index_type, "LSI") && delay_ms != 0 {
        return None;
    }
    let delete_old = match old_item {
        Some(o) => item_has_index_keys(o, index_ks),
        None => false,
    };
    let insert_new = match new_item {
        Some(n) => item_has_index_keys(n, index_ks),
        None => false,
    };
    Some(IndexRowPlan { delete_old, insert_new })
}

/// Whether an index update is queued after the write commits: whenever
/// the index's effective delay is not zero.
pub fn enqueues_after_commit(delay_ms: u64) -> (r: bool)
    ensures
        r == (delay_ms != 0),
{
    delay_ms != 0
}

/// The parts joined with `sep` between each two.
pub open spec fn joined(parts: Seq<Seq<char>>, sep: Seq<char>) -> Seq<char>
    decreases parts.len(),
{
    if parts.len() == 0 {
        Seq::empty()
    } else if parts.len() == 1 {
        parts[0]
    } else {
        joined(parts.drop_last(), sep) + sep + parts.last()
    }
}

/// Joins the parts with `sep` between each two.
pub fn join(parts: &Vec<String>, sep: &str) -> (out: String)
    ensures
        out@ == joined(views(parts@), sep@),
{
    let ghost v = views(parts@);
    if parts.len() == 0 {
        return String::new();
    }
    let mut out = parts[0].clone();
    assert(v.take(1) =~= seq![v[0]]);
    let mut i: usize = 1;
    while i < parts.len()
        invariant
            1 <= i <= parts@.len(),
            v == views(parts@),
            out@ == joined(v.take(i as int), sep@),
        decreases parts@.len() - i,
    {
        out.append(sep);
        out.append(parts[i].as_str());
        assert(v.take(i + 1).drop_last() =~= v.take(i as int));
        assert(v.take(i + 1).last() == parts@[i as int]@);
        i += 1;
    }
    assert(v.take(parts@.len() as int) =~= v);
    out
}

/// The column holding the `i`-th base table sort key in an index table.
pub open spec fn base_sk_column(i: nat, t: ScalarAttributeType) -> Seq<char> {
    "base_"@ + spec_sk_column_n(i, t)
}

/// The columns of an index table row, in order: the index partition key,
/// the index sort keys, the base partition key, the base sort keys, and the
/// projected item.
pub open spec fn index_row_columns(idx_sks: Seq<ScalarAttributeType>, base_sks: Seq<ScalarAttributeType>) -> Seq<
    Seq<char>,
> {
    seq!["pk"@] + Seq::new(idx_sks.len(), |i: int| spec_sk_column_n(i as nat, idx_sks[i]))
        + seq!["base_pk"@] + Seq::new(base_sks.len(), |i: int| base_sk_column(i as nat, base_sks[i]))
        + seq!["item_data"@]
}

/// The parameter placeholders `$1` to `$n`.
pub open spec fn placeholders(n: nat) -> Seq<Seq<char>> {
    Seq::new(n, |i: int| "$"@ + decimal((i + 1) as nat))
}

/// The statement that inserts a row into the index table `table`.
pub open spec fn index_insert_sql(
    table: Seq<char>,
    idx_sks: Seq<ScalarAttributeType>,
    base_sks: Seq<ScalarAttributeType>,
) -> Seq<char> {
    let cols = index_row_columns(idx_sks, base_sks);
    "INSERT INTO "@ + table + " ("@ + joined(cols, ", "@) + ") VALUES ("@ + joined(
        placeholders(cols.len()),
        ", "@,
    ) + ")"@
}

/// The conditions that select an index row by its base table key.
pub open spec fn base_key_conditions(base_sks: Seq<ScalarAttributeType>) -> Seq<Seq<char>> {
    seq!["base_pk = $1"@] + Seq::new(
        base_sks.len(),
        |i: int| base_sk_column(i as nat, base_sks[i]) + " = $"@ + decimal((i + 2) as nat),
    )
}

/// The statement that deletes the row of a base item from the index table
/// `table`.
pub open spec fn index_delete_sql(table: Seq<char>, base_sks: Seq<ScalarAttributeType>) -> Seq<char> {
    "DELETE FROM "@ + table + " WHERE "@ + joined(base_key_conditions(base_sks), " AND "@)
}

/// The placeholder `$n`.
fn placeholder(n: u64) -> (p: String)
    ensures
        p@ == "$"@ + decimal(n as nat),
{
    let mut p = "$".to_owned();
    push_decimal(&mut p, n);
    p
}

/// The statement that inserts a row into an index table, given the types
/// of the index's and of the base table's sort keys.
pub fn index_row_insert_sql(table: &str, idx_sks: &Vec<ScalarAttributeType>, base_sks: &Vec<
    ScalarAttributeType,
>) -> (sql: String)
    requires
        idx_sks@.len() + base_sks@.len() + 3 <= u64::MAX,
    ensures
        sql@ == index_insert_sql(table@, idx_sks@, base_sks@),
{
    let ghost expected = index_row_columns(idx_sks@, base_sks@);
    let mut cols: Vec<String> = Vec::new();
    cols.push("pk".to_owned());
    let mut i: usize = 0;
    while i < idx_sks.len()
        invariant
            i <= idx_sks@.len(),
            idx_sks@.len() + base_sks@.len() + 3 <= u64::MAX,
            views(cols@) == seq!["pk"@] + Seq::new(
                i as nat,
                |j: int| spec_sk_column_n(j as nat, idx_sks@[j]),
            ),
        decreases idx_sks@.len() - i,
    {
        let c = sk_column_n(i, idx_sks[i]);
        let ghost before = views(cols@);
        cols.push(c);
        assert(views(cols@) =~= before.push(spec_sk_column_n(i as nat, idx_sks@[i as int])));
        assert(views(cols@) =~= seq!["pk"@] + Seq::new(
            (i + 1) as nat,
            |j: int| spec_sk_column_n(j as nat, idx_sks@[j]),
        ));
        i += 1;
    }
    let ghost mid = views(cols@);
    cols.push("base_pk".to_owned());
    assert(views(cols@) =~= mid.push("base_pk"@));
    let ghost start = views(cols@);
    let mut k: usize = 0;
    while k < base_sks.len()
        invariant
            k <= base_sks@.len(),
            idx_sks@.len() + base_sks@.len() + 3 <= u64::MAX,
            views(cols@) == start + Seq::new(k as nat, |j: int| base_sk_column(j as nat, base_sks@[j])),
        decreases base_sks@.len() - k,
    {
        let mut c = "base_".to_owned();
        let col = sk_column_n(k, base_sks[k]);
        c.append(col.as_str());
        let ghost before = views(cols@);
        cols.push(c);
        assert(views(cols@) =~= before.push(base_sk_column(k as nat, base_sks@[k as int])));
        assert(views(cols@) =~= start + Seq::new(
            (k + 1) as nat,
            |j: int| base_sk_column(j as nat, base_sks@[j]),
        ));
        k += 1;
    }
    let ghost last = views(cols@);
    cols.push("item_data".to_owned());
    assert(views(cols@) =~= last.push("item_data"@));
    assert(views(cols@) =~= expected);
    let n = cols.len();
    let mut marks: Vec<String> = Vec::new();
    let mut m: usize = 0;
    while m < n
        invariant
            m <= n,
            n == cols@.len(),
            n <= u64::MAX,
            views(marks@) == placeholders(m as nat),
        decreases n - m,
    {
        let p = placeholder(m as u64 + 1);
        let ghost before = views(marks@);
        marks.push(p);
        assert(views(marks@) =~= before.push("$"@ + decimal((m + 1) as nat)));
        assert(views(marks@) =~= placeholders((m + 1) as nat));
        m += 1;
    }
    let mut sql = "INSERT INTO ".to_owned();
    sql.append(table);
    sql.append(" (");
    let c = join(&cols, ", ");
    sql.append(c.as_str());
    sql.append(") VALUES (");
    let p = join(&marks, ", ");
    sql.append(p.as_str());
    sql.append(")");
    sql
}

/// The statement that deletes the row of a base item from an index table,
/// given the types of the base table's sort keys.
pub fn index_row_delete_sql(table: &str, base_sks: &Vec<ScalarAttributeType>) -> (sql: String)
    requires
        base_sks@.len() + 2 <= u64::MAX,
    ensures
        sql@ == index_delete_sql(table@, base_sks@),
{
    let mut conds: Vec<String> = Vec::new();
    conds.push("base_pk = $1".to_owned());
    assert(views(conds@) =~= seq!["base_pk = $1"@]);
    let ghost start = views(conds@);
    let mut k: usize = 0;
    while k < base_sks.len()
        invariant
            k <= base_sks@.len(),
            base_sks@.len() + 2 <= u64::MAX,
            start == seq!["base_pk = $1"@],
            views(conds@) == start + Seq::new(
                k as nat,
                |j: int| base_sk_column(j as nat, base_sks@[j]) + " = $"@ + decimal((j + 2) as nat),
            ),
        decreases base_sks@.len() - k,
    {
        let mut c = "base_".to_owned();
        let col = sk_column_n(k, base_sks[k]);
        c.append(col.as_str());
        c.append(" = $");
        push_decimal(&mut c, k as u64 + 2);
        let ghost before = views(conds@);
        conds.push(c);
        assert(views(conds@) =~= before.push(
            base_sk_column(k as nat, base_sks@[k as int]) + " = $"@ + decimal((k + 2) as nat),
        ));
        assert(views(conds@) =~= start + Seq::new(
            (k + 1) as nat,
            |j: int| base_sk_column(j as nat, base_sks@[j]) + " = $"@ + decimal((j + 2) as nat),
        ));
        k += 1;
    }
    assert(views(conds@) =~= base_key_conditions(base_sks@));
    let mut sql = "DELETE FROM ".to_owned();
    sql.append(table);
    sql.append(" WHERE ");
    let w = join(&conds, " AND ");
    sql.append(w.as_str());
    sql
}

/// The number of base items a backfill reads per batch.
pub const BACKFILL_BATCH_SIZE: i64 = 500;

/// The statement that reads one batch of a base table for a backfill.
pub fn backfill_select_sql(base_table: &str) -> (sql: String)
    ensures
        sql@ == "SELECT item_data FROM "@ + base_table@ + " ORDER BY pk, sk_s, sk_n, sk_b LIMIT $1 OFFSET $2"@,
{
    let mut sql = "SELECT item_data FROM ".to_owned();
    sql.append(base_table);
    sql.append(" ORDER BY pk, sk_s, sk_n, sk_b LIMIT $1 OFFSET $2");
    sql
}

/// Where a backfill goes after a batch of `rows` items read at `offset`:
/// on to the next offset after a full batch, or done after a short or
/// empty one. The batch length counts at most `u16::MAX`.
pub fn backfill_next_offset(offset: i64, rows: usize) -> (next: Option<i64>)
    requires
        rows < BACKFILL_BATCH_SIZE || offset + (if rows <= 65535 {
            rows as int
        } else {
            65535
        }) <= i64::MAX,
    ensures
        ({
            let counted = if rows <= 65535 {
                rows as int
            } else {
                65535
            };
            if rows == 0 || counted < BACKFILL_BATCH_SIZE {
                next is None
            } else {
                next == Some((offset + counted) as i64)
            }
        }),
{
    if rows == 0 {
        return None;
    }
    let counted: i64 = if rows <= 65535 {
        rows as i64
    } else {
        65535
    };
    if counted < BACKFILL_BATCH_SIZE {
        None
    } else {
        Some(offset + counted)
    }
}

} // verus!
