//! The DDL of the per-table data tables and the per-index tables: one
//! typed column set per sort key position, and a primary key that makes
//! each base item appear once.
use vstd::prelude::*;

use crate::index_rows::{base_sk_column, join, joined};
use crate::key::{sk_column, sk_column_n, sk_suffix, spec_sk_column_n};
use crate::text::{decimal, push_decimal, views};
use crate::types::ScalarAttributeType;

verus! {

/// The stem of the column set of sort key position `i`: `sk` for the
/// first, `sk<i+1>` for the others.
pub open spec fn sk_stem(i: nat) -> Seq<char> {
    if i == 0 {
        "sk"@
    } else {
        "sk"@ + decimal(i + 1)
    }
}

/// The column definitions of the first `count` sort key positions, each a
/// string, a number and a binary column, with `prefix` before each name.
pub open spec fn sk_column_defs(prefix: Seq<char>, count: nat) -> Seq<Seq<char>>
    decreases count,
{
    if count == 0 {
        Seq::empty()
    } else {
        let stem = prefix + sk_stem((count - 1) as nat);
        sk_column_defs(prefix, (count - 1) as nat) + seq![
            stem + "_s TEXT"@,
            stem + "_n NUMERIC"@,
            stem + "_b BYTEA"@,
        ]
    }
}

/// Appends the column definitions of sort key positions `0..count`.
fn push_sk_column_defs(defs: &mut Vec<String>, prefix: &str, count: usize)
    requires
        count < usize::MAX,
    ensures
        views(final(defs)@) == views(old(defs)@) + sk_column_defs(prefix@, count as nat),
{
    let ghost start = views(defs@);
    let mut i: usize = 0;
    assert(sk_column_defs(prefix@, 0) =~= Seq::<Seq<char>>::empty());
    assert(views(defs@) =~= start + sk_column_defs(prefix@, 0));
    while i < count
        invariant
            i <= count,
            count < usize::MAX,
            views(defs@) == start + sk_column_defs(prefix@, i as nat),
        decreases count - i,
    {
        let mut stem = prefix.to_owned();
        stem.append("sk");
        if i > 0 {
            push_decimal(&mut stem, i as u64 + 1);
        }
        assert(stem@ =~= prefix@ + sk_stem(i as nat));
        let mut s = stem.clone();
        s.append("_s TEXT");
        let mut n = stem.clone();
        n.append("_n NUMERIC");
        let mut b = stem;
        b.append("_b BYTEA");
        let ghost before = views(defs@);
        defs.push(s);
        defs.push(n);
        defs.push(b);
        assert(views(defs@) =~= before + seq![
            prefix@ + sk_stem(i as nat) + "_s TEXT"@,
            prefix@ + sk_stem(i as nat) + "_n NUMERIC"@,
            prefix@ + sk_stem(i as nat) + "_b BYTEA"@,
        ]);
        i += 1;
    }
}

/// The multi-line table definition from column definitions and primary key
/// columns.
pub open spec fn table_ddl(table: Seq<char>, defs: Seq<Seq<char>>, pk_cols: Seq<Seq<char>>) -> Seq<char> {
    "CREATE TABLE "@ + table + " (\n    "@ + joined(defs, ",\n    "@) + ",\n    PRIMARY KEY ("@ + joined(
        pk_cols,
        ", "@,
    ) + ")\n)"@
}

fn build_table_ddl(table: &str, defs: &Vec<String>, pk_cols: &Vec<String>) -> (ddl: String)
    ensures
        ddl@ == table_ddl(table@, views(defs@), views(pk_cols@)),
{
    let mut ddl = "CREATE TABLE ".to_owned();
    ddl.append(table);
    ddl.append(" (\n    ");
    let d = join(defs, ",\n    ");
    ddl.append(d.as_str());
    ddl.append(",\n    PRIMARY KEY (");
    let p = join(pk_cols, ", ");
    ddl.append(p.as_str());
    ddl.append(")\n)");
    ddl
}

/// The definition of a data table without a sort key.
pub open spec fn hash_only_table_ddl(table: Seq<char>) -> Seq<char> {
    "CREATE TABLE "@ + table
        + " (\n                    pk TEXT NOT NULL PRIMARY KEY,\n                    item_data JSONB NOT NULL\n                )"@
}

/// The definition of a data table with one sort key of type `t`.
pub open spec fn single_sk_table_ddl(table: Seq<char>, t: ScalarAttributeType) -> Seq<char> {
    "CREATE TABLE "@ + table
        + " (\n                    pk TEXT NOT NULL,\n                    sk_s TEXT,\n                    sk_n NUMERIC,\n                    sk_b BYTEA,\n                    item_data JSONB NOT NULL,\n                    PRIMARY KEY (pk, "@
        + "sk_"@ + sk_suffix(t) + ")\n                )"@
}

/// The definition of a data table with sort keys of the types `sks`, in
/// key schema order.
pub open spec fn spec_data_table_ddl(table: Seq<char>, sks: Seq<ScalarAttributeType>) -> Seq<char> {
    if sks.len() == 0 {
        hash_only_table_ddl(table)
    } else if sks.len() == 1 {
        single_sk_table_ddl(table, sks[0])
    } else {
        table_ddl(
            table,
            seq!["pk TEXT NOT NULL"@] + sk_column_defs(Seq::empty(), sks.len()) + seq!["item_data JSONB NOT NULL"@],
            seq!["pk"@] + Seq::new(sks.len(), |i: int| spec_sk_column_n(i as nat, sks[i])),
        )
    }
}

/// The statement that creates a table's data table, given the types of its
/// sort keys in key schema order.
pub fn data_table_ddl(table: &str, sks: &Vec<ScalarAttributeType>) -> (ddl: String)
    requires
        sks@.len() < usize::MAX,
    ensures
        ddl@ == spec_data_table_ddl(table@, sks@),
{
    if sks.len() == 0 {
        let mut ddl = "CREATE TABLE ".to_owned();
        ddl.append(table);
        ddl.append(" (\n                    pk TEXT NOT NULL PRIMARY KEY,\n                    item_data JSONB NOT NULL\n                )");
        return ddl;
    }
    if sks.len() == 1 {
        let mut ddl = "CREATE TABLE ".to_owned();
        ddl.append(table);
        ddl.append(" (\n                    pk TEXT NOT NULL,\n                    sk_s TEXT,\n                    sk_n NUMERIC,\n                    sk_b BYTEA,\n                    item_data JSONB NOT NULL,\n                    PRIMARY KEY (pk, ");
        ddl.append(sk_column(sks[0]));
        ddl.append(")\n                )");
        return ddl;
    }
    proof {
        reveal_strlit("");
        assert(""@ =~= Seq::<char>::empty());
    }
    let mut defs: Vec<String> = Vec::new();
    defs.push("pk TEXT NOT NULL".to_owned());
    assert(views(defs@) =~= seq!["pk TEXT NOT NULL"@]);
    push_sk_column_defs(&mut defs, "", sks.len());
    let ghost before = views(defs@);
    defs.push("item_data JSONB NOT NULL".to_owned());
    assert(views(defs@) =~= before.push("item_data JSONB NOT NULL"@));
    let mut pk_cols: Vec<String> = Vec::new();
    pk_cols.push("pk".to_owned());
    let mut i: usize = 0;
    while i < sks.len()
        invariant
            i <= sks@.len(),
            sks@.len() < usize::MAX,
            views(pk_cols@) == seq!["pk"@] + Seq::new(i as nat, |j: int| spec_sk_column_n(j as nat, sks@[j])),
        decreases sks@.len() - i,
    {
        let c = sk_column_n(i, sks[i]);
        let ghost prev = views(pk_cols@);
        pk_cols.push(c);
        assert(views(pk_cols@) =~= prev.push(spec_sk_column_n(i as nat, sks@[i as int])));
        assert(views(pk_cols@) =~= seq!["pk"@] + Seq::new(
            (i + 1) as nat,
            |j: int| spec_sk_column_n(j as nat, sks@[j]),
        ));
        i += 1;
    }
    assert(views(defs@) =~= seq!["pk TEXT NOT NULL"@] + sk_column_defs(Seq::empty(), sks@.len())
        + seq!["item_data JSONB NOT NULL"@]);
    build_table_ddl(table, &defs, &pk_cols)
}

/// The base table key columns of an index table, which make each base
/// item appear once: the base partition key and the base sort keys.
pub open spec fn base_key_columns(base_sks: Seq<ScalarAttributeType>) -> Seq<Seq<char>> {
    seq!["base_pk"@] + Seq::new(base_sks.len(), |i: int| base_sk_column(i as nat, base_sks[i]))
}

/// The definition of an index table: its own partition key and `idx_count`
/// sort key positions, then the base table's key, then the projected item;
/// keyed by the index partition key and the base table's key.
pub open spec fn spec_index_table_ddl(table: Seq<char>, idx_count: nat, base_sks: Seq<ScalarAttributeType>) -> Seq<
    char,
> {
    table_ddl(
        table,
        seq!["pk TEXT NOT NULL"@] + sk_column_defs(Seq::empty(), idx_count) + seq!["base_pk TEXT NOT NULL"@]
            + sk_column_defs("base_"@, base_sks.len()) + seq!["item_data JSONB NOT NULL"@],
        seq!["pk"@] + base_key_columns(base_sks),
    )
}

/// The statement that creates an index table, given the number of the
/// index's sort keys and the types of the base table's sort keys.
pub fn index_table_ddl(table: &str, idx_count: usize, base_sks: &Vec<ScalarAttributeType>) -> (ddl: String)
    requires
        idx_count < usize::MAX,
        base_sks@.len() < usize::MAX,
    ensures
        ddl@ == spec_index_table_ddl(table@, idx_count as nat, base_sks@),
{
    proof {
        reveal_strlit("");
        assert(""@ =~= Seq::<char>::empty());
    }
    let mut defs: Vec<String> = Vec::new();
    defs.push("pk TEXT NOT NULL".to_owned());
    assert(views(defs@) =~= seq!["pk TEXT NOT NULL"@]);
    push_sk_column_defs(&mut defs, "", idx_count);
    let ghost a = views(defs@);
    defs.push("base_pk TEXT NOT NULL".to_owned());
    assert(views(defs@) =~= a.push("base_pk TEXT NOT NULL"@));
    push_sk_column_defs(&mut defs, "base_", base_sks.len());
    let ghost b = views(defs@);
    defs.push("item_data JSONB NOT NULL".to_owned());
    assert(views(defs@) =~= b.push("item_data JSONB NOT NULL"@));
    let mut pk_cols: Vec<String> = Vec::new();
    pk_cols.push("pk".to_owned());
    pk_cols.push("base_pk".to_owned());
    assert(views(pk_cols@) =~= seq!["pk"@] + seq!["base_pk"@]);
    let mut i: usize = 0;
    while i < base_sks.len()
        invariant
            i <= base_sks@.len(),
            base_sks@.len() < usize::MAX,
            views(pk_cols@) == seq!["pk"@] + (seq!["base_pk"@] + Seq::new(
                i as nat,
                |j: int| base_sk_column(j as nat, base_sks@[j]),
            )),
        decreases base_sks@.len() - i,
    {
        let mut c = "base_".to_owned();
        let col = sk_column_n(i, base_sks[i]);
        c.append(col.as_str());
        let ghost prev = views(pk_cols@);
        pk_cols.push(c);
        assert(views(pk_cols@) =~= prev.push(base_sk_column(i as nat, base_sks@[i as int])));
        assert(views(pk_cols@) =~= seq!["pk"@] + (seq!["base_pk"@] + Seq::new(
            (i + 1) as nat,
            |j: int| base_sk_column(j as nat, base_sks@[j]),
        )));
        i += 1;
    }
    assert(views(defs@) =~= seq!["pk TEXT NOT NULL"@] + sk_column_defs(Seq::empty(), idx_count as nat)
        + seq!["base_pk TEXT NOT NULL"@] + sk_column_defs("base_"@, base_sks@.len())
        + seq!["item_data JSONB NOT NULL"@]);
    assert(views(pk_cols@) =~= seq!["pk"@] + base_key_columns(base_sks@));
    build_table_ddl(table, &defs, &pk_cols)
}

/// The statement that orders an index table by its sort keys within a
/// partition, or `None` for an index without sort keys.
pub open spec fn spec_index_order_ddl(
    table: Seq<char>,
    idx_sks: Seq<ScalarAttributeType>,
    base_sks: Seq<ScalarAttributeType>,
) -> Option<Seq<char>> {
    if idx_sks.len() == 0 {
        None
    } else {
        Some(
            "CREATE INDEX ON "@ + table + " ("@ + joined(
                seq!["pk"@] + Seq::new(idx_sks.len(), |i: int| spec_sk_column_n(i as nat, idx_sks[i]))
                    + base_key_columns(base_sks),
                ", "@,
            ) + ")"@,
        )
    }
}

/// The statement that orders an index table by its sort keys within a
/// partition, or `None` for an index without sort keys.
pub fn index_order_ddl(table: &str, idx_sks: &Vec<ScalarAttributeType>, base_sks: &Vec<ScalarAttributeType>) -> (r:
    Option<String>)
    requires
        idx_sks@.len() < usize::MAX,
        base_sks@.len() < usize::MAX,
    ensures
        match r {
            Some(s) => spec_index_order_ddl(table@, idx_sks@, base_sks@) == Some(s@),
            None => spec_index_order_ddl(table@, idx_sks@, base_sks@) is None,
        },
{
    if idx_sks.len() == 0 {
        return None;
    }
    let mut cols: Vec<String> = Vec::new();
    cols.push("pk".to_owned());
    let mut i: usize = 0;
    while i < idx_sks.len()
        invariant
            i <= idx_sks@.len(),
            idx_sks@.len() < usize::MAX,
            views(cols@) == seq!["pk"@] + Seq::new(i as nat, |j: int| spec_sk_column_n(j as nat, idx_sks@[j])),
        decreases idx_sks@.len() - i,
    {
        let c = sk_column_n(i, idx_sks[i]);
        let ghost prev = views(cols@);
        cols.push(c);
        assert(views(cols@) =~= prev.push(spec_sk_column_n(i as nat, idx_sks@[i as int])));
        assert(views(cols@) =~= seq!["pk"@] + Seq::new(
            (i + 1) as nat,
            |j: int| spec_sk_column_n(j as nat, idx_sks@[j]),
        ));
        i += 1;
    }
    let ghost mid = views(cols@);
    cols.push("base_pk".to_owned());
    assert(views(cols@) =~= mid.push("base_pk"@));
    let mut k: usize = 0;
    while k < base_sks.len()
        invariant
            k <= base_sks@.len(),
            base_sks@.len() < usize::MAX,
            views(cols@) == mid.push("base_pk"@) + Seq::new(
                k as nat,
                |j: int| base_sk_column(j as nat, base_sks@[j]),
            ),
        decreases base_sks@.len() - k,
    {
        let mut c = "base_".to_owned();
        let col = sk_column_n(k, base_sks[k]);
        c.append(col.as_str());
        let ghost prev = views(cols@);
        cols.push(c);
        assert(views(cols@) =~= prev.push(base_sk_column(k as nat, base_sks@[k as int])));
        assert(views(cols@) =~= mid.push("base_pk"@) + Seq::new(
            (k + 1) as nat,
            |j: int| base_sk_column(j as nat, base_sks@[j]),
        ));
        k += 1;
    }
    assert(views(cols@) =~= seq!["pk"@] + Seq::new(idx_sks@.len(), |i: int| spec_sk_column_n(i as nat, idx_sks@[i]))
        + base_key_columns(base_sks@));
    let mut s = "CREATE INDEX ON ".to_owned();
    s.append(table);
    s.append(" (");
    let j = join(&cols, ", ");
    s.append(j.as_str());
    s.append(")");
    Some(s)
}

/// The statement that drops a data table or an index table.
pub fn drop_table_ddl(table: &str) -> (ddl: String)
    ensures
        ddl@ == "DROP TABLE IF EXISTS "@ + table@,
{
    let mut ddl = "DROP TABLE IF EXISTS ".to_owned();
    ddl.append(table);
    ddl
}

} // verus!
