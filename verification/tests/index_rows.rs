use extenddb_storage::index_rows::{
    enqueues_after_commit, index_row_delete_sql, index_row_insert_sql, join, sync_index_plan, IndexRowPlan,
};
use extenddb_storage::types::{AttributeValue, Item, KeySchemaElement, KeyType, ScalarAttributeType};

fn with(names: &[&str]) -> Item {
    let mut it = Item::new();
    for n in names {
        it.insert_new(n.to_string(), AttributeValue::S("v".into()));
    }
    it
}

fn gsi() -> Vec<KeySchemaElement> {
    vec![
        KeySchemaElement { attribute_name: "g".into(), key_type: KeyType::Hash },
        KeySchemaElement { attribute_name: "h".into(), key_type: KeyType::Range },
    ]
}

#[test]
fn asynchronous_global_indexes_are_left_to_the_queue() {
    assert_eq!(sync_index_plan("GSI", 250, &gsi(), None, Some(&with(&["g", "h"]))), None);
    assert!(enqueues_after_commit(250));
    assert!(!enqueues_after_commit(0));
}

#[test]
fn synchronous_indexes_move_the_row_with_the_item() {
    let old = with(&["g", "h"]);
    let new_without = with(&["g"]);
    assert_eq!(
        sync_index_plan("GSI", 0, &gsi(), Some(&old), Some(&new_without)),
        Some(IndexRowPlan { delete_old: true, insert_new: false })
    );
    assert_eq!(
        sync_index_plan("LSI", 500, &gsi(), None, Some(&old)),
        Some(IndexRowPlan { delete_old: false, insert_new: true })
    );
    assert_eq!(
        sync_index_plan("GSI", 0, &gsi(), Some(&old), Some(&old)),
        Some(IndexRowPlan { delete_old: true, insert_new: true })
    );
}

#[test]
fn join_puts_the_separator_between_parts() {
    assert_eq!(join(&vec![], ", "), "");
    assert_eq!(join(&vec!["a".to_string()], ", "), "a");
    assert_eq!(join(&vec!["a".to_string(), "b".to_string(), "c".to_string()], ", "), "a, b, c");
}

#[test]
fn index_row_statements_name_every_key_column() {
    let idx = vec![ScalarAttributeType::N];
    let base = vec![ScalarAttributeType::S, ScalarAttributeType::B];
    assert_eq!(
        index_row_insert_sql("idx_1", &idx, &base),
        "INSERT INTO idx_1 (pk, sk_n, base_pk, base_sk_s, base_sk2_b, item_data) VALUES ($1, $2, $3, $4, $5, $6)"
    );
    assert_eq!(
        index_row_insert_sql("idx_2", &vec![], &vec![]),
        "INSERT INTO idx_2 (pk, base_pk, item_data) VALUES ($1, $2, $3)"
    );
    assert_eq!(
        index_row_delete_sql("idx_1", &base),
        "DELETE FROM idx_1 WHERE base_pk = $1 AND base_sk_s = $2 AND base_sk2_b = $3"
    );
    assert_eq!(index_row_delete_sql("idx_2", &vec![]), "DELETE FROM idx_2 WHERE base_pk = $1");
}
