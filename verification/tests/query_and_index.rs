use extenddb_storage::index::queued_update_wait_ms;
use extenddb_storage::index::{
    effective_delay, item_has_index_keys, partition_for, pk_hash, project_item_for_index, Projection,
    ProjectionType, NUM_PARTITIONS,
};
use extenddb_storage::query::{build_sk_sql, cmp_av, sk_satisfies, CompareOp, KeyOrder, SortKeyCondition};
use extenddb_storage::types::{AttributeValue, Item, KeySchemaElement, KeyType, ScalarAttributeType};

fn ks(name: &str, key_type: KeyType) -> KeySchemaElement {
    KeySchemaElement { attribute_name: name.to_string(), key_type }
}

fn s(v: &str) -> AttributeValue {
    AttributeValue::S(v.to_string())
}

fn n(v: &str) -> AttributeValue {
    AttributeValue::N(v.to_string())
}

fn names(it: &Item) -> Vec<String> {
    let mut v: Vec<String> = it.attrs.iter().map(|(k, _)| k.clone()).collect();
    v.sort();
    v
}

#[test]
fn strings_compare_by_code_point_and_numbers_by_value() {
    assert_eq!(cmp_av(ScalarAttributeType::S, &s("a"), &s("b")), KeyOrder::Less);
    assert_eq!(cmp_av(ScalarAttributeType::S, &s("ab"), &s("a")), KeyOrder::Greater);
    assert_eq!(cmp_av(ScalarAttributeType::S, &s("Z"), &s("a")), KeyOrder::Less);
    assert_eq!(cmp_av(ScalarAttributeType::N, &n("10"), &n("9")), KeyOrder::Greater);
    assert_eq!(cmp_av(ScalarAttributeType::N, &n("1.0"), &n("1")), KeyOrder::Equal);
    assert_eq!(cmp_av(ScalarAttributeType::N, &n("-2"), &n("1e-3")), KeyOrder::Less);
    assert_eq!(
        cmp_av(ScalarAttributeType::B, &AttributeValue::B(vec![1, 2]), &AttributeValue::B(vec![1, 3])),
        KeyOrder::Less
    );
    // Values of another kind than the key type compare equal.
    assert_eq!(cmp_av(ScalarAttributeType::S, &n("1"), &n("2")), KeyOrder::Equal);
}

#[test]
fn sort_key_conditions_are_evaluated() {
    let ty = ScalarAttributeType::N;
    let cond = SortKeyCondition::Compare { op: CompareOp::Le, value: n("5") };
    assert_eq!(sk_satisfies(ty, &n("5"), &cond).unwrap(), true);
    assert_eq!(sk_satisfies(ty, &n("5.5"), &cond).unwrap(), false);
    let between = SortKeyCondition::Between { low: n("1"), high: n("3") };
    assert!(sk_satisfies(ty, &n("2"), &between).unwrap());
    assert!(!sk_satisfies(ty, &n("4"), &between).unwrap());
    let prefix = SortKeyCondition::BeginsWith { prefix: s("ord#") };
    assert!(sk_satisfies(ScalarAttributeType::S, &s("ord#17"), &prefix).unwrap());
    assert!(!sk_satisfies(ScalarAttributeType::S, &s("or"), &prefix).unwrap());
    let err = sk_satisfies(ty, &n("1"), &SortKeyCondition::BeginsWith { prefix: n("1") }).unwrap_err();
    assert_eq!(err.message(), "begins_with is supported on string or binary sort keys only");
}

#[test]
fn sort_key_sql_fragments_and_parameter_numbers() {
    let mut idx: u32 = 2;
    let eq = build_sk_sql(&SortKeyCondition::Compare { op: CompareOp::Ne, value: s("x") }, "sk_s", &mut idx);
    assert_eq!(eq.fragment, " AND sk_s COLLATE \"C\" <> $2");
    assert_eq!(idx, 3);
    let btw = build_sk_sql(&SortKeyCondition::Between { low: n("1"), high: n("2") }, "sk_n", &mut idx);
    assert_eq!(btw.fragment, " AND sk_n BETWEEN $3 AND $4");
    assert_eq!(idx, 5);
    let bw = build_sk_sql(&SortKeyCondition::BeginsWith { prefix: s("p") }, "sk2_s", &mut idx);
    assert_eq!(
        bw.fragment,
        " AND sk2_s COLLATE \"C\" >= $5 AND sk2_s COLLATE \"C\" < ($5 || chr(1114111))"
    );
    assert_eq!(idx, 6);
}

fn sample_item() -> Item {
    let mut it = Item::new();
    it.insert_new("pk".into(), s("p1"));
    it.insert_new("sk".into(), n("1"));
    it.insert_new("gpk".into(), s("g"));
    it.insert_new("extra".into(), s("e"));
    it.insert_new("other".into(), s("o"));
    it
}

#[test]
fn projections_copy_the_named_attributes() {
    let base = vec![ks("pk", KeyType::Hash), ks("sk", KeyType::Range)];
    let index = vec![ks("gpk", KeyType::Hash)];
    let it = sample_item();
    let all = Projection { projection_type: ProjectionType::All, non_key_attributes: None };
    assert_eq!(names(&project_item_for_index(&it, &index, &base, &all)).len(), 5);
    let keys = Projection { projection_type: ProjectionType::KeysOnly, non_key_attributes: None };
    assert_eq!(names(&project_item_for_index(&it, &index, &base, &keys)), vec!["gpk", "pk", "sk"]);
    let with_extra = Projection {
        projection_type: ProjectionType::Include,
        non_key_attributes: Some(vec!["extra".into(), "missing".into()]),
    };
    assert_eq!(
        names(&project_item_for_index(&it, &index, &base, &with_extra)),
        vec!["extra", "gpk", "pk", "sk"]
    );
}

#[test]
fn index_membership_needs_every_index_key() {
    let it = sample_item();
    assert!(item_has_index_keys(&it, &[ks("gpk", KeyType::Hash), ks("sk", KeyType::Range)]));
    assert!(!item_has_index_keys(&it, &[ks("gpk", KeyType::Hash), ks("nope", KeyType::Range)]));
    assert!(item_has_index_keys(&it, &[]));
}

#[test]
fn index_delays() {
    assert_eq!(effective_delay(Some(0), 500), 0);
    assert_eq!(effective_delay(Some(250), 500), 250);
    assert_eq!(effective_delay(Some(-1), 500), 500);
    assert_eq!(effective_delay(None, 500), 500);
}

#[test]
fn partition_hash_is_the_crc32_of_the_key_text() {
    assert_eq!(pk_hash("123456789"), 0xCBF4_3926);
    assert_eq!(pk_hash(""), 0);
    assert_eq!(partition_for(pk_hash("123456789")), (0xCBF4_3926u64 % 4) as usize);
    for k in ["a", "b", "user#42"] {
        assert!(partition_for(pk_hash(k)) < NUM_PARTITIONS);
        assert_eq!(partition_for(pk_hash(k)), partition_for(pk_hash(k)));
    }
}

#[test]
fn queued_index_updates_wait_within_the_delay() {
    assert_eq!(queued_update_wait_ms(0), 0);
    assert_eq!(queued_update_wait_ms(1), 1);
    for _ in 0..50 {
        let w = queued_update_wait_ms(7);
        assert!((1..=7).contains(&w));
    }
    let w = queued_update_wait_ms(u64::MAX);
    assert!(w >= 1);
}
