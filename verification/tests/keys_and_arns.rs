use extenddb_storage::error::StorageError;
use extenddb_storage::key::storage_key_values;
use extenddb_storage::arn::{index_arn, parse_stream_arn, stream_arn, table_arn};
use extenddb_storage::key::{
    composite_pk_to_text, parse_sk, pk_to_text, sk_column, sk_column_n, sk_info, SortKeyValue,
};
use extenddb_storage::types::{
    AttributeDefinition, AttributeValue, Item, KeySchemaElement, KeyType, ScalarAttributeType,
};

fn ks(name: &str, key_type: KeyType) -> KeySchemaElement {
    KeySchemaElement { attribute_name: name.to_string(), key_type }
}

fn ad(name: &str, attribute_type: ScalarAttributeType) -> AttributeDefinition {
    AttributeDefinition { attribute_name: name.to_string(), attribute_type }
}

fn item(pairs: Vec<(&str, AttributeValue)>) -> Item {
    let mut it = Item::new();
    for (n, v) in pairs {
        it.insert_new(n.to_string(), v);
    }
    it
}

#[test]
fn arns_have_the_dynamodb_shape() {
    assert_eq!(table_arn("us-east-1", "123456789012", "T"), "arn:aws:dynamodb:us-east-1:123456789012:table/T");
    assert_eq!(
        index_arn("us-east-1", "123456789012", "T", "gsi1"),
        "arn:aws:dynamodb:us-east-1:123456789012:table/T/index/gsi1"
    );
    assert_eq!(
        stream_arn("eu-west-1", "000000000000", "Orders", "2026-04-08T08:40:22"),
        "arn:aws:dynamodb:eu-west-1:000000000000:table/Orders/stream/2026-04-08T08:40:22"
    );
}

#[test]
fn stream_arn_parses_with_colons_in_the_label() {
    let arn = "arn:aws:dynamodb:us-east-1:123456789012:table/T/stream/2026-04-08T08:40:22";
    let (t, l) = parse_stream_arn(arn).unwrap();
    assert_eq!(t, "T");
    assert_eq!(l, "2026-04-08T08:40:22");
}

#[test]
fn stream_arn_round_trips() {
    let arn = stream_arn("r", "a", "tbl", "lbl:with:colons");
    assert_eq!(parse_stream_arn(&arn).unwrap(), ("tbl".to_string(), "lbl:with:colons".to_string()));
}

#[test]
fn short_stream_arn_is_rejected() {
    let err = parse_stream_arn("arn:aws:dynamodb").unwrap_err();
    assert_eq!(err.message(), "Invalid stream ARN: arn:aws:dynamodb");
}

#[test]
fn table_arn_is_not_a_stream_arn() {
    let arn = "arn:aws:dynamodb:us-east-1:1:table/T";
    let err = parse_stream_arn(arn).unwrap_err();
    assert_eq!(err.message(), format!("Invalid stream ARN format: {arn}"));
    assert!(parse_stream_arn("arn:aws:dynamodb:r:a:table/T/index/I").is_err());
}

#[test]
fn pk_text_of_each_kind() {
    assert_eq!(pk_to_text(&AttributeValue::S("abc".into())).unwrap(), "abc");
    assert_eq!(pk_to_text(&AttributeValue::N("12.5".into())).unwrap(), "12.5");
    assert_eq!(pk_to_text(&AttributeValue::B(vec![1, 2, 3])).unwrap(), "AQID");
    let err = pk_to_text(&AttributeValue::Bool(true)).unwrap_err();
    assert_eq!(err.message(), "partition key must be S, N, or B");
}

#[test]
fn composite_pk_single_hash_is_the_value_itself() {
    let schema = vec![ks("pk", KeyType::Hash), ks("sk", KeyType::Range)];
    let it = item(vec![("pk", AttributeValue::S("user#1".into())), ("sk", AttributeValue::N("1".into()))]);
    assert_eq!(composite_pk_to_text(&it, &schema).unwrap(), "user#1");
}

#[test]
fn composite_pk_multi_hash_is_a_netstring() {
    let schema = vec![ks("a", KeyType::Hash), ks("b", KeyType::Hash)];
    let it = item(vec![("a", AttributeValue::S("abc".into())), ("b", AttributeValue::N("42".into()))]);
    assert_eq!(composite_pk_to_text(&it, &schema).unwrap(), "3:abc,2:42,");
}

#[test]
fn composite_pk_missing_parts_are_reported() {
    let single = vec![ks("pk", KeyType::Hash)];
    assert_eq!(composite_pk_to_text(&Item::new(), &single).unwrap_err().message(), "missing partition key");
    let multi = vec![ks("a", KeyType::Hash), ks("b", KeyType::Hash)];
    let it = item(vec![("a", AttributeValue::S("x".into()))]);
    assert_eq!(
        composite_pk_to_text(&it, &multi).unwrap_err().message(),
        "missing partition key attribute b"
    );
}

#[test]
fn sort_key_columns() {
    assert_eq!(sk_column(ScalarAttributeType::S), "sk_s");
    assert_eq!(sk_column(ScalarAttributeType::N), "sk_n");
    assert_eq!(sk_column(ScalarAttributeType::B), "sk_b");
    assert_eq!(sk_column_n(0, ScalarAttributeType::S), "sk_s");
    assert_eq!(sk_column_n(1, ScalarAttributeType::N), "sk2_n");
    assert_eq!(sk_column_n(9, ScalarAttributeType::B), "sk10_b");
}

#[test]
fn sort_key_info_reads_the_range_key_definition() {
    let schema = vec![ks("pk", KeyType::Hash), ks("ts", KeyType::Range)];
    let defs = vec![ad("pk", ScalarAttributeType::S), ad("ts", ScalarAttributeType::N)];
    assert_eq!(sk_info(&schema, &defs), Some(("ts", ScalarAttributeType::N)));
    assert_eq!(sk_info(&schema[..1], &defs), None);
    assert_eq!(sk_info(&schema, &defs[..1]), None);
}

#[test]
fn parse_sk_by_type() {
    assert!(matches!(parse_sk(&AttributeValue::S("x".into()), ScalarAttributeType::S), Ok(SortKeyValue::S(s)) if s == "x"));
    assert!(matches!(parse_sk(&AttributeValue::B(vec![9]), ScalarAttributeType::B), Ok(SortKeyValue::B(b)) if b == vec![9]));
    match parse_sk(&AttributeValue::N("1.50".into()), ScalarAttributeType::N) {
        Ok(SortKeyValue::N(d)) => assert_eq!(d, "1.5".parse::<bigdecimal::BigDecimal>().unwrap()),
        other => panic!("unexpected {other:?}"),
    }
    let err = parse_sk(&AttributeValue::N("abc".into()), ScalarAttributeType::N).unwrap_err();
    assert!(err.message().starts_with("invalid numeric sort key: "));
    let err = parse_sk(&AttributeValue::S("1".into()), ScalarAttributeType::N).unwrap_err();
    assert_eq!(err.message(), "sort key type mismatch");
}

fn key_schema_hr() -> Vec<KeySchemaElement> {
    vec![
        KeySchemaElement { attribute_name: "pk".into(), key_type: KeyType::Hash },
        KeySchemaElement { attribute_name: "sk".into(), key_type: KeyType::Range },
    ]
}

#[test]
fn storage_keys_are_the_hash_and_range_values() {
    let mut it = Item::new();
    it.insert_new("sk".into(), AttributeValue::N("7".into()));
    it.insert_new("pk".into(), AttributeValue::S("user#1".into()));
    it.insert_new("other".into(), AttributeValue::Bool(true));
    let (h, r) = storage_key_values(&key_schema_hr(), &it).unwrap();
    assert!(matches!(h, AttributeValue::S(ref s) if s == "user#1"));
    assert!(matches!(r, Some(AttributeValue::N(ref n)) if n == "7"));
    let hash_only = &key_schema_hr()[..1];
    let (_, r) = storage_key_values(hash_only, &it).unwrap();
    assert!(r.is_none());
}

#[test]
fn a_missing_key_attribute_is_named_in_the_error() {
    let mut it = Item::new();
    it.insert_new("pk".into(), AttributeValue::S("u".into()));
    match storage_key_values(&key_schema_hr(), &it) {
        Err(StorageError::Validation(m)) => assert_eq!(m, "One of the required keys was not given a value (sk)"),
        other => panic!("unexpected: {other:?}"),
    }
    let range_only = vec![KeySchemaElement { attribute_name: "pk".into(), key_type: KeyType::Range }];
    match storage_key_values(&range_only, &it) {
        Err(StorageError::Internal(m)) => assert_eq!(m, "table key schema has no HASH key"),
        other => panic!("unexpected: {other:?}"),
    }
}
