use extenddb_storage::error::StorageError;
use extenddb_storage::streams::{
    assign_shard, initial_shard_ids, plan_stream_record, sequence_number_text, shard_id, shard_key_of,
    shard_position, stream_enable_action, stream_event_for, stream_not_found, stream_status_for,
    StreamEnableAction, StreamEventName, StreamStatus, StreamViewType, SHARDS_PER_STREAM,
};
use extenddb_storage::streams::{shard_page, stream_listing_page, ShardRow};
use extenddb_storage::types::{AttributeValue, Item, KeySchemaElement, KeyType};

fn item(pairs: &[(&str, &str)]) -> Item {
    let mut it = Item::new();
    for (n, v) in pairs {
        it.insert_new(n.to_string(), AttributeValue::S(v.to_string()));
    }
    it
}

fn text(it: &Item, name: &str) -> Option<String> {
    match it.get(name) {
        Some(AttributeValue::S(s)) => Some(s.clone()),
        _ => None,
    }
}

fn schema() -> Vec<KeySchemaElement> {
    vec![
        KeySchemaElement { attribute_name: "pk".into(), key_type: KeyType::Hash },
        KeySchemaElement { attribute_name: "sk".into(), key_type: KeyType::Range },
    ]
}

#[test]
fn events_follow_the_presence_of_the_item() {
    assert_eq!(stream_event_for(false, true), Some(StreamEventName::Insert));
    assert_eq!(stream_event_for(true, true), Some(StreamEventName::Modify));
    assert_eq!(stream_event_for(true, false), Some(StreamEventName::Remove));
    assert_eq!(stream_event_for(false, false), None);
}

#[test]
fn a_modify_record_carries_the_keys_and_the_images_of_its_view() {
    let old = item(&[("pk", "a"), ("sk", "1"), ("v", "old")]);
    let new = item(&[("pk", "a"), ("sk", "1"), ("v", "new")]);
    let plan = plan_stream_record(&schema(), StreamViewType::NewAndOldImages, Some(&old), Some(&new)).unwrap();
    assert_eq!(plan.event_name, StreamEventName::Modify);
    assert_eq!(plan.keys.attrs.len(), 2);
    assert_eq!(text(&plan.keys, "pk").as_deref(), Some("a"));
    assert_eq!(text(&plan.keys, "v"), None);
    assert_eq!(text(plan.new_image.as_ref().unwrap(), "v").as_deref(), Some("new"));
    assert_eq!(text(plan.old_image.as_ref().unwrap(), "v").as_deref(), Some("old"));

    let keys_only = plan_stream_record(&schema(), StreamViewType::KeysOnly, Some(&old), Some(&new)).unwrap();
    assert!(keys_only.new_image.is_none() && keys_only.old_image.is_none());
    let new_only = plan_stream_record(&schema(), StreamViewType::NewImage, Some(&old), Some(&new)).unwrap();
    assert!(new_only.new_image.is_some() && new_only.old_image.is_none());
}

#[test]
fn a_remove_record_reads_its_keys_from_the_old_item() {
    let old = item(&[("pk", "gone"), ("sk", "9")]);
    let plan = plan_stream_record(&schema(), StreamViewType::OldImage, Some(&old), None).unwrap();
    assert_eq!(plan.event_name, StreamEventName::Remove);
    assert_eq!(text(&plan.keys, "pk").as_deref(), Some("gone"));
    assert!(plan.old_image.is_some() && plan.new_image.is_none());
}

#[test]
fn deleting_a_missing_item_writes_no_record() {
    assert!(plan_stream_record(&schema(), StreamViewType::NewAndOldImages, None, None).is_none());
}

#[test]
fn shard_keys_and_positions() {
    assert_eq!(shard_key_of(Some(&AttributeValue::S("k".into()))), "k");
    assert_eq!(shard_key_of(Some(&AttributeValue::B(vec![0xff]))), "/w==");
    assert_eq!(shard_key_of(Some(&AttributeValue::Bool(true))), "");
    assert_eq!(shard_key_of(None), "");
    // crc32("123456789") = 0xCBF43926.
    assert_eq!(shard_position("123456789", 4), (0xCBF4_3926u64 % 4) as usize);
    assert_eq!(shard_position("123456789", 7), (0xCBF4_3926u64 % 7) as usize);
}

#[test]
fn shards_are_assigned_by_hash_or_refused_when_absent() {
    let ids = initial_shard_ids("Orders");
    assert_eq!(ids.len(), SHARDS_PER_STREAM as usize);
    assert_eq!(ids[0], "shardId-Orders-000000000000");
    assert_eq!(ids[3], "shardId-Orders-000000000003");
    let chosen = assign_shard(&ids, "123456789", "Orders").unwrap();
    assert_eq!(chosen, ids[(0xCBF4_3926u64 % 4) as usize]);
    let err = assign_shard(&Vec::new(), "k", "Orders").unwrap_err();
    assert_eq!(err.message(), "No stream shards for table Orders");
}

#[test]
fn sequence_numbers_are_zero_padded_like_format() {
    for v in [0i64, 7, 123456789, i64::MAX, -5, i64::MIN] {
        assert_eq!(sequence_number_text(v), format!("{v:021}"));
    }
    assert_eq!(shard_id("T", 12), format!("shardId-T-{:012}", 12));
}

#[test]
fn stream_status_and_errors() {
    assert_eq!(stream_status_for("DELETING"), StreamStatus::Disabling);
    assert_eq!(stream_status_for("ACTIVE"), StreamStatus::Enabled);
    match stream_not_found("arn:x") {
        StorageError::TableNotFound(m) => assert_eq!(m, "Requested resource not found: Stream: arn:x not found."),
        other => panic!("unexpected {other:?}"),
    }
}

#[test]
fn enabling_a_stream_creates_shards_once() {
    assert_eq!(stream_enable_action(false, false), StreamEnableAction::CreateShards);
    assert_eq!(stream_enable_action(true, false), StreamEnableAction::RestoreLabel);
    assert_eq!(stream_enable_action(true, true), StreamEnableAction::Nothing);
}

#[test]
fn sequence_numbers_sort_as_text_like_their_counters() {
    let mut prev = sequence_number_text(0);
    for v in [1i64, 9, 10, 99, 100, 12345, 1_000_000_000, i64::MAX] {
        let cur = sequence_number_text(v);
        assert!(prev < cur, "{prev} !< {cur}");
        prev = cur;
    }
}

fn shard_rows(ids: &[&str]) -> Vec<ShardRow> {
    ids.iter()
        .map(|id| ShardRow {
            shard_id: id.to_string(),
            parent_shard_id: None,
            starting_sequence_number: "000000000000000000001".to_string(),
            ending_sequence_number: None,
        })
        .collect()
}

fn ids(rows: &[ShardRow]) -> Vec<String> {
    rows.iter().map(|r| r.shard_id.clone()).collect()
}

#[test]
fn a_stream_description_cuts_its_shards_at_the_limit() {
    let (page, last) = shard_page(shard_rows(&["s1", "s2", "s3"]), Some(2));
    assert_eq!(ids(&page), vec!["s1", "s2"]);
    assert_eq!(last.as_deref(), Some("s2"));
    let (page, last) = shard_page(shard_rows(&["s1", "s2"]), Some(2));
    assert_eq!(ids(&page), vec!["s1", "s2"]);
    assert_eq!(last, None);
}

#[test]
fn a_stream_description_lists_a_hundred_shards_by_default() {
    let many: Vec<String> = (0..101).map(|i| format!("s{i:03}")).collect();
    let refs: Vec<&str> = many.iter().map(|s| s.as_str()).collect();
    let (page, last) = shard_page(shard_rows(&refs), None);
    assert_eq!(page.len(), 100);
    assert_eq!(last.as_deref(), Some("s099"));
    let (page, last) = shard_page(shard_rows(&["s1", "s2"]), Some(-1));
    assert_eq!(page.len(), 2);
    assert_eq!(last, None);
}

#[test]
fn a_stream_listing_names_each_stream_by_its_arn_and_resumes_after_the_last() {
    let rows = vec![
        ("a".to_string(), "l1".to_string()),
        ("b".to_string(), "l2".to_string()),
        ("c".to_string(), "l3".to_string()),
    ];
    let (page, last) = stream_listing_page("us-east-1", "000000000000", rows.clone(), 2);
    assert_eq!(page.len(), 2);
    assert_eq!(page[0].stream_arn, "arn:aws:dynamodb:us-east-1:000000000000:table/a/stream/l1");
    assert_eq!(page[1].table_name, "b");
    assert_eq!(page[1].stream_label, "l2");
    assert_eq!(last.as_deref(), Some("arn:aws:dynamodb:us-east-1:000000000000:table/b/stream/l2"));
    let (page, last) = stream_listing_page("us-east-1", "000000000000", rows.clone(), 5);
    assert_eq!(page.len(), 3);
    assert_eq!(last, None);
    let (page, last) = stream_listing_page("us-east-1", "000000000000", rows, 0);
    assert!(page.is_empty());
    assert_eq!(last, None);
}
