use extenddb_storage::paging::list_tables_page;
use extenddb_storage::paging::{
    arrange_query_page, filter_by_sk_condition, keep_beyond_start, limit_page, project_key,
    scan_row_after_start, sort_by_sort_key,
};
use extenddb_storage::query::{CompareOp, SortKeyCondition};
use extenddb_storage::types::{AttributeValue, Item, KeySchemaElement, KeyType, ScalarAttributeType};

fn row(pk: &str, sk: &str, tag: &str) -> Item {
    let mut it = Item::new();
    it.insert_new("pk".into(), AttributeValue::S(pk.into()));
    it.insert_new("sk".into(), AttributeValue::N(sk.into()));
    it.insert_new("tag".into(), AttributeValue::S(tag.into()));
    it
}

fn tags(items: &[Item]) -> Vec<String> {
    items
        .iter()
        .map(|i| match i.get("tag") {
            Some(AttributeValue::S(s)) => s.clone(),
            _ => String::new(),
        })
        .collect()
}

fn schema() -> Vec<KeySchemaElement> {
    vec![
        KeySchemaElement { attribute_name: "pk".into(), key_type: KeyType::Hash },
        KeySchemaElement { attribute_name: "sk".into(), key_type: KeyType::Range },
    ]
}

fn partition() -> Vec<Item> {
    vec![row("p", "10", "ten"), row("p", "2", "two"), row("p", "2.0", "two-again"), row("p", "-1", "minus")]
}

#[test]
fn numeric_sort_keys_order_by_value_and_keep_ties_stable() {
    let asc = sort_by_sort_key(partition(), "sk", ScalarAttributeType::N, true);
    assert_eq!(tags(&asc), vec!["minus", "two", "two-again", "ten"]);
    let desc = sort_by_sort_key(partition(), "sk", ScalarAttributeType::N, false);
    assert_eq!(tags(&desc), vec!["ten", "two-again", "two", "minus"]);
}

#[test]
fn the_sort_agrees_with_a_stable_std_sort() {
    let words = ["pear", "apple", "fig", "apple", "banana", "Zed", "é", ""];
    let items: Vec<Item> = words.iter().enumerate().map(|(i, w)| {
        let mut it = Item::new();
        it.insert_new("k".into(), AttributeValue::S(w.to_string()));
        it.insert_new("tag".into(), AttributeValue::S(format!("{i}")));
        it
    }).collect();
    let ours = tags(&sort_by_sort_key(items, "k", ScalarAttributeType::S, true));
    let mut idx: Vec<usize> = (0..words.len()).collect();
    idx.sort_by(|a, b| words[*a].cmp(words[*b]));
    let std: Vec<String> = idx.iter().map(|i| format!("{i}")).collect();
    assert_eq!(ours, std);
}

#[test]
fn resuming_keeps_only_items_beyond_the_start_key() {
    let asc = sort_by_sort_key(partition(), "sk", ScalarAttributeType::N, true);
    let after = keep_beyond_start(asc, "sk", ScalarAttributeType::N, &AttributeValue::N("2".into()), true);
    assert_eq!(tags(&after), vec!["ten"]);
    let desc = sort_by_sort_key(partition(), "sk", ScalarAttributeType::N, false);
    let after = keep_beyond_start(desc, "sk", ScalarAttributeType::N, &AttributeValue::N("3".into()), false);
    assert_eq!(tags(&after), vec!["two-again", "two", "minus"]);
}

#[test]
fn pages_stop_at_the_limit_and_report_the_last_key() {
    let (page, last) = limit_page(partition(), Some(2), &schema());
    assert_eq!(tags(&page), vec!["ten", "two"]);
    let last = last.unwrap();
    assert_eq!(last.attrs.len(), 2);
    assert!(matches!(last.get("sk"), Some(AttributeValue::N(n)) if n == "2"));
    let (page, last) = limit_page(partition(), Some(4), &schema());
    assert_eq!(page.len(), 4);
    assert!(last.is_none());
    let (page, last) = limit_page(partition(), Some(0), &schema());
    assert_eq!(page.len(), 4);
    assert!(last.is_none());
    let (page, _) = limit_page(partition(), Some(-3), &schema());
    assert_eq!(page.len(), 4);
}

#[test]
fn key_projection_keeps_only_key_attributes() {
    let k = project_key(&schema(), &row("p", "1", "x"));
    assert!(k.get("tag").is_none());
    assert!(k.get("pk").is_some() && k.get("sk").is_some());
}

#[test]
fn scan_rows_resume_after_the_start_tuple() {
    assert!(scan_row_after_start("a", "1", None));
    assert!(!scan_row_after_start("a", "1", Some(("a", "1"))));
    assert!(scan_row_after_start("a", "2", Some(("a", "1"))));
    assert!(scan_row_after_start("b", "0", Some(("a", "9"))));
    assert!(!scan_row_after_start("a", "9", Some(("b", "0"))));
}

#[test]
fn sort_key_conditions_filter_the_partition() {
    let cond = SortKeyCondition::Compare { op: CompareOp::Ge, value: AttributeValue::N("2".into()) };
    let kept = filter_by_sk_condition(partition(), Some(("sk", ScalarAttributeType::N)), Some(&cond)).unwrap();
    assert_eq!(tags(&kept), vec!["ten", "two", "two-again"]);
    let all = filter_by_sk_condition(partition(), None, None).unwrap();
    assert_eq!(all.len(), 4);
    let err = filter_by_sk_condition(partition(), None, Some(&cond)).unwrap_err();
    assert_eq!(err.message(), "Query key condition has a sort-key clause, but the table has no range key");
    assert!(filter_by_sk_condition(Vec::new(), None, Some(&cond)).unwrap().is_empty());
    let bad = SortKeyCondition::BeginsWith { prefix: AttributeValue::N("1".into()) };
    assert!(filter_by_sk_condition(partition(), Some(("sk", ScalarAttributeType::N)), Some(&bad)).is_err());
}

#[test]
fn a_query_page_is_filtered_ordered_resumed_and_cut() {
    let cond = SortKeyCondition::Compare { op: CompareOp::Gt, value: AttributeValue::N("-5".into()) };
    let start = row("p", "-1", "ignored");
    let (page, last) = arrange_query_page(
        partition(),
        Some(("sk", ScalarAttributeType::N)),
        Some(&cond),
        true,
        Some(&start),
        Some(2),
        &schema(),
    )
    .unwrap();
    assert_eq!(tags(&page), vec!["two", "two-again"]);
    assert!(matches!(last.unwrap().get("sk"), Some(AttributeValue::N(n)) if n == "2.0"));
}

#[test]
fn table_listings_resume_after_the_start_name_and_stop_at_the_limit() {
    let names = || vec!["alpha".to_string(), "beta".to_string(), "gamma".to_string(), "zeta".to_string()];
    let (page, last) = list_tables_page(names(), Some("beta"), Some(1));
    assert_eq!(page, vec!["gamma".to_string()]);
    assert_eq!(last.as_deref(), Some("gamma"));
    let (page, last) = list_tables_page(names(), None, None);
    assert_eq!(page.len(), 4);
    assert_eq!(last, None);
    let (page, last) = list_tables_page(names(), Some("b"), Some(10));
    assert_eq!(page, vec!["beta".to_string(), "gamma".to_string(), "zeta".to_string()]);
    assert_eq!(last, None);
    let (page, last) = list_tables_page(names(), None, Some(0));
    assert!(page.is_empty());
    assert_eq!(last, None);
    let (page, _) = list_tables_page(names(), None, Some(-1));
    assert_eq!(page.len(), 4);
}

fn string_row(sk: &str) -> Item {
    let mut it = Item::new();
    it.insert_new("pk".into(), AttributeValue::S("p".into()));
    it.insert_new("sk".into(), AttributeValue::S(sk.into()));
    it.insert_new("tag".into(), AttributeValue::S(sk.into()));
    it
}

fn all_pages(forward: bool) -> Vec<Vec<String>> {
    let partition = || -> Vec<Item> { ["d", "a", "e", "c", "b"].iter().map(|s| string_row(s)).collect() };
    let sk = Some(("sk", ScalarAttributeType::S));
    let mut pages = Vec::new();
    let mut start: Option<Item> = None;
    loop {
        let (page, next) =
            arrange_query_page(partition(), sk, None, forward, start.as_ref(), Some(2), &schema()).unwrap();
        pages.push(tags(&page));
        match next {
            Some(k) => start = Some(k),
            None => break,
        }
    }
    pages
}

#[test]
fn query_pages_resume_where_the_last_one_stopped() {
    assert_eq!(all_pages(true), vec![vec!["a", "b"], vec!["c", "d"], vec!["e"]]);
    assert_eq!(all_pages(false), vec![vec!["e", "d"], vec!["c", "b"], vec!["a"]]);
}
