use extenddb_storage::types::{AttributeValue, Item};
use extenddb_storage::vector_scoring::{
    attribute_values_equal, check_query_dimensions, decode_vector, passes_filters, top_k_size, vector_dimensions,
    DistanceFunction, TopK,
};

// Scores enter the ranking as integer keys in the order of the scores; the
// keys below stand for the scores 0.9, 0.1 and 0.5.
#[test]
fn top_k_orders_distances_ascending_and_similarities_descending() {
    let mut cosine = TopK::new(2, DistanceFunction::Cosine);
    for s in [900i64, 100, 500] {
        cosine.offer(s, ());
    }
    assert_eq!(
        cosine.into_hits().iter().map(|(s, _)| *s).collect::<Vec<_>>(),
        vec![100, 500]
    );

    let mut dot = TopK::new(2, DistanceFunction::DotProduct);
    for s in [900i64, 100, 500] {
        dot.offer(s, ());
    }
    assert_eq!(
        dot.into_hits().iter().map(|(s, _)| *s).collect::<Vec<_>>(),
        vec![900, 500]
    );
}

#[test]
fn a_retained_hit_keeps_its_own_vector() {
    let mut t = TopK::new(3, DistanceFunction::Cosine);
    for (score, tag) in [(900i64, 9.0f32), (500, 5.0), (100, 1.0)] {
        t.offer(score, vec![tag]);
    }
    let paired: Vec<(i64, f32)> = t
        .into_hits()
        .iter()
        .map(|(s, components)| (*s, components[0]))
        .collect();
    assert_eq!(paired, vec![(100, 1.0), (500, 5.0), (900, 9.0)]);
}

#[test]
fn top_k_of_zero_returns_nothing_rather_than_panicking() {
    let mut t = TopK::new(0, DistanceFunction::Cosine);
    t.offer(500, ());
    assert!(t.into_hits().is_empty());
}

#[test]
fn a_truncated_stored_vector_is_rejected_rather_than_read_short() {
    let err = decode_vector(&[0u8; 8], 3).expect_err("must reject");
    assert!(format!("{err:?}").contains("expected 12"), "unexpected: {err:?}");
}

#[test]
fn truncated_vector_message_is_exact() {
    let err = decode_vector(&[0u8; 8], 3).unwrap_err();
    assert_eq!(err.message(), "stored vector is 8 bytes, expected 12 for 3 dimensions");
}

#[test]
fn decoded_words_are_the_little_endian_f32_bits() {
    let mut bytes = Vec::new();
    bytes.extend_from_slice(&1.0f32.to_le_bytes());
    bytes.extend_from_slice(&(-2.5f32).to_le_bytes());
    let words = decode_vector(&bytes, 2).unwrap();
    assert_eq!(words.len(), 2);
    assert_eq!(f32::from_bits(words[0]), 1.0);
    assert_eq!(f32::from_bits(words[1]), -2.5);
}

#[test]
fn ties_keep_the_earlier_candidate_first_and_evict_the_later() {
    let mut t = TopK::new(2, DistanceFunction::Euclidean);
    t.offer(5, 'a');
    t.offer(5, 'b');
    t.offer(5, 'c');
    let hits = t.into_hits();
    assert_eq!(hits, vec![(5, 'a'), (5, 'b')]);
}

#[test]
fn ranks_before_follows_the_distance_function() {
    assert!(DistanceFunction::Cosine.ranks_before(1, 2));
    assert!(!DistanceFunction::Euclidean.ranks_before(2, 1));
    assert!(DistanceFunction::DotProduct.ranks_before(2, 1));
    assert!(!DistanceFunction::DotProduct.ranks_before(1, 1));
}

#[test]
fn stored_dimensions_and_query_dimensions_are_checked() {
    assert_eq!(vector_dimensions(3).unwrap(), 3);
    assert_eq!(vector_dimensions(-1).unwrap_err().message(), "vector dimensions out of range: -1");
    assert!(check_query_dimensions(3, 3).is_ok());
    assert_eq!(
        check_query_dimensions(2, 3).unwrap_err().message(),
        "query vector has 2 dimensions, index expects 3"
    );
    assert_eq!(top_k_size(5), 5);
    assert_eq!(top_k_size(-5), 0);
}

#[test]
fn equality_filters_need_every_attribute_equal() {
    let mut it = Item::new();
    it.insert_new("color".into(), AttributeValue::S("red".into()));
    it.insert_new("sizes".into(), AttributeValue::Ns(vec!["1".into(), "2".into()]));
    assert!(passes_filters(&it, &vec![]));
    assert!(passes_filters(&it, &vec![("color".into(), AttributeValue::S("red".into()))]));
    assert!(!passes_filters(&it, &vec![("color".into(), AttributeValue::S("blue".into()))]));
    assert!(!passes_filters(&it, &vec![("shape".into(), AttributeValue::S("red".into()))]));
    assert!(passes_filters(&it, &vec![("sizes".into(), AttributeValue::Ns(vec!["1".into(), "2".into()]))]));
    assert!(!attribute_values_equal(&AttributeValue::S("1".into()), &AttributeValue::N("1".into())));
    assert!(attribute_values_equal(&AttributeValue::Bs(vec![vec![1]]), &AttributeValue::Bs(vec![vec![1]])));
}
