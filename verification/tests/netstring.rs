use extenddb_storage::key::encode_netstring_composite;

#[test]
fn encode_netstring_single() {
    let parts = vec!["abc".to_owned()];
    assert_eq!(encode_netstring_composite(&parts), "3:abc,");
}

#[test]
fn encode_netstring_multiple() {
    let parts = vec!["abc".to_owned(), "de".to_owned()];
    assert_eq!(encode_netstring_composite(&parts), "3:abc,2:de,");
}

#[test]
fn encode_netstring_empty_part() {
    let parts = vec!["".to_owned(), "x".to_owned()];
    assert_eq!(encode_netstring_composite(&parts), "0:,1:x,");
}

#[test]
fn encode_netstring_collision_free() {
    // These two inputs must produce different encodings
    let a = vec!["ab".to_owned(), "cd".to_owned()];
    let b = vec!["abc".to_owned(), "d".to_owned()];
    assert_ne!(encode_netstring_composite(&a), encode_netstring_composite(&b));
}

#[test]
fn netstring_lengths_count_utf8_bytes() {
    let parts = vec!["é".to_owned(), "0123456789".to_owned()];
    assert_eq!(encode_netstring_composite(&parts), "2:é,10:0123456789,");
}

#[test]
fn netstring_of_no_parts_is_empty() {
    let parts: Vec<String> = vec![];
    assert_eq!(encode_netstring_composite(&parts), "");
}
