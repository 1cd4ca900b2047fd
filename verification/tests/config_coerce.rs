use extenddb_storage::config::{data_database_label, min_pool_connections, separate_data_connection};
use extenddb_storage::config::{
    coerce_bool, coerce_opt_u32, coerce_u16, coerce_u32, effective_pool_size,
    initial_propagation_delay, parse_uint_text, trim_text, MaybeString, MIN_POOL_SIZE,
};

// The sample configuration of the original tests, field by field, through
// the coercions its deserializers apply.

#[test]
fn native_types_deserialize_unchanged() {
    assert_eq!(coerce_u32(MaybeString::Native(7)), Ok(7));
    assert_eq!(coerce_opt_u32(Some(MaybeString::Native(9))), Ok(Some(9)));
    assert_eq!(coerce_bool(MaybeString::Native(true)), Ok(true));
    assert_eq!(coerce_u16(MaybeString::Native(8443)), Ok(8443));
}

#[test]
fn string_forms_coerce_to_the_native_type() {
    assert_eq!(coerce_u32(MaybeString::Text("7".to_string())), Ok(7));
    assert_eq!(coerce_opt_u32(Some(MaybeString::Text("9".to_string()))), Ok(Some(9)));
    assert_eq!(coerce_bool(MaybeString::Text("true".to_string())), Ok(true));
    assert_eq!(coerce_u16(MaybeString::Text(" 8443 ".to_string())), Ok(8443));
}

#[test]
fn absent_optional_stays_none() {
    assert_eq!(coerce_opt_u32(None), Ok(None));
}

#[test]
fn garbage_strings_are_rejected_with_the_value_in_the_error() {
    let err = coerce_u32(MaybeString::Text("seven".to_string())).expect_err("non-numeric string must be rejected");
    assert!(err.contains("seven"), "error should quote the bad value, got: {err}");
}

#[test]
fn negative_and_overflow_values_are_rejected() {
    assert!(coerce_u32(MaybeString::Text("-1".to_string())).is_err());
    assert!(coerce_u16(MaybeString::Text("70000".to_string())).is_err());
}

#[test]
fn coercion_errors_have_the_std_reasons() {
    assert_eq!(
        coerce_u32(MaybeString::Text("seven".to_string())).unwrap_err(),
        "invalid u32 value \"seven\": invalid digit found in string"
    );
    assert_eq!(
        coerce_u16(MaybeString::Text("70000".to_string())).unwrap_err(),
        "invalid u16 value \"70000\": number too large to fit in target type"
    );
    assert_eq!(
        coerce_u32(MaybeString::Text("".to_string())).unwrap_err(),
        "invalid u32 value \"\": cannot parse integer from empty string"
    );
}

#[test]
fn bool_strings_accept_only_true_and_false() {
    assert_eq!(coerce_bool(MaybeString::Text(" false ".to_string())), Ok(false));
    assert!(coerce_bool(MaybeString::Text("yes".to_string())).is_err());
    assert!(coerce_bool(MaybeString::Text("TRUE".to_string())).is_err());
}

#[test]
fn plus_sign_is_accepted_like_std() {
    assert_eq!(coerce_u32(MaybeString::Text("+12".to_string())), Ok(12));
    assert_eq!("+12".parse::<u32>().unwrap(), 12);
}

#[test]
fn parse_uint_text_agrees_with_std() {
    for s in ["0", "42", "4294967295", "4294967296", "", "+", "1a", "007"] {
        let ours = parse_uint_text(s, u32::MAX as u64).ok();
        let std = s.parse::<u32>().ok().map(u64::from);
        assert_eq!(ours, std, "disagreement on {s:?}");
    }
}

#[test]
fn trim_removes_surrounding_whitespace() {
    assert_eq!(trim_text("  a b \t\n"), "a b");
    assert_eq!(trim_text(""), "");
}

#[test]
fn pool_size_has_a_floor() {
    assert_eq!(effective_pool_size(3), MIN_POOL_SIZE);
    assert_eq!(effective_pool_size(50), 50);
}

#[test]
fn propagation_delay_setting_is_read_or_defaults() {
    assert_eq!(initial_propagation_delay(Some("250")), 250);
    assert_eq!(initial_propagation_delay(Some("x")), initial_propagation_delay(None));
}

#[test]
fn pool_and_data_database_settings() {
    assert_eq!(min_pool_connections(10), 2);
    assert_eq!(min_pool_connections(1), 1);
    assert_eq!(separate_data_connection(Some("postgres://x")), Some("postgres://x"));
    assert_eq!(separate_data_connection(Some("")), None);
    assert_eq!(separate_data_connection(None), None);
    assert_eq!(data_database_label(None), "(not configured)");
    assert_eq!(data_database_label(Some("d".to_string())), "d");
}
