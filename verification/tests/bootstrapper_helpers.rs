use extenddb_storage::bootstrapper::{check_conflict, check_conflict_redacted, extract_arg};

#[test]
fn test_check_conflict_no_cli_arg() {
    let result = check_conflict(None, &"config_value", "--test-flag");
    assert!(result.is_ok(), "No conflict when CLI arg is None");
}

#[test]
fn test_check_conflict_matching_values() {
    let cli_value = "same_value".to_string();
    let config_value = "same_value".to_string();
    let result = check_conflict(Some(&cli_value), &config_value, "--test-flag");
    assert!(result.is_ok(), "No conflict when values match");
}

#[test]
fn test_check_conflict_different_values() {
    let cli_value = "cli_value".to_string();
    let config_value = "config_value".to_string();
    let result = check_conflict(Some(&cli_value), &config_value, "--test-flag");

    assert!(result.is_err(), "Should error on conflict");
    let err = result.unwrap_err();
    assert!(err.message().contains("--test-flag"));
    assert!(err.message().contains("cli_value"));
    assert!(err.message().contains("config_value"));
}

#[test]
fn test_check_conflict_with_numbers() {
    let cli_port: u16 = 5432;
    let config_port: u16 = 5432;
    let result = check_conflict(Some(&cli_port), &config_port, "--port");
    assert!(result.is_ok(), "No conflict when numeric values match");

    let different_port: u16 = 9042;
    let result = check_conflict(Some(&different_port), &config_port, "--port");
    assert!(result.is_err(), "Should error when numeric values differ");
}

#[test]
fn test_check_conflict_redacted_never_leaks_either_value() {
    let cli_secret = "hunter2-cli".to_string();
    let config_secret = "hunter2-config".to_string();
    let result = check_conflict_redacted(Some(&cli_secret), &config_secret, "--extenddb-pass");
    let err = result.unwrap_err().message();
    assert!(err.contains("--extenddb-pass"), "flag must be named: {err}");
    assert!(!err.contains("hunter2-cli"), "CLI secret leaked: {err}");
    assert!(!err.contains("hunter2-config"), "config secret leaked: {err}");
}

#[test]
fn test_check_conflict_redacted_ok_paths() {
    let same = "s3cret".to_string();
    assert!(check_conflict_redacted(Some(&same), &same, "--extenddb-pass").is_ok());
    assert!(check_conflict_redacted(None, &same, "--extenddb-pass").is_ok());
}

#[test]
fn test_extract_arg_found() {
    let args = vec![
        "program".to_string(),
        "--host".to_string(),
        "localhost".to_string(),
        "--port".to_string(),
        "5432".to_string(),
    ];

    assert_eq!(extract_arg(&args, "--host"), Some("localhost".to_string()));
    assert_eq!(extract_arg(&args, "--port"), Some("5432".to_string()));
}

#[test]
fn test_extract_arg_not_found() {
    let args = vec!["program".to_string(), "--host".to_string(), "localhost".to_string()];

    assert_eq!(extract_arg(&args, "--port"), None);
    assert_eq!(extract_arg(&args, "--missing"), None);
}

#[test]
fn test_extract_arg_empty_args() {
    let args: Vec<String> = vec![];
    assert_eq!(extract_arg(&args, "--host"), None);
}

#[test]
fn test_extract_arg_flag_at_end() {
    let args = vec!["program".to_string(), "--host".to_string()];

    // Flag at end with no value should return None
    assert_eq!(extract_arg(&args, "--host"), None);
}

#[test]
fn test_extract_arg_multiple_occurrences() {
    let args = vec![
        "program".to_string(),
        "--host".to_string(),
        "first".to_string(),
        "--host".to_string(),
        "second".to_string(),
    ];

    // Should return first occurrence
    assert_eq!(extract_arg(&args, "--host"), Some("first".to_string()));
}

#[test]
fn conflict_message_shows_flag_and_both_values() {
    let cli = "db1".to_string();
    let cfg = "db2".to_string();
    let err = check_conflict(Some(&cli), &cfg, "--host").unwrap_err();
    assert_eq!(err.message(), "--host value 'db1' conflicts with config file value 'db2'");
    let p1: u16 = 7;
    let p2: u16 = 5432;
    let err = check_conflict(Some(&p1), &p2, "--port").unwrap_err();
    assert_eq!(err.message(), "--port value '7' conflicts with config file value '5432'");
}

#[test]
fn redacted_message_is_exact() {
    let a = "x".to_string();
    let b = "y".to_string();
    let err = check_conflict_redacted(Some(&a), &b, "--pw").unwrap_err();
    assert_eq!(err.message(), "--pw conflicts with the value in the config file (values redacted)");
}

#[test]
fn password_hashes_have_the_bcrypt_shape() {
    let h = extenddb_storage::bootstrapper::hash_password("test_password_123").unwrap();
    assert!(h.starts_with("$2"));
    assert_eq!(h.len(), 60);
}

#[test]
fn same_password_hashes_differently_each_time() {
    let a = extenddb_storage::bootstrapper::hash_password("same_password").unwrap();
    let b = extenddb_storage::bootstrapper::hash_password("same_password").unwrap();
    assert_ne!(a, b, "Same password should produce different hashes");
}

#[test]
fn a_password_verifies_against_its_own_hash() {
    let h = extenddb_storage::bootstrapper::hash_password("test_password_123").unwrap();
    assert!(extenddb_storage::bootstrapper::verify_bcrypt("test_password_123", &h));
    assert!(!extenddb_storage::bootstrapper::verify_bcrypt("wrong_password", &h));
}

#[test]
fn an_unreadable_hash_never_matches() {
    assert!(!extenddb_storage::bootstrapper::verify_bcrypt("pw", "not-a-bcrypt-hash"));
    assert!(!extenddb_storage::bootstrapper::verify_bcrypt("pw", ""));
}
