use base64::Engine;
use extenddb_storage::bootstrapper::{generate_account_id, generate_encryption_key, generate_random_password};

#[test]
fn test_generate_account_id_format() {
    let id = generate_account_id();
    assert_eq!(id.len(), 12, "Account ID should be 12 characters");
    assert!(id.chars().all(|c| c.is_ascii_digit()), "Account ID should contain only digits");
}

#[test]
fn test_generate_account_id_range() {
    let id = generate_account_id();
    let id_num: u64 = id.parse().expect("Account ID should be a valid number");
    assert!(id_num >= 100_000_000_000, "Account ID should be >= 100000000000");
    assert!(id_num < 1_000_000_000_000, "Account ID should be < 1000000000000");
}

#[test]
fn test_generate_account_id_uniqueness() {
    let ids: Vec<String> = (0..100).map(|_| generate_account_id()).collect();
    let unique_ids: std::collections::HashSet<_> = ids.iter().collect();
    assert_eq!(ids.len(), unique_ids.len(), "Account IDs should be unique");
}

#[test]
fn test_generate_random_password_length() {
    let password = generate_random_password();
    assert_eq!(password.len(), 24, "Password should be exactly 24 characters");
}

#[test]
fn test_generate_random_password_charset() {
    let password = generate_random_password();
    assert!(
        password.chars().all(|c| c.is_ascii_alphanumeric()),
        "Password should contain only alphanumeric characters"
    );
}

#[test]
fn test_generate_random_password_uniqueness() {
    let passwords: Vec<String> = (0..100).map(|_| generate_random_password()).collect();
    let unique_passwords: std::collections::HashSet<_> = passwords.iter().collect();
    assert_eq!(passwords.len(), unique_passwords.len(), "Passwords should be unique");
}

#[test]
fn test_generate_encryption_key_length() {
    let key_b64 = generate_encryption_key();
    let key_bytes = base64::engine::general_purpose::STANDARD
        .decode(&key_b64)
        .expect("Key should be valid base64");
    assert_eq!(key_bytes.len(), 32, "Encryption key should be 32 bytes (256 bits)");
}

#[test]
fn test_generate_encryption_key_uniqueness() {
    let key1 = generate_encryption_key();
    let key2 = generate_encryption_key();
    assert_ne!(key1, key2, "Encryption keys should be unique");
}
