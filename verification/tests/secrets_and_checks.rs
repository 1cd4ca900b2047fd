use extenddb_storage::bootstrapper::generate_encryption_key;
use extenddb_storage::db_util::{is_fk_violation, is_undefined_table, is_unique_violation, validate_account_id};
use extenddb_storage::error::{DiagnosticsStoreError, SettingsStoreError, StorageError};
use extenddb_storage::secrets::{
    decrypt_secret, decrypt_secret_checked, encrypt_secret, encrypt_secret_checked,
    generate_access_key_id, generate_secret_key,
};

#[test]
fn a_secret_decrypts_to_what_was_encrypted() {
    let key = generate_encryption_key();
    let sealed = encrypt_secret("wJalrXUtnFEMI/K7MDENG", &key, "AKIAEXAMPLE").unwrap();
    assert_eq!(sealed.len(), 12 + "wJalrXUtnFEMI/K7MDENG".len() + 16);
    assert_eq!(decrypt_secret(&sealed, &key, "AKIAEXAMPLE").unwrap(), "wJalrXUtnFEMI/K7MDENG");
}

#[test]
fn two_encryptions_of_one_secret_differ() {
    let key = generate_encryption_key();
    let a = encrypt_secret("s", &key, "id").unwrap();
    let b = encrypt_secret("s", &key, "id").unwrap();
    assert_ne!(a, b);
}

#[test]
fn wrong_additional_data_does_not_decrypt() {
    let key = generate_encryption_key();
    let sealed = encrypt_secret("secret", &key, "id-1").unwrap();
    let err = decrypt_secret(&sealed, &key, "id-2").unwrap_err();
    assert!(err.starts_with("decrypt: "), "{err}");
}

#[test]
fn wrong_key_does_not_decrypt() {
    let sealed = encrypt_secret("secret", &generate_encryption_key(), "id").unwrap();
    let err = decrypt_secret(&sealed, &generate_encryption_key(), "id").unwrap_err();
    assert!(err.starts_with("decrypt: "), "{err}");
}

#[test]
fn short_ciphertext_is_rejected() {
    let err = decrypt_secret(&[0u8; 27], "irrelevant", "id").unwrap_err();
    assert_eq!(err, "ciphertext too short (need at least 12-byte nonce + 16-byte auth tag)");
}

#[test]
fn undecodable_key_is_reported() {
    let err = decrypt_secret(&[0u8; 40], "not base64!", "id").unwrap_err();
    assert!(err.starts_with("decode encryption key: "), "{err}");
    let err = encrypt_secret("x", "not base64!", "id").unwrap_err();
    assert!(err.starts_with("decode encryption key: "), "{err}");
}

#[test]
fn a_key_of_the_wrong_size_is_refused_by_the_checked_forms() {
    // 16 bytes of key material, base64-encoded.
    let short_key = "AAAAAAAAAAAAAAAAAAAAAA==";
    assert!(decrypt_secret_checked(&[0u8; 40], short_key, "id").is_none());
    assert!(encrypt_secret_checked("x", short_key, "id").is_none());
    let key = generate_encryption_key();
    let sealed = encrypt_secret_checked("x", &key, "id").unwrap().unwrap();
    assert_eq!(decrypt_secret_checked(&sealed, &key, "id"), Some(Ok("x".to_string())));
}

#[test]
fn access_key_ids_and_secret_keys_have_their_shape() {
    let id = generate_access_key_id();
    assert_eq!(id.len(), 20);
    assert!(id.starts_with("AKIAEXTENDDB"));
    assert!(id[12..].chars().all(|c| c.is_ascii_uppercase() || c.is_ascii_digit()));
    let key = generate_secret_key();
    assert_eq!(key.len(), 40);
    assert!(key.starts_with("extenddb"));
    assert_ne!(generate_secret_key(), key);
}

#[test]
fn database_error_messages_are_classified() {
    assert!(is_unique_violation("UNIQUE constraint failed: users.name"));
    assert!(is_unique_violation("PRIMARY KEY constraint failed"));
    assert!(!is_unique_violation("FOREIGN KEY constraint failed"));
    assert!(is_fk_violation("error: FOREIGN KEY constraint failed"));
    assert!(!is_fk_violation("constraint failed"));
    assert!(is_undefined_table(&StorageError::Internal("error 42P01: relation does not exist".into())));
    assert!(!is_undefined_table(&StorageError::Validation("42P01".into())));
}

#[test]
fn account_ids_are_checked_for_identifier_safety() {
    assert!(validate_account_id("123456789012").is_ok());
    let err = validate_account_id("12\"3").unwrap_err();
    assert_eq!(err.message(), "account_id contains invalid characters for use in SQL identifiers");
    assert!(validate_account_id("a\0b").is_err());
    assert!(validate_account_id("número").is_err());
}

#[test]
fn store_creation_errors_render_their_messages() {
    assert_eq!(
        DiagnosticsStoreError::BackendNotInstalled.message(),
        "no storage backend installed (set_backend was not called)"
    );
    assert_eq!(
        SettingsStoreError::ConnectionFailed("refused".into()).message(),
        "Failed to connect: refused"
    );
    assert_eq!(StorageError::IdempotentReplay.message(), "");
    assert_eq!(StorageError::TableNotFound("T".into()).message(), "T");
}
