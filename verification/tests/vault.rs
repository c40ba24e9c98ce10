use clipwallet::names::{blob_id_of, is_tmp_file_name, list_vault_ids, vault_file_name, vault_id_of};
use clipwallet::vault::{
    decrypt_entry, encrypt_entry, get_or_create_key, key_from_hex, key_to_hex, KeyError, KeySource, VaultError,
    NONCE_LEN,
};

#[test]
fn vault_record_round_trips_under_the_same_key() {
    let key = [7u8; 32];
    let plaintext = b"serialised entry".to_vec();
    let record = encrypt_entry(&key, &plaintext).unwrap();
    assert_eq!(record.len(), NONCE_LEN + plaintext.len() + 16);
    assert_ne!(&record[NONCE_LEN..NONCE_LEN + plaintext.len()], &plaintext[..]);
    assert_eq!(decrypt_entry(&key, &record).unwrap(), plaintext);
}

#[test]
fn vault_record_under_another_key_or_tampered_fails() {
    let key = [1u8; 32];
    let mut record = encrypt_entry(&key, b"secret").unwrap();
    assert_eq!(decrypt_entry(&[2u8; 32], &record), Err(VaultError::DecryptFailed));
    let last = record.len() - 1;
    record[last] ^= 1;
    assert_eq!(decrypt_entry(&key, &record), Err(VaultError::DecryptFailed));
}

#[test]
fn vault_record_too_short_for_a_nonce() {
    assert_eq!(decrypt_entry(&[0u8; 32], &[0u8; 12]), Err(VaultError::TooShort));
    assert_eq!(decrypt_entry(&[0u8; 32], &[]), Err(VaultError::TooShort));
}

#[test]
fn fresh_nonces_differ() {
    let key = [3u8; 32];
    let a = encrypt_entry(&key, b"x").unwrap();
    let b = encrypt_entry(&key, b"x").unwrap();
    assert_ne!(a[..NONCE_LEN], b[..NONCE_LEN]);
}

#[test]
fn stored_key_decodes_or_is_rejected() {
    let key: [u8; 32] = core::array::from_fn(|i| i as u8);
    let hex = key_to_hex(&key);
    assert_eq!(hex.len(), 64);
    assert!(hex.starts_with("000102030405"));
    assert_eq!(key_from_hex(&hex), Ok(key));
    assert_eq!(key_from_hex(&hex.to_uppercase()), Ok(key));
    assert_eq!(key_from_hex("not-hexadecimal"), Err(KeyError::Decode));
    assert_eq!(key_from_hex("abc"), Err(KeyError::Decode));
    assert_eq!(key_from_hex(&"ab".repeat(16)), Err(KeyError::WrongLength(16)));
}

#[test]
fn get_or_create_key_loads_or_generates() {
    let key = [0xABu8; 32];
    let stored = key_to_hex(&key);
    match get_or_create_key(Some(&stored)) {
        Ok(KeySource::Loaded(k)) => assert_eq!(k, key),
        other => panic!("unexpected {:?}", other),
    }
    match get_or_create_key(None) {
        Ok(KeySource::Created { key, hex }) => {
            assert_eq!(hex, key_to_hex(&key));
            assert_eq!(key_from_hex(&hex), Ok(key));
        }
        other => panic!("unexpected {:?}", other),
    }
    assert!(matches!(get_or_create_key(Some("zz")), Err(KeyError::Decode)));
}

#[test]
fn vault_file_names_round_trip() {
    assert_eq!(vault_file_name(42), "42.vlt");
    assert_eq!(vault_id_of("42.vlt"), Some(42));
    assert_eq!(vault_id_of("42.vlt.vlt"), Some(42));
    assert_eq!(vault_id_of("x.vlt"), None);
    assert_eq!(vault_id_of("42.blob"), None);
    assert_eq!(blob_id_of("17.blob"), Some(17));
    assert_eq!(blob_id_of("+17.blob"), Some(17));
    assert_eq!(blob_id_of("17.tmp"), None);
    assert!(is_tmp_file_name("123.tmp"));
    assert!(!is_tmp_file_name(".tmp"));
    let names = vec!["3.vlt".to_string(), "readme".to_string(), "10.vlt".to_string(), "x.vlt".to_string()];
    assert_eq!(list_vault_ids(&names), vec![3, 10]);
}
