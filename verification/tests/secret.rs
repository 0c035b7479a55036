use rds_cli::crypto::Crypto;
use rds_cli::secret::{
    decode_stored_key, encode_key, KeyDefect, KeyStoreError, MasterKeySource, SecretManager,
    StoreAction, StoreContent, KEY_FILE_MODE,
};

#[test]
fn test_master_key_persistence() {
    let mut manager = SecretManager::new().unwrap();

    let key1 = manager.get_or_create_master_key().unwrap();
    let key2 = manager.get_or_create_master_key().unwrap();

    assert_eq!(key1, key2);

    manager.reset_master_key().unwrap();
}

#[test]
fn first_request_creates_a_key_to_be_written() {
    let mut manager = SecretManager::new().unwrap();
    assert_eq!(manager.key_source(), MasterKeySource::KeyFile);
    assert_eq!(manager.pending_action(), StoreAction::Nothing);
    assert!(manager.stored_text().is_none());

    let key = manager.get_or_create_master_key().unwrap();
    assert_eq!(manager.pending_action(), StoreAction::Write);
    let text = manager.stored_text().unwrap().clone();
    assert_eq!(text, encode_key(&key));
    assert_eq!(decode_stored_key(&text), Ok(key));

    manager.acknowledge();
    assert_eq!(manager.pending_action(), StoreAction::Nothing);
    assert_eq!(manager.get_or_create_master_key(), Ok(key));
    assert_eq!(manager.pending_action(), StoreAction::Nothing);
    assert_eq!(manager.stored_text(), Some(&text));
}

#[test]
fn stored_key_is_read_and_left_alone() {
    let key = [42u8; 32];
    let text = format!("  {}\n", encode_key(&key));
    let mut manager =
        SecretManager::open(MasterKeySource::SecureStore, StoreContent::Present(text.clone()));
    assert_eq!(manager.key_source(), MasterKeySource::SecureStore);
    assert_eq!(manager.get_or_create_master_key(), Ok(key));
    assert_eq!(manager.get_or_create_master_key(), Ok(key));
    assert_eq!(manager.pending_action(), StoreAction::Nothing);
    assert_eq!(manager.stored_text(), Some(&text));
}

#[test]
fn unavailable_store_fails_loudly() {
    let mut manager = SecretManager::open(MasterKeySource::KeyFile, StoreContent::Unavailable);
    assert_eq!(
        manager.get_or_create_master_key(),
        Err(KeyStoreError::KeyStoreUnavailable)
    );
    assert_eq!(manager.pending_action(), StoreAction::Nothing);
    assert!(manager.stored_text().is_none());
    assert_eq!(
        manager.reset_master_key(),
        Err(KeyStoreError::KeyStoreUnavailable)
    );
    assert_eq!(manager.pending_action(), StoreAction::Nothing);
}

#[test]
fn corrupt_key_material_is_reported_and_kept() {
    let mut manager = SecretManager::open(
        MasterKeySource::KeyFile,
        StoreContent::Present("not base64!".to_string()),
    );
    assert_eq!(
        manager.get_or_create_master_key(),
        Err(KeyStoreError::CorruptKeyMaterial(KeyDefect::Encoding))
    );
    assert_eq!(manager.pending_action(), StoreAction::Nothing);
    assert_eq!(manager.stored_text(), Some(&"not base64!".to_string()));

    let mut manager = SecretManager::open(
        MasterKeySource::KeyFile,
        StoreContent::Present("AAAA".to_string()),
    );
    assert_eq!(
        manager.get_or_create_master_key(),
        Err(KeyStoreError::CorruptKeyMaterial(KeyDefect::Size))
    );
}

#[test]
fn reset_then_request_gives_another_key() {
    let mut manager = SecretManager::new().unwrap();
    let old_key = manager.get_or_create_master_key().unwrap();
    let token = Crypto::new(&old_key).encrypt("s3cr3t").unwrap();
    manager.acknowledge();

    assert_eq!(manager.reset_master_key(), Ok(()));
    assert_eq!(manager.pending_action(), StoreAction::Delete);
    assert!(manager.stored_text().is_none());

    let new_key = manager.get_or_create_master_key().unwrap();
    assert_ne!(old_key, new_key);
    assert_eq!(manager.pending_action(), StoreAction::Write);
    assert!(Crypto::new(&new_key).decrypt(&token).is_err());
    assert_eq!(Crypto::new(&old_key).decrypt(&token).unwrap(), "s3cr3t");
}

#[test]
fn stored_key_text_is_base64_of_the_key() {
    assert_eq!(
        encode_key(&[0u8; 32]),
        "AAAAAAAAAAAAAAAAAAAAAAAAAAAAAAAAAAAAAAAAAAA="
    );
    assert_eq!(
        decode_stored_key("AAAAAAAAAAAAAAAAAAAAAAAAAAAAAAAAAAAAAAAAAAA="),
        Ok([0u8; 32])
    );
    assert_eq!(
        decode_stored_key("\t AAAAAAAAAAAAAAAAAAAAAAAAAAAAAAAAAAAAAAAAAAA=\u{3000}\r\n"),
        Ok([0u8; 32])
    );
    assert_eq!(
        decode_stored_key("AAAAAAAAAAAAAAAAAAAAAAAAAAAAAAAAAAAAAAAAAA=="),
        Err(KeyStoreError::CorruptKeyMaterial(KeyDefect::Size))
    );
    assert_eq!(
        decode_stored_key(""),
        Err(KeyStoreError::CorruptKeyMaterial(KeyDefect::Size))
    );
    assert_eq!(
        decode_stored_key("AAAA AAAA"),
        Err(KeyStoreError::CorruptKeyMaterial(KeyDefect::Encoding))
    );
}

#[test]
fn key_file_stands_below_the_configuration_directory() {
    assert_eq!(
        SecretManager::key_file_path(Some("/home/u/.config/rds-cli")),
        Ok("/home/u/.config/rds-cli/.master.key".to_string())
    );
    assert_eq!(
        SecretManager::key_file_path(Some("/")),
        Ok("/.master.key".to_string())
    );
    assert_eq!(
        SecretManager::key_file_path(None),
        Err(KeyStoreError::KeyStoreUnavailable)
    );
    assert_eq!(KEY_FILE_MODE, 0o600);
}

#[test]
fn key_store_error_messages() {
    assert_eq!(
        KeyStoreError::KeyStoreUnavailable.message(),
        "Master key store unavailable"
    );
    assert_eq!(
        KeyStoreError::CorruptKeyMaterial(KeyDefect::Encoding).message(),
        "Invalid master key encoding"
    );
    assert_eq!(
        KeyStoreError::CorruptKeyMaterial(KeyDefect::Size).message(),
        "Invalid master key size"
    );
}

#[test]
fn unreadable_key_is_not_replaced_but_can_be_reset() {
    let mut manager = SecretManager::open(MasterKeySource::KeyFile, StoreContent::Unreadable);
    assert_eq!(
        manager.get_or_create_master_key(),
        Err(KeyStoreError::KeyStoreUnavailable)
    );
    assert_eq!(manager.pending_action(), StoreAction::Nothing);
    assert!(manager.stored_text().is_none());

    assert_eq!(manager.reset_master_key(), Ok(()));
    assert_eq!(manager.pending_action(), StoreAction::Delete);
    manager.acknowledge();
    let key = manager.get_or_create_master_key().unwrap();
    assert_eq!(manager.pending_action(), StoreAction::Write);
    assert_eq!(manager.get_or_create_master_key(), Ok(key));
}
