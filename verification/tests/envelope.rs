use sshwarden::crypto::{CryptoError, SymmetricKey};
use sshwarden::crypto::pin_encrypt;
use sshwarden::daemon::{LocalCacheKeyState, SecureKeyCache};
use sshwarden::storage::VaultFile;
use sshwarden::envelope::{
    build_envelope_local_key_cache, decode_symmetric_key, decrypt_envelope_local_key_cache_with_pin,
    decrypt_envelope_with_key_text, encode_symmetric_key, finish_unlock_with_json,
    refresh_envelope_local_key_cache, unlock_with_pin, write_envelope_local_key_cache, EnvelopeError,
};
use sshwarden::keys::decrypt_envelope_payload;
use sshwarden::storage::LocalCacheKeySlots;

fn key() -> SymmetricKey {
    SymmetricKey { enc_key: vec![7; 32], mac_key: vec![9; 32] }
}

fn slots() -> LocalCacheKeySlots {
    LocalCacheKeySlots {
        pin_encrypted: Some("2.pin".to_string()),
        hello_challenge: None,
        hello_encrypted: None,
        native_encrypted: Some("secret-service".to_string()),
    }
}

fn keys() -> Vec<(String, String, String)> {
    vec![("not a pem".to_string(), "work".to_string(), "id-1".to_string())]
}

#[test]
fn cache_reads_back_what_was_written() {
    let cache = build_envelope_local_key_cache(&keys(), "a@b.c", "https://vault", &key(), slots()).unwrap();
    assert_eq!(cache.version, 3);
    assert_eq!(cache.header.email, "a@b.c");
    assert_eq!(cache.header.keys.len(), 1);
    assert_eq!(cache.header.keys[0].name, "work");
    assert_eq!(cache.header.keys[0].vault_item_id, "id-1");
    let (json, _) = decrypt_envelope_payload(&cache, key()).unwrap();
    assert_eq!(json, serde_json::to_string(&keys()).unwrap());
    let wrong = SymmetricKey { enc_key: vec![7; 32], mac_key: vec![8; 32] };
    assert!(decrypt_envelope_payload(&cache, wrong).is_err());
}

#[test]
fn short_cache_keys_are_refused() {
    let short = SymmetricKey { enc_key: vec![1; 16], mac_key: vec![2; 32] };
    assert_eq!(
        build_envelope_local_key_cache(&keys(), "a", "b", &short, slots()).err(),
        Some(CryptoError::CipherInit)
    );
}

#[test]
fn refresh_keeps_account_and_slots() {
    let cache = build_envelope_local_key_cache(&keys(), "a@b.c", "https://vault", &key(), slots()).unwrap();
    let more = vec![
        ("pem1".to_string(), "one".to_string(), "id-1".to_string()),
        ("pem2".to_string(), "two".to_string(), "id-2".to_string()),
    ];
    let refreshed = refresh_envelope_local_key_cache(&more, &cache, &key()).unwrap();
    assert_eq!(refreshed.header.server_url, "https://vault");
    assert_eq!(refreshed.header.keys.len(), 2);
    assert_eq!(refreshed.local_cache_key.pin_encrypted.as_deref(), Some("2.pin"));
    assert_eq!(refreshed.local_cache_key.native_encrypted.as_deref(), Some("secret-service"));
    let (json, _) = decrypt_envelope_payload(&refreshed, key()).unwrap();
    assert_eq!(json, serde_json::to_string(&more).unwrap());
}

#[test]
fn unlock_loads_parsed_keys_or_reports_why() {
    let mut cache = SecureKeyCache::new();
    let mut locked = true;
    let ok = finish_unlock_with_json(r#"[["pem","name","id"]]"#, &mut cache, &mut locked, "Unlocked");
    assert!(ok.ok);
    assert_eq!(ok.message.as_deref(), Some("Unlocked"));
    assert!(!locked);
    assert_eq!(cache.clone_inner(), vec![("pem".to_string(), "name".to_string(), "id".to_string())]);

    let mut locked = true;
    let bad = finish_unlock_with_json("not json", &mut cache, &mut locked, "Unlocked");
    assert!(!bad.ok);
    assert!(locked);
    assert!(bad.error.unwrap().starts_with("Failed to parse decrypted keys: "));
    assert_eq!(cache.clone_inner().len(), 1);
}

#[test]
fn cache_keys_survive_their_text_form() {
    let text = encode_symmetric_key(&key());
    let back = decode_symmetric_key(&text).unwrap();
    assert_eq!(back.enc_key, vec![7; 32]);
    assert_eq!(back.mac_key, vec![9; 32]);
    assert_eq!(decode_symmetric_key("!!").err(), Some(CryptoError::InvalidKeyEncoding));
    assert_eq!(decode_symmetric_key("AAAA").err(), Some(CryptoError::BadKeyLength(3)));
}

#[test]
fn the_pin_reads_back_what_setting_it_wrote() {
    let cache = write_envelope_local_key_cache(&keys(), "a@b.c", "https://vault", &key(), "2468").unwrap();
    assert!(cache.local_cache_key.native_encrypted.is_none());
    let (json, k) = decrypt_envelope_local_key_cache_with_pin(&cache, "2468").unwrap();
    assert_eq!(json, serde_json::to_string(&keys()).unwrap());
    assert_eq!(k.enc_key, vec![7; 32]);
    assert!(matches!(
        decrypt_envelope_local_key_cache_with_pin(&cache, "1357"),
        Err(EnvelopeError::SlotLocked(_))
    ));
}

#[test]
fn platform_key_text_unlocks_the_cache() {
    let cache = build_envelope_local_key_cache(&keys(), "a", "b", &key(), slots()).unwrap();
    let (json, _) = decrypt_envelope_with_key_text(&cache, &encode_symmetric_key(&key())).unwrap();
    assert_eq!(json, serde_json::to_string(&keys()).unwrap());
    assert!(matches!(decrypt_envelope_with_key_text(&cache, "AAAA"), Err(EnvelopeError::BadCacheKey(_))));
    let other = SymmetricKey { enc_key: vec![1; 32], mac_key: vec![1; 32] };
    assert!(matches!(
        decrypt_envelope_with_key_text(&cache, &encode_symmetric_key(&other)),
        Err(EnvelopeError::Payload(CryptoError::MacMismatch))
    ));
    let mut no_pin = cache.clone();
    no_pin.local_cache_key.pin_encrypted = None;
    assert_eq!(decrypt_envelope_local_key_cache_with_pin(&no_pin, "2468").err(), Some(EnvelopeError::MissingSlot));
}

#[test]
fn pin_unlock_opens_the_cache_first() {
    let cache = Some(write_envelope_local_key_cache(&keys(), "a", "b", &key(), "2468").unwrap());
    let mut loaded = SecureKeyCache::new();
    let mut locked = true;
    let mut state = LocalCacheKeyState { key: None };
    let fresh = SymmetricKey { enc_key: vec![3; 32], mac_key: vec![4; 32] };
    let (resp, migrated) =
        unlock_with_pin("2468", &cache, &None, &None, &fresh, "a", "b", &mut loaded, &mut locked, &mut state);
    assert!(resp.ok);
    assert_eq!(resp.message.as_deref(), Some("Vault unlocked via PIN local key cache"));
    assert!(migrated.is_none());
    assert!(!locked);
    assert_eq!(loaded.clone_inner(), keys());
    assert_eq!(state.clone_key().unwrap().enc_key, vec![7; 32]);
}

#[test]
fn legacy_pin_unlock_migrates_to_a_cache() {
    let json = serde_json::to_string(&keys()).unwrap();
    let vault = Some(VaultFile {
        version: 1,
        pin_encrypted: pin_encrypt(&json, "2468").unwrap(),
        hello_challenge: None,
        hello_encrypted: None,
        email: "a".to_string(),
        server_url: "b".to_string(),
    });
    let mut loaded = SecureKeyCache::new();
    let mut locked = true;
    let mut state = LocalCacheKeyState { key: None };
    let fresh = SymmetricKey { enc_key: vec![3; 32], mac_key: vec![4; 32] };
    let (resp, migrated) =
        unlock_with_pin("2468", &None, &None, &vault, &fresh, "a@b.c", "https://vault", &mut loaded, &mut locked, &mut state);
    assert_eq!(resp.message.as_deref(), Some("Vault unlocked via PIN"));
    assert!(!locked);
    assert_eq!(loaded.clone_inner(), keys());
    let migrated = migrated.unwrap();
    assert_eq!(migrated.header.email, "a@b.c");
    assert!(migrated.local_cache_key.pin_encrypted.is_some());
    assert_eq!(state.clone_key().unwrap().enc_key, vec![3; 32]);
    let (payload, _) = decrypt_envelope_payload(&migrated, fresh).unwrap();
    assert_eq!(payload, json);
}

#[test]
fn pin_unlock_refuses_wrong_or_missing_pins() {
    let mut loaded = SecureKeyCache::new();
    let mut locked = true;
    let mut state = LocalCacheKeyState { key: None };
    let fresh = key();
    let (resp, migrated) = unlock_with_pin("2468", &None, &None, &None, &fresh, "a", "b", &mut loaded, &mut locked, &mut state);
    assert_eq!(resp.error.as_deref(), Some("No PIN configured. Use 'sshwarden set-pin' first."));
    assert!(migrated.is_none());
    let in_memory = Some(pin_encrypt("[]", "2468").unwrap());
    let (resp, _) = unlock_with_pin("1111", &None, &in_memory, &None, &fresh, "a", "b", &mut loaded, &mut locked, &mut state);
    assert_eq!(resp.error.as_deref(), Some("Invalid PIN"));
    assert!(locked);
    assert!(state.clone_key().is_none());
}
