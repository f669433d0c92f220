use sshwarden::crypto::{
    decrypt_enc_string, decrypt_enc_string_to_string, derive_master_key, derive_password_hash,
    encrypt_enc_string, pin_decrypt, pin_encrypt, split_user_key, stretch_master_key, CryptoError,
    SymmetricKey,
};
use sshwarden::models::{KdfType, PreloginResponse};

#[test]
fn test_derive_master_key_pbkdf2() {
    let prelogin = PreloginResponse {
        kdf: KdfType::Pbkdf2,
        kdf_iterations: 600000,
        kdf_memory: None,
        kdf_parallelism: None,
    };

    let key = derive_master_key("password123", "test@example.com", &prelogin).unwrap();
    assert_eq!(key.len(), 32);
}

#[test]
fn test_derive_password_hash() {
    let master_key = vec![0u8; 32];
    let hash = derive_password_hash(&master_key, "password123").unwrap();
    assert_eq!(hash.len(), 44);
}

#[test]
fn test_stretch_master_key() {
    let master_key = vec![1u8; 32];
    let stretched = stretch_master_key(&master_key);
    assert!(stretched.is_ok());
    let key = stretched.unwrap();
    assert_eq!(key.enc_key.len(), 32);
    assert_eq!(key.mac_key.len(), 32);
    assert_ne!(key.enc_key, key.mac_key);
}

#[test]
fn test_pin_encrypt_decrypt_roundtrip() {
    let data = r#"[["key1","name1","id1"],["key2","name2","id2"]]"#;
    let pin = "1234";

    let encrypted = pin_encrypt(data, pin).unwrap();
    assert!(encrypted.starts_with("2."));

    let decrypted = pin_decrypt(&encrypted, pin).unwrap();
    assert_eq!(decrypted, data);

    let wrong = pin_decrypt(&encrypted, "9999");
    assert!(wrong.is_err());
}

#[test]
fn test_encrypt_decrypt_roundtrip() {
    let key = SymmetricKey {
        enc_key: vec![42u8; 32],
        mac_key: vec![84u8; 32],
    };
    let original = b"hello sshwarden encryption test";
    let encrypted = encrypt_enc_string(original, &key).unwrap();
    assert!(encrypted.starts_with("2."));
    let decrypted = decrypt_enc_string(&encrypted, &key).unwrap();
    assert_eq!(decrypted, original);
}

fn test_key() -> SymmetricKey {
    SymmetricKey { enc_key: vec![7u8; 32], mac_key: vec![9u8; 32] }
}

#[test]
fn malformed_enc_strings_are_refused() {
    let key = test_key();
    assert_eq!(decrypt_enc_string("no-dot", &key), Err(CryptoError::MissingTypeSeparator));
    assert_eq!(decrypt_enc_string("x.abc", &key), Err(CryptoError::InvalidType));
    assert_eq!(decrypt_enc_string("3.a|b|c", &key), Err(CryptoError::UnsupportedType(3)));
    assert_eq!(
        decrypt_enc_string("2.a|b", &key),
        Err(CryptoError::WrongPartCount { expected: 3, got: 2 })
    );
    assert_eq!(decrypt_enc_string("2.!!|AAAA|AAAA", &key), Err(CryptoError::InvalidIv));
}

#[test]
fn tampered_ciphertext_fails_the_mac() {
    let key = test_key();
    let enc = encrypt_enc_string(b"secret", &key).unwrap();
    let other = SymmetricKey { enc_key: vec![7u8; 32], mac_key: vec![1u8; 32] };
    assert_eq!(decrypt_enc_string(&enc, &other), Err(CryptoError::MacMismatch));
    assert_eq!(decrypt_enc_string_to_string(&enc, &key).unwrap(), "secret");
}

#[test]
fn short_keys_are_refused() {
    let key = SymmetricKey { enc_key: vec![1u8; 16], mac_key: vec![2u8; 32] };
    assert_eq!(encrypt_enc_string(b"x", &key), Err(CryptoError::CipherInit));
    assert!(matches!(stretch_master_key(&[0u8; 8]), Err(CryptoError::InvalidPrkLength)));
    assert!(matches!(split_user_key(vec![0u8; 63]), Err(CryptoError::BadKeyLength(63))));
}

#[test]
fn argon2_without_memory_is_refused() {
    let prelogin = PreloginResponse {
        kdf: KdfType::Argon2id,
        kdf_iterations: 3,
        kdf_memory: None,
        kdf_parallelism: Some(4),
    };
    assert_eq!(
        derive_master_key("pw", "a@b.c", &prelogin),
        Err(CryptoError::MissingKdfMemory)
    );
}
