use sshwarden::bindings::HostBindingsFile;
use sshwarden::client::{
    decrypt_ssh_cipher, ssh_keys_from_sync, BitwardenClient, CipherError, LoginError,
};
use sshwarden::config::{Config, Platform, StorageEnv};
use sshwarden::crypto::{encrypt_enc_string, pin_decrypt, CryptoError, SymmetricKey};
use sshwarden::daemon::{
    create_client, device_session_to_save, pid_file_path, pin_encrypted_source, resolve_notifications_url,
    restore_refresh_token, DoctorCheck, SecureKeyCache,
};
use sshwarden::keys::{decrypt_envelope_payload, ManagedKey};
use sshwarden::models::{Cipher, CipherType, SshKeyData, SyncProfile, SyncResponse, TokenResponse};
use sshwarden::request_parser::OperationKind;
use sshwarden::storage::{
    LocalCacheKeySlots, LocalKeyCacheFile, LocalKeyCacheHeader, SessionFile, UnlockSlotsFile, VaultFile,
};
use sshwarden::ui::{
    apply_bind_choices, bind_hosts_entries, hello_decrypt_keys, hello_encrypt_keys,
    key_name_for_request, native_available, unlock_context_for_request, ScreenBounds,
    SshAgentUIRequest,
};

fn env(host: Option<&str>) -> StorageEnv {
    StorageEnv {
        platform: Platform::Linux,
        sshwarden_home: Some("/data".to_string()),
        sshwarden_portable: None,
        sshwarden_runtime_dir: None,
        sshwarden_device_id: None,
        exe_dir: None,
        portable_probe: None,
        home: Some("/home/alice".to_string()),
        unix_home: Some("/home/alice".to_string()),
        appdata: None,
        xdg_config_home: None,
        xdg_runtime_dir: None,
        username: Some("alice".to_string()),
        hostname: host.map(|h| h.to_string()),
    }
}

#[test]
fn file_locations() {
    let e = env(Some("my host.local"));
    assert_eq!(LocalKeyCacheFile::path(&e).unwrap(), "/data/local-key-cache.json");
    assert_eq!(VaultFile::path(&e).unwrap(), "/data/vault.enc");
    assert_eq!(SessionFile::file_name(&e), "session-myhostlocal.enc");
    assert_eq!(SessionFile::file_name(&env(None)), "session-unknown.enc");
    let mut config = Config::default();
    assert_eq!(UnlockSlotsFile::path(&e, &config).unwrap(), "/data/unlock-slots.json");
    config.storage.multi_device = true;
    assert_eq!(
        SessionFile::path(&e, &config).unwrap(),
        "/data/devices/my-host.local-alice/session-myhostlocal.enc"
    );
    assert_eq!(SessionFile::legacy_path(&e).unwrap(), "/data/session-myhostlocal.enc");
    assert_eq!(pid_file_path(&e).unwrap(), "/data/sshwarden.pid");
    let slots = UnlockSlotsFile::default();
    assert_eq!(slots.version, 1);
    assert!(slots.has_supported_version());
}

fn user_key() -> SymmetricKey {
    SymmetricKey { enc_key: vec![3u8; 32], mac_key: vec![4u8; 32] }
}

fn ssh_cipher(id: &str, name: Option<&str>, pem: &str, key: &SymmetricKey) -> Cipher {
    Cipher {
        id: id.into(),
        cipher_type: CipherType::SshKey,
        name: name.map(|n| encrypt_enc_string(n.as_bytes(), key).unwrap()),
        deleted_date: None,
        archived_date: None,
        ssh_key: Some(SshKeyData {
            private_key: encrypt_enc_string(pem.as_bytes(), key).unwrap(),
            public_key: String::new(),
            key_fingerprint: String::new(),
        }),
        organization_id: None,
        key: None,
    }
}

#[test]
fn ssh_items_decrypt() {
    let k = user_key();
    let c = ssh_cipher("c1", Some("Work"), "PEM DATA", &k);
    let d = decrypt_ssh_cipher(&c, &k).unwrap();
    assert_eq!((d.private_key_pem.as_str(), d.name.as_str(), d.cipher_id.as_str()), ("PEM DATA", "Work", "c1"));
    let unnamed = ssh_cipher("c2", None, "P", &k);
    assert_eq!(decrypt_ssh_cipher(&unnamed, &k).unwrap().name, "unnamed");
    let mut no_data = ssh_cipher("c3", None, "P", &k);
    no_data.ssh_key = None;
    assert_eq!(decrypt_ssh_cipher(&no_data, &k).unwrap_err(), CipherError::MissingSshKey);
    let mut bad_key = ssh_cipher("c4", None, "P", &k);
    bad_key.key = Some(encrypt_enc_string(&[1u8; 10], &k).unwrap());
    assert_eq!(decrypt_ssh_cipher(&bad_key, &k).unwrap_err(), CipherError::CipherKeyLength(10));
    let other = SymmetricKey { enc_key: vec![3u8; 32], mac_key: vec![5u8; 32] };
    assert_eq!(
        decrypt_ssh_cipher(&c, &other).unwrap_err(),
        CipherError::PrivateKey(CryptoError::MacMismatch)
    );
}

#[test]
fn sync_keeps_live_ssh_keys_that_decrypt() {
    let k = user_key();
    let mut deleted = ssh_cipher("d", None, "P", &k);
    deleted.deleted_date = Some("2024-01-01".into());
    let mut archived = ssh_cipher("r", None, "P", &k);
    archived.archived_date = Some("2024-02-01".into());
    let mut login = ssh_cipher("l", None, "P", &k);
    login.cipher_type = CipherType::Login;
    let mut broken = ssh_cipher("b", None, "P", &k);
    broken.ssh_key = None;
    let sync = SyncResponse {
        profile: SyncProfile { id: "u".into(), email: "a@b.c".into(), key: String::new(), private_key: None },
        ciphers: vec![ssh_cipher("a", Some("A"), "PA", &k), deleted, archived, login, broken, ssh_cipher("z", None, "PZ", &k)],
    };
    let keys = ssh_keys_from_sync(&sync, &k);
    let ids: Vec<&str> = keys.iter().map(|k| k.cipher_id.as_str()).collect();
    assert_eq!(ids, vec!["a", "z"]);
}

fn token(refresh: Option<&str>, key: Option<String>) -> TokenResponse {
    TokenResponse {
        access_token: "acc".into(),
        expires_in: 3600,
        token_type: "Bearer".into(),
        refresh_token: refresh.map(|r| r.into()),
        key,
        private_key: None,
        kdf_type: None,
        kdf_iterations: None,
    }
}

#[test]
fn sessions_keep_tokens_and_expiry() {
    let mut c = BitwardenClient::new_with_device_id("https://b", "https://b/api", "https://b/identity", "dev-1");
    assert_eq!(c.device_id(), "dev-1");
    assert_eq!(c.sync_url(), "https://b/api/sync?excludeDomains=true");
    assert_eq!(c.token_url(), "https://b/identity/connect/token");
    assert!(!c.is_authenticated());
    assert!(!c.is_token_expiring_soon(0));
    assert_eq!(
        c.accept_login_token(&token(Some("r1"), None), &[0u8; 32], 1_000),
        Err(LoginError::MissingUserKey)
    );
    assert!(c.is_authenticated());
    assert_eq!(c.refresh_token(), Some("r1"));
    assert_eq!(c.token_expiry, Some(3_601_000));
    assert!(!c.is_token_expiring_soon(3_300_000));
    assert!(c.is_token_expiring_soon(3_301_001));
    c.accept_refreshed_token(&token(None, None), 2_000);
    assert_eq!(c.refresh_token(), Some("r1"));
    assert_eq!(c.token_expiry, Some(3_602_000));
    let fresh = BitwardenClient::new("https://b", "a", "i");
    assert_eq!(fresh.device_id().len(), 36);
    let cfg = Config::default();
    let made = create_client(&cfg, None);
    assert_eq!(made.api_url, "https://vault.bitwarden.com/api");
    assert_eq!(made.identity_url, "https://vault.bitwarden.com/identity");
}

#[test]
fn envelope_payload_decrypts() {
    let k = user_key();
    let payload = encrypt_enc_string(b"[[\"p\",\"n\",\"i\"]]", &k).unwrap();
    let cache = LocalKeyCacheFile {
        version: 3,
        header: LocalKeyCacheHeader { email: "e".into(), server_url: "s".into(), keys: vec![] },
        encrypted_payload: payload,
        local_cache_key: LocalCacheKeySlots::default(),
    };
    let (json, _) = decrypt_envelope_payload(&cache, user_key()).map_err(|e| format!("{e:?}")).unwrap();
    assert_eq!(json, "[[\"p\",\"n\",\"i\"]]");
}

#[test]
fn secure_cache_and_sources() {
    let mut cache = SecureKeyCache::new();
    cache.set(vec![("pem".into(), "n".into(), "i".into())]);
    assert_eq!(cache.clone_inner().len(), 1);
    cache.clear();
    assert!(cache.clone_inner().is_empty());
    assert_eq!(pin_encrypted_source(&Some("m".into()), &None).as_deref(), Some("m"));
    assert_eq!(pin_encrypted_source(&None, &None), None);
    let c = DoctorCheck::warn("agent", "not running");
    assert!(!c.ok);
    assert_eq!(c.name, "agent");
}

fn request(cipher: Option<&str>) -> SshAgentUIRequest {
    SshAgentUIRequest {
        cipher_id: cipher.map(|c| c.into()),
        process_name: "git".into(),
        namespace: Some("git".into()),
        operation_kind: OperationKind::GitSigning,
        is_forwarding: false,
        is_list: false,
        pid: 7,
    }
}

#[test]
fn requests_name_their_keys() {
    let keys = vec![
        ("p1".to_string(), "First".to_string(), "id1".to_string()),
        ("p2".to_string(), "Second".to_string(), "id2".to_string()),
    ];
    assert_eq!(key_name_for_request(&request(Some("id2")), &keys), "Second");
    assert_eq!(key_name_for_request(&request(Some("id9")), &keys), "Unknown key");
    assert_eq!(key_name_for_request(&request(None), &keys), "Unknown key");
    let ctx = unlock_context_for_request(&request(None), "K".into());
    assert_eq!(ctx.operation_kind, "git_signing");
    assert_eq!(ctx.process_name, "git");
}

#[test]
fn dialog_entries_and_choices() {
    let mut bindings = HostBindingsFile::default();
    bindings.set_hosts_at("id1", vec!["a.com".into()], 1).unwrap();
    let keys = vec![
        ManagedKey { name: "One".into(), cipher_id: "id1".into() },
        ManagedKey { name: "Two".into(), cipher_id: "id2".into() },
    ];
    let entries = bind_hosts_entries(&keys, &bindings);
    assert_eq!(entries[0].hosts, vec!["a.com".to_string()]);
    assert!(entries[1].hosts.is_empty());
    let choices = vec![
        ("id1".to_string(), vec![]),
        ("id2".to_string(), vec!["b.com".to_string()]),
    ];
    apply_bind_choices(&mut bindings, &choices, 9).unwrap();
    assert!(!bindings.bindings.contains_key("id1"));
    assert_eq!(bindings.bindings.get("id2").unwrap().hosts, vec!["b.com".to_string()]);
    let bad = vec![("id3".to_string(), vec!["bad host".to_string()])];
    assert!(apply_bind_choices(&mut bindings, &bad, 10).is_err());
}

#[test]
fn platform_unlock_and_placement() {
    assert!(native_available(Platform::Linux, true));
    assert!(!native_available(Platform::MacOs, true));
    let raw = [5u8; 32];
    let enc = hello_encrypt_keys("[]", &raw).unwrap();
    assert_eq!(hello_decrypt_keys(&enc, &raw).unwrap(), "[]");
    assert!(hello_decrypt_keys(&enc, &[6u8; 32]).is_err());
    let b = ScreenBounds { x: 100, y: 50, width: 1920, height: 1080 };
    assert!(b.is_valid());
    assert_eq!(b.centered_position(400, 300), Some((860, 440)));
    assert_eq!(b.centered_position(4000, 300), Some((100, 440)));
    assert_eq!(b.centered_position(0, 300), None);
    let edge = ScreenBounds { x: i32::MAX, y: 0, width: 10, height: 10 };
    assert_eq!(edge.centered_position(2, 2), Some((i32::MAX, 4)));
}

#[test]
fn device_session_keeps_the_refresh_token_under_the_pin() {
    let mut client = BitwardenClient::new_with_device_id(
        "https://vault.example",
        "https://vault.example/api",
        "https://vault.example/identity",
        "11111111-2222-3333-4444-555555555555",
    );
    assert!(device_session_to_save(&client, Some("1234"), &None).is_none());
    client.set_refresh_token("refresh-token".to_string());
    let session = device_session_to_save(&client, Some("1234"), &None).unwrap();
    assert_eq!(session.version, 1);
    assert_eq!(session.device_id, "11111111-2222-3333-4444-555555555555");
    assert_eq!(session.identity_url, "https://vault.example/identity");
    let token = session.pin_encrypted_token.clone().unwrap();
    assert_eq!(pin_decrypt(&token, "1234").unwrap(), "refresh-token");
    assert_eq!(restore_refresh_token(&session, "1234").as_deref(), Some("refresh-token"));
    let existing = Some(SessionFile {
        version: 1,
        device_id: "old".to_string(),
        pin_encrypted_token: Some("kept-pin".to_string()),
        hello_encrypted_token: Some("kept-hello".to_string()),
        identity_url: "old".to_string(),
    });
    let kept = device_session_to_save(&client, None, &existing).unwrap();
    assert_eq!(kept.pin_encrypted_token.as_deref(), Some("kept-pin"));
    assert_eq!(kept.hello_encrypted_token.as_deref(), Some("kept-hello"));
    assert_eq!(kept.device_id, "11111111-2222-3333-4444-555555555555");
}

#[test]
fn notifications_url_prefers_config_then_discovery() {
    let mut config = Config::default();
    config.server.base_url = "https://vault.example".to_string();
    let discovered = Some("https://push.example/notifications".to_string());
    assert_eq!(resolve_notifications_url(&config, discovered.clone()), "https://push.example/notifications");
    assert_eq!(resolve_notifications_url(&config, None), config.server.notifications_url());
    config.server.notifications_url = Some("https://own.example/hub".to_string());
    assert_eq!(resolve_notifications_url(&config, discovered), "https://own.example/hub");
}
