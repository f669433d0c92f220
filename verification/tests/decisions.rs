use sshwarden::ui::{after_unlock_attempt, first_unlock_step, CascadeStep, UnlockOptions, UnlockStage};
use sshwarden::daemon::{status_facts, NotificationConnectionState};
use sshwarden::config::PromptBehavior;
use sshwarden::daemon::{
    all_checks_ok, clear_authorization_memory_for_changed_keys, doctor_report_lines,
    apply_sync, finish_password_unlock, key_material_fingerprints_from_tuples, key_tuples_of,
    forget_remembered_material, lock_vault, password_unlock_email, RememberedMaterial, should_auto_lock, startup_plan, sync_event_action,
    DoctorCheck, LocalCacheKeyState, NotificationRuntimeState, SecureKeyCache, StartupPlan,
    SyncEventAction,
};
use sshwarden::client::{BitwardenClient, DecryptedSshKey};
use sshwarden::config::Config;
use sshwarden::envelope::build_envelope_local_key_cache;
use sshwarden::keys::decrypt_envelope_payload;
use sshwarden::storage::{LocalCacheKeySlots, VaultFile};
use sshwarden::crypto::SymmetricKey;
use sshwarden::notifications::SyncEvent;
use sshwarden::request_parser::OperationKind;
use sshwarden::ui::{
    decide_sign_request, needs_prompt, should_remember, sign_request_info, SignDecision,
    SshAgentUIRequest,
};

#[test]
fn events_sync_or_wait_for_unlock() {
    assert_eq!(sync_event_action(SyncEvent::CipherChanged, true), SyncEventAction::MarkPending);
    assert_eq!(
        sync_event_action(SyncEvent::CipherChanged, false),
        SyncEventAction::Sync { fallback: false }
    );
    assert_eq!(
        sync_event_action(SyncEvent::FallbackSyncDue, false),
        SyncEventAction::Sync { fallback: true }
    );
    assert_eq!(sync_event_action(SyncEvent::LogOut, false), SyncEventAction::Lock);
}

#[test]
fn idle_vaults_lock() {
    assert!(should_auto_lock(60, false, 0, 60_000));
    assert!(!should_auto_lock(60, false, 0, 59_999));
    assert!(!should_auto_lock(0, false, 0, 1_000_000));
    assert!(!should_auto_lock(60, true, 0, 1_000_000));
    assert_eq!(startup_plan(true, true, false), StartupPlan::LockedWithIdentities);
    assert_eq!(startup_plan(false, true, true), StartupPlan::LockedLegacy);
    assert_eq!(startup_plan(false, false, true), StartupPlan::Login);
    assert_eq!(startup_plan(false, false, false), StartupPlan::AskEmail);
}

fn tuple(pem: &str, id: &str) -> (String, String, String) {
    (pem.to_string(), "name".to_string(), id.to_string())
}

#[test]
fn fingerprints_are_sha256_hex() {
    let fps = key_material_fingerprints_from_tuples(&[tuple("", "a")]);
    assert_eq!(fps.len(), 1);
    assert_eq!(fps[0].0, "a");
    assert_eq!(
        fps[0].1,
        "e3b0c44298fc1c149afbf4c8996fb92427ae41e4649b934ca495991b7852b855"
    );
}

#[test]
fn changed_keys_lose_their_authorizations() {
    let old = key_material_fingerprints_from_tuples(&[tuple("k1", "a"), tuple("k2", "b"), tuple("k3", "c")]);
    let new_keys = vec![tuple("k1", "a"), tuple("k2-new", "b"), tuple("k4", "d")];
    let mut memory = vec![
        ("a".to_string(), "git_signing".to_string()),
        ("b".to_string(), "git_signing".to_string()),
        ("c".to_string(), "ssh_authentication".to_string()),
        ("a".to_string(), "ssh_authentication".to_string()),
    ];
    let (cleared, fps) = clear_authorization_memory_for_changed_keys(&old, &new_keys, &mut memory);
    assert_eq!(cleared, 2);
    assert_eq!(fps.len(), 3);
    assert_eq!(
        memory,
        vec![
            ("a".to_string(), "git_signing".to_string()),
            ("a".to_string(), "ssh_authentication".to_string()),
        ]
    );
}

fn request(forwarding: bool, list: bool) -> SshAgentUIRequest {
    SshAgentUIRequest {
        cipher_id: Some("id1".into()),
        process_name: "ssh".into(),
        namespace: None,
        operation_kind: OperationKind::SshAuthentication,
        is_forwarding: forwarding,
        is_list: list,
        pid: 1,
    }
}

#[test]
fn sign_requests_are_decided() {
    let none: Vec<(String, String)> = vec![];
    let memory = vec![("id1".to_string(), "ssh_authentication".to_string())];
    assert_eq!(
        decide_sign_request(&request(false, true), true, false, PromptBehavior::Always, &none),
        SignDecision::Approve
    );
    assert_eq!(
        decide_sign_request(&request(false, false), true, true, PromptBehavior::Always, &none),
        SignDecision::Unlock
    );
    assert_eq!(
        decide_sign_request(&request(false, false), true, false, PromptBehavior::Never, &none),
        SignDecision::Deny
    );
    assert_eq!(
        decide_sign_request(&request(false, false), false, false, PromptBehavior::Never, &none),
        SignDecision::Approve
    );
    assert_eq!(
        decide_sign_request(&request(true, false), false, false, PromptBehavior::Never, &none),
        SignDecision::Prompt
    );
    assert_eq!(
        decide_sign_request(&request(false, false), false, false, PromptBehavior::RememberUntilLock, &memory),
        SignDecision::Approve
    );
    assert_eq!(
        decide_sign_request(&request(true, false), false, false, PromptBehavior::RememberUntilLock, &memory),
        SignDecision::Prompt
    );
    assert!(needs_prompt(false, PromptBehavior::Always));
    assert!(should_remember(true, &request(false, false), PromptBehavior::RememberUntilLock));
    assert!(!should_remember(true, &request(true, false), PromptBehavior::RememberUntilLock));
    let info = sign_request_info(&request(false, false), "k".into());
    assert_eq!(info.operation_kind, "ssh_authentication");
}

#[test]
fn doctor_reports_each_check() {
    let checks = vec![DoctorCheck::ok("agent", "running"), DoctorCheck::warn("pin", "not set")];
    assert_eq!(
        doctor_report_lines(&checks),
        vec!["[ok] agent: running".to_string(), "[warn] pin: not set".to_string()]
    );
    assert!(!all_checks_ok(&checks));
    assert!(all_checks_ok(&vec![]));
}

#[test]
fn locking_forgets_keys_and_authorizations() {
    let mut locked = false;
    let mut keys = SecureKeyCache::new();
    keys.set(vec![tuple("pem", "id1")]);
    let mut cache_key = LocalCacheKeyState { key: None };
    cache_key.set(SymmetricKey { enc_key: vec![1; 32], mac_key: vec![2; 32] });
    let mut memory = vec![("id1".to_string(), "ssh_authentication".to_string())];
    lock_vault(&mut locked, &mut keys, &mut cache_key, &mut memory);
    assert!(locked);
    assert!(keys.clone_inner().is_empty());
    assert!(cache_key.clone_key().is_none());
    assert!(memory.is_empty());
    // After the lock, "remember until lock" asks again, and listing still works.
    assert_eq!(
        decide_sign_request(&request(false, false), false, false, PromptBehavior::RememberUntilLock, &memory),
        SignDecision::Prompt
    );
    assert_eq!(
        decide_sign_request(&request(false, true), true, true, PromptBehavior::Always, &memory),
        SignDecision::Approve
    );
}

#[test]
fn decrypted_keys_become_tuples_in_order() {
    let keys = vec![
        DecryptedSshKey { private_key_pem: "p1".into(), name: "n1".into(), cipher_id: "i1".into() },
        DecryptedSshKey { private_key_pem: "p2".into(), name: "n2".into(), cipher_id: "i2".into() },
    ];
    assert_eq!(key_tuples_of(&keys), vec![tuple_named("p1", "n1", "i1"), tuple_named("p2", "n2", "i2")]);
}

fn tuple_named(pem: &str, name: &str, id: &str) -> (String, String, String) {
    (pem.to_string(), name.to_string(), id.to_string())
}

fn cache_key() -> SymmetricKey {
    SymmetricKey { enc_key: vec![5; 32], mac_key: vec![6; 32] }
}

fn empty_slots() -> LocalCacheKeySlots {
    LocalCacheKeySlots { pin_encrypted: None, hello_challenge: None, hello_encrypted: None, native_encrypted: None }
}

#[test]
fn a_sync_refreshes_keys_cache_and_authorizations() {
    let old = vec![tuple("old-pem", "id1"), tuple("same", "id2")];
    let new = vec![tuple("new-pem", "id1"), tuple("same", "id2")];
    let mut keys = SecureKeyCache::new();
    let mut identities = Vec::new();
    let mut fingerprints = key_material_fingerprints_from_tuples(&old);
    let mut memory = vec![
        ("id1".to_string(), "ssh_authentication".to_string()),
        ("id2".to_string(), "ssh_authentication".to_string()),
    ];
    let mut cache = Some(build_envelope_local_key_cache(&old, "a", "b", &cache_key(), empty_slots()).unwrap());
    let mut lck = LocalCacheKeyState { key: None };
    lck.set(cache_key());
    let mut state = NotificationRuntimeState::default();
    let cleared = apply_sync(new.clone(), &mut keys, &mut identities, &mut fingerprints, &mut memory, &mut cache, &lck, &mut state);
    assert_eq!(cleared, 1);
    assert_eq!(memory, vec![("id2".to_string(), "ssh_authentication".to_string())]);
    assert_eq!(keys.clone_inner(), new);
    assert_eq!(identities, new);
    assert_eq!(fingerprints, key_material_fingerprints_from_tuples(&new));
    let (json, _) = decrypt_envelope_payload(cache.as_ref().unwrap(), cache_key()).unwrap();
    assert_eq!(json, serde_json::to_string(&new).unwrap());
    assert!(!state.stale_cache);
}

#[test]
fn a_sync_marks_the_cache_stale_when_it_cannot_refresh() {
    let tuples = vec![tuple("pem", "id1")];
    let mut keys = SecureKeyCache::new();
    let mut identities = Vec::new();
    let mut fingerprints = Vec::new();
    let mut memory = Vec::new();
    let built = build_envelope_local_key_cache(&tuples, "a", "b", &cache_key(), empty_slots()).unwrap();
    let mut cache = Some(built.clone());
    let mut lck = LocalCacheKeyState { key: None };
    lck.set(SymmetricKey { enc_key: vec![1; 16], mac_key: vec![1; 32] });
    let mut state = NotificationRuntimeState::default();
    apply_sync(tuples, &mut keys, &mut identities, &mut fingerprints, &mut memory, &mut cache, &lck, &mut state);
    assert!(state.stale_cache);
    assert_eq!(state.stale_cache_error.as_deref(), Some("AES-CBC encrypt init failed: Invalid Length"));
    assert_eq!(cache.unwrap().encrypted_payload, built.encrypted_payload);
}

#[test]
fn password_unlock_uses_the_vault_email_and_loads_keys() {
    let mut config = Config::default();
    config.auth.email = "config@example.com".to_string();
    assert_eq!(password_unlock_email(&None, &config), "config@example.com");
    let vault = Some(VaultFile {
        version: 1,
        pin_encrypted: String::new(),
        hello_challenge: None,
        hello_encrypted: None,
        email: "vault@example.com".to_string(),
        server_url: String::new(),
    });
    assert_eq!(password_unlock_email(&vault, &config), "vault@example.com");
    let mut keys = SecureKeyCache::new();
    let mut identities = Vec::new();
    let mut locked = true;
    let resp = finish_password_unlock(vec![tuple("p", "i"), tuple("q", "j")], &mut keys, &mut identities, &mut locked);
    assert_eq!(resp.message.as_deref(), Some("Vault unlocked, 2 SSH keys loaded"));
    assert!(!locked);
    assert_eq!(identities.len(), 2);
}

#[test]
fn forget_drops_remembered_material_and_locks() {
    let mut material = RememberedMaterial {
        local_key_cache: None,
        vault_file: Some(VaultFile {
            version: 1,
            pin_encrypted: "2.x".to_string(),
            hello_challenge: None,
            hello_encrypted: None,
            email: "a@example.com".to_string(),
            server_url: String::new(),
        }),
        pin_encrypted: Some("2.x".to_string()),
        identities: vec![tuple("pem", "id1")],
        client: Some(BitwardenClient::new("https://b", "https://b/api", "https://b/identity")),
        pending_sync: true,
    };
    let mut notification = NotificationRuntimeState::default();
    notification.stale_cache = true;
    notification.stale_cache_error = Some("boom".to_string());
    notification.reconnect_attempts = 2;
    let mut locked = false;
    let mut keys = SecureKeyCache::new();
    keys.set(vec![tuple("pem", "id1")]);
    let mut cache_key = LocalCacheKeyState { key: None };
    cache_key.set(SymmetricKey { enc_key: vec![1; 32], mac_key: vec![2; 32] });
    let mut memory = vec![("id1".to_string(), "ssh_authentication".to_string())];
    let response = forget_remembered_material(
        &mut material,
        &mut notification,
        &mut locked,
        &mut keys,
        &mut cache_key,
        &mut memory,
    );
    assert!(response.ok);
    assert_eq!(
        response.message.as_deref(),
        Some("Forgot local key cache, legacy vault file, and device session material")
    );
    assert!(material.vault_file.is_none());
    assert!(material.pin_encrypted.is_none());
    assert!(material.identities.is_empty());
    assert!(material.client.is_none());
    assert!(!material.pending_sync);
    assert!(!notification.stale_cache);
    assert!(notification.stale_cache_error.is_none());
    assert_eq!(notification.reconnect_attempts, 2);
    assert!(locked);
    assert!(keys.clone_inner().is_empty());
    assert!(cache_key.clone_key().is_none());
    assert!(memory.is_empty());
}

#[test]
fn locked_sign_request_tries_unlock_ways_in_order() {
    let all = UnlockOptions {
        native_slot: true,
        hello_supported: true,
        hello_slot: true,
        legacy_hello: true,
        pin_credentials: true,
    };
    assert_eq!(first_unlock_step(&all), CascadeStep::Try(UnlockStage::Native));
    let b = PromptBehavior::Never;
    assert_eq!(after_unlock_attempt(&all, UnlockStage::Native, false, false, b), CascadeStep::Try(UnlockStage::HelloEnvelope));
    assert_eq!(after_unlock_attempt(&all, UnlockStage::HelloEnvelope, false, false, b), CascadeStep::Try(UnlockStage::HelloLegacy));
    assert_eq!(after_unlock_attempt(&all, UnlockStage::HelloLegacy, false, false, b), CascadeStep::Try(UnlockStage::PinDialog));
    assert_eq!(after_unlock_attempt(&all, UnlockStage::PinDialog, false, false, b), CascadeStep::Deny);
    assert_eq!(after_unlock_attempt(&all, UnlockStage::Native, true, false, b), CascadeStep::Approve);
    assert_eq!(after_unlock_attempt(&all, UnlockStage::Native, true, true, b), CascadeStep::Prompt);
    assert_eq!(
        after_unlock_attempt(&all, UnlockStage::PinDialog, true, false, PromptBehavior::Always),
        CascadeStep::Prompt
    );
    let linux_pin = UnlockOptions {
        native_slot: false,
        hello_supported: false,
        hello_slot: true,
        legacy_hello: true,
        pin_credentials: true,
    };
    assert_eq!(first_unlock_step(&linux_pin), CascadeStep::Try(UnlockStage::PinDialog));
    let nothing = UnlockOptions { pin_credentials: false, ..linux_pin };
    assert_eq!(first_unlock_step(&nothing), CascadeStep::Deny);
}

#[test]
fn status_facts_count_listed_and_signable_keys() {
    let mut material = RememberedMaterial {
        local_key_cache: None,
        vault_file: None,
        pin_encrypted: Some("2.x".to_string()),
        identities: vec![tuple("", "id1"), tuple("", "id2")],
        client: None,
        pending_sync: true,
    };
    let keys = SecureKeyCache::new();
    let notification = NotificationRuntimeState::default();
    let f = status_facts(&material, true, &keys, &notification, false);
    assert!(f.locked && f.has_pin && f.pending_sync && !f.authenticated && !f.has_local_key_cache);
    assert_eq!((f.key_count, f.signable_key_count), (2, 0));
    assert_eq!(f.notification_state, NotificationConnectionState::NotStarted);
    material.client = Some(BitwardenClient::new("https://b", "https://b/api", "https://b/identity"));
    let mut loaded = SecureKeyCache::new();
    loaded.set(vec![tuple("p1", "id1"), tuple("p2", "id2")]);
    let f = status_facts(&material, false, &loaded, &notification, true);
    assert!(!f.locked && f.authenticated && f.agent_running);
    assert_eq!((f.key_count, f.signable_key_count), (2, 2));
}
