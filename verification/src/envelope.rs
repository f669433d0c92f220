//! The envelope of the local key cache: the key tuples (private key, name, vault item id),
//! serialized as JSON and encrypted under a local cache key, behind a header that lists
//! the keys' public identities in the clear. The PIN and the platform unlock methods
//! only ever protect the local cache key, so a sync can refresh the cache without them.
use vstd::prelude::*;

use crate::control::ControlResponse;
use crate::crypto::{
    as_text, decrypt_enc, decrypt_enc_string_to_string, encrypt_enc_string, key_view, pin_decrypt, pin_decrypt_spec,
    pin_encrypt, pin_key, split_user_key, user_key_spec, CryptoError, SymmetricKey,
};
use crate::primitives::{b64_decode, b64_encode, spec_b64_decode, spec_b64_encode};
use crate::daemon::{pin_encrypted_source, pin_source_spec, tuples_view, LocalCacheKeyState, SecureKeyCache};
use crate::storage::VaultFile;
use crate::keys::{identity_of, key_identities_from_tuples};
use crate::storage::{LocalCacheKeySlots, LocalKeyCacheFile, LocalKeyCacheHeader};
use crate::text::{clone_opt, opt_view};

verus! {

broadcast use {vstd::utf8::encode_utf8_decode_utf8, vstd::utf8::encode_utf8_valid_utf8};

/// The text that `serde_json::to_string` makes of key tuples: an array of arrays of three
/// strings.
pub uninterp spec fn spec_key_tuples_json(keys: Seq<(Seq<char>, Seq<char>, Seq<char>)>) -> Seq<char>;

/// What `serde_json::from_str` reads from a text as key tuples: the tuples, or the text
/// of its error.
pub uninterp spec fn spec_key_tuples_from_json(text: Seq<char>) -> Result<
    Seq<(Seq<char>, Seq<char>, Seq<char>)>,
    Seq<char>,
>;

/// Wraps `serde_json::to_string` on key tuples. The crate documents two causes of failure,
/// a `Serialize` impl that fails and a map with non-string keys; strings and sequences
/// have neither, so the error arm is never taken. Claims: the result is the named JSON.
#[verifier::external_body]
fn key_tuples_json(keys: &[(String, String, String)]) -> (s: String)
    ensures
        s@ == spec_key_tuples_json(tuples_view(keys@)),
{
    serde_json::to_string(keys).unwrap_or_default()
}

/// Wraps `serde_json::from_str` into key tuples, the error turned into its message.
/// Claims: the result is the named reading.
#[verifier::external_body]
fn key_tuples_from_json(text: &str) -> (r: Result<Vec<(String, String, String)>, String>)
    ensures
        match r {
            Ok(v) => spec_key_tuples_from_json(text@) == Ok::<_, Seq<char>>(tuples_view(v@)),
            Err(e) => spec_key_tuples_from_json(text@) == Err::<Seq<(Seq<char>, Seq<char>, Seq<char>)>, _>(e@),
        },
{
    serde_json::from_str(text).map_err(|e| e.to_string())
}

/// The unlock slots as plain values: PIN, Windows Hello challenge and slot, native slot.
pub open spec fn slots_view(s: LocalCacheKeySlots) -> (Option<Seq<char>>, Option<Seq<char>>, Option<Seq<char>>, Option<Seq<char>>) {
    (opt_view(s.pin_encrypted), opt_view(s.hello_challenge), opt_view(s.hello_encrypted), opt_view(s.native_encrypted))
}

/// What the cache built from `keys` holds: version 3, the account, the public identity
/// of each key in order, the given slots, and a payload that decrypts under `k` to the
/// tuples' JSON.
pub open spec fn holds_envelope(
    c: LocalKeyCacheFile,
    keys: Seq<(Seq<char>, Seq<char>, Seq<char>)>,
    email: Seq<char>,
    server_url: Seq<char>,
    k: SymmetricKey,
    slots: (Option<Seq<char>>, Option<Seq<char>>, Option<Seq<char>>, Option<Seq<char>>),
) -> bool {
    &&& c.version == 3
    &&& c.header.email@ == email
    &&& c.header.server_url@ == server_url
    &&& c.header.keys@.len() == keys.len()
    &&& forall|i: int|
        0 <= i < keys.len() ==> (
        #[trigger] c.header.keys@[i].name@,
        c.header.keys@[i].vault_item_id@,
        c.header.keys@[i].public_key_openssh@,
    ) == identity_of(keys[i])
    &&& slots_view(c.local_cache_key) == slots
    &&& as_text(decrypt_enc(c.encrypted_payload@, k.enc(), k.mac())) == Ok::<Seq<char>, CryptoError>(
        spec_key_tuples_json(keys),
    )
}

/// Build the local key cache for key tuples under a local cache key. It fails exactly
/// when the key's encryption half is not 32 bytes; what it writes reads back: decrypting
/// the payload with the same key gives the tuples' JSON.
pub fn build_envelope_local_key_cache(
    keys: &[(String, String, String)],
    email: &str,
    server_url: &str,
    local_cache_key: &SymmetricKey,
    slots: LocalCacheKeySlots,
) -> (r: Result<LocalKeyCacheFile, CryptoError>)
    ensures
        r is Err <==> local_cache_key.enc().len() != 32,
        r matches Err(e) ==> e == CryptoError::CipherInit,
        r matches Ok(c) ==> holds_envelope(c, tuples_view(keys@), email@, server_url@, *local_cache_key, slots_view(slots)),
{
    let json = key_tuples_json(keys);
    let encrypted_payload = match encrypt_enc_string(json.as_str().as_bytes(), local_cache_key) {
        Ok(p) => p,
        Err(e) => return Err(e),
    };
    let identities = key_identities_from_tuples(keys);
    let cache = LocalKeyCacheFile {
        version: 3,
        header: LocalKeyCacheHeader {
            email: email.to_string(),
            server_url: server_url.to_string(),
            keys: identities,
        },
        encrypted_payload,
        local_cache_key: slots,
    };
    assert forall|i: int| 0 <= i < keys@.len() implies (
        #[trigger] cache.header.keys@[i].name@,
        cache.header.keys@[i].vault_item_id@,
        cache.header.keys@[i].public_key_openssh@,
    ) == identity_of(tuples_view(keys@)[i]) by {
        let t = keys@[i];
        assert(tuples_view(keys@)[i] == (t.0@, t.1@, t.2@));
    }
    Ok(cache)
}

/// Rebuild an existing cache for new key tuples under its local cache key, keeping its
/// account and unlock slots.
pub fn refresh_envelope_local_key_cache(
    keys: &[(String, String, String)],
    existing: &LocalKeyCacheFile,
    local_cache_key: &SymmetricKey,
) -> (r: Result<LocalKeyCacheFile, CryptoError>)
    ensures
        r is Err <==> local_cache_key.enc().len() != 32,
        r matches Ok(c) ==> holds_envelope(
            c,
            tuples_view(keys@),
            existing.header.email@,
            existing.header.server_url@,
            *local_cache_key,
            slots_view(existing.local_cache_key),
        ),
{
    let s = &existing.local_cache_key;
    let slots = LocalCacheKeySlots {
        pin_encrypted: clone_opt(&s.pin_encrypted),
        hello_challenge: clone_opt(&s.hello_challenge),
        hello_encrypted: clone_opt(&s.hello_encrypted),
        native_encrypted: clone_opt(&s.native_encrypted),
    };
    build_envelope_local_key_cache(
        keys,
        existing.header.email.as_str(),
        existing.header.server_url.as_str(),
        local_cache_key,
        slots,
    )
}

/// The answer when decrypted keys do not parse.
pub open spec fn parse_failure_text(e: Seq<char>) -> Seq<char> {
    "Failed to parse decrypted keys: "@ + e
}

/// Finish an unlock with the decrypted key tuples' JSON: keep the tuples and mark the
/// vault unlocked, answering `success_msg`; when the JSON does not parse, change nothing
/// and say why.
pub fn finish_unlock_with_json(
    keys_json: &str,
    cached_key_tuples: &mut SecureKeyCache,
    vault_locked: &mut bool,
    success_msg: &str,
) -> (r: ControlResponse)
    ensures
        match spec_key_tuples_from_json(keys_json@) {
            Ok(ks) => {
                &&& final(cached_key_tuples)@ == ks
                &&& !*final(vault_locked)
                &&& r.ok
                &&& r.message matches Some(m) && m@ == success_msg@
                &&& r.error is None
            },
            Err(e) => {
                &&& final(cached_key_tuples)@ == old(cached_key_tuples)@
                &&& *final(vault_locked) == *old(vault_locked)
                &&& !r.ok
                &&& r.error matches Some(t) && t@ == parse_failure_text(e)
            },
        },
{
    match key_tuples_from_json(keys_json) {
        Ok(keys) => {
            cached_key_tuples.set(keys);
            *vault_locked = false;
            ControlResponse::ok(success_msg)
        },
        Err(e) => {
            let text = crate::text::concat("Failed to parse decrypted keys: ", e.as_str());
            proof {
                reveal_strlit("Failed to parse decrypted keys: ");
            }
            ControlResponse::err(text.as_str())
        },
    }
}

// ---------------------------------------------------------------------------
// The local cache key and its unlock slots
// ---------------------------------------------------------------------------

/// What a key's text form decodes to: base64 of 64 bytes, split into the encryption and
/// MAC halves.
pub open spec fn decoded_key_spec(text: Seq<char>) -> Result<(Seq<u8>, Seq<u8>), CryptoError> {
    match spec_b64_decode(text) {
        None => Err(CryptoError::InvalidKeyEncoding),
        Some(b) => user_key_spec(Ok(b)),
    }
}

/// A local cache key as text: base64 of its encryption key followed by its MAC key. A
/// key of two 32-byte halves decodes back to itself.
pub fn encode_symmetric_key(key: &SymmetricKey) -> (s: String)
    ensures
        s@ == spec_b64_encode(key.enc() + key.mac()),
        key.enc().len() == 32 && key.mac().len() == 32 ==> decoded_key_spec(s@) == Ok::<_, CryptoError>(
            (key.enc(), key.mac()),
        ),
{
    let mut bytes = vstd::slice::slice_to_vec(key.enc_key.as_slice());
    let mut mac = vstd::slice::slice_to_vec(key.mac_key.as_slice());
    bytes.append(&mut mac);
    let s = b64_encode(bytes.as_slice());
    proof {
        let b = key.enc() + key.mac();
        assert(bytes@ =~= b);
        if key.enc().len() == 32 && key.mac().len() == 32 {
            assert(b.take(32) =~= key.enc());
            assert(b.skip(32) =~= key.mac());
        }
    }
    s
}

/// Read a local cache key from its text form.
pub fn decode_symmetric_key(text: &str) -> (r: Result<SymmetricKey, CryptoError>)
    ensures
        key_view(r) == decoded_key_spec(text@),
{
    match b64_decode(crate::text::chars_of(text).as_slice()) {
        None => Err(CryptoError::InvalidKeyEncoding),
        Some(bytes) => split_user_key(bytes),
    }
}

/// Why a local key cache did not unlock.
#[derive(Debug, Clone, Copy, PartialEq, Eq, Structural)]
pub enum EnvelopeError {
    /// The cache has no slot for this unlock method.
    MissingSlot,
    /// The slot did not open (a wrong PIN, or damaged data).
    SlotLocked(CryptoError),
    /// The slot opened to text that is not a cache key.
    BadCacheKey(CryptoError),
    /// The payload did not decrypt under the cache key.
    Payload(CryptoError),
}

impl EnvelopeError {
    /// A message for the user.
    pub fn message(&self) -> (s: &'static str)
        ensures
            s@ == match self {
                EnvelopeError::MissingSlot => "Local key cache has no slot for this unlock method"@,
                EnvelopeError::SlotLocked(_) => "Failed to unlock Local Cache Key"@,
                EnvelopeError::BadCacheKey(_) => "Failed to decode Local Cache Key"@,
                EnvelopeError::Payload(_) => "Failed to decrypt local key cache payload"@,
            },
    {
        match self {
            EnvelopeError::MissingSlot => "Local key cache has no slot for this unlock method",
            EnvelopeError::SlotLocked(_) => "Failed to unlock Local Cache Key",
            EnvelopeError::BadCacheKey(_) => "Failed to decode Local Cache Key",
            EnvelopeError::Payload(_) => "Failed to decrypt local key cache payload",
        }
    }
}

/// What unlocking a cache with a cache key's text form gives: the payload's text and the
/// key's halves.
pub open spec fn key_text_unlock_spec(c: LocalKeyCacheFile, key_text: Seq<char>) -> Result<
    (Seq<char>, (Seq<u8>, Seq<u8>)),
    EnvelopeError,
> {
    match decoded_key_spec(key_text) {
        Err(e) => Err(EnvelopeError::BadCacheKey(e)),
        Ok((enc, mac)) => match as_text(decrypt_enc(c.encrypted_payload@, enc, mac)) {
            Err(e) => Err(EnvelopeError::Payload(e)),
            Ok(j) => Ok((j, (enc, mac))),
        },
    }
}

/// What unlocking a cache with a PIN gives: its PIN slot opened with the PIN, the cache
/// key read from it, the payload decrypted with that key.
pub open spec fn pin_unlock_spec(c: LocalKeyCacheFile, pin: Seq<char>) -> Result<
    (Seq<char>, (Seq<u8>, Seq<u8>)),
    EnvelopeError,
> {
    match c.local_cache_key.pin_encrypted {
        None => Err(EnvelopeError::MissingSlot),
        Some(slot) => match pin_decrypt_spec(slot@, pin) {
            Err(e) => Err(EnvelopeError::SlotLocked(e)),
            Ok(t) => key_text_unlock_spec(c, t),
        },
    }
}

pub open spec fn unlock_view(r: Result<(String, SymmetricKey), EnvelopeError>) -> Result<
    (Seq<char>, (Seq<u8>, Seq<u8>)),
    EnvelopeError,
> {
    match r {
        Ok((j, k)) => Ok((j@, (k.enc(), k.mac()))),
        Err(e) => Err(e),
    }
}

/// Unlock a cache with a cache key's text form (as the platform keyring keeps it).
pub fn decrypt_envelope_with_key_text(cache: &LocalKeyCacheFile, key_text: &str) -> (r: Result<
    (String, SymmetricKey),
    EnvelopeError,
>)
    ensures
        unlock_view(r) == key_text_unlock_spec(*cache, key_text@),
{
    let key = match decode_symmetric_key(key_text) {
        Ok(k) => k,
        Err(e) => return Err(EnvelopeError::BadCacheKey(e)),
    };
    match decrypt_enc_string_to_string(cache.encrypted_payload.as_str(), &key) {
        Ok(json) => Ok((json, key)),
        Err(e) => Err(EnvelopeError::Payload(e)),
    }
}

/// Unlock a cache with a PIN (see [`pin_unlock_spec`]).
pub fn decrypt_envelope_local_key_cache_with_pin(cache: &LocalKeyCacheFile, pin: &str) -> (r: Result<
    (String, SymmetricKey),
    EnvelopeError,
>)
    ensures
        unlock_view(r) == pin_unlock_spec(*cache, pin@),
{
    let slot = match &cache.local_cache_key.pin_encrypted {
        Some(s) => s,
        None => return Err(EnvelopeError::MissingSlot),
    };
    let key_text = match pin_decrypt(slot.as_str(), pin) {
        Ok(t) => t,
        Err(e) => return Err(EnvelopeError::SlotLocked(e)),
    };
    decrypt_envelope_with_key_text(cache, key_text.as_str())
}

/// Whether a PIN opens a slot to the text form of a cache key with these halves.
pub open spec fn pin_slot_opens(slot: Seq<char>, pin: Seq<char>, enc: Seq<u8>, mac: Seq<u8>) -> bool {
    exists|t: Seq<char>| #[trigger] pin_decrypt_spec(slot, pin) == Ok::<_, CryptoError>(t) && decoded_key_spec(t) == Ok::<_, CryptoError>((enc, mac))
}

/// The PIN slot for a local cache key: its text form encrypted under the PIN. It fails
/// exactly when no key can be derived from the PIN; for a key of two 32-byte halves the
/// PIN opens the slot back to the key.
pub fn encrypt_local_cache_key_with_pin(key: &SymmetricKey, pin: &str) -> (r: Result<String, CryptoError>)
    ensures
        r is Err <==> pin_key(pin@) is None,
        r matches Ok(slot) ==> (key.enc().len() == 32 && key.mac().len() == 32 ==> pin_slot_opens(
            slot@,
            pin@,
            key.enc(),
            key.mac(),
        )),
{
    let text = encode_symmetric_key(key);
    let r = pin_encrypt(text.as_str(), pin);
    proof {
        if r is Ok && key.enc().len() == 32 && key.mac().len() == 32 {
            let slot = r->Ok_0;
            assert(pin_decrypt_spec(slot@, pin@) == Ok::<_, CryptoError>(text@));
        }
    }
    r
}

/// A new local key cache for key tuples, protected by a PIN: the tuples encrypted under a
/// fresh local cache key, whose text form the PIN slot holds. It fails when the cache key
/// is not 32 bytes, or no key can be derived from the PIN.
pub fn write_envelope_local_key_cache(
    keys: &[(String, String, String)],
    email: &str,
    server_url: &str,
    local_cache_key: &SymmetricKey,
    pin: &str,
) -> (r: Result<LocalKeyCacheFile, CryptoError>)
    ensures
        r is Ok <==> local_cache_key.enc().len() == 32 && pin_key(pin@) is Some,
        r matches Ok(c) ==> {
            &&& holds_envelope(c, tuples_view(keys@), email@, server_url@, *local_cache_key, slots_view(c.local_cache_key))
            &&& c.local_cache_key.hello_challenge is None
            &&& c.local_cache_key.hello_encrypted is None
            &&& c.local_cache_key.native_encrypted is None
            &&& (local_cache_key.mac().len() == 32 ==> (c.local_cache_key.pin_encrypted matches Some(slot)
                && pin_slot_opens(slot@, pin@, local_cache_key.enc(), local_cache_key.mac())))
        },
{
    let slot = match encrypt_local_cache_key_with_pin(local_cache_key, pin) {
        Ok(s) => s,
        Err(e) => {
            if local_cache_key.enc_key.len() != 32 {
                return Err(CryptoError::CipherInit);
            }
            return Err(e);
        },
    };
    let slots = LocalCacheKeySlots {
        pin_encrypted: Some(slot),
        hello_challenge: None,
        hello_encrypted: None,
        native_encrypted: None,
    };
    build_envelope_local_key_cache(keys, email, server_url, local_cache_key, slots)
}

/// Law: what setting a PIN writes, the same PIN reads back: a cache whose payload holds
/// the tuples' JSON under a key, and whose PIN slot the PIN opens to that key, unlocks
/// with that PIN to the same JSON and key.
pub proof fn law_pin_unlock_reads_back(
    c: LocalKeyCacheFile,
    keys: Seq<(Seq<char>, Seq<char>, Seq<char>)>,
    email: Seq<char>,
    server_url: Seq<char>,
    k: SymmetricKey,
    pin: Seq<char>,
)
    requires
        holds_envelope(c, keys, email, server_url, k, slots_view(c.local_cache_key)),
        c.local_cache_key.pin_encrypted matches Some(slot) && pin_slot_opens(slot@, pin, k.enc(), k.mac()),
    ensures
        pin_unlock_spec(c, pin) == Ok::<_, EnvelopeError>((spec_key_tuples_json(keys), (k.enc(), k.mac()))),
{
}

// ---------------------------------------------------------------------------
// Unlocking with a PIN
// ---------------------------------------------------------------------------

/// Which way a PIN unlock goes: the local key cache opens (its payload text and key), or
/// the legacy PIN-encrypted tuples decrypt (their text), or the PIN is wrong, or no PIN
/// was ever set.
pub enum PinRoute {
    Cache(Seq<char>, (Seq<u8>, Seq<u8>)),
    Legacy(Seq<char>),
    WrongPin,
    NoPin,
}

/// The way a PIN unlock goes: the local key cache first; when there is none or it does
/// not open, the legacy PIN-encrypted tuples (in memory, else the vault file).
pub open spec fn pin_route(
    cache: Option<LocalKeyCacheFile>,
    in_memory: Option<String>,
    vault_file: Option<VaultFile>,
    pin: Seq<char>,
) -> PinRoute {
    let opened = match cache {
        Some(c) => pin_unlock_spec(c, pin),
        None => Err(EnvelopeError::MissingSlot),
    };
    match opened {
        Ok((j, k)) => PinRoute::Cache(j, k),
        Err(_) => match pin_source_spec(in_memory, vault_file) {
            None => PinRoute::NoPin,
            Some(enc) => match pin_decrypt_spec(enc, pin) {
                Ok(j) => PinRoute::Legacy(j),
                Err(_) => PinRoute::WrongPin,
            },
        },
    }
}

/// Whether a response is exactly a failure with this text.
pub open spec fn fails_with(r: ControlResponse, text: Seq<char>) -> bool {
    !r.ok && r.message is None && (r.error matches Some(t) && t@ == text)
}

/// What finishing an unlock with decrypted tuples' text does (see
/// [`finish_unlock_with_json`]).
pub open spec fn finished(
    j: Seq<char>,
    message: Seq<char>,
    r: ControlResponse,
    keys_before: Seq<(Seq<char>, Seq<char>, Seq<char>)>,
    keys_after: Seq<(Seq<char>, Seq<char>, Seq<char>)>,
    locked_before: bool,
    locked_after: bool,
) -> bool {
    match spec_key_tuples_from_json(j) {
        Ok(ks) => keys_after == ks && !locked_after && r.ok && (r.message matches Some(m) && m@ == message),
        Err(e) => keys_after == keys_before && locked_after == locked_before && !r.ok && (r.error matches Some(t)
            && t@ == parse_failure_text(e)),
    }
}

/// Unlock with a PIN. The local key cache is tried first; when it does not open, the
/// legacy PIN-encrypted tuples are; a legacy unlock without a local key cache also
/// migrates: it returns a new cache for the tuples under `fresh_key`, protected by the
/// same PIN, for the caller to save. Nothing changes on a wrong PIN or when no PIN was set.
pub fn unlock_with_pin(
    pin: &str,
    cache: &Option<LocalKeyCacheFile>,
    in_memory: &Option<String>,
    vault_file: &Option<VaultFile>,
    fresh_key: &SymmetricKey,
    email: &str,
    server_url: &str,
    keys: &mut SecureKeyCache,
    vault_locked: &mut bool,
    local_cache_key: &mut LocalCacheKeyState,
) -> (r: (ControlResponse, Option<LocalKeyCacheFile>))
    ensures
        match pin_route(*cache, *in_memory, *vault_file, pin@) {
            PinRoute::NoPin => {
                &&& fails_with(r.0, "No PIN configured. Use 'sshwarden set-pin' first."@)
                &&& r.1 is None
                &&& final(keys)@ == old(keys)@ && *final(vault_locked) == *old(vault_locked)
                &&& final(local_cache_key).key == old(local_cache_key).key
            },
            PinRoute::WrongPin => {
                &&& fails_with(r.0, "Invalid PIN"@)
                &&& r.1 is None
                &&& final(keys)@ == old(keys)@ && *final(vault_locked) == *old(vault_locked)
                &&& final(local_cache_key).key == old(local_cache_key).key
            },
            PinRoute::Cache(j, (e, m)) => {
                &&& finished(
                    j,
                    "Vault unlocked via PIN local key cache"@,
                    r.0,
                    old(keys)@,
                    final(keys)@,
                    *old(vault_locked),
                    *final(vault_locked),
                )
                &&& r.1 is None
                &&& final(local_cache_key).key matches Some(k) && k.enc() == e && k.mac() == m
            },
            PinRoute::Legacy(j) => {
                &&& finished(
                    j,
                    "Vault unlocked via PIN"@,
                    r.0,
                    old(keys)@,
                    final(keys)@,
                    *old(vault_locked),
                    *final(vault_locked),
                )
                &&& (r.1 is Some <==> (cache is None && spec_key_tuples_from_json(j) is Ok && fresh_key.enc().len()
                    == 32))
                &&& match r.1 {
                    Some(c) => {
                        &&& holds_envelope(
                            c,
                            spec_key_tuples_from_json(j)->Ok_0,
                            email@,
                            server_url@,
                            *fresh_key,
                            slots_view(c.local_cache_key),
                        )
                        &&& (fresh_key.mac().len() == 32 ==> (c.local_cache_key.pin_encrypted matches Some(slot)
                            && pin_slot_opens(slot@, pin@, fresh_key.enc(), fresh_key.mac())))
                        &&& final(local_cache_key).key matches Some(k) && k.enc() == fresh_key.enc() && k.mac()
                            == fresh_key.mac()
                    },
                    None => final(local_cache_key).key == old(local_cache_key).key,
                }
            },
        },
{
    let opened = match cache {
        Some(c) => decrypt_envelope_local_key_cache_with_pin(c, pin),
        None => Err(EnvelopeError::MissingSlot),
    };
    if let Ok((json, key)) = opened {
        local_cache_key.set(key);
        let resp = finish_unlock_with_json(json.as_str(), keys, vault_locked, "Vault unlocked via PIN local key cache");
        return (resp, None);
    }
    let enc = match pin_encrypted_source(in_memory, vault_file) {
        Some(enc) => enc,
        None => return (ControlResponse::err("No PIN configured. Use 'sshwarden set-pin' first."), None),
    };
    let json = match pin_decrypt(enc.as_str(), pin) {
        Ok(j) => j,
        Err(_) => return (ControlResponse::err("Invalid PIN"), None),
    };
    let mut migrated: Option<LocalKeyCacheFile> = None;
    if cache.is_none() {
        if let Ok(tuples) = key_tuples_from_json(json.as_str()) {
            if let Ok(c) = write_envelope_local_key_cache(tuples.as_slice(), email, server_url, fresh_key, pin) {
                local_cache_key.set(fresh_key.duplicate());
                migrated = Some(c);
            }
        }
    }
    let resp = finish_unlock_with_json(json.as_str(), keys, vault_locked, "Vault unlocked via PIN");
    (resp, migrated)
}

} // verus!
