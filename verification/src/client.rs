//! The Bitwarden client's session and the decryption of the SSH keys a sync returns.
//!
//! HTTP requests are I/O and stay with the caller, which hands the parsed answers to the
//! session here; the library keeps the tokens and the user key, decides when the access
//! token needs refreshing, and decrypts the vault's SSH keys.
use vstd::prelude::*;

use crate::crypto::{
    as_text, decrypt_enc, decrypt_enc_string, decrypt_enc_string_to_string, decrypt_user_key,
    key_view, split_user_key, text_view, user_key_spec, CryptoError, SymmetricKey,
};
use crate::models::{Cipher, CipherType, SyncResponse, TokenResponse};
use crate::text::{chars_of, push_str, string_of};

verus! {

/// A decrypted SSH key, ready for the agent.
#[derive(Debug, Clone)]
pub struct DecryptedSshKey {
    pub private_key_pem: String,
    pub name: String,
    pub cipher_id: String,
}

impl DecryptedSshKey {
    pub open spec fn view(&self) -> (Seq<char>, Seq<char>, Seq<char>) {
        (self.private_key_pem@, self.name@, self.cipher_id@)
    }
}

/// Why an SSH key item could not be decrypted.
#[derive(Debug, Clone, Copy, PartialEq, Eq, Structural)]
pub enum CipherError {
    /// The item's own key did not decrypt under the user key.
    CipherKey(CryptoError),
    /// The item's own key decrypted to other than 64 bytes.
    CipherKeyLength(usize),
    /// The item is an SSH key but carries no key data.
    MissingSshKey,
    /// The private key did not decrypt.
    PrivateKey(CryptoError),
}

/// The key an item is encrypted under: its own key, decrypted with the user key and
/// split in halves, or else the user key itself.
pub open spec fn effective_key(c: Cipher, enc: Seq<u8>, mac: Seq<u8>) -> Result<(Seq<u8>, Seq<u8>), CipherError> {
    match c.key {
        None => Ok((enc, mac)),
        Some(k) => match decrypt_enc(k@, enc, mac) {
            Err(e) => Err(CipherError::CipherKey(e)),
            Ok(m) => if m.len() != 64 {
                Err(CipherError::CipherKeyLength(m.len() as usize))
            } else {
                Ok((m.take(32), m.skip(32)))
            },
        },
    }
}

/// The display name of an item: its decrypted name, or `unnamed` when it has none or it
/// does not decrypt.
pub open spec fn item_name(c: Cipher, key: (Seq<u8>, Seq<u8>)) -> Seq<char> {
    match c.name {
        None => "unnamed"@,
        Some(n) => match as_text(decrypt_enc(n@, key.0, key.1)) {
            Ok(t) => t,
            Err(_) => "unnamed"@,
        },
    }
}

/// Decrypting an SSH key item under the user key: its private key, name and id.
pub open spec fn decrypted_item(c: Cipher, enc: Seq<u8>, mac: Seq<u8>) -> Result<
    (Seq<char>, Seq<char>, Seq<char>),
    CipherError,
> {
    match effective_key(c, enc, mac) {
        Err(e) => Err(e),
        Ok(k) => match c.ssh_key {
            None => Err(CipherError::MissingSshKey),
            Some(d) => match as_text(decrypt_enc(d.private_key@, k.0, k.1)) {
                Err(e) => Err(CipherError::PrivateKey(e)),
                Ok(pem) => Ok((pem, item_name(c, k), c.id@)),
            },
        },
    }
}

/// Decrypt one SSH key item with the user key.
pub fn decrypt_ssh_cipher(cipher: &Cipher, user_key: &SymmetricKey) -> (r: Result<
    DecryptedSshKey,
    CipherError,
>)
    ensures
        match r {
            Ok(k) => decrypted_item(*cipher, user_key.enc(), user_key.mac()) == Ok::<
                (Seq<char>, Seq<char>, Seq<char>),
                CipherError,
            >(k.view()),
            Err(e) => decrypted_item(*cipher, user_key.enc(), user_key.mac()) == Err::<
                (Seq<char>, Seq<char>, Seq<char>),
                CipherError,
            >(e),
        },
{
    let effective = match &cipher.key {
        Some(k) => {
            let bytes = match decrypt_enc_string(k.as_str(), user_key) {
                Ok(b) => b,
                Err(e) => return Err(CipherError::CipherKey(e)),
            };
            if bytes.len() != 64 {
                return Err(CipherError::CipherKeyLength(bytes.len()));
            }
            let enc_key = vstd::slice::slice_to_vec(vstd::slice::slice_subrange(bytes.as_slice(), 0, 32));
            let mac_key = vstd::slice::slice_to_vec(vstd::slice::slice_subrange(bytes.as_slice(), 32, 64));
            assert(enc_key@ =~= bytes@.take(32));
            assert(mac_key@ =~= bytes@.skip(32));
            SymmetricKey { enc_key, mac_key }
        },
        None => user_key.duplicate(),
    };
    assert(effective_key(*cipher, user_key.enc(), user_key.mac()) == Ok::<
        (Seq<u8>, Seq<u8>),
        CipherError,
    >((effective.enc(), effective.mac())));
    let data = match &cipher.ssh_key {
        Some(d) => d,
        None => return Err(CipherError::MissingSshKey),
    };
    let pem = match decrypt_enc_string_to_string(data.private_key.as_str(), &effective) {
        Ok(p) => p,
        Err(e) => return Err(CipherError::PrivateKey(e)),
    };
    let name = match &cipher.name {
        Some(n) => match decrypt_enc_string_to_string(n.as_str(), &effective) {
            Ok(t) => t,
            Err(_) => string_of(chars_of("unnamed").as_slice()),
        },
        None => string_of(chars_of("unnamed").as_slice()),
    };
    Ok(DecryptedSshKey { private_key_pem: pem, name, cipher_id: cipher.id.clone() })
}

/// Whether a vault item is a live SSH key: of the SSH key type, neither deleted nor
/// archived.
pub open spec fn is_live_ssh_key(c: Cipher) -> bool {
    c.cipher_type == CipherType::SshKey && c.deleted_date is None && c.archived_date is None
}

/// The SSH keys of a sync: each live SSH key item that decrypts, in order; the others
/// are left out.
pub open spec fn synced_keys(ciphers: Seq<Cipher>, enc: Seq<u8>, mac: Seq<u8>) -> Seq<(Seq<char>, Seq<char>, Seq<char>)>
    decreases ciphers.len(),
{
    if ciphers.len() == 0 {
        Seq::empty()
    } else {
        let prev = synced_keys(ciphers.drop_last(), enc, mac);
        let c = ciphers.last();
        if is_live_ssh_key(c) {
            match decrypted_item(c, enc, mac) {
                Ok(k) => prev.push(k),
                Err(_) => prev,
            }
        } else {
            prev
        }
    }
}

/// Law: a sync loads exactly the vault's live SSH keys that decrypt: every loaded key is
/// a live (neither deleted nor archived) SSH key item of the sync, decrypted; and every such item that
/// decrypts is loaded.
pub proof fn law_sync_mirrors_vault(ciphers: Seq<Cipher>, enc: Seq<u8>, mac: Seq<u8>)
    ensures
        forall|k: int|
            0 <= k < synced_keys(ciphers, enc, mac).len() ==> exists|j: int|
                0 <= j < ciphers.len() && is_live_ssh_key(#[trigger] ciphers[j]) && decrypted_item(ciphers[j], enc, mac)
                    == Ok::<_, CipherError>(#[trigger] synced_keys(ciphers, enc, mac)[k]),
        forall|j: int|
            0 <= j < ciphers.len() && is_live_ssh_key(#[trigger] ciphers[j]) && decrypted_item(ciphers[j], enc, mac) is Ok
                ==> exists|k: int|
                0 <= k < synced_keys(ciphers, enc, mac).len() && #[trigger] synced_keys(ciphers, enc, mac)[k]
                    == decrypted_item(ciphers[j], enc, mac)->Ok_0,
    decreases ciphers.len(),
{
    if ciphers.len() > 0 {
        let init = ciphers.drop_last();
        law_sync_mirrors_vault(init, enc, mac);
        let prev = synced_keys(init, enc, mac);
        let all = synced_keys(ciphers, enc, mac);
        let c = ciphers.last();
        assert(c == ciphers[ciphers.len() - 1]);
        assert forall|k: int| 0 <= k < all.len() implies exists|j: int|
            0 <= j < ciphers.len() && is_live_ssh_key(#[trigger] ciphers[j]) && decrypted_item(ciphers[j], enc, mac)
                == Ok::<_, CipherError>(#[trigger] all[k]) by {
            if k < prev.len() {
                assert(all[k] == prev[k]);
                let j = choose|j: int|
                    0 <= j < init.len() && is_live_ssh_key(#[trigger] init[j]) && decrypted_item(init[j], enc, mac)
                        == Ok::<_, CipherError>(prev[k]);
                assert(init[j] == ciphers[j]);
            } else {
                assert(is_live_ssh_key(ciphers[ciphers.len() - 1]));
            }
        }
        assert forall|j: int|
            0 <= j < ciphers.len() && is_live_ssh_key(#[trigger] ciphers[j]) && decrypted_item(ciphers[j], enc, mac) is Ok
                implies exists|k: int|
                0 <= k < all.len() && #[trigger] all[k] == decrypted_item(ciphers[j], enc, mac)->Ok_0 by {
            if j < init.len() {
                assert(init[j] == ciphers[j]);
                let k = choose|k: int|
                    0 <= k < prev.len() && #[trigger] prev[k] == decrypted_item(init[j], enc, mac)->Ok_0;
                assert(all[k] == prev[k]);
            } else {
                assert(all[prev.len() as int] == decrypted_item(ciphers[j], enc, mac)->Ok_0);
            }
        }
    }
}

pub open spec fn keys_view(v: Seq<DecryptedSshKey>) -> Seq<(Seq<char>, Seq<char>, Seq<char>)> {
    v.map_values(|k: DecryptedSshKey| k.view())
}

/// Decrypt the SSH keys of a sync answer (see [`synced_keys`]).
pub fn ssh_keys_from_sync(sync: &SyncResponse, user_key: &SymmetricKey) -> (keys: Vec<DecryptedSshKey>)
    ensures
        keys_view(keys@) == synced_keys(sync.ciphers@, user_key.enc(), user_key.mac()),
{
    let mut keys: Vec<DecryptedSshKey> = Vec::new();
    let mut i: usize = 0;
    while i < sync.ciphers.len()
        invariant
            i <= sync.ciphers@.len(),
            keys_view(keys@) == synced_keys(sync.ciphers@.take(i as int), user_key.enc(), user_key.mac()),
        decreases sync.ciphers.len() - i,
    {
        let c = &sync.ciphers[i];
        assert(sync.ciphers@.take(i + 1).drop_last() =~= sync.ciphers@.take(i as int));
        assert(sync.ciphers@.take(i + 1).last() == *c);
        let live = match c.cipher_type {
            CipherType::SshKey => c.deleted_date.is_none() && c.archived_date.is_none(),
            _ => false,
        };
        if live {
            match decrypt_ssh_cipher(c, user_key) {
                Ok(k) => {
                    let ghost before = keys_view(keys@);
                    keys.push(k);
                    assert(keys_view(keys@) =~= before.push(k.view()));
                },
                Err(_) => {},
            }
        }
        i += 1;
    }
    assert(sync.ciphers@.take(sync.ciphers@.len() as int) =~= sync.ciphers@);
    keys
}

// ---------------------------------------------------------------------------
// The session
// ---------------------------------------------------------------------------

/// Why a login could not be completed from the server's token answer.
#[derive(Debug, Clone, Copy, PartialEq, Eq, Structural)]
pub enum LoginError {
    /// The token answer carries no encrypted user key.
    MissingUserKey,
    /// The user key did not decrypt under the master key.
    UserKey(CryptoError),
}

/// How long before its expiry an access token counts as expiring, in milliseconds.
pub const TOKEN_REFRESH_MARGIN_MS: u64 = 300000;

/// A client's session with a Bitwarden server: its endpoints, tokens, device id and,
/// once unlocked, the user key. Times are milliseconds of a monotonic clock.
pub struct BitwardenClient {
    pub api_url: String,
    pub identity_url: String,
    pub access_token: Option<String>,
    pub refresh_token: Option<String>,
    /// When the access token expires.
    pub token_expiry: Option<u64>,
    pub device_id: String,
    pub user_key: Option<SymmetricKey>,
}

/// The characters of a hyphenated UUID: 36, with hyphens at 8, 13, 18 and 23.
pub open spec fn is_hyphenated_uuid(s: Seq<char>) -> bool {
    &&& s.len() == 36
    &&& s[8] == '-' && s[13] == '-' && s[18] == '-' && s[23] == '-'
}

/// Wraps `uuid::Uuid::new_v4` and its hyphenated `to_string`. The value is random; what
/// is claimed of every outcome is the hyphenated form that `uuid` documents.
#[verifier::external_body]
fn new_device_id() -> (s: String)
    ensures
        is_hyphenated_uuid(s@),
{
    uuid::Uuid::new_v4().to_string()
}

/// The expiry of a token that lasts `expires_in` seconds from `now` (saturating).
pub open spec fn expiry_after(now: u64, expires_in: u64) -> u64 {
    if now + expires_in * 1000 <= u64::MAX {
        (now + expires_in * 1000) as u64
    } else {
        u64::MAX
    }
}

fn expiry_after_exec(now: u64, expires_in: u64) -> (r: u64)
    ensures
        r == expiry_after(now, expires_in),
{
    if expires_in > (u64::MAX - now) / 1000 {
        u64::MAX
    } else {
        now + expires_in * 1000
    }
}

fn text_of(s: &str) -> (r: String)
    ensures
        r@ == s@,
{
    string_of(chars_of(s).as_slice())
}

impl BitwardenClient {
    /// A new session with a fresh random device id. The base URL is not kept.
    pub fn new(base_url: &str, api_url: &str, identity_url: &str) -> (c: BitwardenClient)
        ensures
            c.api_url@ == api_url@,
            c.identity_url@ == identity_url@,
            c.access_token is None,
            c.refresh_token is None,
            c.token_expiry is None,
            is_hyphenated_uuid(c.device_id@),
            c.user_key is None,
    {
        BitwardenClient {
            api_url: text_of(api_url),
            identity_url: text_of(identity_url),
            access_token: None,
            refresh_token: None,
            token_expiry: None,
            device_id: new_device_id(),
            user_key: None,
        }
    }

    /// A new session with a known device id (restored from the session file).
    pub fn new_with_device_id(base_url: &str, api_url: &str, identity_url: &str, device_id: &str) -> (c: BitwardenClient)
        ensures
            c.api_url@ == api_url@,
            c.identity_url@ == identity_url@,
            c.access_token is None,
            c.refresh_token is None,
            c.token_expiry is None,
            c.device_id@ == device_id@,
            c.user_key is None,
    {
        BitwardenClient {
            api_url: text_of(api_url),
            identity_url: text_of(identity_url),
            access_token: None,
            refresh_token: None,
            token_expiry: None,
            device_id: text_of(device_id),
            user_key: None,
        }
    }

    /// `{identity}/accounts/prelogin`.
    pub fn prelogin_url(&self) -> (r: String)
        ensures
            r@ == self.identity_url@ + "/accounts/prelogin"@,
    {
        let mut v = chars_of(self.identity_url.as_str());
        push_str(&mut v, "/accounts/prelogin");
        string_of(v.as_slice())
    }

    /// `{identity}/connect/token`.
    pub fn token_url(&self) -> (r: String)
        ensures
            r@ == self.identity_url@ + "/connect/token"@,
    {
        let mut v = chars_of(self.identity_url.as_str());
        push_str(&mut v, "/connect/token");
        string_of(v.as_slice())
    }

    /// `{api}/sync?excludeDomains=true`.
    pub fn sync_url(&self) -> (r: String)
        ensures
            r@ == self.api_url@ + "/sync?excludeDomains=true"@,
    {
        let mut v = chars_of(self.api_url.as_str());
        push_str(&mut v, "/sync?excludeDomains=true");
        string_of(v.as_slice())
    }

    /// `{api}/config`, where the server advertises its environment (such as the
    /// notifications URL).
    pub fn config_url(&self) -> (r: String)
        ensures
            r@ == self.api_url@ + "/config"@,
    {
        let mut v = chars_of(self.api_url.as_str());
        push_str(&mut v, "/config");
        string_of(v.as_slice())
    }

    /// Take the server's answer to a password login at `now`: keep the tokens and their
    /// expiry, then decrypt the user key with the master key. The tokens are kept even
    /// when the user key is missing or does not decrypt.
    pub fn accept_login_token(&mut self, token: &TokenResponse, master_key: &[u8], now: u64) -> (r: Result<(), LoginError>)
        ensures
            final(self).access_token == Some(token.access_token),
            final(self).refresh_token == token.refresh_token,
            final(self).token_expiry == Some(expiry_after(now, token.expires_in)),
            final(self).api_url == old(self).api_url,
            final(self).identity_url == old(self).identity_url,
            final(self).device_id == old(self).device_id,
            match token.key {
                None => r == Err::<(), LoginError>(LoginError::MissingUserKey)
                    && final(self).user_key == old(self).user_key,
                Some(k) => match r {
                    Ok(_) => final(self).user_key matches Some(u) && key_view(Ok(u)) == {
                        let res = decrypt_user_key_spec(k@, master_key@);
                        res
                    },
                    Err(LoginError::UserKey(e)) => decrypt_user_key_spec(k@, master_key@) == Err::<
                        (Seq<u8>, Seq<u8>),
                        CryptoError,
                    >(e) && final(self).user_key == old(self).user_key,
                    Err(_) => false,
                },
            },
    {
        self.access_token = Some(token.access_token.clone());
        self.refresh_token = token.refresh_token.clone();
        self.token_expiry = Some(expiry_after_exec(now, token.expires_in));
        match &token.key {
            None => Err(LoginError::MissingUserKey),
            Some(k) => match decrypt_user_key(k.as_str(), master_key) {
                Ok(u) => {
                    self.user_key = Some(u);
                    Ok(())
                },
                Err(e) => Err(LoginError::UserKey(e)),
            },
        }
    }

    /// Take the server's answer to a token refresh at `now`: a new access token and
    /// expiry; the refresh token changes only when the answer carries a new one.
    pub fn accept_refreshed_token(&mut self, token: &TokenResponse, now: u64)
        ensures
            final(self).access_token == Some(token.access_token),
            final(self).refresh_token == match token.refresh_token {
                Some(t) => Some(t),
                None => old(self).refresh_token,
            },
            final(self).token_expiry == Some(expiry_after(now, token.expires_in)),
            final(self).api_url == old(self).api_url,
            final(self).identity_url == old(self).identity_url,
            final(self).device_id == old(self).device_id,
            final(self).user_key == old(self).user_key,
    {
        self.access_token = Some(token.access_token.clone());
        if let Some(t) = &token.refresh_token {
            self.refresh_token = Some(t.clone());
        }
        self.token_expiry = Some(expiry_after_exec(now, token.expires_in));
    }

    pub fn is_authenticated(&self) -> (b: bool)
        ensures
            b == self.access_token is Some,
    {
        self.access_token.is_some()
    }

    pub fn has_user_key(&self) -> (b: bool)
        ensures
            b == self.user_key is Some,
    {
        self.user_key.is_some()
    }

    /// The user key, once unlocked.
    pub fn user_key(&self) -> (k: Option<&SymmetricKey>)
        ensures
            k == match self.user_key {
                Some(u) => Some(&u),
                None => None::<&SymmetricKey>,
            },
    {
        self.user_key.as_ref()
    }

    /// Keep the user key (after an unlock).
    pub fn set_user_key(&mut self, key: SymmetricKey)
        ensures
            final(self).user_key == Some(key),
            final(self).access_token == old(self).access_token,
            final(self).refresh_token == old(self).refresh_token,
            final(self).token_expiry == old(self).token_expiry,
    {
        self.user_key = Some(key);
    }

    /// Forget the user key (lock).
    pub fn clear_user_key(&mut self)
        ensures
            final(self).user_key is None,
            final(self).access_token == old(self).access_token,
            final(self).refresh_token == old(self).refresh_token,
            final(self).token_expiry == old(self).token_expiry,
    {
        self.user_key = None;
    }

    pub fn access_token(&self) -> (t: Option<&str>)
        ensures
            match self.access_token {
                Some(a) => t matches Some(s) && s@ == a@,
                None => t is None,
            },
    {
        match &self.access_token {
            Some(a) => Some(a.as_str()),
            None => None,
        }
    }

    pub fn refresh_token(&self) -> (t: Option<&str>)
        ensures
            match self.refresh_token {
                Some(a) => t matches Some(s) && s@ == a@,
                None => t is None,
            },
    {
        match &self.refresh_token {
            Some(a) => Some(a.as_str()),
            None => None,
        }
    }

    pub fn device_id(&self) -> (d: &str)
        ensures
            d@ == self.device_id@,
    {
        self.device_id.as_str()
    }

    pub fn identity_url(&self) -> (u: &str)
        ensures
            u@ == self.identity_url@,
    {
        self.identity_url.as_str()
    }

    /// Keep a refresh token (restored from the session file).
    pub fn set_refresh_token(&mut self, token: String)
        ensures
            final(self).refresh_token == Some(token),
            final(self).access_token == old(self).access_token,
            final(self).token_expiry == old(self).token_expiry,
            final(self).user_key == old(self).user_key,
    {
        self.refresh_token = Some(token);
    }

    /// Whether the access token expires within five minutes of `now`; with no expiry on
    /// record, whether there is an access token at all.
    pub fn is_token_expiring_soon(&self, now: u64) -> (b: bool)
        ensures
            b == match self.token_expiry {
                Some(e) => now >= e || e - now < TOKEN_REFRESH_MARGIN_MS,
                None => self.access_token is Some,
            },
    {
        match self.token_expiry {
            Some(e) => {
                if now >= e {
                    return true;
                }
                e - now < TOKEN_REFRESH_MARGIN_MS
            },
            None => self.access_token.is_some(),
        }
    }
}

/// The user key that decrypting `k` under a master key gives, as in [`decrypt_user_key`].
pub open spec fn decrypt_user_key_spec(k: Seq<char>, master_key: Seq<u8>) -> Result<(Seq<u8>, Seq<u8>), CryptoError> {
    if master_key.len() < 32 {
        Err(CryptoError::InvalidPrkLength)
    } else {
        user_key_spec(
            decrypt_enc(
                k,
                crate::primitives::spec_hkdf_expand_sha256(master_key, vstd::utf8::encode_utf8("enc"@)),
                crate::primitives::spec_hkdf_expand_sha256(master_key, vstd::utf8::encode_utf8("mac"@)),
            ),
        )
    }
}

/// Law: an item with its own key is read with that key's halves. When the item key
/// decrypts under the user key to 64 bytes `ik`, the first 32 bytes of `ik` are the
/// encryption key and the last 32 the MAC key of the private key: a private key encrypted
/// under them comes back.
pub proof fn law_item_key_halves(
    c: Cipher,
    enc: Seq<u8>,
    mac: Seq<u8>,
    ik: Seq<u8>,
    pem: Seq<char>,
)
    requires
        c.key matches Some(k) && decrypt_enc(k@, enc, mac) == Ok::<Seq<u8>, CryptoError>(ik),
        ik.len() == 64,
        c.ssh_key matches Some(d) && as_text(decrypt_enc(d.private_key@, ik.subrange(0, 32), ik.subrange(32, 64)))
            == Ok::<Seq<char>, CryptoError>(pem),
    ensures
        decrypted_item(c, enc, mac) matches Ok(t) && t.0 == pem && t.2 == c.id@,
{
    assert(ik.take(32) =~= ik.subrange(0, 32));
    assert(ik.skip(32) =~= ik.subrange(32, 64));
}

/// Law: an item without its own key is read with the user key itself.
pub proof fn law_plain_item_uses_user_key(c: Cipher, enc: Seq<u8>, mac: Seq<u8>, pem: Seq<char>)
    requires
        c.key is None,
        c.ssh_key matches Some(d) && as_text(decrypt_enc(d.private_key@, enc, mac)) == Ok::<Seq<char>, CryptoError>(pem),
    ensures
        decrypted_item(c, enc, mac) matches Ok(t) && t.0 == pem && t.2 == c.id@,
{
}

} // verus!
