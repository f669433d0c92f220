//! The Bitwarden API values that the library works on.
use vstd::prelude::*;

verus! {

/// The key derivation function the server asks for.
#[derive(Debug, Clone, Copy, PartialEq, Eq, Structural)]
pub enum KdfType {
    Pbkdf2,
    Argon2id,
}

impl KdfType {
    /// The KDF with the given wire number; the number itself when it names none.
    pub fn try_from_u8(v: u8) -> (r: Result<KdfType, u8>)
        ensures
            r == (if v == 0 {
                Ok(KdfType::Pbkdf2)
            } else if v == 1 {
                Ok(KdfType::Argon2id)
            } else {
                Err::<KdfType, u8>(v)
            }),
    {
        if v == 0 {
            Ok(KdfType::Pbkdf2)
        } else if v == 1 {
            Ok(KdfType::Argon2id)
        } else {
            Err(v)
        }
    }
}

/// The server's KDF parameters for an account.
#[derive(Debug, Clone)]
pub struct PreloginResponse {
    pub kdf: KdfType,
    pub kdf_iterations: u32,
    pub kdf_memory: Option<u32>,
    pub kdf_parallelism: Option<u32>,
}

/// The identity server's answer to a login or token refresh.
#[derive(Debug, Clone)]
pub struct TokenResponse {
    pub access_token: String,
    pub expires_in: u64,
    pub token_type: String,
    pub refresh_token: Option<String>,
    pub key: Option<String>,
    pub private_key: Option<String>,
    pub kdf_type: Option<u8>,
    pub kdf_iterations: Option<u32>,
}

/// The vault sync answer.
#[derive(Debug, Clone)]
pub struct SyncResponse {
    pub profile: SyncProfile,
    pub ciphers: Vec<Cipher>,
}

/// The account profile in a sync answer.
#[derive(Debug, Clone)]
pub struct SyncProfile {
    pub id: String,
    pub email: String,
    pub key: String,
    pub private_key: Option<String>,
}

/// The type of a vault item.
#[derive(Debug, Clone, Copy, PartialEq, Eq, Structural)]
pub enum CipherType {
    Login,
    SecureNote,
    Card,
    Identity,
    SshKey,
    Unknown(u8),
}

impl CipherType {
    /// The item type with the given wire number.
    pub fn from_u8(v: u8) -> (t: CipherType)
        ensures
            t == (if v == 1 {
                CipherType::Login
            } else if v == 2 {
                CipherType::SecureNote
            } else if v == 3 {
                CipherType::Card
            } else if v == 4 {
                CipherType::Identity
            } else if v == 5 {
                CipherType::SshKey
            } else {
                CipherType::Unknown(v)
            }),
    {
        if v == 1 {
            CipherType::Login
        } else if v == 2 {
            CipherType::SecureNote
        } else if v == 3 {
            CipherType::Card
        } else if v == 4 {
            CipherType::Identity
        } else if v == 5 {
            CipherType::SshKey
        } else {
            CipherType::Unknown(v)
        }
    }
}

/// A vault item, with its fields still encrypted.
#[derive(Debug, Clone)]
pub struct Cipher {
    pub id: String,
    pub cipher_type: CipherType,
    pub name: Option<String>,
    pub deleted_date: Option<String>,
    /// When the item was archived; archived items are not in use.
    pub archived_date: Option<String>,
    pub ssh_key: Option<SshKeyData>,
    pub organization_id: Option<String>,
    pub key: Option<String>,
}

/// The encrypted SSH key of a vault item.
#[derive(Debug, Clone)]
pub struct SshKeyData {
    pub private_key: String,
    pub public_key: String,
    pub key_fingerprint: String,
}

} // verus!
