//! The files SSHWarden keeps in its data directories, and where each one lives.
//!
//! Reading and writing them is I/O and stays with the caller; the library holds
//! their contents as plain values, decides their locations, and checks what a
//! loaded file may hold.
use vstd::prelude::*;

use crate::config::{
    config_dir, device_data_dir, device_dir_spec, join_in, join_result, shared_data_dir,
    shared_dir_spec, string_result, Config, ConfigError, StorageEnv,
};
use crate::paths::{path_join, spec_path_join};
use crate::primitives::{char_is_alphanumeric, spec_char_is_alphanumeric};
use crate::text::{chars_of, string_of};

verus! {

/// The public identity of one cached SSH key.
#[derive(Debug, Clone)]
pub struct KeyIdentity {
    pub name: String,
    pub vault_item_id: String,
    pub public_key_openssh: String,
}

/// The plaintext part of the local key cache: who it belongs to and which keys it holds.
#[derive(Debug, Clone)]
pub struct LocalKeyCacheHeader {
    pub email: String,
    pub server_url: String,
    pub keys: Vec<KeyIdentity>,
}

/// The wrapped copies of the local cache key, one per unlock method.
#[derive(Debug, Clone)]
pub struct LocalCacheKeySlots {
    pub pin_encrypted: Option<String>,
    pub hello_challenge: Option<String>,
    pub hello_encrypted: Option<String>,
    pub native_encrypted: Option<String>,
}

impl Default for LocalCacheKeySlots {
    fn default() -> (s: LocalCacheKeySlots)
        ensures
            s.pin_encrypted is None,
            s.hello_challenge is None,
            s.hello_encrypted is None,
            s.native_encrypted is None,
    {
        LocalCacheKeySlots {
            pin_encrypted: None,
            hello_challenge: None,
            hello_encrypted: None,
            native_encrypted: None,
        }
    }
}

/// `local-key-cache.json`: the key payload encrypted under a local cache key, with that
/// key wrapped once per unlock method.
#[derive(Debug, Clone)]
pub struct LocalKeyCacheFile {
    pub version: u32,
    pub header: LocalKeyCacheHeader,
    pub encrypted_payload: String,
    pub local_cache_key: LocalCacheKeySlots,
}

/// `unlock-slots.json`: the device's own platform unlock material for a shared cache.
#[derive(Debug, Clone)]
pub struct UnlockSlotsFile {
    pub version: u32,
    pub hello_challenge: Option<String>,
    pub hello_encrypted: Option<String>,
    pub native_encrypted: Option<String>,
}

impl Default for UnlockSlotsFile {
    fn default() -> (s: UnlockSlotsFile)
        ensures
            s.version == 1,
            s.hello_challenge is None,
            s.hello_encrypted is None,
            s.native_encrypted is None,
    {
        UnlockSlotsFile {
            version: 1,
            hello_challenge: None,
            hello_encrypted: None,
            native_encrypted: None,
        }
    }
}

/// `vault.enc`: PIN-encrypted key tuples, so the daemon can unlock after a restart.
#[derive(Debug, Clone)]
pub struct VaultFile {
    pub version: u32,
    pub pin_encrypted: String,
    pub hello_challenge: Option<String>,
    pub hello_encrypted: Option<String>,
    pub email: String,
    pub server_url: String,
}

/// The device's session file: an encrypted refresh token and where to refresh it.
#[derive(Debug, Clone)]
pub struct SessionFile {
    pub version: u32,
    pub device_id: String,
    pub pin_encrypted_token: Option<String>,
    pub hello_encrypted_token: Option<String>,
    pub identity_url: String,
}

/// The only on-disk format version that the unlock-slots and session files may carry.
pub open spec fn supported_file_version(v: u32) -> bool {
    v == 1
}

impl LocalKeyCacheFile {
    /// `local-key-cache.json` in the shared data directory.
    pub fn path(env: &StorageEnv) -> (r: Result<String, ConfigError>)
        ensures
            string_result(r) == join_in(shared_dir_spec(*env), "local-key-cache.json"@),
    {
        join_result(config_dir(env), "local-key-cache.json")
    }
}

impl UnlockSlotsFile {
    /// `unlock-slots.json` in the device's data directory.
    pub fn path(env: &StorageEnv, config: &Config) -> (r: Result<String, ConfigError>)
        ensures
            string_result(r) == join_in(device_dir_spec(*env, *config), "unlock-slots.json"@),
    {
        join_result(device_data_dir(env, config), "unlock-slots.json")
    }

    /// Whether a loaded file has a version this library reads.
    pub fn has_supported_version(&self) -> (b: bool)
        ensures
            b == supported_file_version(self.version),
    {
        self.version == 1
    }
}

impl VaultFile {
    /// `vault.enc` in the shared data directory.
    pub fn path(env: &StorageEnv) -> (r: Result<String, ConfigError>)
        ensures
            string_result(r) == join_in(shared_dir_spec(*env), "vault.enc"@),
    {
        join_result(config_dir(env), "vault.enc")
    }
}

/// The characters a host name keeps in a file name: alphanumerics, `-` and `_`.
pub open spec fn is_host_file_char(c: char) -> bool {
    spec_char_is_alphanumeric(c) || c == '-' || c == '_'
}

/// A host name with every character dropped that a file name does not keep.
pub open spec fn host_file_chars(s: Seq<char>) -> Seq<char>
    decreases s.len(),
{
    if s.len() == 0 {
        s
    } else if is_host_file_char(s.last()) {
        host_file_chars(s.drop_last()).push(s.last())
    } else {
        host_file_chars(s.drop_last())
    }
}

/// The session file's name: `session-{host}.enc`, the host name being the environment's
/// (or `unknown`) with only the characters a file name keeps.
pub open spec fn session_file_name(env: StorageEnv) -> Seq<char> {
    let raw = match env.hostname {
        Some(h) => h@,
        None => "unknown"@,
    };
    "session-"@ + host_file_chars(raw) + ".enc"@
}

fn keep_host_file_chars(s: &[char]) -> (r: Vec<char>)
    ensures
        r@ == host_file_chars(s@),
{
    let mut out: Vec<char> = Vec::new();
    let mut i: usize = 0;
    while i < s.len()
        invariant
            i <= s@.len(),
            out@ == host_file_chars(s@.take(i as int)),
        decreases s.len() - i,
    {
        assert(s@.take(i + 1).drop_last() =~= s@.take(i as int));
        assert(s@.take(i + 1).last() == s@[i as int]);
        let c = s[i];
        if char_is_alphanumeric(c) || c == '-' || c == '_' {
            out.push(c);
        }
        i += 1;
    }
    assert(s@.take(s@.len() as int) =~= s@);
    out
}

impl SessionFile {
    /// The file name of the current device's session file.
    pub fn file_name(env: &StorageEnv) -> (r: String)
        ensures
            r@ == session_file_name(*env),
    {
        let raw = match &env.hostname {
            Some(h) => chars_of(h.as_str()),
            None => chars_of("unknown"),
        };
        let kept = keep_host_file_chars(raw.as_slice());
        let mut out = chars_of("session-");
        let mut i: usize = 0;
        let ghost start = out@;
        while i < kept.len()
            invariant
                i <= kept@.len(),
                out@ == start + kept@.take(i as int),
            decreases kept.len() - i,
        {
            out.push(kept[i]);
            assert(kept@.take(i + 1) =~= kept@.take(i as int).push(kept@[i as int]));
            i += 1;
        }
        out.push('.');
        out.push('e');
        out.push('n');
        out.push('c');
        proof {
            reveal_strlit("unknown");
            reveal_strlit("session-");
            reveal_strlit(".enc");
        }
        assert(kept@.take(kept@.len() as int) =~= kept@);
        assert(out@ =~= session_file_name(*env));
        string_of(out.as_slice())
    }

    /// The session file in the device's data directory.
    pub fn path(env: &StorageEnv, config: &Config) -> (r: Result<String, ConfigError>)
        ensures
            string_result(r) == join_in(device_dir_spec(*env, *config), session_file_name(*env)),
    {
        let name = Self::file_name(env);
        join_result(device_data_dir(env, config), name.as_str())
    }

    /// Where the session file lived before device directories: the shared data directory.
    pub fn legacy_path(env: &StorageEnv) -> (r: Result<String, ConfigError>)
        ensures
            string_result(r) == join_in(shared_dir_spec(*env), session_file_name(*env)),
    {
        let name = Self::file_name(env);
        join_result(shared_data_dir(env), name.as_str())
    }

    /// Whether a loaded file has a version this library reads.
    pub fn has_supported_version(&self) -> (b: bool)
        ensures
            b == supported_file_version(self.version),
    {
        self.version == 1
    }
}

/// A session file name holds the host name's file-name characters only: between
/// `session-` and `.enc`, every character is alphanumeric, `-` or `_`.
pub proof fn law_session_file_name_chars(env: StorageEnv)
    ensures
        forall|i: int| 8 <= i < session_file_name(env).len() - 4 ==> is_host_file_char(#[trigger] session_file_name(env)[i]),
        session_file_name(env).len() >= 12,
{
    reveal_strlit("session-");
    reveal_strlit(".enc");
    let raw = match env.hostname {
        Some(h) => h@,
        None => "unknown"@,
    };
    lemma_host_file_chars(raw);
    let k = host_file_chars(raw);
    let n = session_file_name(env);
    assert(n =~= "session-"@ + k + ".enc"@);
    assert forall|i: int| 8 <= i < n.len() - 4 implies is_host_file_char(#[trigger] n[i]) by {
        assert(n[i] == k[i - 8]);
    }
}

proof fn lemma_host_file_chars(s: Seq<char>)
    ensures
        forall|i: int| 0 <= i < host_file_chars(s).len() ==> is_host_file_char(#[trigger] host_file_chars(s)[i]),
    decreases s.len(),
{
    if s.len() > 0 {
        lemma_host_file_chars(s.drop_last());
        let prev = host_file_chars(s.drop_last());
        let cur = host_file_chars(s);
        assert forall|i: int| 0 <= i < cur.len() implies is_host_file_char(#[trigger] cur[i]) by {
            if i < prev.len() {
                assert(cur[i] == prev[i]);
            }
        }
    }
}

} // verus!
