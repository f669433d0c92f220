//! Bitwarden-compatible key derivation and EncString encryption.
//!
//! An EncString is `"<type>.<parts>"`. Type 0 is `iv|data` (AES-256-CBC, no MAC),
//! type 2 is `iv|data|mac` (AES-256-CBC with HMAC-SHA256 over `iv ++ data`), each
//! part in standard base64. Encryption always produces type 2.
use vstd::prelude::*;
use vstd::utf8::*;

use crate::models::KdfType;
use crate::models::PreloginResponse;
use crate::primitives::{
    argon2_accepts, argon2id, aes256_cbc_decrypt, aes256_cbc_encrypt, b64_decode, b64_encode, hkdf_expand_sha256,
    hmac_sha256, hmac_sha256_verify, is_b64_char, pbkdf2_sha256, random_iv, sha256,
    spec_aes256_cbc_decrypt, spec_aes256_cbc_encrypt, spec_argon2id, spec_b64_decode,
    spec_b64_encode, spec_hkdf_expand_sha256, spec_hmac_sha256, spec_pbkdf2_sha256, spec_sha256,
    spec_str_to_lowercase, str_to_lowercase, utf8_decode,
};
use crate::text::{
    chars_of, digits_value, find_char, lemma_find_char_at, lemma_find_char_none,
    lemma_find_char_some, parse_u8_dec, parse_u8_exec, split_char, split_exec, split_once_char,
    split_once_exec, string_of, trim, trim_str,
};

verus! {

broadcast use {vstd::utf8::encode_utf8_decode_utf8, vstd::utf8::encode_utf8_valid_utf8};

/// A symmetric key: a 32-byte encryption key and a 32-byte MAC key.
#[derive(Clone)]
pub struct SymmetricKey {
    pub enc_key: Vec<u8>,
    pub mac_key: Vec<u8>,
}

/// Why a cryptographic operation failed.
#[derive(Debug, Clone, Copy, PartialEq, Eq, Structural)]
pub enum CryptoError {
    /// The EncString has no `.` between its type and its parts.
    MissingTypeSeparator,
    /// The EncString type is not a number in `0 ..= 255`.
    InvalidType,
    /// The EncString type is a number other than 0 or 2.
    UnsupportedType(u8),
    /// The EncString has the wrong number of `|`-separated parts.
    WrongPartCount { expected: usize, got: usize },
    /// The IV part is not valid base64.
    InvalidIv,
    /// The ciphertext part is not valid base64.
    InvalidCiphertext,
    /// The MAC part is not valid base64.
    InvalidMac,
    /// The encryption key is not 32 bytes or the IV is not 16 bytes.
    CipherInit,
    /// The MAC does not match: wrong key or corrupted data.
    MacMismatch,
    /// The plaintext padding is malformed.
    DecryptFailed,
    /// The decrypted bytes are not valid UTF-8.
    InvalidUtf8,
    /// A decrypted key has a length other than 64 bytes.
    BadKeyLength(usize),
    /// Argon2id was selected without a memory cost.
    MissingKdfMemory,
    /// Argon2id was selected without a parallelism.
    MissingKdfParallelism,
    /// The key derivation function rejected its parameters or inputs.
    KdfFailed,
    /// The key to stretch is shorter than 32 bytes.
    InvalidPrkLength,
    /// A key's text form is not valid base64.
    InvalidKeyEncoding,
}

impl SymmetricKey {
    pub open spec fn enc(&self) -> Seq<u8> {
        self.enc_key@
    }

    pub open spec fn mac(&self) -> Seq<u8> {
        self.mac_key@
    }

    /// A copy of the key.
    pub fn duplicate(&self) -> (k: SymmetricKey)
        ensures
            k.enc() == self.enc(),
            k.mac() == self.mac(),
    {
        SymmetricKey {
            enc_key: vstd::slice::slice_to_vec(self.enc_key.as_slice()),
            mac_key: vstd::slice::slice_to_vec(self.mac_key.as_slice()),
        }
    }
}

/// Split 64 bytes of key material into an encryption key and a MAC key.
pub open spec fn split_key(m: Seq<u8>) -> (Seq<u8>, Seq<u8>) {
    (m.take(32), m.skip(32))
}

/// `2.`, the marker of a type-2 EncString.
pub open spec fn type2_prefix() -> Seq<char> {
    seq!['2', '.']
}

/// The type 2 EncString text for the given IV, ciphertext and MAC.
pub open spec fn type2_text(iv: Seq<u8>, ct: Seq<u8>, mac: Seq<u8>) -> Seq<char> {
    type2_prefix() + spec_b64_encode(iv) + seq!['|'] + spec_b64_encode(ct) + seq!['|']
        + spec_b64_encode(mac)
}

/// Whether `s` is a type-2 EncString of `data` under the key (`enc`, `mac`): some
/// 16-byte IV, the AES-256-CBC ciphertext under it, and the HMAC over both.
pub open spec fn is_type2_encryption(s: Seq<char>, enc: Seq<u8>, mac: Seq<u8>, data: Seq<u8>) -> bool {
    exists|iv: Seq<u8>|
        #![trigger spec_aes256_cbc_encrypt(enc, iv, data)]
        iv.len() == 16 && s == type2_text(
            iv,
            spec_aes256_cbc_encrypt(enc, iv, data),
            spec_hmac_sha256(mac, iv + spec_aes256_cbc_encrypt(enc, iv, data)),
        )
}

/// The AES step shared by both EncString types.
pub open spec fn aes_step(enc_key: Seq<u8>, iv: Seq<u8>, data: Seq<u8>) -> Result<
    Seq<u8>,
    CryptoError,
> {
    if enc_key.len() != 32 || iv.len() != 16 {
        Err(CryptoError::CipherInit)
    } else {
        match spec_aes256_cbc_decrypt(enc_key, iv, data) {
            None => Err(CryptoError::DecryptFailed),
            Some(p) => Ok(p),
        }
    }
}

/// Decrypting the parts of a type 0 EncString.
pub open spec fn decrypt_type0(payload: Seq<char>, enc_key: Seq<u8>) -> Result<Seq<u8>, CryptoError> {
    let parts = split_char(payload, '|');
    if parts.len() != 2 {
        Err(CryptoError::WrongPartCount { expected: 2, got: parts.len() as usize })
    } else {
        match spec_b64_decode(parts[0]) {
            None => Err(CryptoError::InvalidIv),
            Some(iv) => match spec_b64_decode(parts[1]) {
                None => Err(CryptoError::InvalidCiphertext),
                Some(data) => aes_step(enc_key, iv, data),
            },
        }
    }
}

/// Decrypting the parts of a type 2 EncString: the MAC is checked before decryption.
pub open spec fn decrypt_type2(payload: Seq<char>, enc_key: Seq<u8>, mac_key: Seq<u8>) -> Result<
    Seq<u8>,
    CryptoError,
> {
    let parts = split_char(payload, '|');
    if parts.len() != 3 {
        Err(CryptoError::WrongPartCount { expected: 3, got: parts.len() as usize })
    } else {
        match spec_b64_decode(parts[0]) {
            None => Err(CryptoError::InvalidIv),
            Some(iv) => match spec_b64_decode(parts[1]) {
                None => Err(CryptoError::InvalidCiphertext),
                Some(data) => match spec_b64_decode(parts[2]) {
                    None => Err(CryptoError::InvalidMac),
                    Some(mac) => if mac != spec_hmac_sha256(mac_key, iv + data) {
                        Err(CryptoError::MacMismatch)
                    } else {
                        aes_step(enc_key, iv, data)
                    },
                },
            },
        }
    }
}

/// What decrypting the EncString `s` with the given keys yields.
pub open spec fn decrypt_enc(s: Seq<char>, enc_key: Seq<u8>, mac_key: Seq<u8>) -> Result<
    Seq<u8>,
    CryptoError,
> {
    match split_once_char(s, '.') {
        None => Err(CryptoError::MissingTypeSeparator),
        Some((t, payload)) => match parse_u8_dec(t) {
            None => Err(CryptoError::InvalidType),
            Some(ty) => if ty == 0 {
                decrypt_type0(payload, enc_key)
            } else if ty == 2 {
                decrypt_type2(payload, enc_key, mac_key)
            } else {
                Err(CryptoError::UnsupportedType(ty))
            },
        },
    }
}

/// Decrypted bytes read as UTF-8 text.
pub open spec fn as_text(r: Result<Seq<u8>, CryptoError>) -> Result<Seq<char>, CryptoError> {
    match r {
        Err(e) => Err(e),
        Ok(b) => if valid_utf8(b) {
            Ok(decode_utf8(b))
        } else {
            Err(CryptoError::InvalidUtf8)
        },
    }
}

pub open spec fn bytes_view(r: Result<Vec<u8>, CryptoError>) -> Result<Seq<u8>, CryptoError> {
    match r {
        Ok(v) => Ok(v@),
        Err(e) => Err(e),
    }
}

pub open spec fn text_view(r: Result<String, CryptoError>) -> Result<Seq<char>, CryptoError> {
    match r {
        Ok(s) => Ok(s@),
        Err(e) => Err(e),
    }
}

pub open spec fn key_view(r: Result<SymmetricKey, CryptoError>) -> Result<
    (Seq<u8>, Seq<u8>),
    CryptoError,
> {
    match r {
        Ok(k) => Ok((k.enc(), k.mac())),
        Err(e) => Err(e),
    }
}

proof fn lemma_b64_no_bar(e: Seq<char>)
    requires
        forall|i: int| 0 <= i < e.len() ==> is_b64_char(#[trigger] e[i]),
    ensures
        find_char(e, '|') is None,
        find_char(e, '.') is None,
{
    assert forall|j: int| 0 <= j < e.len() implies e[j] != '|' && e[j] != '.' by {
        assert(is_b64_char(e[j]));
    }
    lemma_find_char_none(e, '|');
    lemma_find_char_none(e, '.');
}

proof fn lemma_split_three(e1: Seq<char>, e2: Seq<char>, e3: Seq<char>)
    requires
        find_char(e1, '|') is None,
        find_char(e2, '|') is None,
        find_char(e3, '|') is None,
    ensures
        split_char(e1 + seq!['|'] + e2 + seq!['|'] + e3, '|') =~= seq![e1, e2, e3],
{
    let s = e1 + seq!['|'] + e2 + seq!['|'] + e3;
    lemma_find_char_some(e1, '|');
    lemma_find_char_some(e2, '|');
    lemma_find_char_some(e3, '|');
    assert(s[e1.len() as int] == '|');
    assert forall|j: int| 0 <= j < e1.len() implies s[j] != '|' by {
        assert(s[j] == e1[j]);
    }
    lemma_find_char_at(s, '|', e1.len() as int);
    let r1 = s.skip(e1.len() + 1 as int);
    assert(s.take(e1.len() as int) =~= e1);
    assert(r1 =~= e2 + seq!['|'] + e3);
    assert(r1[e2.len() as int] == '|');
    assert forall|j: int| 0 <= j < e2.len() implies r1[j] != '|' by {
        assert(r1[j] == e2[j]);
    }
    lemma_find_char_at(r1, '|', e2.len() as int);
    let r2 = r1.skip(e2.len() + 1 as int);
    assert(r1.take(e2.len() as int) =~= e2);
    assert(r2 =~= e3);
    assert(split_char(r2, '|') =~= seq![e3]);
    assert(split_char(r1, '|') =~= seq![e2] + seq![e3]);
}

/// A type 2 EncString built from an encryption decrypts back to the message,
/// given the documented facts about base64 and AES-CBC on these values.
proof fn lemma_type2_roundtrip(
    iv: Seq<u8>,
    ct: Seq<u8>,
    data: Seq<u8>,
    enc_key: Seq<u8>,
    mac_key: Seq<u8>,
)
    requires
        iv.len() == 16,
        enc_key.len() == 32,
        spec_aes256_cbc_decrypt(enc_key, iv, ct) == Some(data),
        spec_b64_decode(spec_b64_encode(iv)) == Some(iv),
        spec_b64_decode(spec_b64_encode(ct)) == Some(ct),
        spec_b64_decode(spec_b64_encode(spec_hmac_sha256(mac_key, iv + ct))) == Some(
            spec_hmac_sha256(mac_key, iv + ct),
        ),
        forall|i: int|
            0 <= i < spec_b64_encode(iv).len() ==> is_b64_char(#[trigger] spec_b64_encode(iv)[i]),
        forall|i: int|
            0 <= i < spec_b64_encode(ct).len() ==> is_b64_char(#[trigger] spec_b64_encode(ct)[i]),
        forall|i: int|
            0 <= i < spec_b64_encode(spec_hmac_sha256(mac_key, iv + ct)).len() ==> is_b64_char(
                #[trigger] spec_b64_encode(spec_hmac_sha256(mac_key, iv + ct))[i],
            ),
    ensures
        decrypt_enc(type2_text(iv, ct, spec_hmac_sha256(mac_key, iv + ct)), enc_key, mac_key)
            == Ok::<Seq<u8>, CryptoError>(data),
{
    let mac = spec_hmac_sha256(mac_key, iv + ct);
    let e1 = spec_b64_encode(iv);
    let e2 = spec_b64_encode(ct);
    let e3 = spec_b64_encode(mac);
    lemma_b64_no_bar(e1);
    lemma_b64_no_bar(e2);
    lemma_b64_no_bar(e3);
    let payload = e1 + seq!['|'] + e2 + seq!['|'] + e3;
    let s = type2_text(iv, ct, mac);
    assert(s =~= type2_prefix() + payload);
    assert(s[0] == '2');
    assert(s[1] == '.');
    lemma_find_char_at(s, '.', 1);
    assert(s.take(1) =~= seq!['2']);
    assert(s.skip(2) =~= payload);
    assert(seq!['2'].drop_last() =~= Seq::<char>::empty());
    assert(digits_value(Seq::<char>::empty()) == 0);
    assert(seq!['2'].last() == '2');
    assert(('2' as u32) - ('0' as u32) == 2);
    assert(digits_value(seq!['2']) == 2);
    assert(parse_u8_dec(seq!['2']) == Some(2u8));
    lemma_split_three(e1, e2, e3);
}

/// Parse and decrypt a Bitwarden EncString (type 0 or type 2).
pub fn decrypt_enc_string(enc_string: &str, key: &SymmetricKey) -> (r: Result<Vec<u8>, CryptoError>)
    ensures
        bytes_view(r) == decrypt_enc(enc_string@, key.enc(), key.mac()),
{
    let s = chars_of(enc_string);
    let (t, payload) = match split_once_exec(s.as_slice(), '.') {
        None => return Err(CryptoError::MissingTypeSeparator),
        Some(p) => p,
    };
    let ty = match parse_u8_exec(t.as_slice()) {
        None => return Err(CryptoError::InvalidType),
        Some(ty) => ty,
    };
    if ty == 0 {
        decrypt_type0_exec(payload.as_slice(), key)
    } else if ty == 2 {
        decrypt_type2_exec(payload.as_slice(), key)
    } else {
        Err(CryptoError::UnsupportedType(ty))
    }
}

fn aes_step_exec(enc_key: &[u8], iv: &[u8], data: &[u8]) -> (r: Result<Vec<u8>, CryptoError>)
    ensures
        bytes_view(r) == aes_step(enc_key@, iv@, data@),
{
    if enc_key.len() != 32 || iv.len() != 16 {
        return Err(CryptoError::CipherInit);
    }
    match aes256_cbc_decrypt(enc_key, iv, data) {
        None => Err(CryptoError::DecryptFailed),
        Some(p) => Ok(p),
    }
}

fn decrypt_type0_exec(payload: &[char], key: &SymmetricKey) -> (r: Result<Vec<u8>, CryptoError>)
    ensures
        bytes_view(r) == decrypt_type0(payload@, key.enc()),
{
    let parts = split_exec(payload, '|');
    if parts.len() != 2 {
        return Err(CryptoError::WrongPartCount { expected: 2, got: parts.len() });
    }
    assert(parts@[0]@ == split_char(payload@, '|')[0]);
    assert(parts@[1]@ == split_char(payload@, '|')[1]);
    let iv = match b64_decode(parts[0].as_slice()) {
        None => return Err(CryptoError::InvalidIv),
        Some(v) => v,
    };
    let data = match b64_decode(parts[1].as_slice()) {
        None => return Err(CryptoError::InvalidCiphertext),
        Some(v) => v,
    };
    aes_step_exec(key.enc_key.as_slice(), iv.as_slice(), data.as_slice())
}

fn decrypt_type2_exec(payload: &[char], key: &SymmetricKey) -> (r: Result<Vec<u8>, CryptoError>)
    ensures
        bytes_view(r) == decrypt_type2(payload@, key.enc(), key.mac()),
{
    let parts = split_exec(payload, '|');
    if parts.len() != 3 {
        return Err(CryptoError::WrongPartCount { expected: 3, got: parts.len() });
    }
    assert(parts@[0]@ == split_char(payload@, '|')[0]);
    assert(parts@[1]@ == split_char(payload@, '|')[1]);
    assert(parts@[2]@ == split_char(payload@, '|')[2]);
    let iv = match b64_decode(parts[0].as_slice()) {
        None => return Err(CryptoError::InvalidIv),
        Some(v) => v,
    };
    let data = match b64_decode(parts[1].as_slice()) {
        None => return Err(CryptoError::InvalidCiphertext),
        Some(v) => v,
    };
    let mac = match b64_decode(parts[2].as_slice()) {
        None => return Err(CryptoError::InvalidMac),
        Some(v) => v,
    };
    if !hmac_sha256_verify(key.mac_key.as_slice(), iv.as_slice(), data.as_slice(), mac.as_slice()) {
        return Err(CryptoError::MacMismatch);
    }
    aes_step_exec(key.enc_key.as_slice(), iv.as_slice(), data.as_slice())
}

/// Decrypt an EncString to UTF-8 text.
pub fn decrypt_enc_string_to_string(enc_string: &str, key: &SymmetricKey) -> (r: Result<
    String,
    CryptoError,
>)
    ensures
        text_view(r) == as_text(decrypt_enc(enc_string@, key.enc(), key.mac())),
{
    let bytes = decrypt_enc_string(enc_string, key)?;
    match utf8_decode(bytes) {
        Some(s) => Ok(s),
        None => Err(CryptoError::InvalidUtf8),
    }
}

/// Encrypt `data` with AES-256-CBC and HMAC-SHA256 under a fresh random IV, returning a
/// type 2 EncString. It fails exactly when the encryption key is not 32 bytes long; on
/// success the text decrypts back to `data` under the same key.
pub fn encrypt_enc_string(data: &[u8], key: &SymmetricKey) -> (r: Result<String, CryptoError>)
    ensures
        r is Err <==> key.enc().len() != 32,
        r matches Err(e) ==> e == CryptoError::CipherInit,
        r matches Ok(s) ==> exists|iv: Seq<u8>|
            #![trigger spec_aes256_cbc_encrypt(key.enc(), iv, data@)]
            iv.len() == 16 && s@ == type2_text(
                iv,
                spec_aes256_cbc_encrypt(key.enc(), iv, data@),
                spec_hmac_sha256(key.mac(), iv + spec_aes256_cbc_encrypt(key.enc(), iv, data@)),
            ),
        r matches Ok(s) ==> decrypt_enc(s@, key.enc(), key.mac()) == Ok::<Seq<u8>, CryptoError>(
            data@,
        ),
{
    let iv = random_iv();
    if key.enc_key.len() != 32 {
        return Err(CryptoError::CipherInit);
    }
    let ct = aes256_cbc_encrypt(key.enc_key.as_slice(), iv.as_slice(), data);
    let mac = hmac_sha256(key.mac_key.as_slice(), iv.as_slice(), ct.as_slice());
    let e1 = b64_encode(iv.as_slice());
    let e2 = b64_encode(ct.as_slice());
    let e3 = b64_encode(mac.as_slice());
    let mut out = String::new();
    out.append("2.");
    out.append(e1.as_str());
    out.append("|");
    out.append(e2.as_str());
    out.append("|");
    out.append(e3.as_str());
    proof {
        reveal_strlit("2.");
        reveal_strlit("|");
        assert(out@ =~= type2_text(iv@, ct@, mac@));
        lemma_type2_roundtrip(iv@, ct@, data@, key.enc(), key.mac());
    }
    Ok(out)
}

/// The PIN key-derivation salt label.
pub open spec fn pin_salt_label() -> Seq<char> {
    "sshwarden-pin-key-derivation"@
}

/// The key a PIN derives: Argon2id (64 MiB, 3 passes, 1 lane, 64 bytes) over the PIN with
/// the SHA-256 of the salt label as salt, split into encryption and MAC halves.
pub open spec fn pin_key(pin: Seq<char>) -> Option<(Seq<u8>, Seq<u8>)> {
    match spec_argon2id(
        encode_utf8(pin),
        spec_sha256(encode_utf8(pin_salt_label())),
        65536,
        3,
        1,
        64,
    ) {
        Some(m) => Some(split_key(m)),
        None => None,
    }
}

/// What decrypting `s` with the key of `pin` yields as text.
pub open spec fn pin_decrypt_spec(s: Seq<char>, pin: Seq<char>) -> Result<Seq<char>, CryptoError> {
    match pin_key(pin) {
        None => Err(CryptoError::KdfFailed),
        Some((e, m)) => as_text(decrypt_enc(s, e, m)),
    }
}

/// Derive a symmetric key from a PIN with Argon2id.
pub fn derive_pin_key(pin: &str) -> (r: Result<SymmetricKey, CryptoError>)
    ensures
        match r {
            Ok(k) => pin_key(pin@) == Some((k.enc(), k.mac())) && k.enc().len() == 32
                && k.mac().len() == 32,
            Err(e) => pin_key(pin@) is None && e == CryptoError::KdfFailed,
        },
        encode_utf8(pin@).len() <= 0xFFFF_FFFF ==> r is Ok,
{
    let label = "sshwarden-pin-key-derivation";
    let salt = sha256(label.as_bytes());
    match argon2id(pin.as_bytes(), salt.as_slice(), 65536, 3, 1, 64) {
        None => Err(CryptoError::KdfFailed),
        Some(m) => {
            let enc_key = vstd::slice::slice_to_vec(vstd::slice::slice_subrange(m.as_slice(), 0, 32));
            let mac_key = vstd::slice::slice_to_vec(
                vstd::slice::slice_subrange(m.as_slice(), 32, 64),
            );
            assert(enc_key@ =~= m@.take(32));
            assert(mac_key@ =~= m@.skip(32));
            Ok(SymmetricKey { enc_key, mac_key })
        },
    }
}

/// Encrypt text with a PIN-derived key. On success the result decrypts back to `data`
/// with the same PIN.
pub fn pin_encrypt(data: &str, pin: &str) -> (r: Result<String, CryptoError>)
    ensures
        r is Err <==> pin_key(pin@) is None,
        r matches Err(e) ==> e == CryptoError::KdfFailed,
        r matches Ok(s) ==> pin_decrypt_spec(s@, pin@) == Ok::<Seq<char>, CryptoError>(data@),
        r matches Ok(s) ==> match pin_key(pin@) {
            Some(k) => is_type2_encryption(s@, k.0, k.1, encode_utf8(data@)),
            None => false,
        },
        encode_utf8(pin@).len() <= 0xFFFF_FFFF ==> r is Ok,
{
    let key = derive_pin_key(pin)?;
    let s = encrypt_enc_string(data.as_bytes(), &key);
    match s {
        Ok(s) => Ok(s),
        Err(e) => Err(e),
    }
}

/// Decrypt text with a PIN-derived key.
pub fn pin_decrypt(enc_string: &str, pin: &str) -> (r: Result<String, CryptoError>)
    ensures
        text_view(r) == pin_decrypt_spec(enc_string@, pin@),
{
    let key = derive_pin_key(pin)?;
    decrypt_enc_string_to_string(enc_string, &key)
}

/// The master key a password derives under the server's KDF parameters; the salt is
/// the trimmed, lowercased email.
pub open spec fn master_key_spec(password: Seq<char>, email: Seq<char>, p: PreloginResponse) -> Result<
    Seq<u8>,
    CryptoError,
> {
    let salt = spec_str_to_lowercase(trim(email));
    match p.kdf {
        KdfType::Pbkdf2 => Ok(
            spec_pbkdf2_sha256(encode_utf8(password), encode_utf8(salt), p.kdf_iterations),
        ),
        KdfType::Argon2id => match p.kdf_memory {
            None => Err(CryptoError::MissingKdfMemory),
            Some(m) => match p.kdf_parallelism {
                None => Err(CryptoError::MissingKdfParallelism),
                Some(par) => match spec_argon2id(
                    encode_utf8(password),
                    spec_sha256(encode_utf8(salt)),
                    (m * 1024) as u32,
                    p.kdf_iterations,
                    par,
                    32,
                ) {
                    None => Err(CryptoError::KdfFailed),
                    Some(k) => Ok(k),
                },
            },
        },
    }
}

/// Derive the 32-byte master key from the master password.
pub fn derive_master_key(password: &str, email: &str, prelogin: &PreloginResponse) -> (r: Result<
    Vec<u8>,
    CryptoError,
>)
    requires
        prelogin.kdf == KdfType::Argon2id ==> match prelogin.kdf_memory {
            Some(m) => m * 1024 <= u32::MAX,
            None => true,
        },
        prelogin.kdf == KdfType::Argon2id ==> match prelogin.kdf_parallelism {
            Some(p) => p * 8 <= u32::MAX,
            None => true,
        },
    ensures
        bytes_view(r) == master_key_spec(password@, email@, *prelogin),
        r matches Ok(k) ==> k@.len() == 32,
        prelogin.kdf == KdfType::Pbkdf2 ==> r is Ok,
        prelogin.kdf == KdfType::Argon2id ==> match (prelogin.kdf_memory, prelogin.kdf_parallelism) {
            (Some(m), Some(p)) => argon2_accepts(
                encode_utf8(password@).len(),
                32,
                (m * 1024) as u32,
                prelogin.kdf_iterations,
                p,
                32,
            ) ==> r is Ok,
            _ => true,
        },
{
    let trimmed = trim_str(email);
    let trimmed_s = string_of(trimmed.as_slice());
    let salt = str_to_lowercase(trimmed_s.as_str());
    match prelogin.kdf {
        KdfType::Pbkdf2 => Ok(
            pbkdf2_sha256(password.as_bytes(), salt.as_str().as_bytes(), prelogin.kdf_iterations),
        ),
        KdfType::Argon2id => {
            let memory = match prelogin.kdf_memory {
                None => return Err(CryptoError::MissingKdfMemory),
                Some(m) => m * 1024,
            };
            let parallelism = match prelogin.kdf_parallelism {
                None => return Err(CryptoError::MissingKdfParallelism),
                Some(p) => p,
            };
            let salt_hash = sha256(salt.as_str().as_bytes());
            match argon2id(
                password.as_bytes(),
                salt_hash.as_slice(),
                memory,
                prelogin.kdf_iterations,
                parallelism,
                32,
            ) {
                None => Err(CryptoError::KdfFailed),
                Some(k) => Ok(k),
            }
        },
    }
}

/// The password hash sent to the server: PBKDF2-SHA256 of the master key salted with the
/// password, one round, in base64.
pub fn derive_password_hash(master_key: &[u8], password: &str) -> (r: Result<String, CryptoError>)
    ensures
        r matches Ok(s) && s@ == spec_b64_encode(
            spec_pbkdf2_sha256(master_key@, encode_utf8(password@), 1),
        ) && s@.len() == 44,
{
    let h = pbkdf2_sha256(master_key, password.as_bytes(), 1);
    Ok(b64_encode(h.as_slice()))
}

/// Stretch a master key into an encryption key and a MAC key with HKDF-Expand-SHA256,
/// using the labels `enc` and `mac`.
pub fn stretch_master_key(master_key: &[u8]) -> (r: Result<SymmetricKey, CryptoError>)
    ensures
        r is Err <==> master_key@.len() < 32,
        r matches Err(e) ==> e == CryptoError::InvalidPrkLength,
        r matches Ok(k) ==> k.enc() == spec_hkdf_expand_sha256(master_key@, encode_utf8("enc"@))
            && k.mac() == spec_hkdf_expand_sha256(master_key@, encode_utf8("mac"@))
            && k.enc().len() == 32 && k.mac().len() == 32,
{
    let enc_key = match hkdf_expand_sha256(master_key, "enc".as_bytes()) {
        None => return Err(CryptoError::InvalidPrkLength),
        Some(k) => k,
    };
    let mac_key = match hkdf_expand_sha256(master_key, "mac".as_bytes()) {
        None => return Err(CryptoError::InvalidPrkLength),
        Some(k) => k,
    };
    Ok(SymmetricKey { enc_key, mac_key })
}

/// The user key: the decrypted key material must be 64 bytes.
pub open spec fn user_key_spec(dec: Result<Seq<u8>, CryptoError>) -> Result<
    (Seq<u8>, Seq<u8>),
    CryptoError,
> {
    match dec {
        Err(e) => Err(e),
        Ok(m) => if m.len() != 64 {
            Err(CryptoError::BadKeyLength(m.len() as usize))
        } else {
            Ok(split_key(m))
        },
    }
}

/// Decrypt the user's symmetric key with the stretched master key.
pub fn decrypt_user_key(encrypted_key_str: &str, master_key: &[u8]) -> (r: Result<
    SymmetricKey,
    CryptoError,
>)
    ensures
        master_key@.len() < 32 ==> r == Err::<SymmetricKey, CryptoError>(
            CryptoError::InvalidPrkLength,
        ),
        master_key@.len() >= 32 ==> key_view(r) == user_key_spec(
            decrypt_enc(
                encrypted_key_str@,
                spec_hkdf_expand_sha256(master_key@, encode_utf8("enc"@)),
                spec_hkdf_expand_sha256(master_key@, encode_utf8("mac"@)),
            ),
        ),
{
    let stretched = stretch_master_key(master_key)?;
    let decrypted = decrypt_enc_string(encrypted_key_str, &stretched)?;
    split_user_key(decrypted)
}

/// Split 64 bytes of decrypted key material into a symmetric key.
pub fn split_user_key(m: Vec<u8>) -> (r: Result<SymmetricKey, CryptoError>)
    ensures
        key_view(r) == user_key_spec(Ok(m@)),
{
    if m.len() != 64 {
        return Err(CryptoError::BadKeyLength(m.len()));
    }
    let enc_key = vstd::slice::slice_to_vec(vstd::slice::slice_subrange(m.as_slice(), 0, 32));
    let mac_key = vstd::slice::slice_to_vec(vstd::slice::slice_subrange(m.as_slice(), 32, 64));
    assert(enc_key@ =~= m@.take(32));
    assert(mac_key@ =~= m@.skip(32));
    Ok(SymmetricKey { enc_key, mac_key })
}

/// Law: the master key does not depend on the case of the email or on whitespace around
/// it: two emails that are equal once trimmed and lowercased give the same master key
/// (or the same error), whatever the KDF parameters.
pub proof fn law_master_key_ignores_email_case(password: Seq<char>, e1: Seq<char>, e2: Seq<char>, p: PreloginResponse)
    requires
        spec_str_to_lowercase(trim(e1)) == spec_str_to_lowercase(trim(e2)),
    ensures
        master_key_spec(password, e1, p) == master_key_spec(password, e2, p),
{
}

/// Law: the salt of the master key is the trimmed, lowercased email: under PBKDF2 the
/// master key is PBKDF2-SHA256 of the password with that salt and the server's iteration
/// count, and under Argon2id the salt is the SHA-256 of it.
pub proof fn law_master_key_salt(password: Seq<char>, email: Seq<char>, p: PreloginResponse)
    ensures
        p.kdf == KdfType::Pbkdf2 ==> master_key_spec(password, email, p) == Ok::<Seq<u8>, CryptoError>(
            spec_pbkdf2_sha256(encode_utf8(password), encode_utf8(spec_str_to_lowercase(trim(email))), p.kdf_iterations),
        ),
        p.kdf == KdfType::Argon2id ==> match (p.kdf_memory, p.kdf_parallelism) {
            (Some(m), Some(par)) => master_key_spec(password, email, p) == match spec_argon2id(
                encode_utf8(password),
                spec_sha256(encode_utf8(spec_str_to_lowercase(trim(email)))),
                (m * 1024) as u32,
                p.kdf_iterations,
                par,
                32,
            ) {
                Some(k) => Ok::<Seq<u8>, CryptoError>(k),
                None => Err(CryptoError::KdfFailed),
            },
            _ => true,
        },
{
}

} // verus!
