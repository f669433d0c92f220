//! The cryptographic and encoding primitives that the library takes from outside crates.
//!
//! Each function here is a trusted wrapper: its body calls one outside
//! function and its contract is believed, not proved. Where the result takes
//! pages to state (a hash, a cipher, a KDF), it is given a name, and the
//! contract only adds the short facts that the crate's documentation gives
//! (output lengths, that decryption undoes encryption, the base64 alphabet).
use vstd::prelude::*;
use vstd::utf8::*;

use aes::cipher::block_padding::Pkcs7;
use aes::cipher::BlockDecryptMut;
use aes::cipher::BlockEncryptMut;
use aes::cipher::KeyIvInit;
use base64::Engine;
use hmac::Mac;
use sha2::Digest;

use crate::text::is_ascii_alnum;

verus! {

/// The text that `base64::engine::general_purpose::STANDARD.encode` produces.
pub uninterp spec fn spec_b64_encode(bytes: Seq<u8>) -> Seq<char>;

/// What `base64::engine::general_purpose::STANDARD.decode` returns (`None` on a decode error).
pub uninterp spec fn spec_b64_decode(text: Seq<char>) -> Option<Seq<u8>>;

/// AES-256-CBC encryption with PKCS#7 padding (`cbc::Encryptor<aes::Aes256>`).
pub uninterp spec fn spec_aes256_cbc_encrypt(key: Seq<u8>, iv: Seq<u8>, msg: Seq<u8>) -> Seq<u8>;

/// AES-256-CBC decryption with PKCS#7 unpadding (`cbc::Decryptor<aes::Aes256>`), `None` on an unpad error.
pub uninterp spec fn spec_aes256_cbc_decrypt(key: Seq<u8>, iv: Seq<u8>, ct: Seq<u8>) -> Option<Seq<u8>>;

/// HMAC-SHA256 of `msg` under `key` (`hmac::Hmac<sha2::Sha256>`).
pub uninterp spec fn spec_hmac_sha256(key: Seq<u8>, msg: Seq<u8>) -> Seq<u8>;

/// SHA-256 digest (`sha2::Sha256::digest`).
pub uninterp spec fn spec_sha256(data: Seq<u8>) -> Seq<u8>;

/// PBKDF2-HMAC-SHA256 with a 32-byte output (`pbkdf2::pbkdf2_hmac::<Sha256>`).
pub uninterp spec fn spec_pbkdf2_sha256(password: Seq<u8>, salt: Seq<u8>, rounds: u32) -> Seq<u8>;

/// HKDF-Expand-SHA256 of a pseudorandom key with a 32-byte output (`hkdf::Hkdf::<Sha256>`).
pub uninterp spec fn spec_hkdf_expand_sha256(prk: Seq<u8>, info: Seq<u8>) -> Seq<u8>;

/// Argon2id v0x13 (`argon2::Argon2::hash_password_into`), `None` when the
/// parameters or inputs are rejected.
pub uninterp spec fn spec_argon2id(
    password: Seq<u8>,
    salt: Seq<u8>,
    m_cost: u32,
    t_cost: u32,
    p_cost: u32,
    out_len: usize,
) -> Option<Seq<u8>>;

/// `str::to_lowercase` (Unicode lowercase mapping of a whole string).
pub uninterp spec fn spec_str_to_lowercase(s: Seq<char>) -> Seq<char>;

/// `char::to_lowercase`, collected.
pub uninterp spec fn spec_char_to_lowercase(c: char) -> Seq<char>;

/// The characters of the standard base64 alphabet and its padding.
pub open spec fn is_b64_char(c: char) -> bool {
    is_ascii_alnum(c) || c == '+' || c == '/' || c == '='
}

/// Wraps `STANDARD.encode`. Claims: the result is the named encoding, it
/// decodes back to the input, it has the padded length `4 * ceil(n / 3)`, and
/// it uses only alphabet and padding characters.
#[verifier::external_body]
pub(crate) fn b64_encode(bytes: &[u8]) -> (s: String)
    ensures
        s@ == spec_b64_encode(bytes@),
        spec_b64_decode(s@) == Some(bytes@),
        s@.len() == 4 * ((bytes@.len() + 2) / 3),
        forall|i: int| 0 <= i < s@.len() ==> is_b64_char(#[trigger] s@[i]),
{
    base64::engine::general_purpose::STANDARD.encode(bytes)
}

/// Wraps `STANDARD.decode`. Claims: the result is the named decoding.
#[verifier::external_body]
pub(crate) fn b64_decode(text: &[char]) -> (r: Option<Vec<u8>>)
    ensures
        match r {
            Some(v) => spec_b64_decode(text@) == Some(v@),
            None => spec_b64_decode(text@) is None,
        },
{
    let s: String = text.iter().collect();
    base64::engine::general_purpose::STANDARD.decode(s.as_bytes()).ok()
}

/// Wraps `Encryptor::<Aes256>::new_from_slices` and `encrypt_padded_vec_mut::<Pkcs7>`.
/// The slices have the lengths the constructor accepts. Claims: the result is the
/// named ciphertext, and decrypting it with the same key and IV gives the message back.
#[verifier::external_body]
pub(crate) fn aes256_cbc_encrypt(key: &[u8], iv: &[u8], msg: &[u8]) -> (c: Vec<u8>)
    requires
        key@.len() == 32,
        iv@.len() == 16,
    ensures
        c@ == spec_aes256_cbc_encrypt(key@, iv@, msg@),
        spec_aes256_cbc_decrypt(key@, iv@, c@) == Some(msg@),
{
    cbc::Encryptor::<aes::Aes256>::new_from_slices(key, iv).unwrap().encrypt_padded_vec_mut::<Pkcs7>(
        msg,
    )
}

/// Wraps `Decryptor::<Aes256>::new_from_slices` and `decrypt_padded_vec_mut::<Pkcs7>`.
/// The slices have the lengths the constructor accepts. Claims: the result is the named plaintext.
#[verifier::external_body]
pub(crate) fn aes256_cbc_decrypt(key: &[u8], iv: &[u8], ct: &[u8]) -> (r: Option<Vec<u8>>)
    requires
        key@.len() == 32,
        iv@.len() == 16,
    ensures
        match r {
            Some(p) => spec_aes256_cbc_decrypt(key@, iv@, ct@) == Some(p@),
            None => spec_aes256_cbc_decrypt(key@, iv@, ct@) is None,
        },
{
    cbc::Decryptor::<aes::Aes256>::new_from_slices(key, iv).unwrap().decrypt_padded_vec_mut::<Pkcs7>(
        ct,
    ).ok()
}

/// Wraps `Hmac::<Sha256>::new_from_slice`, two `update`s and `finalize`. HMAC accepts a key
/// of any length. Claims: the 32-byte tag is the named HMAC of `a` followed by `b`.
#[verifier::external_body]
pub(crate) fn hmac_sha256(key: &[u8], a: &[u8], b: &[u8]) -> (tag: Vec<u8>)
    ensures
        tag@ == spec_hmac_sha256(key@, a@ + b@),
        tag@.len() == 32,
{
    let mut mac = hmac::Hmac::<sha2::Sha256>::new_from_slice(key).unwrap();
    mac.update(a);
    mac.update(b);
    mac.finalize().into_bytes().to_vec()
}

/// Wraps `Mac::verify_slice` on an HMAC-SHA256 of `a` followed by `b`. Claims: it accepts
/// exactly the tag equal to the named HMAC (it rejects tags of another length).
#[verifier::external_body]
pub(crate) fn hmac_sha256_verify(key: &[u8], a: &[u8], b: &[u8], tag: &[u8]) -> (ok: bool)
    ensures
        ok == (tag@ == spec_hmac_sha256(key@, a@ + b@)),
{
    let mut mac = hmac::Hmac::<sha2::Sha256>::new_from_slice(key).unwrap();
    mac.update(a);
    mac.update(b);
    mac.verify_slice(tag).is_ok()
}

/// Wraps `Sha256::digest`. Claims: the 32-byte result is the named digest.
#[verifier::external_body]
pub(crate) fn sha256(data: &[u8]) -> (d: Vec<u8>)
    ensures
        d@ == spec_sha256(data@),
        d@.len() == 32,
{
    sha2::Sha256::digest(data).to_vec()
}

/// Wraps `pbkdf2::pbkdf2_hmac::<Sha256>` into a 32-byte buffer (it never fails with HMAC).
/// Claims: the result is the named derivation.
#[verifier::external_body]
pub(crate) fn pbkdf2_sha256(password: &[u8], salt: &[u8], rounds: u32) -> (k: Vec<u8>)
    ensures
        k@ == spec_pbkdf2_sha256(password@, salt@, rounds),
        k@.len() == 32,
{
    let mut out = vec![0u8; 32];
    pbkdf2::pbkdf2_hmac::<sha2::Sha256>(password, salt, rounds, &mut out);
    out
}

/// Wraps `Hkdf::<Sha256>::from_prk` and `expand` into a 32-byte buffer. Claims: it fails
/// exactly when the key is shorter than the 32-byte hash length, and otherwise returns
/// the named expansion.
#[verifier::external_body]
pub(crate) fn hkdf_expand_sha256(prk: &[u8], info: &[u8]) -> (r: Option<Vec<u8>>)
    ensures
        r is Some <==> prk@.len() >= 32,
        r matches Some(k) ==> k@ == spec_hkdf_expand_sha256(prk@, info@) && k@.len() == 32,
{
    let hk = hkdf::Hkdf::<sha2::Sha256>::from_prk(prk).ok()?;
    let mut out = vec![0u8; 32];
    hk.expand(info, &mut out).ok()?;
    Some(out)
}

/// The inputs Argon2 accepts (`Params::new` and `hash_password_into`): at least 8 KiB
/// and 8 KiB per lane of memory, at least one pass, 1 to 2^24 - 1 lanes, an output of
/// 4 to 2^32 - 1 bytes, a password of at most 2^32 - 1 bytes and a salt of 8 to
/// 2^32 - 1 bytes.
pub open spec fn argon2_accepts(pwd_len: nat, salt_len: nat, m_cost: u32, t_cost: u32, p_cost: u32, out_len: usize) -> bool {
    &&& 8 <= m_cost
    &&& p_cost * 8 <= m_cost
    &&& 1 <= t_cost
    &&& 1 <= p_cost <= 0xFFFFFF
    &&& 4 <= out_len <= 0xFFFF_FFFF
    &&& pwd_len <= 0xFFFF_FFFF
    &&& 8 <= salt_len <= 0xFFFF_FFFF
}

/// Wraps `argon2::Params::new` and `Argon2::new(Argon2id, V0x13, ..).hash_password_into`.
/// Claims: the result is the named hash, of the requested length when it succeeds, and
/// it succeeds on the inputs the crate accepts (see [`argon2_accepts`]). `Params::new`
/// multiplies the lane count by 8 in `u32` before it bounds it, so a lane count whose
/// product overflows is left out: it would panic where overflow is checked.
#[verifier::external_body]
pub(crate) fn argon2id(
    password: &[u8],
    salt: &[u8],
    m_cost: u32,
    t_cost: u32,
    p_cost: u32,
    out_len: usize,
) -> (r: Option<Vec<u8>>)
    requires
        p_cost * 8 <= u32::MAX,
    ensures
        match r {
            Some(k) => spec_argon2id(password@, salt@, m_cost, t_cost, p_cost, out_len) == Some(
                k@,
            ) && k@.len() == out_len,
            None => spec_argon2id(password@, salt@, m_cost, t_cost, p_cost, out_len) is None,
        },
        argon2_accepts(password@.len(), salt@.len(), m_cost, t_cost, p_cost, out_len) ==> r is Some,
{
    let params = argon2::Params::new(m_cost, t_cost, p_cost, Some(out_len)).ok()?;
    let a = argon2::Argon2::new(argon2::Algorithm::Argon2id, argon2::Version::V0x13, params);
    let mut out = vec![0u8; out_len];
    a.hash_password_into(password, salt, &mut out).ok()?;
    Some(out)
}

/// Wraps `rand::thread_rng().gen::<[u8; 16]>()`. Claims only the length: the bytes are random.
#[verifier::external_body]
pub(crate) fn random_iv() -> (iv: Vec<u8>)
    ensures
        iv@.len() == 16,
{
    let iv: [u8; 16] = rand::Rng::gen(&mut rand::thread_rng());
    iv.to_vec()
}

/// Wraps `String::from_utf8`. Claims: it succeeds exactly on valid UTF-8 and then holds the
/// decoded characters (vstd's `valid_utf8` and `decode_utf8`).
#[verifier::external_body]
pub(crate) fn utf8_decode(bytes: Vec<u8>) -> (r: Option<String>)
    ensures
        r is Some <==> valid_utf8(bytes@),
        r matches Some(s) ==> s@ == decode_utf8(bytes@),
{
    String::from_utf8(bytes).ok()
}

/// What `char::is_alphanumeric` answers (the Unicode `Alphabetic` or `Numeric` property).
pub uninterp spec fn spec_char_is_alphanumeric(c: char) -> bool;

/// Wraps `char::is_alphanumeric`. Claims: the answer is the named property, which on an
/// ASCII character holds exactly of the letters and digits.
#[verifier::external_body]
pub(crate) fn char_is_alphanumeric(c: char) -> (b: bool)
    ensures
        b == spec_char_is_alphanumeric(c),
        (c as u32) < 128 ==> (b == crate::text::is_ascii_alnum(c)),
{
    c.is_alphanumeric()
}

/// Wraps `str::to_lowercase`. Claims: the result is the named lowercase mapping.
#[verifier::external_body]
pub(crate) fn str_to_lowercase(s: &str) -> (r: String)
    ensures
        r@ == spec_str_to_lowercase(s@),
{
    s.to_lowercase()
}

/// Wraps `char::to_lowercase`, collected. Claims: the result is the named mapping, which
/// for an ASCII character is its ASCII lowercase form; no character of a lowercase
/// mapping is an ASCII capital letter (Unicode lowercases none to one).
#[verifier::external_body]
pub(crate) fn char_to_lowercase(c: char) -> (r: Vec<char>)
    ensures
        r@ == spec_char_to_lowercase(c),
        (c as u32) < 128 ==> r@ == seq![crate::text::ascii_lower(c)],
        forall|i: int| 0 <= i < r@.len() ==> !('A' <= #[trigger] r@[i] <= 'Z'),
{
    c.to_lowercase().collect()
}

} // verus!
