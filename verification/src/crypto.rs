//! The calls into `kerberos_crypto` that the library makes.

use vstd::prelude::*;
use crate::constants::{AES128_CTS_HMAC_SHA1_96, AES256_CTS_HMAC_SHA1_96, RC4_HMAC};

verus! {

/// The AES variant whose key derivation a checksum or cipher uses.
#[derive(Debug, Clone, Copy, PartialEq, Eq, Structural)]
pub enum AesKind {
    Aes128,
    Aes256,
}

/// The key length that the AES variant takes.
pub open spec fn aes_key_len(kind: AesKind) -> nat {
    match kind {
        AesKind::Aes128 => 16,
        AesKind::Aes256 => 32,
    }
}

/// Whether the AES variant is AES-256.
pub open spec fn is_aes256(kind: AesKind) -> bool {
    kind == AesKind::Aes256
}

/// What `kerberos_crypto::checksum_sha_aes(key, key_usage, data, sizes)`
/// returns: the first 12 bytes of HMAC-SHA1 keyed with the key derived for
/// `key_usage`.
pub uninterp spec fn sha_aes_checksum(key: Seq<u8>, key_usage: i32, data: Seq<u8>, aes256: bool) -> Seq<u8>;

/// What `kerberos_crypto::checksum_hmac_md5(key, key_usage, data)` returns.
pub uninterp spec fn hmac_md5_checksum(key: Seq<u8>, key_usage: i32, data: Seq<u8>) -> Seq<u8>;

/// Calls `kerberos_crypto::checksum_sha_aes`. Its source derives a key with
/// AES (which panics unless the key has the AES variant's length), computes
/// HMAC-SHA1 and returns its first 12 bytes.
#[verifier::external_body]
pub(crate) fn checksum_sha_aes(key: &[u8], key_usage: i32, data: &[u8], kind: AesKind) -> (res: Vec<u8>)
    requires
        key@.len() == aes_key_len(kind),
    ensures
        res@ == sha_aes_checksum(key@, key_usage, data@, is_aes256(kind)),
        res@.len() == 12,
{
    let sizes = match kind {
        AesKind::Aes128 => kerberos_crypto::AesSizes::Aes128,
        AesKind::Aes256 => kerberos_crypto::AesSizes::Aes256,
    };
    kerberos_crypto::checksum_sha_aes(key, key_usage, data, &sizes)
}

/// Calls `kerberos_crypto::checksum_hmac_md5`, HMAC-MD5 over an MD5 digest,
/// 16 bytes; it accepts keys of any length.
#[verifier::external_body]
pub(crate) fn checksum_hmac_md5(key: &[u8], key_usage: i32, data: &[u8]) -> (res: Vec<u8>)
    ensures
        res@ == hmac_md5_checksum(key@, key_usage, data@),
        res@.len() == 16,
{
    kerberos_crypto::checksum_hmac_md5(key, key_usage, data)
}

/// The encryption types `kerberos_crypto::new_kerberos_cipher` supports.
pub open spec fn supported_etype(etype: i32) -> bool {
    etype == AES256_CTS_HMAC_SHA1_96 || etype == AES128_CTS_HMAC_SHA1_96 || etype == RC4_HMAC
}

/// The key length an encryption type's cipher takes without panicking
/// (the AES ciphers derive keys with AES; RC4-HMAC takes any key).
pub open spec fn key_len_ok(etype: i32, key_len: nat) -> bool {
    &&& etype == AES256_CTS_HMAC_SHA1_96 ==> key_len == 32
    &&& etype == AES128_CTS_HMAC_SHA1_96 ==> key_len == 16
}

/// Calls `kerberos_crypto::new_kerberos_cipher(etype)` and, when it gives a
/// cipher, its `encrypt`. The factory's source gives a cipher exactly for
/// AES256, AES128 and RC4-HMAC. The ciphertext starts from a random
/// confounder, so its bytes are not stated; what the source shows of every
/// outcome is that the same cipher's `decrypt` gives the plaintext back (the
/// confounder and the integrity checksum are dropped and checked there).
#[verifier::external_body]
pub(crate) fn encrypt(etype: i32, key: &[u8], key_usage: i32, plaintext: &[u8]) -> (res: Option<Vec<u8>>)
    requires
        key_len_ok(etype, key@.len()),
    ensures
        res is Some <==> supported_etype(etype),
        res matches Some(c) ==> decryption(etype, key@, key_usage, c@) == Some(plaintext@),
{
    match kerberos_crypto::new_kerberos_cipher(etype) {
        Ok(cipher) => Some(cipher.encrypt(key, key_usage, plaintext)),
        Err(_) => None,
    }
}

/// The bytes of an optional byte vector.
pub open spec fn opt_bytes(o: Option<Vec<u8>>) -> Option<Seq<u8>> {
    match o {
        Some(v) => Some(v@),
        None => None,
    }
}

/// What the cipher of `kerberos_crypto::new_kerberos_cipher(etype)` returns
/// from `decrypt(key, key_usage, ciphertext)`: the plaintext, or `None` where
/// the ciphertext is too short or its integrity check fails.
pub uninterp spec fn decryption(etype: i32, key: Seq<u8>, key_usage: i32, ciphertext: Seq<u8>) -> Option<Seq<u8>>;

/// Calls `kerberos_crypto::new_kerberos_cipher(etype)` and, when it gives a
/// cipher, its `decrypt`. The factory gives a cipher exactly for AES256,
/// AES128 and RC4-HMAC; the AES ciphers derive keys with AES, which panics
/// unless the key has the AES variant's length.
#[verifier::external_body]
pub(crate) fn decrypt(etype: i32, key: &[u8], key_usage: i32, ciphertext: &[u8]) -> (res: Option<Vec<u8>>)
    requires
        key_len_ok(etype, key@.len()),
    ensures
        !supported_etype(etype) ==> res is None,
        supported_etype(etype) ==> opt_bytes(res) == decryption(etype, key@, key_usage, ciphertext@),
{
    match kerberos_crypto::new_kerberos_cipher(etype) {
        Ok(cipher) => cipher.decrypt(key, key_usage, ciphertext).ok(),
        Err(_) => None,
    }
}

/// Whether `kerberos_crypto::new_kerberos_cipher` supports the encryption type.
pub fn is_supported_etype(etype: i32) -> (res: bool)
    ensures
        res == supported_etype(etype),
{
    etype == AES256_CTS_HMAC_SHA1_96 || etype == AES128_CTS_HMAC_SHA1_96 || etype == RC4_HMAC
}

} // verus!
