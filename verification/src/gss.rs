//! GSS-API Kerberos v5 message protection in the JDK "V2" token format:
//! integrity-only WRAP tokens checked with HMAC-SHA1-96 (AES key derivation).
//!
//! Token layout: a 16-byte header (TOK_ID 0x0504, flags, filler 0xff,
//! EC = 12, RRC = 0, 64-bit big-endian sequence number), the payload, and a
//! 12-byte checksum over `payload || header` where the header's EC and RRC
//! bytes (4..8) are zeroed.

use vstd::prelude::*;
use crate::bytes::be32;
use crate::crypto::{AesKind, aes_key_len, checksum_sha_aes, is_aes256, sha_aes_checksum};

verus! {

/// Errors of `KerberosGssEngine::unwrap`.
#[derive(Debug, Clone, Copy, PartialEq, Eq, Structural)]
pub enum GssError {
    /// The token is shorter than a header and a checksum; holds its length.
    TokenTooShort(usize),
    /// No accepted key usage gives the checksum the token carries.
    ChecksumMismatch,
}

/// The AES variant a Kerberos key type selects: 17 gives AES-128, anything
/// else AES-256.
pub open spec fn aes_kind_of(key_type: i32) -> AesKind {
    if key_type == 17 {
        AesKind::Aes128
    } else {
        AesKind::Aes256
    }
}

/// Key usages 22 (acceptor seal) and 23 (acceptor sign) mark the sender as
/// the acceptor.
pub open spec fn is_acceptor_usage(key_usage: i32) -> bool {
    key_usage == 22 || key_usage == 23
}

/// The header of a WRAP token as sent (EC = 12).
pub open spec fn wrap_header(seq: u32, key_usage: i32) -> Seq<u8> {
    seq![0x05u8, 0x04u8, if is_acceptor_usage(key_usage) { 1u8 } else { 0u8 }, 0xffu8, 0x00u8, 0x0cu8,
        0u8, 0u8, 0u8, 0u8, 0u8, 0u8] + be32(seq)
}

/// A header with its EC and RRC bytes (4..8) zeroed, as the checksum covers it.
pub open spec fn cleared_header(h: Seq<u8>) -> Seq<u8> {
    h.update(4, 0u8).update(5, 0u8).update(6, 0u8).update(7, 0u8)
}

/// The data the checksum covers: payload, then the cleared header.
pub open spec fn checksum_input(payload: Seq<u8>, header: Seq<u8>) -> Seq<u8> {
    payload + cleared_header(header)
}

/// The WRAP token for `payload` under `key`, sequence number `seq` and
/// `key_usage`.
pub open spec fn wrap_token(key: Seq<u8>, kind: AesKind, seq: u32, key_usage: i32, payload: Seq<u8>) -> Seq<u8> {
    let h = wrap_header(seq, key_usage);
    h + payload + sha_aes_checksum(key, key_usage, checksum_input(payload, h), is_aes256(kind))
}

/// The key usages `unwrap` tries, in order.
pub open spec fn unwrap_key_usages() -> Seq<i32> {
    seq![22i32, 24i32, 23i32, 25i32]
}

/// The header of a token.
pub open spec fn token_header(t: Seq<u8>) -> Seq<u8> {
    t.subrange(0, 16)
}

/// The payload of a token.
pub open spec fn token_payload(t: Seq<u8>) -> Seq<u8> {
    t.subrange(16, t.len() - 12)
}

/// The checksum a token carries.
pub open spec fn token_checksum(t: Seq<u8>) -> Seq<u8> {
    t.subrange(t.len() - 12, t.len() as int)
}

/// A token long enough to hold a header and a checksum whose checksum is
/// right for one of the key usages `unwrap` tries.
pub open spec fn token_accepted(key: Seq<u8>, kind: AesKind, t: Seq<u8>) -> bool {
    &&& t.len() >= 28
    &&& exists|i: int|
        0 <= i < 4 && #[trigger] sha_aes_checksum(
            key,
            unwrap_key_usages()[i],
            checksum_input(token_payload(t), token_header(t)),
            is_aes256(kind),
        ) == token_checksum(t)
}

/// GSS message protection for one security context: the session key, the
/// AES variant, and the next sequence number to send.
pub struct KerberosGssEngine {
    session_key: Vec<u8>,
    aes_sizes: AesKind,
    seq_num: u32,
}

impl KerberosGssEngine {
    /// The session key.
    pub closed spec fn spec_key(&self) -> Seq<u8> {
        self.session_key@
    }

    /// The AES variant.
    pub closed spec fn spec_kind(&self) -> AesKind {
        self.aes_sizes
    }

    /// The next sequence number to send.
    pub closed spec fn spec_seq(&self) -> u32 {
        self.seq_num
    }

    /// The session key has the length the AES variant needs.
    pub open spec fn key_fits(&self) -> bool {
        self.spec_key().len() == aes_key_len(self.spec_kind())
    }

    pub fn new(session_key: Vec<u8>, key_type: i32) -> (res: Self)
        ensures
            res.spec_key() == session_key@,
            res.spec_kind() == aes_kind_of(key_type),
            res.spec_seq() == 0,
    {
        let aes_sizes = match key_type {
            18 => AesKind::Aes256,
            17 => AesKind::Aes128,
            _ => AesKind::Aes256,
        };
        KerberosGssEngine { session_key, aes_sizes, seq_num: 0 }
    }

    pub fn new_with_seq(session_key: Vec<u8>, key_type: i32, seq_num: u32) -> (res: Self)
        ensures
            res.spec_key() == session_key@,
            res.spec_kind() == aes_kind_of(key_type),
            res.spec_seq() == seq_num,
    {
        let aes_sizes = match key_type {
            18 => AesKind::Aes256,
            17 => AesKind::Aes128,
            _ => AesKind::Aes256,
        };
        KerberosGssEngine { session_key, aes_sizes, seq_num }
    }

    /// Builds an integrity-only WRAP token with the given key usage and the
    /// current sequence number, then advances the sequence number (wrapping).
    pub fn wrap_with_ku_java(&mut self, plaintext: &[u8], key_usage: i32) -> (res: Result<Vec<u8>, GssError>)
        requires
            old(self).key_fits(),
        ensures
            final(self).spec_key() == old(self).spec_key(),
            final(self).spec_kind() == old(self).spec_kind(),
            final(self).spec_seq() == old(self).spec_seq().wrapping_add(1),
            match res {
                Ok(t) => t@ == wrap_token(
                    old(self).spec_key(),
                    old(self).spec_kind(),
                    old(self).spec_seq(),
                    key_usage,
                    plaintext@,
                ),
                Err(_) => false,
            },
            res matches Ok(t) && t@.len() == 28 + plaintext@.len(),
            res matches Ok(t) && t@[2] == (if key_usage == 22 || key_usage == 23 { 0x01u8 } else { 0x00u8 }),
            22 <= key_usage <= 25 ==> (res matches Ok(t) && token_accepted(
                old(self).spec_key(),
                old(self).spec_kind(),
                t@,
            ) && token_payload(t@) == plaintext@),
    {
        let seq = self.seq_num;
        self.seq_num = self.seq_num.wrapping_add(1);
        let flags: u8 = if key_usage == 22 || key_usage == 23 { 0x01 } else { 0x00 };
        // The header as the checksum covers it: EC and RRC still zero.
        let mut ci_hdr: Vec<u8> = Vec::new();
        ci_hdr.push(0x05);
        ci_hdr.push(0x04);
        ci_hdr.push(flags);
        ci_hdr.push(0xff);
        ci_hdr.push(0);
        ci_hdr.push(0);
        ci_hdr.push(0);
        ci_hdr.push(0);
        ci_hdr.push(0);
        ci_hdr.push(0);
        ci_hdr.push(0);
        ci_hdr.push(0);
        crate::bytes::write_be32(&mut ci_hdr, seq);
        let ghost h = wrap_header(seq, key_usage);
        assert(ci_hdr@ =~= cleared_header(h));
        let mut ci: Vec<u8> = Vec::new();
        crate::bytes::write_raw(&mut ci, plaintext);
        crate::bytes::write_raw(&mut ci, ci_hdr.as_slice());
        let cksum = checksum_sha_aes(self.session_key.as_slice(), key_usage, ci.as_slice(), self.aes_sizes);
        // EC = checksum length for a non-confidential WRAP.
        let mut token: Vec<u8> = ci_hdr;
        token.set(5, 0x0c);
        assert(token@ =~= h);
        crate::bytes::write_raw(&mut token, plaintext);
        crate::bytes::write_raw(&mut token, cksum.as_slice());
        proof {
            law_wrap_token_header(self.session_key@, self.aes_sizes, seq, key_usage, plaintext@);
            if 22 <= key_usage <= 25 {
                assert(ci@ =~= checksum_input(plaintext@, h));
                law_unwrap_wrap(self.session_key@, self.aes_sizes, seq, key_usage, plaintext@);
            }
        }
        Ok(token)
    }

    /// GSS_Wrap with the acceptor seal key usage (22).
    pub fn wrap(&mut self, plaintext: &[u8]) -> (res: Result<Vec<u8>, GssError>)
        requires
            old(self).key_fits(),
        ensures
            final(self).spec_key() == old(self).spec_key(),
            final(self).spec_kind() == old(self).spec_kind(),
            final(self).spec_seq() == old(self).spec_seq().wrapping_add(1),
            match res {
                Ok(t) => t@ == wrap_token(
                    old(self).spec_key(),
                    old(self).spec_kind(),
                    old(self).spec_seq(),
                    22,
                    plaintext@,
                ),
                Err(_) => false,
            },
            res matches Ok(t) && t@.len() == 28 + plaintext@.len(),
            res matches Ok(t) && t@[2] == 0x01u8,
            res matches Ok(t) && token_accepted(old(self).spec_key(), old(self).spec_kind(), t@)
                && token_payload(t@) == plaintext@,
    {
        self.wrap_with_ku_java(plaintext, 22)
    }

    /// Checks a WRAP token against key usages 22, 24, 23 and 25 in turn and
    /// returns its payload when one of them gives the checksum it carries.
    pub fn unwrap(&mut self, token: &[u8]) -> (res: Result<Vec<u8>, GssError>)
        requires
            old(self).key_fits(),
        ensures
            *final(self) == *old(self),
            match res {
                Ok(p) => token_accepted(old(self).spec_key(), old(self).spec_kind(), token@) && p@
                    == token_payload(token@),
                Err(GssError::TokenTooShort(n)) => token@.len() < 28 && n == token@.len(),
                Err(GssError::ChecksumMismatch) => token@.len() >= 28 && !token_accepted(
                    old(self).spec_key(),
                    old(self).spec_kind(),
                    token@,
                ),
            },
    {
        if token.len() < 28 {
            return Err(GssError::TokenTooShort(token.len()));
        }
        let data_end = token.len() - 12;
        let hdr = vstd::slice::slice_subrange(token, 0, 16);
        let plaintext = vstd::slice::slice_subrange(token, 16, data_end);
        let received = vstd::slice::slice_subrange(token, data_end, token.len());
        let mut ci_hdr: Vec<u8> = vstd::slice::slice_to_vec(hdr);
        ci_hdr.set(4, 0);
        ci_hdr.set(5, 0);
        ci_hdr.set(6, 0);
        ci_hdr.set(7, 0);
        assert(ci_hdr@ =~= cleared_header(token_header(token@)));
        let mut ci: Vec<u8> = Vec::new();
        crate::bytes::write_raw(&mut ci, plaintext);
        crate::bytes::write_raw(&mut ci, ci_hdr.as_slice());
        let key_usages: [i32; 4] = [22i32, 24i32, 23i32, 25i32];
        assert(key_usages@ =~= unwrap_key_usages());
        let mut i: usize = 0;
        #[verifier::loop_isolation(false)]
        while i < 4
            invariant
                i <= 4,
                key_usages@ == unwrap_key_usages(),
                ci@ == checksum_input(token_payload(token@), token_header(token@)),
                received@ == token_checksum(token@),
                plaintext@ == token_payload(token@),
                self.key_fits(),
                forall|j: int|
                    0 <= j < i ==> #[trigger] sha_aes_checksum(
                        self.spec_key(),
                        unwrap_key_usages()[j],
                        ci@,
                        is_aes256(self.spec_kind()),
                    ) != token_checksum(token@),
            decreases 4 - i,
        {
            let ku = key_usages[i];
            let c = checksum_sha_aes(self.session_key.as_slice(), ku, ci.as_slice(), self.aes_sizes);
            if bytes_equal(c.as_slice(), received) {
                assert(ku == unwrap_key_usages()[i as int]);
                assert(sha_aes_checksum(
                    self.spec_key(),
                    unwrap_key_usages()[i as int],
                    checksum_input(token_payload(token@), token_header(token@)),
                    is_aes256(self.spec_kind()),
                ) == token_checksum(token@));
                return Ok(vstd::slice::slice_to_vec(plaintext));
            }
            i = i + 1;
        }
        Err(GssError::ChecksumMismatch)
    }

    pub fn seq_num(&self) -> (res: u32)
        ensures
            res == self.spec_seq(),
    {
        self.seq_num
    }

    pub fn reset_seq_num(&mut self, seq: u32)
        ensures
            final(self).spec_seq() == seq,
            final(self).spec_key() == old(self).spec_key(),
            final(self).spec_kind() == old(self).spec_kind(),
    {
        self.seq_num = seq;
    }
}

/// Whether two byte strings are equal.
pub fn bytes_equal(a: &[u8], b: &[u8]) -> (res: bool)
    ensures
        res == (a@ == b@),
{
    if a.len() != b.len() {
        return false;
    }
    let mut i: usize = 0;
    while i < a.len()
        invariant
            i <= a@.len(),
            a@.len() == b@.len(),
            forall|j: int| 0 <= j < i ==> a@[j] == b@[j],
        decreases a@.len() - i,
    {
        if a[i] != b[i] {
            return false;
        }
        i = i + 1;
    }
    assert(a@ =~= b@);
    true
}

/// Law: a WRAP token starts with TOK_ID 0x05 0x04, a flags byte that is
/// 0x01 (sent by the acceptor) exactly for key usages 22 and 23 and 0x00
/// otherwise (24 and 25: sent by the initiator), the filler 0xff, EC = 12,
/// RRC = 0 and the sequence number as 64 big-endian bits; the payload
/// follows as it is.
pub proof fn law_wrap_token_header(key: Seq<u8>, kind: AesKind, seq: u32, key_usage: i32, payload: Seq<u8>)
    ensures
        wrap_token(key, kind, seq, key_usage, payload).len() >= 16 + payload.len(),
        wrap_token(key, kind, seq, key_usage, payload)[0] == 0x05u8,
        wrap_token(key, kind, seq, key_usage, payload)[1] == 0x04u8,
        wrap_token(key, kind, seq, key_usage, payload)[2] == (if key_usage == 22 || key_usage == 23 {
            0x01u8
        } else {
            0x00u8
        }),
        wrap_token(key, kind, seq, key_usage, payload)[3] == 0xffu8,
        wrap_token(key, kind, seq, key_usage, payload).subrange(4, 8) == seq![0x00u8, 0x0cu8, 0x00u8, 0x00u8],
        wrap_token(key, kind, seq, key_usage, payload).subrange(8, 16) == seq![0u8, 0u8, 0u8, 0u8] + be32(seq),
        wrap_token(key, kind, seq, key_usage, payload).subrange(16, 16 + payload.len() as int) == payload,
{
    let t = wrap_token(key, kind, seq, key_usage, payload);
    let h = wrap_header(seq, key_usage);
    assert(h.len() == 16);
    assert(t.subrange(4, 8) =~= seq![0x00u8, 0x0cu8, 0x00u8, 0x00u8]);
    assert(t.subrange(8, 16) =~= seq![0u8, 0u8, 0u8, 0u8] + be32(seq));
    assert(t.subrange(16, 16 + payload.len() as int) =~= payload);
}

/// Law: a token made by `wrap_with_ku_java` with an acceptor or initiator
/// seal or sign key usage (22 to 25) is accepted by `unwrap` under the same
/// key and AES variant, whatever the sequence number, and `unwrap` gives
/// back the wrapped payload (given the 12-byte checksum that every call of
/// the checksum function returns).
pub proof fn law_unwrap_wrap(key: Seq<u8>, kind: AesKind, seq: u32, key_usage: i32, payload: Seq<u8>)
    requires
        22 <= key_usage <= 25,
        sha_aes_checksum(
            key,
            key_usage,
            checksum_input(payload, wrap_header(seq, key_usage)),
            is_aes256(kind),
        ).len() == 12,
    ensures
        token_accepted(key, kind, wrap_token(key, kind, seq, key_usage, payload)),
        token_payload(wrap_token(key, kind, seq, key_usage, payload)) == payload,
{
    let h = wrap_header(seq, key_usage);
    let c = sha_aes_checksum(key, key_usage, checksum_input(payload, h), is_aes256(kind));
    let t = wrap_token(key, kind, seq, key_usage, payload);
    assert(token_header(t) =~= h);
    assert(token_payload(t) =~= payload);
    assert(token_checksum(t) =~= c);
    let i: int = if key_usage == 22 {
        0
    } else if key_usage == 24 {
        1
    } else if key_usage == 23 {
        2
    } else {
        3
    };
    assert(unwrap_key_usages()[i] == key_usage);
}

} // verus!
