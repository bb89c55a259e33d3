//! The MIT file credential cache (FCC v4) format as mathematics: the model
//! of each record, the bytes that encode it, the reading of bytes back into
//! records, and the laws that tie the two together.

use vstd::prelude::*;
use vstd::utf8::encode_utf8;
use crate::bytes::{
    CCacheError, be16, be32, be16_join, counted, parse_be16_at, parse_be32_at, parse_counted_at,
};
use crate::text::text_of;

verus! {

/// A principal: name type, realm and name components, as texts.
pub struct PrincipalView {
    pub name_type: u32,
    pub realm: Seq<char>,
    pub components: Seq<Seq<char>>,
}

/// A key block: encryption type and key bytes.
pub struct KeyBlockView {
    pub enctype: u16,
    pub keyvalue: Seq<u8>,
}

/// The four ticket times, as stored.
pub struct TimesView {
    pub authtime: u32,
    pub starttime: u32,
    pub endtime: u32,
    pub renew_till: u32,
}

/// A host address or an authorization-data entry: a 16-bit type and bytes.
pub struct TaggedView {
    pub tag: u16,
    pub data: Seq<u8>,
}

/// One credential of a cache.
pub struct CredentialView {
    pub client: PrincipalView,
    pub server: PrincipalView,
    pub key: KeyBlockView,
    pub time: TimesView,
    pub is_skey: u8,
    pub tktflags: u32,
    pub addrs: Seq<TaggedView>,
    pub authdata: Seq<TaggedView>,
    pub ticket: Seq<u8>,
    pub second_ticket: Seq<u8>,
}

/// A whole credential cache.
pub struct CCacheView {
    pub default_principal: PrincipalView,
    pub credentials: Seq<CredentialView>,
}

// ───────────────────────── encoding ─────────────────────────

/// The counted UTF-8 encodings of the name components, in order.
pub open spec fn components_bytes(cs: Seq<Seq<char>>) -> Seq<u8>
    decreases cs.len(),
{
    if cs.len() == 0 {
        seq![]
    } else {
        components_bytes(cs.drop_last()) + counted(encode_utf8(cs.last()))
    }
}

/// Name type, component count, counted realm, counted components.
pub open spec fn principal_bytes(p: PrincipalView) -> Seq<u8> {
    be32(p.name_type) + be32(p.components.len() as u32) + counted(encode_utf8(p.realm))
        + components_bytes(p.components)
}

/// Encryption type (16 bits), then the counted key bytes.
pub open spec fn keyblock_bytes(k: KeyBlockView) -> Seq<u8> {
    be16(k.enctype) + counted(k.keyvalue)
}

/// The four times, each a 32-bit big-endian integer, in order.
pub open spec fn times_bytes(t: TimesView) -> Seq<u8> {
    be32(t.authtime) + be32(t.starttime) + be32(t.endtime) + be32(t.renew_till)
}

/// A 16-bit type, then the counted data.
pub open spec fn tagged_bytes(t: TaggedView) -> Seq<u8> {
    be16(t.tag) + counted(t.data)
}

/// The encodings of a list of tagged entries, in order.
pub open spec fn tagged_list_bytes(ts: Seq<TaggedView>) -> Seq<u8>
    decreases ts.len(),
{
    if ts.len() == 0 {
        seq![]
    } else {
        tagged_list_bytes(ts.drop_last()) + tagged_bytes(ts.last())
    }
}

/// A credential: client, server, key block, times, `is_skey` byte, flags,
/// counted address list, counted authorization-data list, ticket and second
/// ticket.
pub open spec fn credential_bytes(c: CredentialView) -> Seq<u8> {
    principal_bytes(c.client) + principal_bytes(c.server) + credential_tail_bytes(c)
}

/// The part of a credential's encoding after its two principals.
pub open spec fn credential_tail_bytes(c: CredentialView) -> Seq<u8> {
    keyblock_bytes(c.key) + times_bytes(c.time) + seq![c.is_skey] + be32(c.tktflags) + be32(
        c.addrs.len() as u32,
    ) + tagged_list_bytes(c.addrs) + be32(c.authdata.len() as u32) + tagged_list_bytes(c.authdata)
        + counted(c.ticket) + counted(c.second_ticket)
}

/// The encodings of credentials, in order.
pub open spec fn credentials_bytes(cs: Seq<CredentialView>) -> Seq<u8>
    decreases cs.len(),
{
    if cs.len() == 0 {
        seq![]
    } else {
        credentials_bytes(cs.drop_last()) + credential_bytes(cs.last())
    }
}

/// The FCC v4 file header: version 0x0504, a 12-byte header holding one
/// DeltaTime entry (tag 1, length 8, both offsets 0).
pub open spec fn ccache_header_bytes() -> Seq<u8> {
    be16(0x0504) + be16(12) + be16(1) + be16(8) + be32(0) + be32(0)
}

/// A whole cache: header, default principal, credentials.
pub open spec fn ccache_bytes(c: CCacheView) -> Seq<u8> {
    ccache_header_bytes() + principal_bytes(c.default_principal) + credentials_bytes(c.credentials)
}

// ───────────────────────── reading ─────────────────────────

/// Reads `k` counted components at `off`.
pub open spec fn parse_components_at(d: Seq<u8>, off: int, k: nat) -> Option<(Seq<Seq<char>>, int)>
    decreases k,
{
    if k == 0 {
        Some((seq![], off))
    } else {
        match parse_components_at(d, off, (k - 1) as nat) {
            Some((cs, o)) => match parse_counted_at(d, o) {
                Some((b, o2)) => Some((cs.push(text_of(b)), o2)),
                None => None,
            },
            None => None,
        }
    }
}

/// Reads a principal at `off`.
pub open spec fn parse_principal_at(d: Seq<u8>, off: int) -> Option<(PrincipalView, int)> {
    match parse_be32_at(d, off) {
        Some((nt, o1)) => match parse_be32_at(d, o1) {
            Some((k, o2)) => match parse_counted_at(d, o2) {
                Some((rb, o3)) => match parse_components_at(d, o3, k as nat) {
                    Some((cs, o4)) => Some(
                        (PrincipalView { name_type: nt, realm: text_of(rb), components: cs }, o4),
                    ),
                    None => None,
                },
                None => None,
            },
            None => None,
        },
        None => None,
    }
}

/// Reads a key block at `off`.
pub open spec fn parse_keyblock_at(d: Seq<u8>, off: int) -> Option<(KeyBlockView, int)> {
    match parse_be16_at(d, off) {
        Some((e, o1)) => match parse_counted_at(d, o1) {
            Some((kv, o2)) => Some((KeyBlockView { enctype: e, keyvalue: kv }, o2)),
            None => None,
        },
        None => None,
    }
}

/// Reads the four times at `off`.
pub open spec fn parse_times_at(d: Seq<u8>, off: int) -> Option<(TimesView, int)> {
    match parse_be32_at(d, off) {
        Some((a, o1)) => match parse_be32_at(d, o1) {
            Some((s, o2)) => match parse_be32_at(d, o2) {
                Some((e, o3)) => match parse_be32_at(d, o3) {
                    Some((r, o4)) => Some(
                        (TimesView { authtime: a, starttime: s, endtime: e, renew_till: r }, o4),
                    ),
                    None => None,
                },
                None => None,
            },
            None => None,
        },
        None => None,
    }
}

/// Reads a tagged entry at `off`.
pub open spec fn parse_tagged_at(d: Seq<u8>, off: int) -> Option<(TaggedView, int)> {
    match parse_be16_at(d, off) {
        Some((t, o1)) => match parse_counted_at(d, o1) {
            Some((b, o2)) => Some((TaggedView { tag: t, data: b }, o2)),
            None => None,
        },
        None => None,
    }
}

/// Reads `k` tagged entries at `off`.
pub open spec fn parse_tagged_list_at(d: Seq<u8>, off: int, k: nat) -> Option<(Seq<TaggedView>, int)>
    decreases k,
{
    if k == 0 {
        Some((seq![], off))
    } else {
        match parse_tagged_list_at(d, off, (k - 1) as nat) {
            Some((ts, o)) => match parse_tagged_at(d, o) {
                Some((t, o2)) => Some((ts.push(t), o2)),
                None => None,
            },
            None => None,
        }
    }
}

/// Reads the `is_skey` byte at `off`.
pub open spec fn parse_u8_at(d: Seq<u8>, off: int) -> Option<(u8, int)> {
    if 0 <= off < d.len() {
        Some((d[off], off + 1))
    } else {
        None
    }
}

/// Reads the part of a credential after its two principals.
pub open spec fn parse_credential_tail_at(d: Seq<u8>, off: int) -> Option<
    (KeyBlockView, TimesView, u8, u32, Seq<TaggedView>, Seq<TaggedView>, Seq<u8>, Seq<u8>, int),
> {
    match parse_keyblock_at(d, off) {
        Some((key, o3)) => match parse_times_at(d, o3) {
            Some((time, o4)) => match parse_u8_at(d, o4) {
                Some((sk, o5)) => match parse_be32_at(d, o5) {
                    Some((fl, o6)) => match parse_be32_at(d, o6) {
                        Some((na, o7)) => match parse_tagged_list_at(d, o7, na as nat) {
                            Some((addrs, o8)) => match parse_be32_at(d, o8) {
                                Some((nd, o9)) => match parse_tagged_list_at(d, o9, nd as nat) {
                                    Some((ad, o10)) => match parse_counted_at(d, o10) {
                                        Some((tk, o11)) => match parse_counted_at(d, o11) {
                                            Some((st, o12)) => Some(
                                                (key, time, sk, fl, addrs, ad, tk, st, o12),
                                            ),
                                            None => None,
                                        },
                                        None => None,
                                    },
                                    None => None,
                                },
                                None => None,
                            },
                            None => None,
                        },
                        None => None,
                    },
                    None => None,
                },
                None => None,
            },
            None => None,
        },
        None => None,
    }
}

/// Reads a credential at `off`.
#[verifier::opaque]
pub open spec fn parse_credential_at(d: Seq<u8>, off: int) -> Option<(CredentialView, int)> {
    match parse_principal_at(d, off) {
        Some((client, o1)) => match parse_principal_at(d, o1) {
            Some((server, o2)) => match parse_credential_tail_at(d, o2) {
                Some((key, time, sk, fl, addrs, ad, tk, st, o)) => Some(
                    (
                        CredentialView {
                            client,
                            server,
                            key,
                            time,
                            is_skey: sk,
                            tktflags: fl,
                            addrs,
                            authdata: ad,
                            ticket: tk,
                            second_ticket: st,
                        },
                        o,
                    ),
                ),
                None => None,
            },
            None => None,
        },
        None => None,
    }
}

/// Reads credentials from `off` to the end of the data.
pub open spec fn parse_credentials_from(d: Seq<u8>, off: int) -> Option<Seq<CredentialView>>
    decreases d.len() - off,
{
    if off < 0 || off >= d.len() {
        Some(seq![])
    } else {
        match parse_credential_at(d, off) {
            Some((c, o)) => if off < o <= d.len() {
                match parse_credentials_from(d, o) {
                    Some(rest) => Some(seq![c] + rest),
                    None => None,
                }
            } else {
                None
            },
            None => None,
        }
    }
}

/// The header length field of the cache held by `d`.
pub open spec fn ccache_header_len(d: Seq<u8>) -> u16 {
    be16_join(d[2], d[3])
}

/// Where the reader of a cache would step past the end of `d` when it skips
/// the header: the inputs the reader does not take.
pub open spec fn ccache_header_in_bounds(d: Seq<u8>) -> bool {
    d.len() >= 4 && be16_join(d[0], d[1]) == 0x0504 ==> 4 + ccache_header_len(d) <= d.len()
}

/// Reads a whole cache: the model and the offset where reading stopped, or
/// the error the reader reports.
pub open spec fn parse_ccache(d: Seq<u8>) -> Result<(CCacheView, int), CCacheError> {
    match parse_be16_at(d, 0) {
        None => Err(CCacheError::UnexpectedEof),
        Some((v, o1)) => if v != 0x0504 {
            Err(CCacheError::UnsupportedVersion(v))
        } else {
            match parse_be16_at(d, o1) {
                None => Err(CCacheError::UnexpectedEof),
                Some((h, o2)) => match parse_principal_at(d, o2 + h) {
                    None => Err(CCacheError::UnexpectedEof),
                    Some((p, o3)) => match parse_credentials_from(d, o3) {
                        None => Err(CCacheError::UnexpectedEof),
                        Some(cs) => Ok(
                            (
                                CCacheView { default_principal: p, credentials: cs },
                                d.len() as int,
                            ),
                        ),
                    },
                },
            }
        }
    }
}

// ───────────────────────── limits ─────────────────────────

/// Every length and count of the principal fits the 32-bit fields.
pub open spec fn principal_fits(p: PrincipalView) -> bool {
    &&& p.components.len() <= u32::MAX
    &&& encode_utf8(p.realm).len() <= u32::MAX
    &&& forall|i: int| 0 <= i < p.components.len() ==> encode_utf8(#[trigger] p.components[i]).len() <= u32::MAX
}

pub open spec fn tagged_fits(ts: Seq<TaggedView>) -> bool {
    &&& ts.len() <= u32::MAX
    &&& forall|i: int| 0 <= i < ts.len() ==> (#[trigger] ts[i]).data.len() <= u32::MAX
}

/// Every length and count of the credential fits the 32-bit fields.
pub open spec fn credential_fits(c: CredentialView) -> bool {
    &&& principal_fits(c.client)
    &&& principal_fits(c.server)
    &&& c.key.keyvalue.len() <= u32::MAX
    &&& tagged_fits(c.addrs)
    &&& tagged_fits(c.authdata)
    &&& c.ticket.len() <= u32::MAX
    &&& c.second_ticket.len() <= u32::MAX
}

/// Every length and count of the cache fits the 32-bit fields.
pub open spec fn ccache_fits(c: CCacheView) -> bool {
    &&& principal_fits(c.default_principal)
    &&& forall|i: int| 0 <= i < c.credentials.len() ==> credential_fits(#[trigger] c.credentials[i])
}

} // verus!
