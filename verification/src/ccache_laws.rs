//! Laws of the credential cache format: reading the encoding of a record
//! gives the record back, wherever the encoding stands in a buffer and
//! whatever follows it; a cut encoding cannot be read; and the reader
//! skips the contents of the file header.

use vstd::prelude::*;
use vstd::utf8::encode_utf8;
use crate::bytes::{
    be16, be32, bytes_at, counted, lemma_bytes_at_split, lemma_bytes_at_whole, lemma_parse_be16_at,
    lemma_parse_be32_at, lemma_parse_counted_at, parse_be16_at, parse_be32_at, parse_counted_at,
};
use crate::ccache::{
    lemma_components_advance, lemma_principal_advances, lemma_tagged_list_advance,
};
use crate::ccache_format::{
    CCacheView, CredentialView, KeyBlockView, PrincipalView, TaggedView, TimesView, ccache_bytes,
    ccache_fits, ccache_header_bytes, ccache_header_in_bounds, ccache_header_len, components_bytes,
    credential_bytes, credential_fits, credential_tail_bytes, credentials_bytes, keyblock_bytes, parse_ccache,
    parse_components_at, parse_credential_at, parse_credential_tail_at, parse_credentials_from,
    parse_keyblock_at, parse_principal_at, parse_tagged_at, parse_tagged_list_at, parse_times_at,
    parse_u8_at, principal_bytes, principal_fits, tagged_bytes, tagged_list_bytes,
    times_bytes,
};
use crate::text::lemma_text_of_encode;

verus! {

/// Reading `cs.len()` components where their encodings stand gives the
/// components back.
pub proof fn lemma_components_roundtrip(d: Seq<u8>, off: int, cs: Seq<Seq<char>>)
    requires
        bytes_at(d, off, components_bytes(cs)),
        forall|i: int| 0 <= i < cs.len() ==> encode_utf8(#[trigger] cs[i]).len() <= u32::MAX,
    ensures
        parse_components_at(d, off, cs.len()) == Some((cs, off + components_bytes(cs).len())),
    decreases cs.len(),
{
    if cs.len() > 0 {
        let init = cs.drop_last();
        let last = cs.last();
        lemma_bytes_at_split(d, off, components_bytes(init), counted(encode_utf8(last)));
        assert forall|i: int| 0 <= i < init.len() implies encode_utf8(#[trigger] init[i]).len()
            <= u32::MAX by {
            assert(init[i] == cs[i]);
        }
        lemma_components_roundtrip(d, off, init);
        assert(encode_utf8(cs[cs.len() - 1]).len() <= u32::MAX);
        lemma_parse_counted_at(d, off + components_bytes(init).len(), encode_utf8(last));
        lemma_text_of_encode(last);
        assert(init.push(last) =~= cs);
        assert((init.len() + 1) as nat == cs.len());
    }
}

/// Wherever the encoding of a principal stands, reading there gives the
/// principal back and the offset just past the encoding.
pub proof fn lemma_principal_roundtrip(d: Seq<u8>, off: int, p: PrincipalView)
    requires
        bytes_at(d, off, principal_bytes(p)),
        principal_fits(p),
    ensures
        parse_principal_at(d, off) == Some((p, off + principal_bytes(p).len())),
{
    let a = be32(p.name_type);
    let b = be32(p.components.len() as u32);
    let c = counted(encode_utf8(p.realm));
    let e = components_bytes(p.components);
    lemma_bytes_at_split(d, off, a + b + c, e);
    lemma_bytes_at_split(d, off, a + b, c);
    lemma_bytes_at_split(d, off, a, b);
    lemma_parse_be32_at(d, off, p.name_type);
    lemma_parse_be32_at(d, off + 4, p.components.len() as u32);
    lemma_parse_counted_at(d, off + 8, encode_utf8(p.realm));
    lemma_text_of_encode(p.realm);
    lemma_components_roundtrip(d, off + 12 + encode_utf8(p.realm).len(), p.components);
    assert((p.components.len() as u32) as nat == p.components.len());
}

/// Wherever the encoding of a key block stands, reading there gives it back.
pub proof fn lemma_keyblock_roundtrip(d: Seq<u8>, off: int, k: KeyBlockView)
    requires
        bytes_at(d, off, keyblock_bytes(k)),
        k.keyvalue.len() <= u32::MAX,
    ensures
        parse_keyblock_at(d, off) == Some((k, off + keyblock_bytes(k).len())),
{
    lemma_bytes_at_split(d, off, be16(k.enctype), counted(k.keyvalue));
    lemma_parse_be16_at(d, off, k.enctype);
    lemma_parse_counted_at(d, off + 2, k.keyvalue);
}

/// Wherever the encoding of the times stands, reading there gives them back.
pub proof fn lemma_times_roundtrip(d: Seq<u8>, off: int, t: TimesView)
    requires
        bytes_at(d, off, times_bytes(t)),
    ensures
        parse_times_at(d, off) == Some((t, off + 16)),
{
    let a = be32(t.authtime);
    let b = be32(t.starttime);
    let c = be32(t.endtime);
    let e = be32(t.renew_till);
    lemma_bytes_at_split(d, off, a + b + c, e);
    lemma_bytes_at_split(d, off, a + b, c);
    lemma_bytes_at_split(d, off, a, b);
    lemma_parse_be32_at(d, off, t.authtime);
    lemma_parse_be32_at(d, off + 4, t.starttime);
    lemma_parse_be32_at(d, off + 8, t.endtime);
    lemma_parse_be32_at(d, off + 12, t.renew_till);
}

/// Wherever the encoding of a tagged entry stands, reading there gives it
/// back.
pub proof fn lemma_tagged_roundtrip(d: Seq<u8>, off: int, t: TaggedView)
    requires
        bytes_at(d, off, tagged_bytes(t)),
        t.data.len() <= u32::MAX,
    ensures
        parse_tagged_at(d, off) == Some((t, off + tagged_bytes(t).len())),
{
    lemma_bytes_at_split(d, off, be16(t.tag), counted(t.data));
    lemma_parse_be16_at(d, off, t.tag);
    lemma_parse_counted_at(d, off + 2, t.data);
}

/// Reading `ts.len()` tagged entries where their encodings stand gives
/// them back.
pub proof fn lemma_tagged_list_roundtrip(d: Seq<u8>, off: int, ts: Seq<TaggedView>)
    requires
        bytes_at(d, off, tagged_list_bytes(ts)),
        forall|i: int| 0 <= i < ts.len() ==> (#[trigger] ts[i]).data.len() <= u32::MAX,
    ensures
        parse_tagged_list_at(d, off, ts.len()) == Some((ts, off + tagged_list_bytes(ts).len())),
    decreases ts.len(),
{
    if ts.len() > 0 {
        let init = ts.drop_last();
        let last = ts.last();
        lemma_bytes_at_split(d, off, tagged_list_bytes(init), tagged_bytes(last));
        assert forall|i: int| 0 <= i < init.len() implies (#[trigger] init[i]).data.len()
            <= u32::MAX by {
            assert(init[i] == ts[i]);
        }
        lemma_tagged_list_roundtrip(d, off, init);
        assert(ts[ts.len() - 1].data.len() <= u32::MAX);
        lemma_tagged_roundtrip(d, off + tagged_list_bytes(init).len(), last);
        assert(init.push(last) =~= ts);
        assert((init.len() + 1) as nat == ts.len());
    }
}

/// Wherever the part of a credential after its principals stands, reading
/// it there gives it back.
pub proof fn lemma_credential_tail_roundtrip(d: Seq<u8>, off: int, c: CredentialView)
    requires
        bytes_at(d, off, credential_tail_bytes(c)),
        credential_fits(c),
    ensures
        parse_credential_tail_at(d, off) == Some(
            (
                c.key,
                c.time,
                c.is_skey,
                c.tktflags,
                c.addrs,
                c.authdata,
                c.ticket,
                c.second_ticket,
                off + credential_tail_bytes(c).len(),
            ),
        ),
{
    let k = keyblock_bytes(c.key);
    let t = times_bytes(c.time);
    let s = seq![c.is_skey];
    let f = be32(c.tktflags);
    let na = be32(c.addrs.len() as u32);
    let a = tagged_list_bytes(c.addrs);
    let nd = be32(c.authdata.len() as u32);
    let ad = tagged_list_bytes(c.authdata);
    let tk = counted(c.ticket);
    let st = counted(c.second_ticket);
    let x2 = k;
    let x3 = x2 + t;
    let x4 = x3 + s;
    let x5 = x4 + f;
    let x6 = x5 + na;
    let x7 = x6 + a;
    let x8 = x7 + nd;
    let x9 = x8 + ad;
    let x10 = x9 + tk;
    assert(credential_tail_bytes(c) == x10 + st);
    lemma_bytes_at_split(d, off, x10, st);
    lemma_bytes_at_split(d, off, x9, tk);
    lemma_bytes_at_split(d, off, x8, ad);
    lemma_bytes_at_split(d, off, x7, nd);
    lemma_bytes_at_split(d, off, x6, a);
    lemma_bytes_at_split(d, off, x5, na);
    lemma_bytes_at_split(d, off, x4, f);
    lemma_bytes_at_split(d, off, x3, s);
    lemma_bytes_at_split(d, off, x2, t);
    lemma_keyblock_roundtrip(d, off, c.key);
    lemma_times_roundtrip(d, off + x2.len(), c.time);
    assert(d[off + x3.len() + 0] == s[0]);
    assert(parse_u8_at(d, off + x3.len()) == Some((c.is_skey, off + x4.len())));
    lemma_parse_be32_at(d, off + x4.len(), c.tktflags);
    lemma_parse_be32_at(d, off + x5.len(), c.addrs.len() as u32);
    assert((c.addrs.len() as u32) as nat == c.addrs.len());
    lemma_tagged_list_roundtrip(d, off + x6.len(), c.addrs);
    lemma_parse_be32_at(d, off + x7.len(), c.authdata.len() as u32);
    assert((c.authdata.len() as u32) as nat == c.authdata.len());
    lemma_tagged_list_roundtrip(d, off + x8.len(), c.authdata);
    lemma_parse_counted_at(d, off + x9.len(), c.ticket);
    lemma_parse_counted_at(d, off + x10.len(), c.second_ticket);
}

/// Wherever the encoding of a credential stands, reading there gives the
/// credential back and the offset just past the encoding.
pub proof fn lemma_credential_roundtrip(d: Seq<u8>, off: int, c: CredentialView)
    requires
        bytes_at(d, off, credential_bytes(c)),
        credential_fits(c),
    ensures
        parse_credential_at(d, off) == Some((c, off + credential_bytes(c).len())),
{
    let p1 = principal_bytes(c.client);
    let p2 = principal_bytes(c.server);
    let tl = credential_tail_bytes(c);
    lemma_bytes_at_split(d, off, p1 + p2, tl);
    lemma_bytes_at_split(d, off, p1, p2);
    lemma_principal_roundtrip(d, off, c.client);
    lemma_principal_roundtrip(d, off + p1.len(), c.server);
    lemma_credential_tail_roundtrip(d, off + p1.len() + p2.len(), c);
    reveal(parse_credential_at);
}

/// The encoding of a list of credentials is the first one's encoding
/// followed by the encoding of the rest.
pub proof fn lemma_credentials_bytes_front(cs: Seq<CredentialView>)
    requires
        cs.len() > 0,
    ensures
        credentials_bytes(cs) == credential_bytes(cs[0]) + credentials_bytes(cs.drop_first()),
    decreases cs.len(),
{
    if cs.len() == 1 {
        assert(cs.drop_last() =~= seq![]);
        assert(cs.drop_first() =~= seq![]);
        assert(credentials_bytes(cs) =~= credential_bytes(cs[0]) + credentials_bytes(
            cs.drop_first(),
        ));
    } else {
        let init = cs.drop_last();
        lemma_credentials_bytes_front(init);
        assert(init.drop_first() =~= cs.drop_first().drop_last());
        assert(cs.drop_first().last() == cs.last());
        assert(init[0] == cs[0]);
        assert(credentials_bytes(cs) =~= credential_bytes(cs[0]) + credentials_bytes(
            cs.drop_first(),
        ));
    }
}

/// Where the encodings of credentials run to the end of the data, reading
/// credentials to the end gives them back.
pub proof fn lemma_credentials_roundtrip(d: Seq<u8>, off: int, cs: Seq<CredentialView>)
    requires
        bytes_at(d, off, credentials_bytes(cs)),
        off + credentials_bytes(cs).len() == d.len(),
        forall|i: int| 0 <= i < cs.len() ==> credential_fits(#[trigger] cs[i]),
    ensures
        parse_credentials_from(d, off) == Some(cs),
    decreases cs.len(),
{
    if cs.len() == 0 {
        assert(cs =~= seq![]);
    } else {
        lemma_credentials_bytes_front(cs);
        let first = cs[0];
        let rest = cs.drop_first();
        lemma_bytes_at_split(d, off, credential_bytes(first), credentials_bytes(rest));
        assert(credential_fits(cs[0]));
        lemma_credential_roundtrip(d, off, first);
        crate::ccache::lemma_parse_credential_advances(d, off);
        assert forall|i: int| 0 <= i < rest.len() implies credential_fits(#[trigger] rest[i]) by {
            assert(rest[i] == cs[i + 1]);
        }
        lemma_credentials_roundtrip(d, off + credential_bytes(first).len(), rest);
        assert(seq![first] + rest =~= cs);
    }
}

/// Law: reading the encoding of a principal gives the principal back, and
/// the number of bytes read is the length of the encoding; this holds
/// wherever the encoding stands and whatever follows it, whenever every
/// length and count fits its 32-bit field.
pub proof fn law_principal_roundtrip(p: PrincipalView, extra: Seq<u8>)
    requires
        principal_fits(p),
    ensures
        parse_principal_at(principal_bytes(p) + extra, 0) == Some((p, principal_bytes(p).len() as int)),
{
    let d = principal_bytes(p) + extra;
    lemma_bytes_at_whole(d);
    lemma_bytes_at_split(d, 0, principal_bytes(p), extra);
    lemma_principal_roundtrip(d, 0, p);
}

/// Law: reading the encoding of a key block gives it back, with the length
/// of the encoding, whatever follows it.
pub proof fn law_keyblock_roundtrip(k: KeyBlockView, extra: Seq<u8>)
    requires
        k.keyvalue.len() <= u32::MAX,
    ensures
        parse_keyblock_at(keyblock_bytes(k) + extra, 0) == Some((k, keyblock_bytes(k).len() as int)),
{
    let d = keyblock_bytes(k) + extra;
    lemma_bytes_at_whole(d);
    lemma_bytes_at_split(d, 0, keyblock_bytes(k), extra);
    lemma_keyblock_roundtrip(d, 0, k);
}

/// Law: reading the encoding of the times gives them back, with the 16
/// bytes of the encoding, whatever follows it.
pub proof fn law_times_roundtrip(t: TimesView, extra: Seq<u8>)
    ensures
        times_bytes(t).len() == 16,
        parse_times_at(times_bytes(t) + extra, 0) == Some((t, 16int)),
{
    let d = times_bytes(t) + extra;
    lemma_bytes_at_whole(d);
    lemma_bytes_at_split(d, 0, times_bytes(t), extra);
    lemma_times_roundtrip(d, 0, t);
}

/// Law: reading the encoding of a credential gives it back, with the length
/// of the encoding, whatever follows it, whenever every length and count
/// fits its 32-bit field.
pub proof fn law_credential_roundtrip(c: CredentialView, extra: Seq<u8>)
    requires
        credential_fits(c),
    ensures
        parse_credential_at(credential_bytes(c) + extra, 0) == Some(
            (c, credential_bytes(c).len() as int),
        ),
{
    let d = credential_bytes(c) + extra;
    lemma_bytes_at_whole(d);
    lemma_bytes_at_split(d, 0, credential_bytes(c), extra);
    lemma_credential_roundtrip(d, 0, c);
}

/// Law: a cache's encoding can be read (its header stays in bounds), and
/// reading it gives the cache back with every byte consumed, whenever every
/// length and count fits its 32-bit field.
pub proof fn law_ccache_roundtrip(c: CCacheView)
    requires
        ccache_fits(c),
    ensures
        ccache_header_in_bounds(ccache_bytes(c)),
        parse_ccache(ccache_bytes(c)) == Ok::<(CCacheView, int), crate::bytes::CCacheError>(
            (c, ccache_bytes(c).len() as int),
        ),
{
    let d = ccache_bytes(c);
    let h = ccache_header_bytes();
    let p = principal_bytes(c.default_principal);
    let r = credentials_bytes(c.credentials);
    lemma_bytes_at_whole(d);
    lemma_bytes_at_split(d, 0, h + p, r);
    lemma_bytes_at_split(d, 0, h, p);
    let h1 = be16(0x0504);
    let h2 = be16(12);
    let h3 = be16(1);
    let h4 = be16(8);
    let h5 = be32(0);
    let h6 = be32(0);
    lemma_bytes_at_split(d, 0, h1 + h2 + h3 + h4 + h5, h6);
    lemma_bytes_at_split(d, 0, h1 + h2 + h3 + h4, h5);
    lemma_bytes_at_split(d, 0, h1 + h2 + h3, h4);
    lemma_bytes_at_split(d, 0, h1 + h2, h3);
    lemma_bytes_at_split(d, 0, h1, h2);
    lemma_parse_be16_at(d, 0, 0x0504);
    lemma_parse_be16_at(d, 2, 12);
    assert(h.len() == 16);
    assert(ccache_header_len(d) == 12);
    lemma_principal_roundtrip(d, 16, c.default_principal);
    lemma_credentials_roundtrip(d, 16 + p.len() as int, c.credentials);
}

// ───────────────── what the reader looks at ─────────────────

/// `d1` is a prefix of `d2`.
pub open spec fn prefix_of(d1: Seq<u8>, d2: Seq<u8>) -> bool {
    d1.len() <= d2.len() && forall|i: int| 0 <= i < d1.len() ==> d1[i] == d2[i]
}

/// `d1` and `d2` have the same length and the same bytes from `off` on.
pub open spec fn same_from(d1: Seq<u8>, d2: Seq<u8>, off: int) -> bool {
    d1.len() == d2.len() && forall|i: int| off <= i < d1.len() ==> d1[i] == d2[i]
}

/// What the 16-bit, 32-bit, one-byte and counted fields at `off` read is
/// read the same from a longer buffer that starts with the same bytes, and
/// stays within the shorter one.
proof fn lemma_fields_extend(d1: Seq<u8>, d2: Seq<u8>, off: int)
    requires
        prefix_of(d1, d2),
    ensures
        parse_be16_at(d1, off) is Some ==> parse_be16_at(d2, off) == parse_be16_at(d1, off)
            && parse_be16_at(d1, off).unwrap().1 <= d1.len(),
        parse_be32_at(d1, off) is Some ==> parse_be32_at(d2, off) == parse_be32_at(d1, off)
            && parse_be32_at(d1, off).unwrap().1 <= d1.len(),
        parse_counted_at(d1, off) is Some ==> parse_counted_at(d2, off) == parse_counted_at(d1, off)
            && parse_counted_at(d1, off).unwrap().1 <= d1.len(),
{
    if 0 <= off && off + 4 <= d1.len() {
        assert(d1[off + 1] == d2[off + 1] && d1[off + 2] == d2[off + 2] && d1[off + 3] == d2[off + 3]);
    }
    if 0 <= off && off + 2 <= d1.len() {
        assert(d1[off] == d2[off] && d1[off + 1] == d2[off + 1]);
    }
    if parse_counted_at(d1, off) is Some {
        let (n, o) = parse_be32_at(d1, off).unwrap();
        assert(d1.subrange(o, o + n) =~= d2.subrange(o, o + n));
    }
}

proof fn lemma_components_extend(d1: Seq<u8>, d2: Seq<u8>, off: int, k: nat)
    requires
        prefix_of(d1, d2),
        off <= d1.len(),
        parse_components_at(d1, off, k) is Some,
    ensures
        parse_components_at(d2, off, k) == parse_components_at(d1, off, k),
        parse_components_at(d1, off, k).unwrap().1 <= d1.len(),
    decreases k,
{
    if k > 0 {
        lemma_components_extend(d1, d2, off, (k - 1) as nat);
        let o = parse_components_at(d1, off, (k - 1) as nat).unwrap().1;
        lemma_fields_extend(d1, d2, o);
    }
}

proof fn lemma_principal_extend(d1: Seq<u8>, d2: Seq<u8>, off: int)
    requires
        prefix_of(d1, d2),
        parse_principal_at(d1, off) is Some,
    ensures
        parse_principal_at(d2, off) == parse_principal_at(d1, off),
        parse_principal_at(d1, off).unwrap().1 <= d1.len(),
{
    lemma_fields_extend(d1, d2, off);
    lemma_fields_extend(d1, d2, off + 4);
    lemma_fields_extend(d1, d2, off + 8);
    let (k, o2) = parse_be32_at(d1, off + 4).unwrap();
    let (rb, o3) = parse_counted_at(d1, o2).unwrap();
    lemma_components_extend(d1, d2, o3, k as nat);
}

/// Law: no strict prefix of a principal's encoding can be read as a
/// principal (the reader reports `UnexpectedEof`), whenever every length
/// and count fits its 32-bit field.
pub proof fn law_principal_prefix_fails(p: PrincipalView, n: int)
    requires
        principal_fits(p),
        0 <= n < principal_bytes(p).len(),
    ensures
        parse_principal_at(principal_bytes(p).subrange(0, n), 0) is None,
{
    let enc = principal_bytes(p);
    let cut = enc.subrange(0, n);
    if parse_principal_at(cut, 0) is Some {
        lemma_principal_extend(cut, enc, 0);
        law_principal_roundtrip(p, seq![]);
        assert(enc + seq![] =~= enc);
    }
}

proof fn lemma_fields_local(d1: Seq<u8>, d2: Seq<u8>, off: int)
    requires
        same_from(d1, d2, off),
    ensures
        parse_be16_at(d1, off) == parse_be16_at(d2, off),
        parse_be32_at(d1, off) == parse_be32_at(d2, off),
        parse_u8_at(d1, off) == parse_u8_at(d2, off),
        parse_counted_at(d1, off) == parse_counted_at(d2, off),
{
    if 0 <= off && off + 4 <= d1.len() {
        assert(d1[off + 1] == d2[off + 1] && d1[off + 2] == d2[off + 2] && d1[off + 3] == d2[off + 3]);
    }
    if 0 <= off && off + 2 <= d1.len() {
        assert(d1[off] == d2[off] && d1[off + 1] == d2[off + 1]);
    }
    if 0 <= off < d1.len() {
        assert(d1[off] == d2[off]);
    }
    if parse_counted_at(d1, off) is Some {
        let (n, o) = parse_be32_at(d1, off).unwrap();
        assert(d1.subrange(o, o + n) =~= d2.subrange(o, o + n));
    }
}

proof fn lemma_components_local(d1: Seq<u8>, d2: Seq<u8>, off: int, k: nat)
    requires
        same_from(d1, d2, off),
    ensures
        parse_components_at(d1, off, k) == parse_components_at(d2, off, k),
    decreases k,
{
    if k > 0 {
        lemma_components_local(d1, d2, off, (k - 1) as nat);
        if parse_components_at(d1, off, (k - 1) as nat) is Some {
            lemma_components_advance(d1, off, (k - 1) as nat);
            lemma_fields_local(d1, d2, parse_components_at(d1, off, (k - 1) as nat).unwrap().1);
        }
    }
}

proof fn lemma_tagged_list_local(d1: Seq<u8>, d2: Seq<u8>, off: int, k: nat)
    requires
        same_from(d1, d2, off),
    ensures
        parse_tagged_list_at(d1, off, k) == parse_tagged_list_at(d2, off, k),
    decreases k,
{
    if k > 0 {
        lemma_tagged_list_local(d1, d2, off, (k - 1) as nat);
        if parse_tagged_list_at(d1, off, (k - 1) as nat) is Some {
            lemma_tagged_list_advance(d1, off, (k - 1) as nat);
            let o = parse_tagged_list_at(d1, off, (k - 1) as nat).unwrap().1;
            lemma_fields_local(d1, d2, o);
            lemma_fields_local(d1, d2, o + 2);
        }
    }
}

proof fn lemma_principal_local(d1: Seq<u8>, d2: Seq<u8>, off: int)
    requires
        same_from(d1, d2, off),
    ensures
        parse_principal_at(d1, off) == parse_principal_at(d2, off),
{
    lemma_fields_local(d1, d2, off);
    lemma_fields_local(d1, d2, off + 4);
    lemma_fields_local(d1, d2, off + 8);
    if parse_be32_at(d1, off + 4) is Some && parse_counted_at(d1, off + 8) is Some {
        let (k, o2) = parse_be32_at(d1, off + 4).unwrap();
        assert(o2 == off + 8);
        let (rb, o3) = parse_counted_at(d1, o2).unwrap();
        assert(o3 >= o2);
        lemma_components_local(d1, d2, o3, k as nat);
    }
}

proof fn lemma_credential_tail_local(d1: Seq<u8>, d2: Seq<u8>, off: int)
    requires
        same_from(d1, d2, off),
    ensures
        parse_credential_tail_at(d1, off) == parse_credential_tail_at(d2, off),
{
    lemma_fields_local(d1, d2, off);
    lemma_fields_local(d1, d2, off + 2);
    if parse_keyblock_at(d1, off) is Some {
        let o3 = parse_keyblock_at(d1, off).unwrap().1;
        lemma_fields_local(d1, d2, o3);
        lemma_fields_local(d1, d2, o3 + 4);
        lemma_fields_local(d1, d2, o3 + 8);
        lemma_fields_local(d1, d2, o3 + 12);
        lemma_fields_local(d1, d2, o3 + 16);
        lemma_fields_local(d1, d2, o3 + 17);
        lemma_fields_local(d1, d2, o3 + 21);
        if parse_be32_at(d1, o3 + 21) is Some {
            let na = parse_be32_at(d1, o3 + 21).unwrap().0;
            lemma_tagged_list_local(d1, d2, o3 + 25, na as nat);
            if parse_tagged_list_at(d1, o3 + 25, na as nat) is Some {
                lemma_tagged_list_advance(d1, o3 + 25, na as nat);
                let o8 = parse_tagged_list_at(d1, o3 + 25, na as nat).unwrap().1;
                lemma_fields_local(d1, d2, o8);
                if parse_be32_at(d1, o8) is Some {
                    let nd = parse_be32_at(d1, o8).unwrap().0;
                    lemma_tagged_list_local(d1, d2, o8 + 4, nd as nat);
                    if parse_tagged_list_at(d1, o8 + 4, nd as nat) is Some {
                        lemma_tagged_list_advance(d1, o8 + 4, nd as nat);
                        let o10 = parse_tagged_list_at(d1, o8 + 4, nd as nat).unwrap().1;
                        lemma_fields_local(d1, d2, o10);
                        if parse_counted_at(d1, o10) is Some {
                            lemma_fields_local(d1, d2, parse_counted_at(d1, o10).unwrap().1);
                        }
                    }
                }
            }
        }
    }
}

proof fn lemma_credential_local(d1: Seq<u8>, d2: Seq<u8>, off: int)
    requires
        same_from(d1, d2, off),
    ensures
        parse_credential_at(d1, off) == parse_credential_at(d2, off),
{
    reveal(parse_credential_at);
    lemma_principal_local(d1, d2, off);
    if parse_principal_at(d1, off) is Some {
        lemma_principal_advances(d1, off);
        let o1 = parse_principal_at(d1, off).unwrap().1;
        lemma_principal_local(d1, d2, o1);
        if parse_principal_at(d1, o1) is Some {
            lemma_principal_advances(d1, o1);
            lemma_credential_tail_local(d1, d2, parse_principal_at(d1, o1).unwrap().1);
        }
    }
}

proof fn lemma_credentials_local(d1: Seq<u8>, d2: Seq<u8>, off: int)
    requires
        same_from(d1, d2, off),
    ensures
        parse_credentials_from(d1, off) == parse_credentials_from(d2, off),
    decreases d1.len() - off,
{
    if 0 <= off < d1.len() {
        lemma_credential_local(d1, d2, off);
        if parse_credential_at(d1, off) is Some {
            let o = parse_credential_at(d1, off).unwrap().1;
            if off < o <= d1.len() {
                lemma_credentials_local(d1, d2, o);
            }
        }
    }
}

/// Law: the reader of a cache skips the contents of the file header: two
/// inputs that differ only in the bytes after the header's length field,
/// within the length it gives, read alike.
pub proof fn law_ccache_header_skipped(d1: Seq<u8>, d2: Seq<u8>)
    requires
        d1.len() == d2.len(),
        forall|i: int|
            0 <= i < d1.len() && (i < 4 || i >= 4 + ccache_header_len(d1)) ==> d1[i] == d2[i],
    ensures
        parse_ccache(d1) == parse_ccache(d2),
{
    lemma_fields_local_prefix(d1, d2);
    if d1.len() >= 4 {
        let h = ccache_header_len(d1);
        assert(parse_be16_at(d1, 2) == Some((h, 4int)));
        lemma_principal_local(d1, d2, 4 + h);
        if parse_principal_at(d1, 4 + h) is Some {
            lemma_principal_advances(d1, 4 + h);
            lemma_credentials_local(d1, d2, parse_principal_at(d1, 4 + h).unwrap().1);
        }
    }
}

/// The version and the header length read alike where the first four bytes agree.
proof fn lemma_fields_local_prefix(d1: Seq<u8>, d2: Seq<u8>)
    requires
        d1.len() == d2.len(),
        forall|i: int| 0 <= i < d1.len() && i < 4 ==> d1[i] == d2[i],
    ensures
        parse_be16_at(d1, 0) == parse_be16_at(d2, 0),
        parse_be16_at(d1, 2) == parse_be16_at(d2, 2),
{
    if 2 <= d1.len() {
        assert(d1[0] == d2[0] && d1[1] == d2[1]);
    }
    if 4 <= d1.len() {
        assert(d1[2] == d2[2] && d1[3] == d2[3]);
    }
}

// ───────────────── the end of a credential ─────────────────

/// Law: the encoding of a credential ends with its ticket and then its
/// second ticket, each as a 32-bit big-endian length and the bytes; so a
/// credential without a second ticket ends with four zero bytes right after
/// its counted ticket.
pub proof fn law_credential_ends_with_tickets(c: CredentialView)
    ensures
        credential_bytes(c).len() >= 8 + c.ticket.len() + c.second_ticket.len(),
        credential_bytes(c).subrange(
            credential_bytes(c).len() - (8 + c.ticket.len() + c.second_ticket.len()),
            credential_bytes(c).len() as int,
        ) == be32(c.ticket.len() as u32) + c.ticket + be32(c.second_ticket.len() as u32) + c.second_ticket,
{
    let tail = be32(c.ticket.len() as u32) + c.ticket + be32(c.second_ticket.len() as u32) + c.second_ticket;
    let head = principal_bytes(c.client) + principal_bytes(c.server) + keyblock_bytes(c.key) + times_bytes(c.time)
        + seq![c.is_skey] + be32(c.tktflags) + be32(c.addrs.len() as u32) + tagged_list_bytes(c.addrs)
        + be32(c.authdata.len() as u32) + tagged_list_bytes(c.authdata);
    assert(be32(c.ticket.len() as u32).len() == 4);
    assert(be32(c.second_ticket.len() as u32).len() == 4);
    assert(credential_bytes(c) =~= head + tail);
    assert((head + tail).subrange(head.len() as int, (head + tail).len() as int) =~= tail);
}

/// Law: the byte layout of a credential in the FCC v4 format: client and
/// server principals, the key's 16-bit encryption type and counted bytes,
/// the four times, the `is_skey` byte, the 32-bit flags, the counted
/// address and authorization-data lists, then the counted ticket and the
/// counted second ticket, every count a 32-bit big-endian integer.
pub proof fn law_credential_layout(c: CredentialView)
    ensures
        credential_bytes(c) == principal_bytes(c.client) + principal_bytes(c.server) + be16(c.key.enctype)
            + be32(c.key.keyvalue.len() as u32) + c.key.keyvalue + be32(c.time.authtime) + be32(c.time.starttime)
            + be32(c.time.endtime) + be32(c.time.renew_till) + seq![c.is_skey] + be32(c.tktflags)
            + be32(c.addrs.len() as u32) + tagged_list_bytes(c.addrs) + be32(c.authdata.len() as u32)
            + tagged_list_bytes(c.authdata) + be32(c.ticket.len() as u32) + c.ticket
            + be32(c.second_ticket.len() as u32) + c.second_ticket,
{
    assert(credential_bytes(c) =~= principal_bytes(c.client) + principal_bytes(c.server) + be16(c.key.enctype)
        + be32(c.key.keyvalue.len() as u32) + c.key.keyvalue + be32(c.time.authtime) + be32(c.time.starttime)
        + be32(c.time.endtime) + be32(c.time.renew_till) + seq![c.is_skey] + be32(c.tktflags)
        + be32(c.addrs.len() as u32) + tagged_list_bytes(c.addrs) + be32(c.authdata.len() as u32)
        + tagged_list_bytes(c.authdata) + be32(c.ticket.len() as u32) + c.ticket
        + be32(c.second_ticket.len() as u32) + c.second_ticket);
}

} // verus!
