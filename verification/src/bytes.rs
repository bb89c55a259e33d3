//! Big-endian integer and counted-octet-string encoding, the primitives of
//! the MIT credential cache format.

use vstd::prelude::*;

verus! {

/// The error of every reader of the credential cache format.
#[derive(Debug, Clone, Copy, PartialEq, Eq, Structural)]
pub enum CCacheError {
    /// The data ends before the field that is being read.
    UnexpectedEof,
    /// The file does not start with the FCC v4 version tag; holds the tag read.
    UnsupportedVersion(u16),
}

/// The two bytes of `v`, most significant first.
pub open spec fn be16(v: u16) -> Seq<u8> {
    seq![(v >> 8u16) as u8, v as u8]
}

/// The four bytes of `v`, most significant first.
pub open spec fn be32(v: u32) -> Seq<u8> {
    seq![(v >> 24u32) as u8, (v >> 16u32) as u8, (v >> 8u32) as u8, v as u8]
}

/// The value of two bytes read most significant first.
pub open spec fn be16_join(b0: u8, b1: u8) -> u16 {
    ((b0 as u16) << 8u16) | (b1 as u16)
}

/// The value of four bytes read most significant first.
pub open spec fn be32_join(b0: u8, b1: u8, b2: u8, b3: u8) -> u32 {
    ((b0 as u32) << 24u32) | ((b1 as u32) << 16u32) | ((b2 as u32) << 8u32) | (b3 as u32)
}

/// A counted octet string: its length as a (truncated) 32-bit big-endian
/// integer, then its bytes.
pub open spec fn counted(b: Seq<u8>) -> Seq<u8> {
    be32(b.len() as u32) + b
}

/// `b` stands in `d` from position `off` on.
pub open spec fn bytes_at(d: Seq<u8>, off: int, b: Seq<u8>) -> bool {
    &&& 0 <= off
    &&& off + b.len() <= d.len()
    &&& forall|i: int| 0 <= i < b.len() ==> #[trigger] d[off + i] == b[i]
}

/// Reads a 16-bit big-endian integer at `off`; the offset after it.
pub open spec fn parse_be16_at(d: Seq<u8>, off: int) -> Option<(u16, int)> {
    if 0 <= off && off + 2 <= d.len() {
        Some((be16_join(d[off], d[off + 1]), off + 2))
    } else {
        None
    }
}

/// Reads a 32-bit big-endian integer at `off`; the offset after it.
pub open spec fn parse_be32_at(d: Seq<u8>, off: int) -> Option<(u32, int)> {
    if 0 <= off && off + 4 <= d.len() {
        Some((be32_join(d[off], d[off + 1], d[off + 2], d[off + 3]), off + 4))
    } else {
        None
    }
}

/// Reads a counted octet string at `off`; the offset after it.
pub open spec fn parse_counted_at(d: Seq<u8>, off: int) -> Option<(Seq<u8>, int)> {
    match parse_be32_at(d, off) {
        Some((n, o)) => if o + n <= d.len() {
            Some((d.subrange(o, o + n), o + n))
        } else {
            None
        },
        None => None,
    }
}

/// Reads `n` bytes at `off`; the offset after them.
pub open spec fn parse_bytes_at(d: Seq<u8>, off: int, n: int) -> Option<(Seq<u8>, int)> {
    if 0 <= off && 0 <= n && off + n <= d.len() {
        Some((d.subrange(off, off + n), off + n))
    } else {
        None
    }
}

pub proof fn lemma_be16_roundtrip(v: u16)
    ensures
        be16_join(be16(v)[0], be16(v)[1]) == v,
{
    let b0 = (v >> 8u16) as u8;
    let b1 = v as u8;
    assert(be16_join(b0, b1) == v) by (bit_vector)
        requires
            b0 == (v >> 8u16) as u8,
            b1 == v as u8,
    ;
}

pub proof fn lemma_be32_roundtrip(v: u32)
    ensures
        be32_join(be32(v)[0], be32(v)[1], be32(v)[2], be32(v)[3]) == v,
{
    let b0 = (v >> 24u32) as u8;
    let b1 = (v >> 16u32) as u8;
    let b2 = (v >> 8u32) as u8;
    let b3 = v as u8;
    assert(be32_join(b0, b1, b2, b3) == v) by (bit_vector)
        requires
            b0 == (v >> 24u32) as u8,
            b1 == (v >> 16u32) as u8,
            b2 == (v >> 8u32) as u8,
            b3 == v as u8,
    ;
}

/// A prefix of bytes standing at `off` stands there too, and the rest
/// follows it.
pub proof fn lemma_bytes_at_split(d: Seq<u8>, off: int, a: Seq<u8>, b: Seq<u8>)
    requires
        bytes_at(d, off, a + b),
    ensures
        bytes_at(d, off, a),
        bytes_at(d, off + a.len(), b),
{
    assert forall|i: int| 0 <= i < a.len() implies #[trigger] d[off + i] == a[i] by {
        assert((a + b)[i] == a[i]);
    }
    assert forall|i: int| 0 <= i < b.len() implies #[trigger] d[off + a.len() + i] == b[i] by {
        assert(d[off + (a.len() + i)] == (a + b)[a.len() + i]);
    }
    assert forall|i: int| 0 <= i < b.len() implies #[trigger] d[(off + a.len()) + i] == b[i] by {
        assert(d[off + a.len() + i] == b[i]);
    }
}

pub proof fn lemma_bytes_at_whole(d: Seq<u8>)
    ensures
        bytes_at(d, 0, d),
{
    assert forall|i: int| 0 <= i < d.len() implies #[trigger] d[0 + i] == d[i] by {}
}

pub proof fn lemma_parse_be16_at(d: Seq<u8>, off: int, v: u16)
    requires
        bytes_at(d, off, be16(v)),
    ensures
        parse_be16_at(d, off) == Some((v, off + 2)),
{
    assert(d[off + 0] == be16(v)[0]);
    assert(d[off + 1] == be16(v)[1]);
    lemma_be16_roundtrip(v);
}

pub proof fn lemma_parse_be32_at(d: Seq<u8>, off: int, v: u32)
    requires
        bytes_at(d, off, be32(v)),
    ensures
        parse_be32_at(d, off) == Some((v, off + 4)),
{
    assert(d[off + 0] == be32(v)[0]);
    assert(d[off + 1] == be32(v)[1]);
    assert(d[off + 2] == be32(v)[2]);
    assert(d[off + 3] == be32(v)[3]);
    lemma_be32_roundtrip(v);
}

pub proof fn lemma_parse_counted_at(d: Seq<u8>, off: int, b: Seq<u8>)
    requires
        bytes_at(d, off, counted(b)),
        b.len() <= u32::MAX,
    ensures
        parse_counted_at(d, off) == Some((b, off + 4 + b.len())),
{
    lemma_bytes_at_split(d, off, be32(b.len() as u32), b);
    lemma_parse_be32_at(d, off, b.len() as u32);
    assert(d.subrange(off + 4, off + 4 + b.len()) =~= b) by {
        assert forall|i: int| 0 <= i < b.len() implies d.subrange(off + 4, off + 4 + b.len())[i]
            == b[i] by {
            assert(d[(off + 4) + i] == b[i]);
        }
    }
}

/// Appends the two big-endian bytes of `v`.
pub fn write_be16(buf: &mut Vec<u8>, v: u16)
    ensures
        final(buf)@ == old(buf)@ + be16(v),
{
    buf.push((v >> 8u16) as u8);
    buf.push(v as u8);
    assert(final(buf)@ =~= old(buf)@ + be16(v));
}

/// Appends the four big-endian bytes of `v`.
pub fn write_be32(buf: &mut Vec<u8>, v: u32)
    ensures
        final(buf)@ == old(buf)@ + be32(v),
{
    buf.push((v >> 24u32) as u8);
    buf.push((v >> 16u32) as u8);
    buf.push((v >> 8u32) as u8);
    buf.push(v as u8);
    assert(final(buf)@ =~= old(buf)@ + be32(v));
}

/// Appends `data` byte by byte.
pub fn write_raw(buf: &mut Vec<u8>, data: &[u8])
    ensures
        final(buf)@ == old(buf)@ + data@,
{
    let ghost start = buf@;
    let mut i: usize = 0;
    while i < data.len()
        invariant
            i <= data@.len(),
            buf@ == start + data@.subrange(0, i as int),
        decreases data@.len() - i,
    {
        buf.push(data[i]);
        i = i + 1;
        assert(buf@ =~= start + data@.subrange(0, i as int));
    }
    assert(data@.subrange(0, data@.len() as int) =~= data@);
}

/// Appends a counted octet string: the length of `data` as a 32-bit
/// big-endian integer (truncated as a cast does), then `data`.
pub fn write_counted(buf: &mut Vec<u8>, data: &[u8])
    ensures
        final(buf)@ == old(buf)@ + counted(data@),
{
    write_be32(buf, data.len() as u32);
    write_raw(buf, data);
    assert(final(buf)@ =~= old(buf)@ + counted(data@));
}

/// Reads a 16-bit big-endian integer at `*off` and moves `*off` past it.
pub fn read_be16(data: &[u8], off: &mut usize) -> (res: Result<u16, CCacheError>)
    requires
        *old(off) <= data@.len(),
    ensures
        match res {
            Ok(v) => parse_be16_at(data@, *old(off) as int) == Some((v, *final(off) as int)),
            Err(e) => parse_be16_at(data@, *old(off) as int) is None && e == CCacheError::UnexpectedEof
                && *final(off) == *old(off),
        },
{
    if data.len() - *off < 2 {
        return Err(CCacheError::UnexpectedEof);
    }
    let o = *off;
    let v = ((data[o] as u16) << 8u16) | (data[o + 1] as u16);
    *off = o + 2;
    Ok(v)
}

/// Reads a 32-bit big-endian integer at `*off` and moves `*off` past it.
pub fn read_be32(data: &[u8], off: &mut usize) -> (res: Result<u32, CCacheError>)
    requires
        *old(off) <= data@.len(),
    ensures
        match res {
            Ok(v) => parse_be32_at(data@, *old(off) as int) == Some((v, *final(off) as int)),
            Err(e) => parse_be32_at(data@, *old(off) as int) is None && e == CCacheError::UnexpectedEof
                && *final(off) == *old(off),
        },
{
    if data.len() - *off < 4 {
        return Err(CCacheError::UnexpectedEof);
    }
    let o = *off;
    let v = ((data[o] as u32) << 24u32) | ((data[o + 1] as u32) << 16u32) | ((data[o + 2] as u32)
        << 8u32) | (data[o + 3] as u32);
    *off = o + 4;
    Ok(v)
}

/// Reads a counted octet string at `*off` and moves `*off` past it.
pub fn read_counted(data: &[u8], off: &mut usize) -> (res: Result<Vec<u8>, CCacheError>)
    requires
        *old(off) <= data@.len(),
    ensures
        *final(off) <= data@.len(),
        match res {
            Ok(v) => parse_counted_at(data@, *old(off) as int) == Some((v@, *final(off) as int)),
            Err(e) => parse_counted_at(data@, *old(off) as int) is None && e == CCacheError::UnexpectedEof,
        },
{
    let len = read_be32(data, off)?;
    let o = *off;
    if len as usize > data.len() - o {
        return Err(CCacheError::UnexpectedEof);
    }
    let end = o + len as usize;
    let buf = vstd::slice::slice_to_vec(vstd::slice::slice_subrange(data, o, end));
    *off = end;
    Ok(buf)
}

/// Reads `n` raw bytes at `*off` and moves `*off` past them.
pub fn read_bytes<'a>(data: &'a [u8], off: &mut usize, n: usize) -> (res: Result<&'a [u8], CCacheError>)
    requires
        *old(off) <= data@.len(),
    ensures
        *final(off) <= data@.len(),
        match res {
            Ok(v) => parse_bytes_at(data@, *old(off) as int, n as int) == Some((v@, *final(off) as int)),
            Err(e) => parse_bytes_at(data@, *old(off) as int, n as int) is None
                && e == CCacheError::UnexpectedEof && *final(off) == *old(off),
        },
{
    if n > data.len() - *off {
        return Err(CCacheError::UnexpectedEof);
    }
    let o = *off;
    let buf = vstd::slice::slice_subrange(data, o, o + n);
    *off = o + n;
    Ok(buf)
}

} // verus!
