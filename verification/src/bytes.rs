//! Little- and big-endian byte encodings of fixed-width integers.
use vstd::prelude::*;

verus! {

/// The two little-endian bytes of `x`.
pub open spec fn le16(x: u16) -> Seq<u8> {
    seq![(x % 256) as u8, (x / 256) as u8]
}

/// The four little-endian bytes of `x`.
pub open spec fn le32(x: u32) -> Seq<u8> {
    seq![(x % 256) as u8, ((x / 256) % 256) as u8, ((x / 65536) % 256) as u8, (x / 16777216) as u8]
}

/// The eight little-endian bytes of `x`.
pub open spec fn le64(x: u64) -> Seq<u8> {
    le32((x % 4294967296) as u32) + le32((x / 4294967296) as u32)
}

/// The number whose little-endian bytes are `b0, b1`.
pub open spec fn from_le16(b0: u8, b1: u8) -> u16 {
    (b0 + 256 * b1) as u16
}

/// The number whose little-endian bytes are `b0, .., b3`.
pub open spec fn from_le32(b0: u8, b1: u8, b2: u8, b3: u8) -> u32 {
    (b0 + 256 * b1 + 65536 * b2 + 16777216 * b3) as u32
}

/// The number whose big-endian bytes are `b0, b1`.
pub open spec fn from_be16(b0: u8, b1: u8) -> u16 {
    (256 * b0 + b1) as u16
}

/// The number whose big-endian bytes are `b0, .., b3`.
pub open spec fn from_be32(b0: u8, b1: u8, b2: u8, b3: u8) -> u32 {
    (16777216 * b0 + 65536 * b1 + 256 * b2 + b3) as u32
}

/// `from_le16` undoes `le16`.
pub proof fn lemma_le16_roundtrip(x: u16)
    ensures
        le16(x).len() == 2,
        from_le16(le16(x)[0], le16(x)[1]) == x,
{
}

/// `from_le32` undoes `le32`.
pub proof fn lemma_le32_roundtrip(x: u32)
    ensures
        le32(x).len() == 4,
        from_le32(le32(x)[0], le32(x)[1], le32(x)[2], le32(x)[3]) == x,
{
    let b0 = x % 256;
    let b1 = (x / 256) % 256;
    let b2 = (x / 65536) % 256;
    let b3 = x / 16777216;
    assert(b3 < 256);
    assert(x == b0 + 256 * b1 + 65536 * b2 + 16777216 * b3) by (nonlinear_arith)
        requires
            b0 == x % 256,
            b1 == (x / 256) % 256,
            b2 == (x / 65536) % 256,
            b3 == x / 16777216,
            0 <= x,
    {
        assert(x == (x / 256) * 256 + x % 256);
        assert(x / 256 == ((x / 256) / 256) * 256 + (x / 256) % 256);
        assert((x / 256) / 256 == x / 65536);
        assert(x / 65536 == ((x / 65536) / 256) * 256 + (x / 65536) % 256);
        assert((x / 65536) / 256 == x / 16777216);
    }
}

/// Appends the little-endian bytes of `x` to `out`.
pub fn push_le16(out: &mut Vec<u8>, x: u16)
    ensures
        final(out)@ == old(out)@ + le16(x),
{
    out.push((x % 256) as u8);
    out.push((x / 256) as u8);
}

/// Appends the little-endian bytes of `x` to `out`.
pub fn push_le32(out: &mut Vec<u8>, x: u32)
    ensures
        final(out)@ == old(out)@ + le32(x),
{
    out.push((x % 256) as u8);
    out.push(((x / 256) % 256) as u8);
    out.push(((x / 65536) % 256) as u8);
    out.push((x / 16777216) as u8);
}

/// Appends the little-endian bytes of `x` to `out`.
pub fn push_le64(out: &mut Vec<u8>, x: u64)
    ensures
        final(out)@ == old(out)@ + le64(x),
{
    push_le32(out, (x % 4294967296) as u32);
    push_le32(out, (x / 4294967296) as u32);
}

/// Appends all of `data` to `out`.
pub fn push_all(out: &mut Vec<u8>, data: &[u8])
    ensures
        final(out)@ == old(out)@ + data@,
{
    let mut i: usize = 0;
    while i < data.len()
        invariant
            i <= data.len(),
            out@ == old(out)@ + data@.take(i as int),
        decreases data.len() - i,
    {
        out.push(data[i]);
        assert(data@.take(i + 1) =~= data@.take(i as int).push(data@[i as int]));
        i = i + 1;
    }
    assert(data@.take(data.len() as int) =~= data@);
}

/// Reads a little-endian `u16` from two bytes.
pub fn read_le16(b0: u8, b1: u8) -> (res: u16)
    ensures
        res == from_le16(b0, b1),
{
    b0 as u16 + 256 * (b1 as u16)
}

/// Reads a little-endian `u32` from four bytes.
pub fn read_le32(b0: u8, b1: u8, b2: u8, b3: u8) -> (res: u32)
    ensures
        res == from_le32(b0, b1, b2, b3),
{
    b0 as u32 + 256 * (b1 as u32) + 65536 * (b2 as u32) + 16777216 * (b3 as u32)
}

/// Reads a big-endian `u16` from two bytes.
pub fn read_be16(b0: u8, b1: u8) -> (res: u16)
    ensures
        res == from_be16(b0, b1),
{
    256 * (b0 as u16) + b1 as u16
}

/// Reads a big-endian `u32` from four bytes.
pub fn read_be32(b0: u8, b1: u8, b2: u8, b3: u8) -> (res: u32)
    ensures
        res == from_be32(b0, b1, b2, b3),
{
    16777216 * (b0 as u32) + 65536 * (b1 as u32) + 256 * (b2 as u32) + b3 as u32
}

} // verus!
