use vstd::prelude::*;

verus! {

/// Little-endian value of the two bytes of `s` at `offset`.
pub open spec fn le_u16(s: Seq<u8>, offset: int) -> int {
    s[offset] + 256 * s[offset + 1]
}

/// Little-endian value of the four bytes of `s` at `offset`.
pub open spec fn le_u32(s: Seq<u8>, offset: int) -> int {
    le_u16(s, offset) + 65536 * le_u16(s, offset + 2)
}

/// Little-endian value of the eight bytes of `s` at `offset`.
pub open spec fn le_u64(s: Seq<u8>, offset: int) -> int {
    le_u32(s, offset) + 0x1_0000_0000 * le_u32(s, offset + 4)
}

/// The two little-endian bytes of `x`.
pub open spec fn u16_le_bytes(x: u16) -> Seq<u8> {
    seq![(x % 256) as u8, (x / 256) as u8]
}

/// The four little-endian bytes of `x`.
pub open spec fn u32_le_bytes(x: u32) -> Seq<u8> {
    u16_le_bytes((x % 65536) as u16) + u16_le_bytes((x / 65536) as u16)
}

/// The eight little-endian bytes of `x`.
pub open spec fn u64_le_bytes(x: u64) -> Seq<u8> {
    u32_le_bytes((x % 0x1_0000_0000) as u32) + u32_le_bytes((x / 0x1_0000_0000) as u32)
}

pub proof fn lemma_u16_le_roundtrip(x: u16, s: Seq<u8>, offset: int)
    requires
        0 <= offset,
        offset + 2 <= s.len(),
        s.subrange(offset, offset + 2) == u16_le_bytes(x),
    ensures
        le_u16(s, offset) == x,
{
    assert(s[offset] == s.subrange(offset, offset + 2)[0]);
    assert(s[offset + 1] == s.subrange(offset, offset + 2)[1]);
}

pub proof fn lemma_u32_le_roundtrip(x: u32, s: Seq<u8>, offset: int)
    requires
        0 <= offset,
        offset + 4 <= s.len(),
        s.subrange(offset, offset + 4) == u32_le_bytes(x),
    ensures
        le_u32(s, offset) == x,
{
    let lo = (x % 65536) as u16;
    let hi = (x / 65536) as u16;
    assert(s.subrange(offset, offset + 2) =~= s.subrange(offset, offset + 4).subrange(0, 2));
    assert(s.subrange(offset + 2, offset + 4) =~= s.subrange(offset, offset + 4).subrange(2, 4));
    assert(u32_le_bytes(x).subrange(0, 2) =~= u16_le_bytes(lo));
    assert(u32_le_bytes(x).subrange(2, 4) =~= u16_le_bytes(hi));
    lemma_u16_le_roundtrip(lo, s, offset);
    lemma_u16_le_roundtrip(hi, s, offset + 2);
}

pub proof fn lemma_u64_le_roundtrip(x: u64, s: Seq<u8>, offset: int)
    requires
        0 <= offset,
        offset + 8 <= s.len(),
        s.subrange(offset, offset + 8) == u64_le_bytes(x),
    ensures
        le_u64(s, offset) == x,
{
    let lo = (x % 0x1_0000_0000) as u32;
    let hi = (x / 0x1_0000_0000) as u32;
    assert(s.subrange(offset, offset + 4) =~= s.subrange(offset, offset + 8).subrange(0, 4));
    assert(s.subrange(offset + 4, offset + 8) =~= s.subrange(offset, offset + 8).subrange(4, 8));
    assert(u64_le_bytes(x).subrange(0, 4) =~= u32_le_bytes(lo));
    assert(u64_le_bytes(x).subrange(4, 8) =~= u32_le_bytes(hi));
    lemma_u32_le_roundtrip(lo, s, offset);
    lemma_u32_le_roundtrip(hi, s, offset + 4);
}

/// The four little-endian bytes of `x`.
pub fn write_u32_le(x: u32) -> (b: [u8; 4])
    ensures
        b@ == u32_le_bytes(x),
{
    let lo = x % 65536;
    let hi = x / 65536;
    let b = [(lo % 256) as u8, (lo / 256) as u8, (hi % 256) as u8, (hi / 256) as u8];
    assert(b@ =~= u32_le_bytes(x));
    b
}

/// The eight little-endian bytes of `x`.
pub fn write_u64_le(x: u64) -> (b: [u8; 8])
    ensures
        b@ == u64_le_bytes(x),
{
    let lo = write_u32_le((x % 0x1_0000_0000) as u32);
    let hi = write_u32_le((x / 0x1_0000_0000) as u32);
    let b = [lo[0], lo[1], lo[2], lo[3], hi[0], hi[1], hi[2], hi[3]];
    assert(b@ =~= u64_le_bytes(x));
    b
}

/// The little-endian `u16` at `offset`.
pub fn get_u16_le(bytes: &[u8], offset: usize) -> (v: u16)
    requires
        offset + 2 <= bytes@.len(),
    ensures
        v == le_u16(bytes@, offset as int),
{
    bytes[offset] as u16 + (bytes[offset + 1] as u16) * 256
}

/// The little-endian `u32` at `offset`.
pub fn get_u32_le(bytes: &[u8], offset: usize) -> (v: u32)
    requires
        offset + 4 <= bytes@.len(),
    ensures
        v == le_u32(bytes@, offset as int),
{
    let lo = bytes[offset] as u32 + (bytes[offset + 1] as u32) * 256;
    let hi = bytes[offset + 2] as u32 + (bytes[offset + 3] as u32) * 256;
    lo + hi * 65536
}


/// The little-endian `u64` at `offset`.
pub fn get_u64_le(bytes: &[u8], offset: usize) -> (v: u64)
    requires
        offset + 8 <= bytes@.len(),
    ensures
        v == le_u64(bytes@, offset as int),
{
    let n = bytes.len();
    assert(offset + 8 <= n);
    let lo = get_u32_le(bytes, offset) as u64;
    let hi = get_u32_le(bytes, offset + 4) as u64;
    lo + hi * 0x1_0000_0000
}

/// Appends the two little-endian bytes of `x`.
pub fn push_u16_le(out: &mut Vec<u8>, x: u16)
    ensures
        final(out)@ == old(out)@ + u16_le_bytes(x),
{
    out.push((x % 256) as u8);
    out.push((x / 256) as u8);
    assert(final(out)@ =~= old(out)@ + u16_le_bytes(x));
}

/// Appends the four little-endian bytes of `x`.
pub fn push_u32_le(out: &mut Vec<u8>, x: u32)
    ensures
        final(out)@ == old(out)@ + u32_le_bytes(x),
{
    let b = write_u32_le(x);
    out.push(b[0]);
    out.push(b[1]);
    out.push(b[2]);
    out.push(b[3]);
    assert(final(out)@ =~= old(out)@ + u32_le_bytes(x));
}

/// Appends the eight little-endian bytes of `x`.
pub fn push_u64_le(out: &mut Vec<u8>, x: u64)
    ensures
        final(out)@ == old(out)@ + u64_le_bytes(x),
{
    let b = write_u64_le(x);
    let mut i: usize = 0;
    while i < 8
        invariant
            i <= 8,
            b@ == u64_le_bytes(x),
            out@ == old(out)@ + b@.take(i as int),
        decreases 8 - i,
    {
        out.push(b[i]);
        assert(b@.take(i + 1) =~= b@.take(i as int).push(b@[i as int]));
        i = i + 1;
    }
    assert(b@.take(8) =~= b@);
}

} // verus!
