//! Little-endian integer fields inside byte buffers.
use vstd::prelude::*;

verus! {

/// The little-endian encoding of a 16-bit value.
pub open spec fn le16(v: int) -> Seq<u8> {
    seq![(v % 256) as u8, ((v / 256) % 256) as u8]
}

/// The little-endian encoding of a 32-bit value.
pub open spec fn le32(v: int) -> Seq<u8> {
    seq![
        (v % 256) as u8,
        ((v / 256) % 256) as u8,
        ((v / 65536) % 256) as u8,
        ((v / 16777216) % 256) as u8,
    ]
}

/// The 16-bit little-endian value stored at `off`.
pub open spec fn le_u16_at(s: Seq<u8>, off: int) -> int {
    s[off] as int + 256 * s[off + 1] as int
}

/// The 32-bit little-endian value stored at `off`.
pub open spec fn le_u32_at(s: Seq<u8>, off: int) -> int {
    s[off] as int + 256 * s[off + 1] as int + 65536 * s[off + 2] as int + 16777216 * s[off
        + 3] as int
}

/// Reading back a value that was written in little-endian order gives the value.
pub proof fn lemma_le32_roundtrip(v: int, s: Seq<u8>, off: int)
    requires
        0 <= v < 0x1_0000_0000,
        0 <= off,
        off + 4 <= s.len(),
        s.subrange(off, off + 4) == le32(v),
    ensures
        le_u32_at(s, off) == v,
{
    assert(s[off] == le32(v)[0]);
    assert(s[off + 1] == le32(v)[1]);
    assert(s[off + 2] == le32(v)[2]);
    assert(s[off + 3] == le32(v)[3]);
}

/// Reading back a 16-bit value that was written in little-endian order gives the value.
pub proof fn lemma_le16_roundtrip(v: int, s: Seq<u8>, off: int)
    requires
        0 <= v < 0x1_0000,
        0 <= off,
        off + 2 <= s.len(),
        s.subrange(off, off + 2) == le16(v),
    ensures
        le_u16_at(s, off) == v,
{
    assert(s[off] == le16(v)[0]);
    assert(s[off + 1] == le16(v)[1]);
}

/// `s` with the four bytes at `off` replaced by the little-endian encoding of `v`.
pub open spec fn with_le32(s: Seq<u8>, off: int, v: int) -> Seq<u8> {
    s.subrange(0, off) + le32(v) + s.subrange(off + 4, s.len() as int)
}

/// Reads the 16-bit little-endian value at `off`.
pub fn read_u16_le(s: &[u8], off: usize) -> (v: u16)
    requires
        off + 2 <= s@.len(),
    ensures
        v == le_u16_at(s@, off as int),
{
    s[off] as u16 + 256 * (s[off + 1] as u16)
}

/// Reads the 32-bit little-endian value at `off`.
pub fn read_u32_le(s: &[u8], off: usize) -> (v: u32)
    requires
        off + 4 <= s@.len(),
    ensures
        v == le_u32_at(s@, off as int),
{
    s[off] as u32 + 256 * (s[off + 1] as u32) + 65536 * (s[off + 2] as u32) + 16777216 * (s[off
        + 3] as u32)
}

/// Appends the 16-bit little-endian encoding of `x`.
pub fn push_u16_le(out: &mut Vec<u8>, x: u16)
    ensures
        final(out)@ == old(out)@ + le16(x as int),
{
    out.push((x % 256) as u8);
    out.push((x / 256) as u8);
    proof {
        assert(final(out)@ =~= old(out)@ + le16(x as int));
    }
}

/// Appends the 32-bit little-endian encoding of `x`.
pub fn push_u32_le(out: &mut Vec<u8>, x: u32)
    ensures
        final(out)@ == old(out)@ + le32(x as int),
{
    out.push((x % 256) as u8);
    out.push(((x / 256) % 256) as u8);
    out.push(((x / 65536) % 256) as u8);
    out.push((x / 16777216) as u8);
    proof {
        assert(final(out)@ =~= old(out)@ + le32(x as int));
    }
}

/// Overwrites the four bytes at `off` with the little-endian encoding of `x`.
pub fn write_u32_le(out: &mut Vec<u8>, off: usize, x: u32)
    requires
        off + 4 <= old(out)@.len(),
    ensures
        final(out)@ == with_le32(old(out)@, off as int, x as int),
        final(out)@.len() == old(out)@.len(),
        final(out)@.subrange(off as int, off + 4) == le32(x as int),
        forall|i: int|
            0 <= i < old(out)@.len() && !(off <= i < off + 4) ==> #[trigger] final(out)@[i]
                == old(out)@[i],
{
    let n = out.len();
    assert(off + 4 <= n);
    let o1 = off + 1;
    let o2 = off + 2;
    let o3 = off + 3;
    out.set(off, (x % 256) as u8);
    out.set(o1, ((x / 256) % 256) as u8);
    out.set(o2, ((x / 65536) % 256) as u8);
    out.set(o3, (x / 16777216) as u8);
    proof {
        assert(final(out)@.subrange(off as int, off + 4) =~= le32(x as int));
        assert(final(out)@ =~= with_le32(old(out)@, off as int, x as int));
    }
}

} // verus!
