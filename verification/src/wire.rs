//! Byte-level helpers shared by the codecs: little-endian writers that
//! append to an output buffer, bounded readers over an input slice, and a
//! lemma about subranges of an already-matched region.

use vstd::bytes::*;
use vstd::prelude::*;
use vstd::slice::*;

verus! {

/// Appends the two little-endian bytes of `v` to `buf`.
pub fn write_u16_le(buf: &mut Vec<u8>, v: u16)
    ensures
        final(buf)@ == old(buf)@ + spec_u16_to_le_bytes(v),
{
    let bs = u16_to_le_bytes(v);
    buf.push(bs[0]);
    buf.push(bs[1]);
    assert(buf@ =~= old(buf)@ + spec_u16_to_le_bytes(v));
}

/// Appends the four little-endian bytes of `v` to `buf`.
pub fn write_u32_le(buf: &mut Vec<u8>, v: u32)
    ensures
        final(buf)@ == old(buf)@ + spec_u32_to_le_bytes(v),
{
    let bs = u32_to_le_bytes(v);
    buf.push(bs[0]);
    buf.push(bs[1]);
    buf.push(bs[2]);
    buf.push(bs[3]);
    assert(buf@ =~= old(buf)@ + spec_u32_to_le_bytes(v));
}

/// Appends the eight little-endian bytes of `v` to `buf`.
pub fn write_u64_le(buf: &mut Vec<u8>, v: u64)
    ensures
        final(buf)@ == old(buf)@ + spec_u64_to_le_bytes(v),
{
    let bs = u64_to_le_bytes(v);
    let mut i: usize = 0;
    while i < 8
        invariant
            i <= 8,
            bs@ == spec_u64_to_le_bytes(v),
            bs@.len() == 8,
            buf@ == old(buf)@ + spec_u64_to_le_bytes(v).subrange(0, i as int),
        decreases 8 - i,
    {
        buf.push(bs[i]);
        assert(buf@ =~= old(buf)@ + spec_u64_to_le_bytes(v).subrange(0, i + 1 as int));
        i = i + 1;
    }
    assert(buf@ =~= old(buf)@ + spec_u64_to_le_bytes(v));
}

/// Reads a 16-bit little-endian word at `pos`.
pub fn read_u16_le(bytes: &[u8], pos: usize) -> (v: u16)
    requires
        pos + 2 <= bytes@.len(),
    ensures
        v == spec_u16_from_le_bytes(bytes@.subrange(pos as int, pos + 2)),
{
    let n: usize = bytes.len();
    u16_from_le_bytes(slice_subrange(bytes, pos, pos + 2))
}

/// Reads a 32-bit little-endian word at `pos`.
pub fn read_u32_le(bytes: &[u8], pos: usize) -> (v: u32)
    requires
        pos + 4 <= bytes@.len(),
    ensures
        v == spec_u32_from_le_bytes(bytes@.subrange(pos as int, pos + 4)),
{
    let n: usize = bytes.len();
    u32_from_le_bytes(slice_subrange(bytes, pos, pos + 4))
}

/// Reads a 64-bit little-endian word at `pos`.
pub fn read_u64_le(bytes: &[u8], pos: usize) -> (v: u64)
    requires
        pos + 8 <= bytes@.len(),
    ensures
        v == spec_u64_from_le_bytes(bytes@.subrange(pos as int, pos + 8)),
{
    let n: usize = bytes.len();
    u64_from_le_bytes(slice_subrange(bytes, pos, pos + 8))
}

/// Reads the byte at `pos`.
pub fn read_u8(bytes: &[u8], pos: usize) -> (v: u8)
    requires
        pos < bytes@.len(),
    ensures
        v == bytes@[pos as int],
{
    *slice_index_get(bytes, pos)
}

/// If the region of `s` starting at `pos` matches `e`, then every window of
/// that region matches the corresponding window of `e`.
pub proof fn lemma_subrange_of_match(s: Seq<u8>, pos: int, e: Seq<u8>, a: int, b: int)
    requires
        0 <= pos,
        pos + e.len() <= s.len(),
        s.subrange(pos, pos + e.len()) == e,
        0 <= a <= b <= e.len(),
    ensures
        s.subrange(pos + a, pos + b) == e.subrange(a, b),
{
    assert(s.subrange(pos + a, pos + b) =~= e.subrange(a, b)) by {
        assert forall|i: int| 0 <= i < b - a implies s.subrange(pos + a, pos + b)[i] == e.subrange(
            a,
            b,
        )[i] by {
            assert(s.subrange(pos + a, pos + b)[i] == s[pos + a + i]);
            assert(e.subrange(a, b)[i] == e[a + i]);
            assert(e[a + i] == s.subrange(pos, pos + e.len())[a + i]);
        }
    }
}

} // verus!
