//! Little-endian integer layout and small buffer helpers shared by every
//! record codec.
//!
//! The format stores every numeric field little-endian.  The spec functions
//! here define that layout once; the executable helpers are proved against
//! them, and the lemmas relate the two directions (a value laid out and read
//! back is itself, bytes read and laid out again are themselves).

use vstd::prelude::*;

verus! {

/// The two bytes of `v` in little-endian order.
pub open spec fn u16_le(v: u16) -> Seq<u8> {
    seq![(v % 256) as u8, (v / 256) as u8]
}

/// The four bytes of `v` in little-endian order.
pub open spec fn u32_le(v: u32) -> Seq<u8> {
    seq![
        (v % 256) as u8,
        ((v / 256) % 256) as u8,
        ((v / 65536) % 256) as u8,
        (v / 16777216) as u8,
    ]
}

/// The value of two little-endian bytes.
pub open spec fn u16_from(b0: u8, b1: u8) -> u16 {
    (b0 + 256 * b1) as u16
}

/// The value of four little-endian bytes.
pub open spec fn u32_from(b0: u8, b1: u8, b2: u8, b3: u8) -> u32 {
    (b0 + 256 * b1 + 65536 * b2 + 16777216 * b3) as u32
}

/// Reading back the two bytes of a value yields the value.
pub proof fn lemma_u16_le_from(v: u16)
    ensures
        u16_from(u16_le(v)[0], u16_le(v)[1]) == v,
{
    assert(v % 256 + 256 * (v / 256) == v) by (nonlinear_arith);
}

/// Laying out the value of two bytes yields the same two bytes.
pub proof fn lemma_u16_from_le(b0: u8, b1: u8)
    ensures
        u16_le(u16_from(b0, b1)) =~= seq![b0, b1],
{
    let v = u16_from(b0, b1);
    assert(v == b0 + 256 * b1);
    assert((b0 + 256 * b1) % 256 == b0 && (b0 + 256 * b1) / 256 == b1) by (nonlinear_arith)
        requires
            0 <= b0 < 256 && 0 <= b1 < 256,
    ;
}

/// Reading back the four bytes of a value yields the value.
pub proof fn lemma_u32_le_from(v: u32)
    ensures
        u32_from(u32_le(v)[0], u32_le(v)[1], u32_le(v)[2], u32_le(v)[3]) == v,
{
    assert(v % 256 + 256 * ((v / 256) % 256) + 65536 * ((v / 65536) % 256) + 16777216 * (v
        / 16777216) == v) by (bit_vector);
}

/// Laying out the value of four bytes yields the same four bytes.
pub proof fn lemma_u32_from_le(b0: u8, b1: u8, b2: u8, b3: u8)
    ensures
        u32_le(u32_from(b0, b1, b2, b3)) =~= seq![b0, b1, b2, b3],
{
    let v = u32_from(b0, b1, b2, b3);
    assert(b0 + 256 * b1 + 65536 * b2 + 16777216 * b3 < 4294967296) by (nonlinear_arith)
        requires
            0 <= b0 < 256 && 0 <= b1 < 256 && 0 <= b2 < 256 && 0 <= b3 < 256,
    ;
    assert(v == b0 + 256 * b1 + 65536 * b2 + 16777216 * b3);
    assert((b0 + 256 * b1 + 65536 * b2 + 16777216 * b3) % 256 == b0 && ((b0 + 256 * b1 + 65536 * b2
        + 16777216 * b3) / 256) % 256 == b1 && ((b0 + 256 * b1 + 65536 * b2 + 16777216 * b3)
        / 65536) % 256 == b2 && (b0 + 256 * b1 + 65536 * b2 + 16777216 * b3) / 16777216 == b3)
        by (nonlinear_arith)
        requires
            0 <= b0 < 256 && 0 <= b1 < 256 && 0 <= b2 < 256 && 0 <= b3 < 256,
    ;
}

/// A range of a sequence split at an interior point is the two halves
/// joined.
pub proof fn lemma_subrange_split(s: Seq<u8>, a: int, b: int, c: int)
    requires
        0 <= a <= b <= c <= s.len(),
    ensures
        s.subrange(a, c) == s.subrange(a, b) + s.subrange(b, c),
{
    assert(s.subrange(a, c) =~= s.subrange(a, b) + s.subrange(b, c));
}

/// Append the two little-endian bytes of `v`.
pub fn push_u16(buf: &mut Vec<u8>, v: u16)
    ensures
        final(buf)@ == old(buf)@ + u16_le(v),
{
    buf.push((v % 256) as u8);
    buf.push((v / 256) as u8);
    assert(buf@ =~= old(buf)@ + u16_le(v));
}

/// Append the four little-endian bytes of `v`.
pub fn push_u32(buf: &mut Vec<u8>, v: u32)
    ensures
        final(buf)@ == old(buf)@ + u32_le(v),
{
    buf.push((v % 256) as u8);
    buf.push(((v / 256) % 256) as u8);
    buf.push(((v / 65536) % 256) as u8);
    buf.push((v / 16777216) as u8);
    assert(buf@ =~= old(buf)@ + u32_le(v));
}

/// Read a little-endian 16-bit value at `pos`.
pub fn read_u16(buf: &Vec<u8>, pos: usize) -> (r: u16)
    requires
        pos + 2 <= buf@.len(),
    ensures
        r == u16_from(buf@[pos as int], buf@[pos as int + 1]),
{
    let n = buf.len();
    let b0 = buf[pos];
    let b1 = buf[pos + 1];
    b0 as u16 + 256 * (b1 as u16)
}

/// Read a little-endian 32-bit value at `pos`.
pub fn read_u32(buf: &Vec<u8>, pos: usize) -> (r: u32)
    requires
        pos + 4 <= buf@.len(),
    ensures
        r == u32_from(
            buf@[pos as int],
            buf@[pos as int + 1],
            buf@[pos as int + 2],
            buf@[pos as int + 3],
        ),
{
    let n = buf.len();
    let b0 = buf[pos];
    let b1 = buf[pos + 1];
    let b2 = buf[pos + 2];
    let b3 = buf[pos + 3];
    b0 as u32 + 256 * (b1 as u32) + 65536 * (b2 as u32) + 16777216 * (b3 as u32)
}

/// Copy `count` bytes starting at `start` into a fresh vector.
pub fn copy_range(buf: &Vec<u8>, start: usize, count: usize) -> (r: Vec<u8>)
    requires
        start + count <= buf@.len(),
    ensures
        r@ == buf@.subrange(start as int, start as int + count as int),
{
    let n = buf.len();
    let mut r: Vec<u8> = Vec::new();
    let mut i: usize = 0;
    while i < count
        invariant
            i <= count,
            start + count <= buf@.len() <= usize::MAX,
            r@ == buf@.subrange(start as int, start as int + i as int),
        decreases count - i,
    {
        r.push(buf[start + i]);
        i = i + 1;
        assert(r@ =~= buf@.subrange(start as int, start as int + i as int));
    }
    r
}

/// Append every byte of `data` to `buf`.
pub fn append_bytes(buf: &mut Vec<u8>, data: &Vec<u8>)
    ensures
        final(buf)@ == old(buf)@ + data@,
{
    let mut i: usize = 0;
    while i < data.len()
        invariant
            i <= data@.len(),
            buf@ == old(buf)@ + data@.subrange(0, i as int),
        decreases data@.len() - i,
    {
        buf.push(data[i]);
        i = i + 1;
        assert(buf@ =~= old(buf)@ + data@.subrange(0, i as int));
    }
    assert(buf@ =~= old(buf)@ + data@);
}

} // verus!
