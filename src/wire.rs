//! Big-endian integers on the wire.
use vstd::prelude::*;

verus! {

/// The big-endian 24-bit integer at `s[i..i + 3]`.
pub open spec fn be24(s: Seq<u8>, i: int) -> int {
    s[i] as int * 0x1_0000 + s[i + 1] as int * 0x100 + s[i + 2] as int
}

/// The big-endian 32-bit integer at `s[i..i + 4]`.
pub open spec fn be32(s: Seq<u8>, i: int) -> int {
    s[i] as int * 0x100_0000 + be24(s, i + 1)
}

/// The three big-endian bytes of `v`, for `v < 2^24`.
pub open spec fn u24_bytes(v: int) -> Seq<u8> {
    seq![(v / 0x1_0000 % 0x100) as u8, (v / 0x100 % 0x100) as u8, (v % 0x100) as u8]
}

/// The four big-endian bytes of `v`, for `v < 2^32`.
pub open spec fn u32_bytes(v: int) -> Seq<u8> {
    seq![(v / 0x100_0000 % 0x100) as u8] + u24_bytes(v % 0x100_0000)
}

/// Reading back the bytes of a 24-bit value gives the value.
pub proof fn lemma_u24_round_trip(v: int)
    requires
        0 <= v < 0x100_0000,
    ensures
        u24_bytes(v).len() == 3,
        be24(u24_bytes(v), 0) == v,
{
    let x = v as u32;
    assert((x / 0x1_0000 % 0x100) * 0x1_0000 + (x / 0x100 % 0x100) * 0x100 + x % 0x100 == x)
        by (bit_vector)
        requires
            x < 0x100_0000,
    ;
}

/// Writing out a 24-bit integer read from bytes gives those bytes back.
pub proof fn lemma_be24_bytes(s: Seq<u8>, i: int)
    requires
        0 <= i,
        i + 3 <= s.len(),
    ensures
        0 <= be24(s, i) < 0x100_0000,
        u24_bytes(be24(s, i)) == s.subrange(i, i + 3),
{
    let (a, b, c) = (s[i] as u32, s[i + 1] as u32, s[i + 2] as u32);
    assert({
        let v = a * 0x1_0000 + b * 0x100 + c;
        &&& v / 0x1_0000 % 0x100 == a
        &&& v / 0x100 % 0x100 == b
        &&& v % 0x100 == c
        &&& v < 0x100_0000
    }) by (bit_vector)
        requires
            a < 0x100,
            b < 0x100,
            c < 0x100,
    ;
    assert(u24_bytes(be24(s, i)) =~= s.subrange(i, i + 3));
}

/// Reads the big-endian 24-bit integer at `s[i..i + 3]`.
pub fn read_u24(s: &[u8], i: usize) -> (r: u32)
    requires
        i + 3 <= s@.len(),
    ensures
        r as int == be24(s@, i as int),
        r < 0x100_0000,
{
    s[i] as u32 * 0x1_0000 + s[i + 1] as u32 * 0x100 + s[i + 2] as u32
}

/// Reads the big-endian 32-bit integer at `s[i..i + 4]`.
pub fn read_u32(s: &[u8], i: usize) -> (r: u32)
    requires
        i + 4 <= s@.len(),
    ensures
        r as int == be32(s@, i as int),
{
    s[i] as u32 * 0x100_0000 + s[i + 1] as u32 * 0x1_0000 + s[i + 2] as u32 * 0x100 + s[i
        + 3] as u32
}

/// Appends the three big-endian bytes of `v`.
pub fn push_u24(out: &mut Vec<u8>, v: u32)
    requires
        v < 0x100_0000,
    ensures
        final(out)@ == old(out)@ + u24_bytes(v as int),
{
    out.push((v / 0x1_0000 % 0x100) as u8);
    out.push((v / 0x100 % 0x100) as u8);
    out.push((v % 0x100) as u8);
    assert(out@ =~= old(out)@ + u24_bytes(v as int));
}

/// Appends the four big-endian bytes of `v`.
pub fn push_u32(out: &mut Vec<u8>, v: u32)
    ensures
        final(out)@ == old(out)@ + u32_bytes(v as int),
{
    out.push((v / 0x100_0000 % 0x100) as u8);
    out.push((v / 0x1_0000 % 0x100) as u8);
    out.push((v / 0x100 % 0x100) as u8);
    out.push((v % 0x100) as u8);
    let w = v % 0x100_0000;
    assert(w / 0x1_0000 % 0x100 == v / 0x1_0000 % 0x100) by (bit_vector)
        requires
            w == v % 0x100_0000,
    ;
    assert(w / 0x100 % 0x100 == v / 0x100 % 0x100) by (bit_vector)
        requires
            w == v % 0x100_0000,
    ;
    assert(w % 0x100 == v % 0x100) by (bit_vector)
        requires
            w == v % 0x100_0000,
    ;
    assert(out@ =~= old(out)@ + u32_bytes(v as int));
}

/// Writing out a 32-bit integer read from bytes gives those bytes back.
pub proof fn lemma_be32_bytes(s: Seq<u8>, i: int)
    requires
        0 <= i,
        i + 4 <= s.len(),
    ensures
        0 <= be32(s, i) < 0x1_0000_0000,
        u32_bytes(be32(s, i)) == s.subrange(i, i + 4),
{
    let (a, b, c, d) = (s[i] as u32, s[i + 1] as u32, s[i + 2] as u32, s[i + 3] as u32);
    assert({
        let v = a * 0x100_0000 + b * 0x1_0000 + c * 0x100 + d;
        &&& v / 0x100_0000 % 0x100 == a
        &&& v % 0x100_0000 / 0x1_0000 % 0x100 == b
        &&& v % 0x100_0000 / 0x100 % 0x100 == c
        &&& v % 0x100_0000 % 0x100 == d
        &&& v < 0x1_0000_0000
    }) by (bit_vector)
        requires
            a < 0x100,
            b < 0x100,
            c < 0x100,
            d < 0x100,
    ;
    assert(u32_bytes(be32(s, i)) =~= s.subrange(i, i + 4));
}

} // verus!
