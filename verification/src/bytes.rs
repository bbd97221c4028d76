//! Little-endian byte readers and writers shared by the header view, the
//! color-table parser and the container emitter.
use vstd::prelude::*;

verus! {

/// Two bytes, least significant first, as a 16-bit value.
pub open spec fn le16(b0: u8, b1: u8) -> u16 {
    (b0 as u16) | ((b1 as u16) << 8)
}

/// Four bytes, least significant first, as a 32-bit value.
pub open spec fn le32(b0: u8, b1: u8, b2: u8, b3: u8) -> u32 {
    (b0 as u32) | ((b1 as u32) << 8) | ((b2 as u32) << 16) | ((b3 as u32) << 24)
}

/// The 16-bit little-endian value stored at offset `i` of `s`.
pub open spec fn u16_at(s: Seq<u8>, i: int) -> u16 {
    le16(s[i], s[i + 1])
}

/// The 32-bit little-endian value stored at offset `i` of `s`.
pub open spec fn u32_at(s: Seq<u8>, i: int) -> u32 {
    le32(s[i], s[i + 1], s[i + 2], s[i + 3])
}

/// The 32-bit little-endian value at offset `i`, reinterpreted as signed.
pub open spec fn i32_at(s: Seq<u8>, i: int) -> i32 {
    u32_at(s, i) as i32
}

/// The little-endian byte sequence of a 16-bit value.
pub open spec fn u16_bytes(x: u16) -> Seq<u8> {
    seq![(x & 0xff) as u8, ((x >> 8) & 0xff) as u8]
}

/// The little-endian byte sequence of a 32-bit value.
pub open spec fn u32_bytes(x: u32) -> Seq<u8> {
    seq![
        (x & 0xff) as u8,
        ((x >> 8) & 0xff) as u8,
        ((x >> 16) & 0xff) as u8,
        ((x >> 24) & 0xff) as u8,
    ]
}

/// The little-endian byte sequence of a signed 32-bit value.
pub open spec fn i32_bytes(x: i32) -> Seq<u8> {
    u32_bytes(x as u32)
}

/// Writing the value read from two bytes gives those bytes back.
pub proof fn lemma_u16_round_trip(b0: u8, b1: u8)
    ensures
        u16_bytes(le16(b0, b1)) == seq![b0, b1],
{
    let x = le16(b0, b1);
    assert((x & 0xff) as u8 == b0 && ((x >> 8) & 0xff) as u8 == b1) by (bit_vector)
        requires
            x == (b0 as u16) | ((b1 as u16) << 8),
    ;
    assert(u16_bytes(x) =~= seq![b0, b1]);
}

/// Writing the value read from four bytes gives those bytes back.
pub proof fn lemma_u32_round_trip(b0: u8, b1: u8, b2: u8, b3: u8)
    ensures
        u32_bytes(le32(b0, b1, b2, b3)) == seq![b0, b1, b2, b3],
{
    let x = le32(b0, b1, b2, b3);
    assert((x & 0xff) as u8 == b0 && ((x >> 8) & 0xff) as u8 == b1 && ((x >> 16) & 0xff) as u8
        == b2 && ((x >> 24) & 0xff) as u8 == b3) by (bit_vector)
        requires
            x == (b0 as u32) | ((b1 as u32) << 8) | ((b2 as u32) << 16) | ((b3 as u32) << 24),
    ;
    assert(u32_bytes(x) =~= seq![b0, b1, b2, b3]);
}

/// A signed value survives the unsigned detour taken when serializing it.
pub proof fn lemma_i32_round_trip(b0: u8, b1: u8, b2: u8, b3: u8)
    ensures
        i32_bytes(le32(b0, b1, b2, b3) as i32) == seq![b0, b1, b2, b3],
{
    let x = le32(b0, b1, b2, b3);
    assert((x as i32) as u32 == x) by (bit_vector);
    lemma_u32_round_trip(b0, b1, b2, b3);
}

/// Reads the 16-bit little-endian value at offset `i` of `s`.
pub fn read_u16(s: &[u8], i: usize) -> (r: u16)
    requires
        i + 2 <= s@.len(),
    ensures
        r == u16_at(s@, i as int),
{
    (s[i] as u16) | ((s[i + 1] as u16) << 8)
}

/// Reads the 32-bit little-endian value at offset `i` of `s`.
pub fn read_u32(s: &[u8], i: usize) -> (r: u32)
    requires
        i + 4 <= s@.len(),
    ensures
        r == u32_at(s@, i as int),
{
    (s[i] as u32) | ((s[i + 1] as u32) << 8) | ((s[i + 2] as u32) << 16) | ((s[i + 3] as u32)
        << 24)
}

/// Reads the signed 32-bit little-endian value at offset `i` of `s`.
pub fn read_i32(s: &[u8], i: usize) -> (r: i32)
    requires
        i + 4 <= s@.len(),
    ensures
        r == i32_at(s@, i as int),
{
    #[verifier::truncate] (read_u32(s, i) as i32)
}

/// Appends the two little-endian bytes of `x` to `out`.
pub fn push_u16(out: &mut Vec<u8>, x: u16)
    ensures
        final(out)@ == old(out)@ + u16_bytes(x),
{
    out.push(#[verifier::truncate] ((x & 0xff) as u8));
    out.push(#[verifier::truncate] (((x >> 8) & 0xff) as u8));
    assert(out@ =~= old(out)@ + u16_bytes(x));
}

/// Appends the four little-endian bytes of `x` to `out`.
pub fn push_u32(out: &mut Vec<u8>, x: u32)
    ensures
        final(out)@ == old(out)@ + u32_bytes(x),
{
    out.push(#[verifier::truncate] ((x & 0xff) as u8));
    out.push(#[verifier::truncate] (((x >> 8) & 0xff) as u8));
    out.push(#[verifier::truncate] (((x >> 16) & 0xff) as u8));
    out.push(#[verifier::truncate] (((x >> 24) & 0xff) as u8));
    assert(out@ =~= old(out)@ + u32_bytes(x));
}

/// Appends the four little-endian bytes of a signed value to `out`.
pub fn push_i32(out: &mut Vec<u8>, x: i32)
    ensures
        final(out)@ == old(out)@ + i32_bytes(x),
{
    push_u32(out, #[verifier::truncate] (x as u32));
}

} // verus!
