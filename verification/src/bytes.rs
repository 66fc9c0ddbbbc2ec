//! Little-endian integer fields as they appear in protocol frames.
use vstd::prelude::*;

verus! {

/// Little-endian bytes of a `u16`.
pub open spec fn le_u16(v: u16) -> Seq<u8> {
    seq![(v % 256) as u8, (v / 256) as u8]
}

/// Little-endian bytes of a `u32`.
pub open spec fn le_u32(v: u32) -> Seq<u8> {
    seq![(v % 256) as u8, ((v / 256) % 256) as u8, ((v / 65536) % 256) as u8, (v / 16777216) as u8]
}

/// Little-endian two's-complement bytes of an `i16`.
pub open spec fn le_i16(v: i16) -> Seq<u8> {
    le_u16(v as u16)
}

/// Little-endian two's-complement bytes of an `i32`.
pub open spec fn le_i32(v: i32) -> Seq<u8> {
    le_u32(v as u32)
}

/// The `u16` whose little-endian bytes are `b[0], b[1]`.
pub open spec fn u16_from_le(b0: u8, b1: u8) -> u16 {
    (b0 + 256 * b1) as u16
}

/// The `i16` whose little-endian two's-complement bytes are `b[0], b[1]`.
pub open spec fn i16_from_le(b0: u8, b1: u8) -> i16 {
    u16_from_le(b0, b1) as i16
}

/// The `u32` whose little-endian bytes are `b0 .. b3`.
pub open spec fn u32_from_le(b0: u8, b1: u8, b2: u8, b3: u8) -> u32 {
    (b0 + 256 * b1 + 65536 * b2 + 16777216 * b3) as u32
}

/// The `i32` whose little-endian two's-complement bytes are `b0 .. b3`.
pub open spec fn i32_from_le(b0: u8, b1: u8, b2: u8, b3: u8) -> i32 {
    u32_from_le(b0, b1, b2, b3) as i32
}

/// Appends the little-endian bytes of `v` to `out`.
pub fn push_le_u16(out: &mut Vec<u8>, v: u16)
    ensures
        final(out)@ == old(out)@ + le_u16(v),
{
    out.push((v % 256) as u8);
    out.push((v / 256) as u8);
}

/// Appends the little-endian bytes of `v` to `out`.
pub fn push_le_u32(out: &mut Vec<u8>, v: u32)
    ensures
        final(out)@ == old(out)@ + le_u32(v),
{
    out.push((v % 256) as u8);
    out.push(((v / 256) % 256) as u8);
    out.push(((v / 65536) % 256) as u8);
    out.push((v / 16777216) as u8);
}

/// Appends the little-endian two's-complement bytes of `v` to `out`.
pub fn push_le_i16(out: &mut Vec<u8>, v: i16)
    ensures
        final(out)@ == old(out)@ + le_i16(v),
{
    push_le_u16(out, v as u16);
}

/// Appends the little-endian two's-complement bytes of `v` to `out`.
pub fn push_le_i32(out: &mut Vec<u8>, v: i32)
    ensures
        final(out)@ == old(out)@ + le_i32(v),
{
    push_le_u32(out, v as u32);
}

/// Reads a little-endian `u16`.
pub fn read_le_u16(b0: u8, b1: u8) -> (v: u16)
    ensures
        v == u16_from_le(b0, b1),
{
    b0 as u16 + (b1 as u16) * 256
}

/// Reads a little-endian two's-complement `i16`.
pub fn read_le_i16(b0: u8, b1: u8) -> (v: i16)
    ensures
        v == i16_from_le(b0, b1),
{
    read_le_u16(b0, b1) as i16
}

/// Reads a little-endian `u32`.
pub fn read_le_u32(b0: u8, b1: u8, b2: u8, b3: u8) -> (v: u32)
    ensures
        v == u32_from_le(b0, b1, b2, b3),
{
    b0 as u32 + (b1 as u32) * 256 + (b2 as u32) * 65536 + (b3 as u32) * 16777216
}

/// Reads a little-endian two's-complement `i32`.
pub fn read_le_i32(b0: u8, b1: u8, b2: u8, b3: u8) -> (v: i32)
    ensures
        v == i32_from_le(b0, b1, b2, b3),
{
    read_le_u32(b0, b1, b2, b3) as i32
}

/// Reading back the bytes written for a `u16` gives the value.
pub proof fn lemma_u16_roundtrip(v: u16)
    ensures
        u16_from_le(le_u16(v)[0], le_u16(v)[1]) == v,
{
}

/// Reading back the bytes written for a `u32` gives the value.
pub proof fn lemma_u32_roundtrip(v: u32)
    ensures
        u32_from_le(le_u32(v)[0], le_u32(v)[1], le_u32(v)[2], le_u32(v)[3]) == v,
{
    let b = le_u32(v);
    assert(b[0] + 256 * b[1] + 65536 * b[2] + 16777216 * b[3] == v) by (nonlinear_arith)
        requires
            b[0] == v % 256,
            b[1] == (v / 256) % 256,
            b[2] == (v / 65536) % 256,
            b[3] == v / 16777216,
            v < 0x1_0000_0000,
    ;
}

/// Reading back the bytes written for an `i16` gives the value.
pub proof fn lemma_i16_roundtrip(v: i16)
    ensures
        i16_from_le(le_i16(v)[0], le_i16(v)[1]) == v,
{
    lemma_u16_roundtrip(v as u16);
    assert(((v as u16) as i16) == v) by (bit_vector);
}

/// Reading back the bytes written for an `i32` gives the value.
pub proof fn lemma_i32_roundtrip(v: i32)
    ensures
        i32_from_le(le_i32(v)[0], le_i32(v)[1], le_i32(v)[2], le_i32(v)[3]) == v,
{
    lemma_u32_roundtrip(v as u32);
    assert(((v as u32) as i32) == v) by (bit_vector);
}

} // verus!
