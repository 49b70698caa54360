//! Little-endian byte packing shared by the card-record and frame
//! codecs, with the round-trip facts the codec proofs lean on.

use vstd::prelude::*;

verus! {

pub open spec fn u16_lo(v: u16) -> u8 {
    (v & 0xFF) as u8
}

pub open spec fn u16_hi(v: u16) -> u8 {
    ((v >> 8) & 0xFF) as u8
}

pub open spec fn u16_from_le(lo: u8, hi: u8) -> u16 {
    (lo as u16) | ((hi as u16) << 8)
}

pub open spec fn u32_byte0(v: u32) -> u8 {
    (v & 0xFF) as u8
}

pub open spec fn u32_byte1(v: u32) -> u8 {
    ((v >> 8) & 0xFF) as u8
}

pub open spec fn u32_byte2(v: u32) -> u8 {
    ((v >> 16) & 0xFF) as u8
}

pub open spec fn u32_byte3(v: u32) -> u8 {
    ((v >> 24) & 0xFF) as u8
}

pub open spec fn u32_from_le(b0: u8, b1: u8, b2: u8, b3: u8) -> u32 {
    (b0 as u32) | ((b1 as u32) << 8) | ((b2 as u32) << 16) | ((b3 as u32) << 24)
}

/// Splitting a `u16` into its little-endian bytes and reassembling
/// them are mutually inverse.
pub proof fn lemma_u16_le(v: u16, lo: u8, hi: u8)
    by (bit_vector)
    ensures
        v & 0xFF < 256,
        (v >> 8) & 0xFF < 256,
        u16_from_le(u16_lo(v), u16_hi(v)) == v,
        u16_lo(u16_from_le(lo, hi)) == lo,
        u16_hi(u16_from_le(lo, hi)) == hi,
{
}

/// Splitting a `u32` into its little-endian bytes and reassembling
/// them are mutually inverse.
pub proof fn lemma_u32_le(v: u32, b0: u8, b1: u8, b2: u8, b3: u8)
    by (bit_vector)
    ensures
        v & 0xFF < 256,
        (v >> 8) & 0xFF < 256,
        (v >> 16) & 0xFF < 256,
        (v >> 24) & 0xFF < 256,
        u32_from_le(u32_byte0(v), u32_byte1(v), u32_byte2(v), u32_byte3(v)) == v,
        u32_byte0(u32_from_le(b0, b1, b2, b3)) == b0,
        u32_byte1(u32_from_le(b0, b1, b2, b3)) == b1,
        u32_byte2(u32_from_le(b0, b1, b2, b3)) == b2,
        u32_byte3(u32_from_le(b0, b1, b2, b3)) == b3,
{
}

/// Low little-endian byte of a `u16`.
pub fn u16_lo_byte(v: u16) -> (r: u8)
    ensures
        r == u16_lo(v),
{
    proof {
        lemma_u16_le(v, 0, 0);
    }
    (v & 0xFF) as u8
}

/// High little-endian byte of a `u16`.
pub fn u16_hi_byte(v: u16) -> (r: u8)
    ensures
        r == u16_hi(v),
{
    proof {
        lemma_u16_le(v, 0, 0);
    }
    ((v >> 8) & 0xFF) as u8
}

/// Reads a `u16` from its little-endian bytes.
pub fn u16_from_le_bytes(lo: u8, hi: u8) -> (r: u16)
    ensures
        r == u16_from_le(lo, hi),
{
    (lo as u16) | ((hi as u16) << 8)
}

/// The four little-endian bytes of a `u32`, lowest first.
pub fn u32_le_bytes(v: u32) -> (r: (u8, u8, u8, u8))
    ensures
        r.0 == u32_byte0(v),
        r.1 == u32_byte1(v),
        r.2 == u32_byte2(v),
        r.3 == u32_byte3(v),
{
    proof {
        lemma_u32_le(v, 0, 0, 0, 0);
    }
    (
        (v & 0xFF) as u8,
        ((v >> 8) & 0xFF) as u8,
        ((v >> 16) & 0xFF) as u8,
        ((v >> 24) & 0xFF) as u8,
    )
}

/// Reads a `u32` from its little-endian bytes.
pub fn u32_from_le_bytes(b0: u8, b1: u8, b2: u8, b3: u8) -> (r: u32)
    ensures
        r == u32_from_le(b0, b1, b2, b3),
{
    (b0 as u32) | ((b1 as u32) << 8) | ((b2 as u32) << 16) | ((b3 as u32) << 24)
}

} // verus!
