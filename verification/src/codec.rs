//! Binary encoding primitives shared by both packet sets.
//!
//! Every envelope starts with a four-byte little-endian kind tag; the payload
//! bytes that follow are fixed-layout fields. Decoding is strict: a short
//! buffer, an unknown tag, a malformed field or trailing bytes each yield a
//! `DecodeError` instead of a panic.

use vstd::prelude::*;

verus! {

/// Why a byte buffer failed to decode into a packet. A decode failure is a
/// per-message fault: the caller reports it and keeps the connection alive.
#[derive(Debug, Clone, Copy, PartialEq, Eq, Structural)]
pub enum DecodeError {
    /// Fewer than the four bytes needed for the kind tag.
    TruncatedEnvelope,
    /// The tag names no kind declared in the packet set.
    UnknownTag(u32),
    /// The payload is shorter than the kind's layout or holds an invalid field.
    MalformedPayload,
    /// Bytes remain after the kind's full layout was consumed.
    TrailingBytes,
}

/// The little-endian byte image of a 32-bit word.
pub open spec fn u32_le_bytes(v: u32) -> Seq<u8> {
    seq![
        (v & 0xff) as u8,
        ((v >> 8) & 0xff) as u8,
        ((v >> 16) & 0xff) as u8,
        ((v >> 24) & 0xff) as u8,
    ]
}

/// The 32-bit word read little-endian from four bytes of `bytes` starting at `i`.
pub open spec fn u32_le_at(bytes: Seq<u8>, i: int) -> u32
    recommends
        0 <= i,
        i + 4 <= bytes.len(),
{
    (bytes[i] as u32) | (bytes[i + 1] as u32) << 8 | (bytes[i + 2] as u32) << 16 | (bytes[i
        + 3] as u32) << 24
}

/// Reading back the four bytes written for a word recovers the word.
pub proof fn lemma_u32_le_round_trip(v: u32)
    ensures
        u32_le_at(u32_le_bytes(v), 0) == v,
{
    let b0 = (v & 0xff) as u8;
    let b1 = ((v >> 8) & 0xff) as u8;
    let b2 = ((v >> 16) & 0xff) as u8;
    let b3 = ((v >> 24) & 0xff) as u8;
    assert((b0 as u32) | (b1 as u32) << 8 | (b2 as u32) << 16 | (b3 as u32) << 24 == v) by (bit_vector)
        requires
            b0 == (v & 0xff) as u8,
            b1 == ((v >> 8) & 0xff) as u8,
            b2 == ((v >> 16) & 0xff) as u8,
            b3 == ((v >> 24) & 0xff) as u8,
    ;
}

/// Reading at an offset whose four bytes are the image of `v` recovers `v`.
pub proof fn lemma_u32_le_at_subrange(s: Seq<u8>, i: int, v: u32)
    requires
        0 <= i,
        i + 4 <= s.len(),
        s.subrange(i, i + 4) == u32_le_bytes(v),
    ensures
        u32_le_at(s, i) == v,
{
    let sub = s.subrange(i, i + 4);
    assert(s[i] == sub[0]);
    assert(s[i + 1] == sub[1]);
    assert(s[i + 2] == sub[2]);
    assert(s[i + 3] == sub[3]);
    lemma_u32_le_round_trip(v);
}

/// Appends the little-endian image of `v` to `out`.
pub fn push_u32_le(out: &mut Vec<u8>, v: u32)
    ensures
        final(out)@ == old(out)@ + u32_le_bytes(v),
{
    proof {
        lemma_u32_byte_parts_fit(v);
    }
    out.push((v & 0xff) as u8);
    out.push(((v >> 8) & 0xff) as u8);
    out.push(((v >> 16) & 0xff) as u8);
    out.push(((v >> 24) & 0xff) as u8);
    assert(out@ =~= old(out)@ + u32_le_bytes(v));
}

/// Reads the word at offset `i`, little-endian.
pub fn read_u32_le(bytes: &Vec<u8>, i: usize) -> (v: u32)
    requires
        i + 4 <= bytes@.len(),
    ensures
        v == u32_le_at(bytes@, i as int),
{
    let n: usize = bytes.len();
    proof {
        assert(i + 4 <= n);
    }
    let b0 = bytes[i] as u32;
    let b1 = bytes[i + 1] as u32;
    let b2 = bytes[i + 2] as u32;
    let b3 = bytes[i + 3] as u32;
    proof {
        lemma_u32_shift_parts_fit(b1, b2, b3);
    }
    b0 | b1 << 8 | b2 << 16 | b3 << 24
}

/// Each byte-sized part of a word is below 256.
proof fn lemma_u32_byte_parts_fit(v: u32)
    ensures
        v & 0xff < 256,
        (v >> 8) & 0xff < 256,
        (v >> 16) & 0xff < 256,
        (v >> 24) & 0xff < 256,
{
    assert(v & 0xff < 256 && (v >> 8) & 0xff < 256 && (v >> 16) & 0xff < 256 && (v >> 24) & 0xff
        < 256) by (bit_vector);
}

/// Shifting byte-sized words into their lanes neither overflows nor collides.
proof fn lemma_u32_shift_parts_fit(b1: u32, b2: u32, b3: u32)
    ensures
        b1 < 256 ==> b1 << 8 < 0x10000,
        b2 < 256 ==> b2 << 16 < 0x1000000,
        b3 < 256 ==> b3 << 24 <= 0xff000000,
{
    assert((b1 < 256 ==> b1 << 8 < 0x10000) && (b2 < 256 ==> b2 << 16 < 0x1000000) && (b3 < 256
        ==> b3 << 24 <= 0xff000000)) by (bit_vector);
}

/// The single byte standing for a boolean field.
pub open spec fn bool_byte(b: bool) -> u8 {
    if b {
        1
    } else {
        0
    }
}

} // verus!
