//! Packed encoding of an optional entangled-partner coordinate.
//!
//! A partner coordinate `(x, y)` is packed into a single `u32` with `x` in
//! the high 16 bits and `y` in the low 16 bits; the all-ones word stands for
//! "no partner". The pair `(0xFFFF, 0xFFFF)` is unrepresentable: it collides
//! with the sentinel, a known representational limit of the packing.

use vstd::prelude::*;

verus! {

/// Sentinel for a cell without an entangled partner: all 32 bits set.
pub const NO_ENTANGLEMENT: u32 = 0xFFFF_FFFF;

/// Packed form of an optional partner coordinate.
pub open spec fn encode_partner_spec(partner: Option<(u32, u32)>) -> u32 {
    match partner {
        Some((x, y)) => (x << 16) | (y & 0xFFFF),
        None => NO_ENTANGLEMENT,
    }
}

/// Unpacked form of a partner word.
pub open spec fn decode_partner_spec(encoded: u32) -> Option<(u32, u32)> {
    if encoded == NO_ENTANGLEMENT {
        None
    } else {
        Some((encoded >> 16, encoded & 0xFFFF))
    }
}

/// Encode `(x, y)` coordinates into a single `u32`; `None` becomes
/// `NO_ENTANGLEMENT`.
pub fn encode_partner(partner: Option<(u32, u32)>) -> (encoded: u32)
    ensures
        encoded == encode_partner_spec(partner),
{
    match partner {
        Some((x, y)) => (x << 16u32) | (y & 0xFFFF),
        None => NO_ENTANGLEMENT,
    }
}

/// Decode a packed partner word back into an optional coordinate pair.
pub fn decode_partner(encoded: u32) -> (partner: Option<(u32, u32)>)
    ensures
        partner == decode_partner_spec(encoded),
{
    if encoded == NO_ENTANGLEMENT {
        None
    } else {
        Some((encoded >> 16u32, encoded & 0xFFFF))
    }
}

/// Law: decoding inverts encoding for every coordinate pair whose parts fit
/// in 16 bits, except the one pair that collides with the sentinel.
pub proof fn lemma_partner_codec_round_trip(x: u32, y: u32)
    requires
        x < 0x10000,
        y < 0x10000,
        !(x == 0xFFFF && y == 0xFFFF),
    ensures
        decode_partner_spec(encode_partner_spec(Some((x, y)))) == Some((x, y)),
{
    assert(((x << 16) | (y & 0xFFFF)) != 0xFFFF_FFFFu32) by (bit_vector)
        requires
            x < 0x10000,
            y < 0x10000,
            !(x == 0xFFFF && y == 0xFFFF),
    ;
    assert((((x << 16) | (y & 0xFFFF)) >> 16) == x) by (bit_vector)
        requires
            x < 0x10000,
    ;
    assert((((x << 16) | (y & 0xFFFF)) & 0xFFFF) == y) by (bit_vector)
        requires
            y < 0x10000,
    ;
}

/// Law: the sentinel round-trips in both directions, and the one
/// unrepresentable pair aliases to it.
pub proof fn lemma_no_entanglement_codec()
    ensures
        encode_partner_spec(None) == NO_ENTANGLEMENT,
        decode_partner_spec(NO_ENTANGLEMENT) == None::<(u32, u32)>,
        encode_partner_spec(Some((0xFFFF, 0xFFFF))) == NO_ENTANGLEMENT,
{
    assert(((0xFFFFu32 << 16) | (0xFFFFu32 & 0xFFFF)) == 0xFFFF_FFFFu32) by (bit_vector);
}

} // verus!
