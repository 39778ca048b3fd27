//! Wire frame codec: one 32-bit payload in exactly five bytes.
//!
//! Byte 0 carries a set top bit (the frame-start marker); bytes 1 to 4
//! carry a cleared top bit (continuation marker). Each byte's low seven
//! bits carry payload: byte `i` holds bits `[7*i, 7*i + 7)` of the
//! payload, so byte 4 effectively carries only the top four payload bits.

use vstd::prelude::*;

verus! {

/// Whether a received byte carries the frame-start marker (top bit set).
pub open spec fn is_start_byte(b: u8) -> bool {
    b & 0x80 == 0x80
}

/// The five bytes that frame payload `v`: seven payload bits per byte,
/// least significant first, with the start marker on byte 0.
pub open spec fn spec_encode(v: u32) -> Seq<u8> {
    seq![
        ((v & 0x7f) | 0x80) as u8,
        ((v >> 7) & 0x7f) as u8,
        ((v >> 14) & 0x7f) as u8,
        ((v >> 21) & 0x7f) as u8,
        ((v >> 28) & 0x7f) as u8,
    ]
}

/// The payload carried by five frame bytes: each byte is masked to its
/// low seven bits and placed at its position; the marker bits are
/// ignored, not checked.
pub open spec fn spec_decode(b: Seq<u8>) -> u32
    recommends
        b.len() == 5,
{
    ((b[0] & 0x7f) as u32) | (((b[1] & 0x7f) as u32) << 7) | (((b[2] & 0x7f) as u32) << 14) | (((
    b[3] & 0x7f) as u32) << 21) | (((b[4] & 0x7f) as u32) << 28)
}

/// Encode a 32-bit value into one wire frame.
pub fn pack_keydata(key_data: u32) -> (r: [u8; 5])
    ensures
        r@ == spec_encode(key_data),
{
    let b0: u8 = ((key_data & 0x7f) | 0x80) as u8;
    let b1: u8 = ((key_data >> 7) & 0x7f) as u8;
    let b2: u8 = ((key_data >> 14) & 0x7f) as u8;
    let b3: u8 = ((key_data >> 21) & 0x7f) as u8;
    let b4: u8 = ((key_data >> 28) & 0x7f) as u8;
    let r: [u8; 5] = [b0, b1, b2, b3, b4];
    proof {
        assert(r@ =~= spec_encode(key_data));
    }
    r
}

/// Decode one wire frame back into its 32-bit payload. The frame's
/// marker bits are not validated here: assembling a syntactically valid
/// frame is the receive state machine's job.
pub fn unpack_keydata(data: [u8; 5]) -> (r: u32)
    ensures
        r == spec_decode(data@),
{
    let b0 = (data[0] & 0x7f) as u32;
    let b1 = (data[1] & 0x7f) as u32;
    let b2 = (data[2] & 0x7f) as u32;
    let b3 = (data[3] & 0x7f) as u32;
    let b4 = (data[4] & 0x7f) as u32;
    b0 | (b1 << 7) | (b2 << 14) | (b3 << 21) | (b4 << 28)
}

/// Round-trip law: decoding an encoded frame yields the encoded value,
/// for every 32-bit payload.
pub proof fn lemma_codec_round_trip(v: u32)
    ensures
        spec_decode(spec_encode(v)) == v,
{
    assert((((((v & 0x7f) | 0x80) as u8) & 0x7f) as u32) | (((((v >> 7) & 0x7f) as u8) & 0x7f)
        as u32) << 7 | (((((v >> 14) & 0x7f) as u8) & 0x7f) as u32) << 14 | (((((v >> 21) & 0x7f)
        as u8) & 0x7f) as u32) << 21 | (((((v >> 28) & 0x7f) as u8) & 0x7f) as u32) << 28 == v)
        by (bit_vector);
}

/// Marker law: an encoded frame always starts with a marker byte and
/// continues with four continuation bytes.
pub proof fn lemma_frame_markers(v: u32)
    ensures
        is_start_byte(spec_encode(v)[0]),
        !is_start_byte(spec_encode(v)[1]),
        !is_start_byte(spec_encode(v)[2]),
        !is_start_byte(spec_encode(v)[3]),
        !is_start_byte(spec_encode(v)[4]),
{
    assert((((v & 0x7f) | 0x80) as u8) & 0x80 == 0x80 && ((((v >> 7) & 0x7f) as u8) & 0x80) != 0x80
        && ((((v >> 14) & 0x7f) as u8) & 0x80) != 0x80 && ((((v >> 21) & 0x7f) as u8) & 0x80)
        != 0x80 && ((((v >> 28) & 0x7f) as u8) & 0x80) != 0x80) by (bit_vector);
}

} // verus!
