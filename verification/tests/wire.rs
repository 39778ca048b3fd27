//! Wire codec and receive framing tests.

use split_keyboard::codec::{pack_keydata, unpack_keydata};
use split_keyboard::receiver::FrameReceiver;

#[test]
fn encode_one() {
    // Framing a payload of 1: start marker plus the low seven bits.
    assert_eq!(pack_keydata(0x0000_0001), [0x81, 0x00, 0x00, 0x00, 0x00]);
}

#[test]
fn decode_one() {
    assert_eq!(unpack_keydata([0x81, 0x00, 0x00, 0x00, 0x00]), 1);
}

#[test]
fn encode_sets_markers() {
    for &v in &[0u32, 1, 0x7f, 0x80, 0xFFFF_FFFF, 0xDEAD_BEEF, 0x1234_5678] {
        let frame = pack_keydata(v);
        assert_eq!(frame[0] & 0x80, 0x80);
        for i in 1..5 {
            assert_eq!(frame[i] & 0x80, 0x00);
        }
    }
}

#[test]
fn round_trip() {
    for &v in &[
        0u32,
        1,
        0x7f,
        0x80,
        0x3FFF,
        0x4000,
        0x1FFF_FFFF,
        0xFFFF_FFFF,
        0xDEAD_BEEF,
        0x8000_0001,
    ] {
        assert_eq!(unpack_keydata(pack_keydata(v)), v);
    }
}

#[test]
fn receiver_accepts_clean_frame() {
    let mut rx = FrameReceiver::new();
    let frame = pack_keydata(0x0123_4567);
    let mut results = Vec::new();
    for &b in frame.iter() {
        results.push(rx.push_byte(b));
    }
    assert_eq!(results, vec![None, None, None, None, Some(0x0123_4567)]);
}

#[test]
fn receiver_resyncs_after_garbage() {
    let mut rx = FrameReceiver::new();
    // Arbitrary garbage: stray continuations, a truncated frame start.
    for &b in &[0x12u8, 0x7f, 0x99, 0x03, 0x80, 0x01] {
        let _ = rx.push_byte(b);
    }
    // A complete valid frame still comes out intact.
    let frame = pack_keydata(0xABCD_1234);
    let mut emitted = None;
    for &b in frame.iter() {
        emitted = rx.push_byte(b);
    }
    assert_eq!(emitted, Some(0xABCD_1234));
}

#[test]
fn receiver_restarts_on_early_start_byte() {
    let mut rx = FrameReceiver::new();
    // Begin one frame, then a new start marker arrives mid-frame.
    assert_eq!(rx.push_byte(0x81), None);
    assert_eq!(rx.push_byte(0x01), None);
    // The new start byte discards the progress and begins afresh.
    let frame = pack_keydata(42);
    assert_eq!(rx.push_byte(frame[0]), None);
    assert_eq!(rx.push_byte(frame[1]), None);
    assert_eq!(rx.push_byte(frame[2]), None);
    assert_eq!(rx.push_byte(frame[3]), None);
    assert_eq!(rx.push_byte(frame[4]), Some(42));
}

#[test]
fn receiver_drops_leading_continuation_bytes() {
    let mut rx = FrameReceiver::new();
    // Continuation bytes with no frame in progress are discarded.
    assert_eq!(rx.push_byte(0x05), None);
    assert_eq!(rx.push_byte(0x7f), None);
    let frame = pack_keydata(7);
    let mut emitted = None;
    for &b in frame.iter() {
        emitted = rx.push_byte(b);
    }
    assert_eq!(emitted, Some(7));
}
