//! Scan-cycle pipeline tests: layer resolution, blocking, reports.

use split_keyboard::bitset::PrimitiveBitset;
use split_keyboard::fixed_vec::FixedVec;
use split_keyboard::layout::{get_left_layer, get_right_layer};
use split_keyboard::report::{get_report, ReportState};

fn left_matrix(pressed: &[usize]) -> [bool; 30] {
    let mut m = [false; 30];
    for &p in pressed {
        m[p] = true;
    }
    m
}

fn right_bits(pressed: &[usize]) -> u32 {
    let mut raw = 0u32;
    for &p in pressed {
        raw |= 1 << p;
    }
    raw
}

fn cycle(
    state: &mut ReportState,
    left: &[usize],
    right: &[usize],
    key: &mut FixedVec<u8, 58>,
    media: &mut FixedVec<u16, 4>,
) {
    let lm = left_matrix(left);
    let rm = PrimitiveBitset::new(right_bits(right));
    get_report(state, &lm, rm, key, media);
}

#[test]
fn left_layer_selection() {
    assert_eq!(get_left_layer(&left_matrix(&[])), 0);
    assert_eq!(get_left_layer(&left_matrix(&[0, 13])), 0);
    assert_eq!(get_left_layer(&left_matrix(&[25])), 1);
}

#[test]
fn right_layer_priority() {
    assert_eq!(get_right_layer(&PrimitiveBitset::new(right_bits(&[]))), 0);
    assert_eq!(get_right_layer(&PrimitiveBitset::new(right_bits(&[26]))), 1);
    assert_eq!(get_right_layer(&PrimitiveBitset::new(right_bits(&[27]))), 2);
    assert_eq!(get_right_layer(&PrimitiveBitset::new(right_bits(&[28]))), 3);
    // First match wins among the three function keys.
    assert_eq!(get_right_layer(&PrimitiveBitset::new(right_bits(&[27, 28]))), 2);
    assert_eq!(get_right_layer(&PrimitiveBitset::new(right_bits(&[26, 27, 28]))), 1);
}

#[test]
fn plain_keys_report() {
    let mut state = ReportState::new();
    let mut key: FixedVec<u8, 58> = FixedVec::new(0);
    let mut media: FixedVec<u16, 4> = FixedVec::new(0);
    // Left position 13 is A, right position 0 is the digit 6.
    cycle(&mut state, &[13], &[0], &mut key, &mut media);
    assert_eq!(key.len, 2);
    assert_eq!(key.data[0], 0x04);
    assert_eq!(key.data[1], 0x23);
    assert_eq!(media.len, 0);
    assert_eq!(state.prev_left_layer, 0);
    assert_eq!(state.prev_right_layer, 0);
}

#[test]
fn function_key_only_scenario() {
    let mut state = ReportState::new();
    let mut key: FixedVec<u8, 58> = FixedVec::new(0);
    let mut media: FixedVec<u16, 4> = FixedVec::new(0);
    // Only the left function key is held, the right half is idle: the
    // layer change blocks every held position, so nothing is emitted.
    cycle(&mut state, &[25], &[], &mut key, &mut media);
    assert_eq!(key.len, 0);
    assert_eq!(media.len, 0);
    assert_eq!(state.prev_left_layer, 1);
    for p in 0..30 {
        assert_eq!(state.blocked_left[p], p == 25);
    }
}

#[test]
fn cross_half_override() {
    let mut state = ReportState::new();
    let mut key: FixedVec<u8, 58> = FixedVec::new(0);
    let mut media: FixedVec<u16, 4> = FixedVec::new(0);
    // With the left function layer engaged, the right layer resolves to
    // 1 no matter which right function keys are held.
    cycle(&mut state, &[25], &[27, 28], &mut key, &mut media);
    assert_eq!(state.prev_right_layer, 1);
    let mut state2 = ReportState::new();
    cycle(&mut state2, &[25], &[28], &mut key, &mut media);
    assert_eq!(state2.prev_right_layer, 1);
}

#[test]
fn blocking_pins_held_key_across_layer_change() {
    let mut state = ReportState::new();
    let mut key: FixedVec<u8, 58> = FixedVec::new(0);
    let mut media: FixedVec<u16, 4> = FixedVec::new(0);
    // Position 3 emits the digit 3 on layer 0.
    cycle(&mut state, &[3], &[], &mut key, &mut media);
    assert_eq!(key.len, 1);
    assert_eq!(key.data[0], 0x20);
    // The function key joins while 3 is still held: the layer changes,
    // so the held position is blocked and must vanish from the report.
    cycle(&mut state, &[3, 25], &[], &mut key, &mut media);
    assert_eq!(key.len, 0);
    assert_eq!(media.len, 0);
    assert!(state.blocked_left[3]);
    // Still held on a later cycle: still suppressed.
    cycle(&mut state, &[3, 25], &[], &mut key, &mut media);
    assert_eq!(key.len, 0);
    assert_eq!(media.len, 0);
    // Released: the block clears...
    cycle(&mut state, &[25], &[], &mut key, &mut media);
    assert!(!state.blocked_left[3]);
    // ...and a fresh press is honored under the new layer: left layer 1
    // maps position 3 to the play/pause consumer code.
    cycle(&mut state, &[3, 25], &[], &mut key, &mut media);
    assert_eq!(key.len, 0);
    assert_eq!(media.len, 1);
    assert_eq!(media.data[0], 0xCD);
}

#[test]
fn sentinel_fill_after_shorter_cycle() {
    let mut state = ReportState::new();
    let mut key: FixedVec<u8, 58> = FixedVec::new(0x55);
    let mut media: FixedVec<u16, 4> = FixedVec::new(0);
    // Two keys this cycle.
    cycle(&mut state, &[1, 2], &[], &mut key, &mut media);
    assert_eq!(key.len, 2);
    assert_eq!(key.data[0], 0x1E);
    assert_eq!(key.data[1], 0x1F);
    // One key the next cycle: the stale trailing slot is stamped with
    // the "no event" sentinel so the fixed-width report cannot repeat it.
    cycle(&mut state, &[1], &[], &mut key, &mut media);
    assert_eq!(key.len, 1);
    assert_eq!(key.data[0], 0x1E);
    assert_eq!(key.data[1], 0x00);
}

#[test]
fn media_sentinel_fill() {
    let mut state = ReportState::new();
    let mut key: FixedVec<u8, 58> = FixedVec::new(0);
    let mut media: FixedVec<u16, 4> = FixedVec::new(0x7777);
    // Reach left layer 1 with position 3 unheld at the change, then
    // press it: play/pause is emitted.
    cycle(&mut state, &[25], &[], &mut key, &mut media);
    cycle(&mut state, &[3, 25], &[], &mut key, &mut media);
    assert_eq!(media.len, 1);
    assert_eq!(media.data[0], 0xCD);
    // Release it: the media report shrinks and the slot is stamped
    // with the consumer "unassigned" sentinel.
    cycle(&mut state, &[25], &[], &mut key, &mut media);
    assert_eq!(media.len, 0);
    assert_eq!(media.data[0], 0x0000);
}

#[test]
fn chord_codes_appended() {
    let mut state = ReportState::new();
    let mut key: FixedVec<u8, 58> = FixedVec::new(0);
    let mut media: FixedVec<u16, 4> = FixedVec::new(0);
    // Engage the left function layer first (everything held blocks).
    cycle(&mut state, &[25], &[], &mut key, &mut media);
    // Hold a right arrow key (position 13 on right layer 1): its own
    // code comes out, then the synthetic GUI+Alt chord.
    cycle(&mut state, &[25], &[13], &mut key, &mut media);
    assert_eq!(key.len, 3);
    assert_eq!(key.data[0], 0x50);
    assert_eq!(key.data[1], 0xE3);
    assert_eq!(key.data[2], 0xE2);
    // A navigation key (position 19, Home) adds GUI+Shift instead.
    cycle(&mut state, &[25], &[19], &mut key, &mut media);
    assert_eq!(key.len, 3);
    assert_eq!(key.data[0], 0x4A);
    assert_eq!(key.data[1], 0xE3);
    assert_eq!(key.data[2], 0xE1);
}

#[test]
fn right_release_clears_right_block() {
    let mut state = ReportState::new();
    let mut key: FixedVec<u8, 58> = FixedVec::new(0);
    let mut media: FixedVec<u16, 4> = FixedVec::new(0);
    // Right position 0 held while the right layer changes (via its own
    // function key): both become blocked.
    cycle(&mut state, &[], &[0, 26], &mut key, &mut media);
    assert_eq!(key.len, 0);
    assert!(state.blocked_right[0]);
    assert!(state.blocked_right[26]);
    // Still held: still nothing.
    cycle(&mut state, &[], &[0, 26], &mut key, &mut media);
    assert_eq!(key.len, 0);
    // Release position 0, keep the function key: the block clears.
    cycle(&mut state, &[], &[26], &mut key, &mut media);
    assert!(!state.blocked_right[0]);
    // Press it again: layer 1 maps position 0 to "no event", which is
    // still pushed as a primary code.
    cycle(&mut state, &[], &[0, 26], &mut key, &mut media);
    assert_eq!(key.len, 1);
    assert_eq!(key.data[0], 0x00);
}
