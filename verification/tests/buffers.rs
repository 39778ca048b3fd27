//! Bounded report buffer and packed bitset tests.

use split_keyboard::bitset::{BitsetWord, PrimitiveBitset};
use split_keyboard::fixed_vec::FixedVec;

#[test]
fn fixed_vec_push_and_overflow() {
    let mut v: FixedVec<u8, 3> = FixedVec::new(0);
    assert_eq!(v.len, 0);
    v.push(10);
    v.push(20);
    v.push(30);
    assert_eq!(v.len, 3);
    // Pushing past the capacity is silently dropped: the length stays
    // capped and the stored entries are untouched.
    v.push(40);
    v.push(50);
    assert_eq!(v.len, 3);
    assert_eq!(v.data, [10, 20, 30]);
}

#[test]
fn fixed_vec_clear_keeps_slots() {
    let mut v: FixedVec<u8, 3> = FixedVec::new(0);
    v.push(1);
    v.push(2);
    v.clear();
    assert_eq!(v.len, 0);
    assert_eq!(v.data, [1, 2, 0]);
}

#[test]
fn fixed_vec_fill_stamps_tail() {
    let mut v: FixedVec<u8, 4> = FixedVec::new(0);
    v.push(1);
    v.push(2);
    v.push(3);
    v.clear();
    v.push(9);
    v.fill(0xEE, 1);
    assert_eq!(v.len, 1);
    assert_eq!(v.data, [9, 0xEE, 0xEE, 0xEE]);
}

#[test]
fn fixed_vec_fill_past_end_is_noop() {
    let mut v: FixedVec<u8, 2> = FixedVec::new(7);
    v.fill(1, 2);
    assert_eq!(v.data, [7, 7]);
    v.fill(1, 5);
    assert_eq!(v.data, [7, 7]);
}

#[test]
fn bitset_set_get() {
    let mut b: PrimitiveBitset<u32> = PrimitiveBitset::new(0);
    assert!(!b.get(5));
    b.set(5, true);
    assert!(b.get(5));
    assert_eq!(b.get_raw(), 32);
    b.set(0, true);
    assert_eq!(b.get_raw(), 33);
    b.set(5, false);
    assert_eq!(b.get_raw(), 1);
}

#[test]
fn bitset_set_leaves_other_bits() {
    let mut b: PrimitiveBitset<u32> = PrimitiveBitset::new(0xFFFF_FFFF);
    b.set(31, false);
    assert_eq!(b.get_raw(), 0x7FFF_FFFF);
    for i in 0..31 {
        assert!(b.get(i));
    }
    assert!(!b.get(31));
}

#[test]
fn bitset_raw_and_clear() {
    let mut b: PrimitiveBitset<u32> = PrimitiveBitset::new(0);
    b.set_raw(0x8000_0001);
    assert!(b.get(0));
    assert!(b.get(31));
    assert!(!b.get(15));
    b.clear();
    assert_eq!(b.get_raw(), 0);
    assert!(!b.get(0));
}

#[test]
fn bitset_other_widths() {
    let mut b8: PrimitiveBitset<u8> = PrimitiveBitset::new(0);
    b8.set(7, true);
    assert_eq!(b8.get_raw(), 0x80);
    let mut b16: PrimitiveBitset<u16> = PrimitiveBitset::new(0xFFFF);
    b16.set(15, false);
    assert_eq!(b16.get_raw(), 0x7FFF);
    let mut b64: PrimitiveBitset<u64> = PrimitiveBitset::new(0);
    b64.set(63, true);
    assert_eq!(b64.get_raw(), 0x8000_0000_0000_0000);
    assert!(b64.get(63));
}

#[test]
fn bitset_word_units() {
    assert_eq!(<u8 as BitsetWord>::one(), 1);
    assert_eq!(<u8 as BitsetWord>::zero(), 0);
    assert_eq!(<u16 as BitsetWord>::one(), 1);
    assert_eq!(<u32 as BitsetWord>::zero(), 0);
    assert_eq!(<u64 as BitsetWord>::one(), 1);
}
