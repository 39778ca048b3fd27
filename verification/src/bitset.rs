//! A fixed-width set of boolean flags packed into one unsigned machine word.
//!
//! [`PrimitiveBitset`] wraps a single backing word and exposes per-index
//! get/set over the word's bit positions; it is how one half's matrix scan
//! travels compactly. The backing word can be any type implementing
//! [`BitsetWord`].

use vstd::prelude::*;

verus! {

/// An unsigned machine word usable as the backing store of a
/// [`PrimitiveBitset`]: it knows its bit width and supports single-bit
/// reads and writes, specified against its sequence of bits.
pub trait BitsetWord: Sized + Copy {
    /// Number of bits in the word.
    spec fn width() -> nat;

    /// The word as a sequence of bits, least significant bit first.
    spec fn bits(self) -> Seq<bool>;

    /// Every word's bit sequence has exactly `width()` entries.
    proof fn lemma_bits_len(self)
        ensures
            self.bits().len() == Self::width(),
    ;

    /// The all-zero word.
    fn zero() -> (r: Self)
        ensures
            r.bits() == Seq::new(Self::width(), |i: int| false),
    ;

    /// The word with only the least significant bit set.
    fn one() -> (r: Self)
        ensures
            r.bits() == Seq::new(Self::width(), |i: int| i == 0),
    ;

    /// Read bit `idx`.
    fn bit_get(self, idx: usize) -> (r: bool)
        requires
            idx < Self::width(),
        ensures
            r == self.bits()[idx as int],
    ;

    /// Write bit `idx` to `value`, leaving every other bit unchanged.
    fn bit_set(self, idx: usize, value: bool) -> (r: Self)
        requires
            idx < Self::width(),
        ensures
            r.bits() == self.bits().update(idx as int, value),
    ;
}

proof fn lemma_bit_ops_u8(x: u8, i: u8, v: bool)
    by (bit_vector)
    requires
        i < 8,
    ensures
        forall|j: u8|
            j < 8 ==> ((((x & !(1u8 << i)) | (if v {
                (1u8 << i)
            } else {
                0u8
            })) >> j) & 1u8 == 1u8) == (if j == i {
                v
            } else {
                (x >> j) & 1u8 == 1u8
            }),
        forall|j: u8| j < 8 ==> ((0u8 >> j) & 1u8 == 1u8) == false,
        forall|j: u8| j < 8 ==> ((1u8 >> j) & 1u8 == 1u8) == (j == 0),
{
}

impl BitsetWord for u8 {
    open spec fn width() -> nat {
        8
    }

    open spec fn bits(self) -> Seq<bool> {
        Seq::new(8, |i: int| (self >> (i as u8)) & 1u8 == 1u8)
    }

    proof fn lemma_bits_len(self) {
    }

    fn zero() -> (r: Self) {
        proof {
            lemma_bit_ops_u8(0, 0, false);
            assert(0u8.bits() =~= Seq::new(Self::width(), |i: int| false));
        }
        0
    }

    fn one() -> (r: Self) {
        proof {
            lemma_bit_ops_u8(0, 0, false);
            assert(1u8.bits() =~= Seq::new(Self::width(), |i: int| i == 0));
        }
        1
    }

    fn bit_get(self, idx: usize) -> (r: bool) {
        ((self >> (idx as u8)) & 1) == 1
    }

    fn bit_set(self, idx: usize, value: bool) -> (r: Self) {
        let mask: u8 = 1u8 << (idx as u8);
        let bit: u8 = if value {
            mask
        } else {
            0
        };
        let r = (self & !mask) | bit;
        proof {
            lemma_bit_ops_u8(self, idx as u8, value);
            assert forall|k: int| 0 <= k < 8 implies r.bits()[k] == self.bits().update(
                idx as int,
                value,
            )[k] by {
                let j: u8 = k as u8;
                assert(((r >> j) & 1u8 == 1u8) == (if j == idx as u8 {
                    value
                } else {
                    (self >> j) & 1u8 == 1u8
                }));
            }
            assert(r.bits() =~= self.bits().update(idx as int, value));
        }
        r
    }
}

proof fn lemma_bit_ops_u16(x: u16, i: u16, v: bool)
    by (bit_vector)
    requires
        i < 16,
    ensures
        forall|j: u16|
            j < 16 ==> ((((x & !(1u16 << i)) | (if v {
                (1u16 << i)
            } else {
                0u16
            })) >> j) & 1u16 == 1u16) == (if j == i {
                v
            } else {
                (x >> j) & 1u16 == 1u16
            }),
        forall|j: u16| j < 16 ==> ((0u16 >> j) & 1u16 == 1u16) == false,
        forall|j: u16| j < 16 ==> ((1u16 >> j) & 1u16 == 1u16) == (j == 0),
{
}

impl BitsetWord for u16 {
    open spec fn width() -> nat {
        16
    }

    open spec fn bits(self) -> Seq<bool> {
        Seq::new(16, |i: int| (self >> (i as u16)) & 1u16 == 1u16)
    }

    proof fn lemma_bits_len(self) {
    }

    fn zero() -> (r: Self) {
        proof {
            lemma_bit_ops_u16(0, 0, false);
            assert(0u16.bits() =~= Seq::new(Self::width(), |i: int| false));
        }
        0
    }

    fn one() -> (r: Self) {
        proof {
            lemma_bit_ops_u16(0, 0, false);
            assert(1u16.bits() =~= Seq::new(Self::width(), |i: int| i == 0));
        }
        1
    }

    fn bit_get(self, idx: usize) -> (r: bool) {
        ((self >> (idx as u16)) & 1) == 1
    }

    fn bit_set(self, idx: usize, value: bool) -> (r: Self) {
        let mask: u16 = 1u16 << (idx as u16);
        let bit: u16 = if value {
            mask
        } else {
            0
        };
        let r = (self & !mask) | bit;
        proof {
            lemma_bit_ops_u16(self, idx as u16, value);
            assert forall|k: int| 0 <= k < 16 implies r.bits()[k] == self.bits().update(
                idx as int,
                value,
            )[k] by {
                let j: u16 = k as u16;
                assert(((r >> j) & 1u16 == 1u16) == (if j == idx as u16 {
                    value
                } else {
                    (self >> j) & 1u16 == 1u16
                }));
            }
            assert(r.bits() =~= self.bits().update(idx as int, value));
        }
        r
    }
}

proof fn lemma_bit_ops_u32(x: u32, i: u32, v: bool)
    by (bit_vector)
    requires
        i < 32,
    ensures
        forall|j: u32|
            j < 32 ==> ((((x & !(1u32 << i)) | (if v {
                (1u32 << i)
            } else {
                0u32
            })) >> j) & 1u32 == 1u32) == (if j == i {
                v
            } else {
                (x >> j) & 1u32 == 1u32
            }),
        forall|j: u32| j < 32 ==> ((0u32 >> j) & 1u32 == 1u32) == false,
        forall|j: u32| j < 32 ==> ((1u32 >> j) & 1u32 == 1u32) == (j == 0),
{
}

impl BitsetWord for u32 {
    open spec fn width() -> nat {
        32
    }

    open spec fn bits(self) -> Seq<bool> {
        Seq::new(32, |i: int| (self >> (i as u32)) & 1u32 == 1u32)
    }

    proof fn lemma_bits_len(self) {
    }

    fn zero() -> (r: Self) {
        proof {
            lemma_bit_ops_u32(0, 0, false);
            assert(0u32.bits() =~= Seq::new(Self::width(), |i: int| false));
        }
        0
    }

    fn one() -> (r: Self) {
        proof {
            lemma_bit_ops_u32(0, 0, false);
            assert(1u32.bits() =~= Seq::new(Self::width(), |i: int| i == 0));
        }
        1
    }

    fn bit_get(self, idx: usize) -> (r: bool) {
        ((self >> (idx as u32)) & 1) == 1
    }

    fn bit_set(self, idx: usize, value: bool) -> (r: Self) {
        let mask: u32 = 1u32 << (idx as u32);
        let bit: u32 = if value {
            mask
        } else {
            0
        };
        let r = (self & !mask) | bit;
        proof {
            lemma_bit_ops_u32(self, idx as u32, value);
            assert forall|k: int| 0 <= k < 32 implies r.bits()[k] == self.bits().update(
                idx as int,
                value,
            )[k] by {
                let j: u32 = k as u32;
                assert(((r >> j) & 1u32 == 1u32) == (if j == idx as u32 {
                    value
                } else {
                    (self >> j) & 1u32 == 1u32
                }));
            }
            assert(r.bits() =~= self.bits().update(idx as int, value));
        }
        r
    }
}

proof fn lemma_bit_ops_u64(x: u64, i: u64, v: bool)
    by (bit_vector)
    requires
        i < 64,
    ensures
        forall|j: u64|
            j < 64 ==> ((((x & !(1u64 << i)) | (if v {
                (1u64 << i)
            } else {
                0u64
            })) >> j) & 1u64 == 1u64) == (if j == i {
                v
            } else {
                (x >> j) & 1u64 == 1u64
            }),
        forall|j: u64| j < 64 ==> ((0u64 >> j) & 1u64 == 1u64) == false,
        forall|j: u64| j < 64 ==> ((1u64 >> j) & 1u64 == 1u64) == (j == 0),
{
}

impl BitsetWord for u64 {
    open spec fn width() -> nat {
        64
    }

    open spec fn bits(self) -> Seq<bool> {
        Seq::new(64, |i: int| (self >> (i as u64)) & 1u64 == 1u64)
    }

    proof fn lemma_bits_len(self) {
    }

    fn zero() -> (r: Self) {
        proof {
            lemma_bit_ops_u64(0, 0, false);
            assert(0u64.bits() =~= Seq::new(Self::width(), |i: int| false));
        }
        0
    }

    fn one() -> (r: Self) {
        proof {
            lemma_bit_ops_u64(0, 0, false);
            assert(1u64.bits() =~= Seq::new(Self::width(), |i: int| i == 0));
        }
        1
    }

    fn bit_get(self, idx: usize) -> (r: bool) {
        ((self >> (idx as u64)) & 1) == 1
    }

    fn bit_set(self, idx: usize, value: bool) -> (r: Self) {
        let mask: u64 = 1u64 << (idx as u64);
        let bit: u64 = if value {
            mask
        } else {
            0
        };
        let r = (self & !mask) | bit;
        proof {
            lemma_bit_ops_u64(self, idx as u64, value);
            assert forall|k: int| 0 <= k < 64 implies r.bits()[k] == self.bits().update(
                idx as int,
                value,
            )[k] by {
                let j: u64 = k as u64;
                assert(((r >> j) & 1u64 == 1u64) == (if j == idx as u64 {
                    value
                } else {
                    (self >> j) & 1u64 == 1u64
                }));
            }
            assert(r.bits() =~= self.bits().update(idx as int, value));
        }
        r
    }
}

/// A set of `T::width()` boolean flags packed into one backing word of
/// type `T`. Its view is the backing word's bit sequence, least
/// significant bit first.
pub struct PrimitiveBitset<T: BitsetWord> {
    data: T,
}

impl<T: BitsetWord> View for PrimitiveBitset<T> {
    type V = Seq<bool>;

    closed spec fn view(&self) -> Seq<bool> {
        self.data.bits()
    }
}

impl<T: BitsetWord> PrimitiveBitset<T> {
    /// The backing word itself; the view is its bit sequence.
    pub closed spec fn spec_raw(&self) -> T {
        self.data
    }

    /// A bitset's view always has exactly `T::width()` entries.
    pub proof fn lemma_view_len(&self)
        ensures
            self@.len() == T::width(),
            self@ == self.spec_raw().bits(),
    {
        self.data.lemma_bits_len();
    }

    /// Construct the set from an initial backing word.
    pub fn new(data: T) -> (r: Self)
        ensures
            r.spec_raw() == data,
            r@ == data.bits(),
    {
        Self { data }
    }

    /// Write bit `idx` to `value`, leaving every other bit unchanged.
    pub fn set(&mut self, idx: usize, value: bool)
        requires
            idx < T::width(),
        ensures
            final(self)@ == old(self)@.update(idx as int, value),
    {
        self.data = self.data.bit_set(idx, value);
    }

    /// Read bit `idx`.
    pub fn get(&self, idx: usize) -> (r: bool)
        requires
            idx < T::width(),
        ensures
            r == self@[idx as int],
    {
        self.data.bit_get(idx)
    }

    /// Replace the backing word wholesale.
    pub fn set_raw(&mut self, data: T)
        ensures
            final(self).spec_raw() == data,
            final(self)@ == data.bits(),
    {
        self.data = data;
    }

    /// Read the backing word back out.
    pub fn get_raw(&self) -> (r: T)
        ensures
            r == self.spec_raw(),
            r.bits() == self@,
    {
        self.data
    }

    /// Reset every bit to false.
    pub fn clear(&mut self)
        ensures
            final(self)@ == Seq::new(T::width(), |i: int| false),
    {
        self.data = T::zero();
    }
}

} // verus!
