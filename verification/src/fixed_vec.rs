//! A fixed-capacity, append-only ordered buffer with silent overflow.
//!
//! [`FixedVec`] accumulates the output codes of one report kind during a
//! scan cycle. Pushes beyond the capacity are dropped without error, and
//! trailing slots can be stamped with a sentinel so a fixed-width report
//! handed to the host never retains codes from an earlier, longer cycle.

use vstd::prelude::*;

verus! {

/// A fixed-capacity buffer: a backing array of `N` slots plus the count
/// of slots filled so far. Its meaningful contents are the first `len`
/// slots, in push order.
pub struct FixedVec<T, const N: usize> {
    pub data: [T; N],
    pub len: usize,
}

impl<T: Copy, const N: usize> FixedVec<T, N> {
    /// The tracked length never exceeds the capacity.
    pub open spec fn wf(&self) -> bool {
        self.len <= N
    }

    /// The codes pushed since the last clear, in push order.
    pub open spec fn contents(&self) -> Seq<T> {
        self.data@.take(self.len as int)
    }

    /// Construct an empty buffer with every slot holding `default`.
    pub fn new(default: T) -> (r: Self)
        ensures
            r.wf(),
            r.len == 0,
            r.contents() == Seq::<T>::empty(),
            r.data@ == Seq::new(N as nat, |i: int| default),
    {
        let r = FixedVec { data: [default;N], len: 0 };
        proof {
            assert(r.data@ =~= Seq::new(N as nat, |i: int| default));
            assert(r.contents() =~= Seq::<T>::empty());
        }
        r
    }

    /// Reset the length to zero; the backing slots are left as they are.
    pub fn clear(&mut self)
        ensures
            final(self).len == 0,
            final(self).data == old(self).data,
            final(self).contents() == Seq::<T>::empty(),
    {
        self.len = 0;
        proof {
            assert(self.contents() =~= Seq::<T>::empty());
        }
    }

    /// Overwrite every slot from `start_index` up to the capacity with
    /// `value`, without changing the tracked length. Used to stamp "no
    /// event" sentinels into stale trailing slots.
    pub fn fill(&mut self, value: T, start_index: usize)
        ensures
            final(self).len == old(self).len,
            forall|i: int|
                0 <= i < N && i < start_index ==> final(self).data@[i] == old(self).data@[i],
            forall|i: int| start_index <= i < N ==> final(self).data@[i] == value,
    {
        let ghost orig = *old(self);
        let mut i: usize = start_index;
        while i < N
            invariant
                start_index <= i,
                self.len == orig.len,
                forall|j: int| 0 <= j < N && j < start_index ==> self.data@[j] == orig.data@[j],
                forall|j: int| start_index <= j < i ==> self.data@[j] == value,
                forall|j: int| i <= j < N ==> self.data@[j] == orig.data@[j],
            decreases N - i,
        {
            self.data[i] = value;
            i = i + 1;
        }
    }

    /// Append `value` if capacity remains; with the buffer full this is a
    /// no-op: the length stays capped at the capacity and no stored entry
    /// is disturbed.
    pub fn push(&mut self, value: T)
        requires
            old(self).wf(),
        ensures
            final(self).wf(),
            old(self).len < N ==> final(self).len == old(self).len + 1,
            old(self).len < N ==> final(self).data@ == old(self).data@.update(
                old(self).len as int,
                value,
            ),
            old(self).len < N ==> final(self).contents() == old(self).contents().push(value),
            old(self).len >= N ==> *final(self) == *old(self),
    {
        if self.len >= N {
            return ;
        }
        self.data[self.len] = value;
        self.len = self.len + 1;
        proof {
            assert(self.contents() =~= old(self).contents().push(value));
        }
    }
}

} // verus!
