//! Fixed-capacity FIFO queue over an array of `N` slots.
//!
//! One slot always stays empty to tell a full buffer from an empty one, so
//! the buffer holds at most `N - 1` items.
use vstd::prelude::*;
use vstd::arithmetic::div_mod::{lemma_mod_self_0, lemma_small_mod};

verus! {

/// A FIFO queue of at most `N - 1` items, stored in `N` slots from the read
/// position on, wrapping at the end.
pub struct RingBuffer<T, const N: usize> {
    buffer: [Option<T>; N],
    read_pos: usize,
    write_pos: usize,
}

impl<T: Copy, const N: usize> View for RingBuffer<T, N> {
    type V = Seq<T>;

    /// The items, oldest first.
    closed spec fn view(&self) -> Seq<T> {
        Seq::new(self.count() as nat, |i: int| self.buffer@[self.slot(i)]->0)
    }
}

impl<T: Copy, const N: usize> RingBuffer<T, N> {
    /// Number of items held.
    closed spec fn count(&self) -> int {
        if self.write_pos >= self.read_pos {
            self.write_pos - self.read_pos
        } else {
            N - self.read_pos + self.write_pos
        }
    }

    /// Slot of the `i`-th oldest item.
    closed spec fn slot(&self, i: int) -> int {
        if self.read_pos + i < N {
            self.read_pos + i
        } else {
            self.read_pos + i - N
        }
    }

    pub closed spec fn wf(&self) -> bool {
        &&& N > 0
        &&& self.read_pos < N
        &&& self.write_pos < N
        &&& forall|i: int| 0 <= i < self.count() ==> (#[trigger] self.buffer@[self.slot(i)]) is Some
    }

    /// An empty buffer.
    pub fn new() -> (r: Self)
        requires
            N > 0,
        ensures
            r.wf(),
            r@ == Seq::<T>::empty(),
    {
        let r = RingBuffer { buffer: [None; N], read_pos: 0, write_pos: 0 };
        assert(r@ =~= Seq::<T>::empty());
        r
    }

    /// Appends `item` and returns true, or returns false and changes nothing
    /// when the buffer already holds `N - 1` items.
    pub fn push(&mut self, item: T) -> (r: bool)
        requires
            old(self).wf(),
        ensures
            final(self).wf(),
            r == (old(self)@.len() < N - 1),
            r ==> final(self)@ == old(self)@.push(item),
            !r ==> final(self)@ == old(self)@,
    {
        let write_pos = self.write_pos;
        let read_pos = self.read_pos;
        proof {
            if write_pos + 1 < N {
                lemma_small_mod((write_pos + 1) as nat, N as nat);
            } else {
                lemma_mod_self_0(N as int);
            }
        }
        let next_write = (write_pos + 1) % N;
        if next_write == read_pos {
            return false;
        }
        let ghost before = *self;
        self.buffer[write_pos] = Some(item);
        self.write_pos = next_write;
        proof {
            assert(self.count() == before.count() + 1);
            assert forall|i: int| 0 <= i < self.count() implies (#[trigger] self.buffer@[self.slot(
                i,
            )]) is Some by {
                assert(self.slot(i) == before.slot(i));
            }
            assert(self@ =~= before@.push(item)) by {
                assert forall|i: int| 0 <= i < before.count() implies self.slot(i) != write_pos
                    && self.slot(i) == before.slot(i) by {}
            }
        }
        true
    }

    /// Removes and returns the oldest item, or `None` when the buffer is empty.
    pub fn pop(&mut self) -> (r: Option<T>)
        requires
            old(self).wf(),
        ensures
            final(self).wf(),
            old(self)@.len() == 0 ==> r is None && final(self)@ == old(self)@,
            old(self)@.len() > 0 ==> r == Some(old(self)@[0]) && final(self)@ == old(
                self,
            )@.drop_first(),
    {
        let read_pos = self.read_pos;
        let write_pos = self.write_pos;
        if read_pos == write_pos {
            return None;
        }
        let ghost before = *self;
        proof {
            if read_pos + 1 < N {
                lemma_small_mod((read_pos + 1) as nat, N as nat);
            } else {
                lemma_mod_self_0(N as int);
            }
            assert(before.buffer@[before.slot(0)] is Some);
        }
        let item = self.buffer[read_pos];
        self.buffer[read_pos] = None;
        let next_read = (read_pos + 1) % N;
        self.read_pos = next_read;
        proof {
            assert(self.count() == before.count() - 1);
            assert forall|i: int| 0 <= i < self.count() implies (#[trigger] self.buffer@[self.slot(
                i,
            )]) is Some by {
                assert(self.slot(i) == before.slot(i + 1));
                assert(before.buffer@[before.slot(i + 1)] is Some);
            }
            assert(self@ =~= before@.drop_first()) by {
                assert forall|i: int| 0 <= i < self.count() implies self.slot(i) == before.slot(i + 1)
                    && self.slot(i) != read_pos by {}
            }
        }
        item
    }

    /// Whether the buffer holds no item.
    pub fn is_empty(&self) -> (r: bool)
        requires
            self.wf(),
        ensures
            r == (self@.len() == 0),
    {
        self.read_pos == self.write_pos
    }

    /// Whether the buffer holds `N - 1` items, so that `push` fails.
    pub fn is_full(&self) -> (r: bool)
        requires
            self.wf(),
        ensures
            r == (self@.len() == N - 1),
    {
        let write_pos = self.write_pos;
        let read_pos = self.read_pos;
        proof {
            if write_pos + 1 < N {
                lemma_small_mod((write_pos + 1) as nat, N as nat);
            } else {
                lemma_mod_self_0(N as int);
            }
        }
        (write_pos + 1) % N == read_pos
    }

    /// Number of items held.
    pub fn len(&self) -> (r: usize)
        requires
            self.wf(),
        ensures
            r == self@.len(),
    {
        let write_pos = self.write_pos;
        let read_pos = self.read_pos;
        if write_pos >= read_pos {
            write_pos - read_pos
        } else {
            N - read_pos + write_pos
        }
    }

    /// Drops every item.
    pub fn clear(&mut self)
        requires
            old(self).wf(),
        ensures
            final(self).wf(),
            final(self)@ == Seq::<T>::empty(),
    {
        self.read_pos = 0;
        self.write_pos = 0;
        self.buffer = [None; N];
        assert(self@ =~= Seq::<T>::empty());
    }
}

} // verus!
