use vstd::prelude::*;

use crate::error::{StreamError, DEFAULT_STREAM_CAPACITY};

verus! {

/// The position `k` places after `start` in a ring of `n` slots.
pub open spec fn ring_index(start: int, k: int, n: int) -> int {
    if start + k < n {
        start + k
    } else {
        start + k - n
    }
}

/// The number of occupied slots between `read` and `write` in a ring of `n`.
pub open spec fn ring_len(read: int, write: int, n: int) -> int {
    if write >= read {
        write - read
    } else {
        write + n - read
    }
}

/// A preallocated non-blocking ring buffer with one reader and one writer.
///
/// The ring keeps one position free as a sentinel between the write and read
/// positions, so it reserves `capacity + 1` slots up front. Slots are filled
/// in order the first time round the ring and overwritten after that, so a
/// push never allocates. A full push returns [`StreamError::Full`] and
/// increments [`Self::dropped_count`].
#[derive(Debug)]
pub struct SpscStream<T: Copy + Send> {
    slots: Vec<T>,
    capacity: usize,
    read: usize,
    write: usize,
    dropped: u64,
}

impl<T: Copy + Send> View for SpscStream<T> {
    /// The queued values, oldest first.
    type V = Seq<T>;

    closed spec fn view(&self) -> Seq<T> {
        Seq::new(
            ring_len(self.read as int, self.write as int, self.capacity + 1) as nat,
            |k: int| self.slots@[ring_index(self.read as int, k, self.capacity + 1)],
        )
    }
}

impl<T: Copy + Send> SpscStream<T> {
    /// The ring's invariant: both positions inside a ring of `capacity + 1`
    /// positions, and, until the ring has been filled once, the reader at or
    /// behind the writer, which stands at the end of the filled slots.
    pub closed spec fn wf(&self) -> bool {
        &&& self.capacity > 0
        &&& self.capacity < usize::MAX
        &&& self.read <= self.capacity
        &&& self.write <= self.capacity
        &&& self.slots@.len() <= self.capacity + 1
        &&& self.slots@.len() < self.capacity + 1 ==> self.read <= self.write && self.write
            == self.slots@.len()
    }

    /// The number of usable slots.
    pub closed spec fn spec_capacity(&self) -> nat {
        self.capacity as nat
    }

    /// A well-formed stream holds at most its capacity of values.
    pub proof fn lemma_len_bounded(&self)
        requires
            self.wf(),
        ensures
            self@.len() <= self.spec_capacity(),
            self.spec_capacity() > 0,
    {
    }

    /// How many pushes were refused because the stream was full (wrapping).
    pub closed spec fn spec_dropped(&self) -> u64 {
        self.dropped
    }

    /// Allocates a stream with exactly `capacity` usable values.
    ///
    /// A zero capacity is refused, and so is a ring the allocator cannot
    /// reserve: one of `capacity + 1` slots cannot be counted when `capacity`
    /// is `usize::MAX`, and for a value type of non-zero size the slots of a
    /// capacity of `isize::MAX` or more pass `isize::MAX` bytes, which std
    /// refuses as a capacity overflow. Values of size zero take no storage.
    pub fn new(capacity: usize) -> (r: Result<Self, StreamError>)
        ensures
            capacity == 0 || capacity == usize::MAX ==> r == Err::<Self, StreamError>(
                StreamError::InvalidCapacity,
            ),
            vstd::layout::size_of::<T>() > 0 && capacity >= isize::MAX ==> r == Err::<
                Self,
                StreamError,
            >(StreamError::InvalidCapacity),
            r matches Ok(s) ==> s.wf() && s@ == Seq::<T>::empty() && s.spec_capacity() == capacity
                && s.spec_dropped() == 0,
            r is Err ==> r == Err::<Self, StreamError>(StreamError::InvalidCapacity),
    {
        let slot_count = match capacity.checked_add(1) {
            Some(n) => n,
            None => {
                return Err(StreamError::InvalidCapacity);
            },
        };
        if capacity == 0 {
            return Err(StreamError::InvalidCapacity);
        }
        if core::mem::size_of::<T>() > 0 && capacity >= isize::MAX as usize {
            return Err(StreamError::InvalidCapacity);
        }
        let mut slots: Vec<T> = Vec::new();
        if slots.try_reserve(slot_count).is_err() {
            return Err(StreamError::InvalidCapacity);
        }
        let s = SpscStream { slots, capacity, read: 0, write: 0, dropped: 0 };
        proof {
            assert(s@ =~= Seq::<T>::empty());
        }
        Ok(s)
    }

    /// Creates a stream with the default capacity.
    pub fn with_defaults() -> (r: Result<Self, StreamError>)
        ensures
            r matches Ok(s) ==> s.wf() && s@ == Seq::<T>::empty() && s.spec_capacity()
                == DEFAULT_STREAM_CAPACITY && s.spec_dropped() == 0,
            r is Err ==> r == Err::<Self, StreamError>(StreamError::InvalidCapacity),
    {
        Self::new(DEFAULT_STREAM_CAPACITY)
    }

    /// Attempts to append one value without blocking.
    pub fn push(&mut self, value: T) -> (r: Result<(), StreamError>)
        requires
            old(self).wf(),
        ensures
            final(self).wf(),
            final(self).spec_capacity() == old(self).spec_capacity(),
            old(self)@.len() < old(self).spec_capacity() ==> r == Ok::<(), StreamError>(())
                && final(self)@ == old(self)@.push(value) && final(self).spec_dropped() == old(
                self,
            ).spec_dropped(),
            old(self)@.len() == old(self).spec_capacity() ==> r == Err::<(), StreamError>(
                StreamError::Full,
            ) && final(self)@ == old(self)@ && final(self).spec_dropped() == old(
                self,
            ).spec_dropped().wrapping_add(1),
    {
        let n = self.capacity + 1;
        let write = self.write;
        let next = if write + 1 == n {
            0
        } else {
            write + 1
        };
        if next == self.read {
            self.dropped = self.dropped.wrapping_add(1);
            return Err(StreamError::Full);
        }
        let ghost old_slots = self.slots@;
        let ghost len = ring_len(self.read as int, write as int, n as int);
        if write == self.slots.len() {
            self.slots.push(value);
        } else {
            self.slots.set(write, value);
        }
        self.write = next;
        proof {
            assert(self.slots@[write as int] == value);
            assert forall|i: int| 0 <= i < old_slots.len() && i != write implies self.slots@[i]
                == old_slots[i] by {}
            let new_len = ring_len(self.read as int, next as int, n as int);
            assert(new_len == len + 1);
            assert(ring_index(self.read as int, len, n as int) == write);
            assert forall|k: int| 0 <= k < len implies ring_index(self.read as int, k, n as int)
                != write by {}
            assert(self@ =~= old(self)@.push(value)) by {
                assert forall|k: int| 0 <= k < len implies self@[k] == old(self)@[k] by {
                    assert(ring_index(self.read as int, k, n as int) != write);
                }
            }
        }
        Ok(())
    }

    /// Removes the oldest value, or returns `None` when the stream is empty.
    pub fn pop(&mut self) -> (r: Option<T>)
        requires
            old(self).wf(),
        ensures
            final(self).wf(),
            final(self).spec_capacity() == old(self).spec_capacity(),
            final(self).spec_dropped() == old(self).spec_dropped(),
            old(self)@.len() == 0 ==> r is None && final(self)@ == old(self)@,
            old(self)@.len() > 0 ==> r == Some(old(self)@[0]) && final(self)@ == old(
                self,
            )@.drop_first(),
    {
        let n = self.capacity + 1;
        let read = self.read;
        if read == self.write {
            return None;
        }
        proof {
            assert(ring_index(read as int, 0, n as int) == read);
        }
        let value = self.slots[read];
        let next = if read + 1 == n {
            0
        } else {
            read + 1
        };
        self.read = next;
        proof {
            let len = ring_len(read as int, self.write as int, n as int);
            assert(ring_len(next as int, self.write as int, n as int) == len - 1);
            assert forall|k: int| 0 <= k < len - 1 implies ring_index(next as int, k, n as int)
                == ring_index(read as int, k + 1, n as int) by {}
            assert(self@ =~= old(self)@.drop_first()) by {
                assert forall|k: int| 0 <= k < len - 1 implies self@[k] == old(self)@[k + 1] by {
                    assert(ring_index(next as int, k, n as int) == ring_index(
                        read as int,
                        k + 1,
                        n as int,
                    ));
                }
            }
            assert(value == old(self)@[0]);
        }
        Some(value)
    }

    /// Returns the number of queued values.
    pub fn len(&self) -> (n: usize)
        requires
            self.wf(),
        ensures
            n == self@.len(),
    {
        let read = self.read;
        let write = self.write;
        if write >= read {
            write - read
        } else {
            write + (self.capacity + 1 - read)
        }
    }

    /// Returns whether no values are queued.
    pub fn is_empty(&self) -> (b: bool)
        requires
            self.wf(),
        ensures
            b == (self@.len() == 0),
    {
        self.len() == 0
    }

    /// Returns how many pushes were rejected because the stream was full.
    pub fn dropped_count(&self) -> (d: u64)
        ensures
            d == self.spec_dropped(),
    {
        self.dropped
    }

    /// Returns the configured number of usable slots.
    pub fn capacity(&self) -> (c: usize)
        ensures
            c == self.spec_capacity(),
    {
        self.capacity
    }
}

} // verus!
