use std::collections::VecDeque;
use vstd::prelude::*;

use crate::error::{Error, DEFAULT_CONTROL_CAPACITY, DEFAULT_MAX_CONTROL_MESSAGE_BYTES};
use crate::bytes::try_copy_bytes;
use crate::wake::WakeSignal;

verus! {

/// A bounded FIFO for semantic control payloads.
///
/// Each push copies one payload into queue-owned memory. Push never grows the
/// queue past `capacity` messages: it returns [`Error::Full`] instead.
#[derive(Debug)]
pub struct ControlQueue {
    inner: VecDeque<Vec<u8>>,
    capacity: usize,
    max_message_bytes: usize,
    wake: WakeSignal,
}

impl View for ControlQueue {
    type V = Seq<Seq<u8>>;

    /// The queued payloads, oldest first.
    closed spec fn view(&self) -> Seq<Seq<u8>> {
        self.inner@.map_values(|m: Vec<u8>| m@)
    }
}

impl ControlQueue {
    /// The queue's bounds hold: both limits are non-zero, at most `capacity`
    /// payloads are queued and none exceeds the message limit.
    pub closed spec fn wf(&self) -> bool {
        &&& self.capacity > 0
        &&& self.max_message_bytes > 0
        &&& self.inner@.len() <= self.capacity
        &&& forall|i: int| 0 <= i < self.inner@.len() ==> #[trigger] self.inner@[i]@.len() <= self.max_message_bytes
    }

    /// The maximum number of queued payloads.
    pub closed spec fn spec_capacity(&self) -> nat {
        self.capacity as nat
    }

    /// The maximum size of one payload.
    pub closed spec fn spec_max_message_bytes(&self) -> nat {
        self.max_message_bytes as nat
    }

    /// Whether the queue's wake signal is pending.
    pub closed spec fn wake_pending(&self) -> bool {
        self.wake@
    }

    /// What a well-formed queue guarantees: it holds at most `capacity`
    /// payloads, none longer than the message limit.
    pub proof fn lemma_bounds(&self)
        requires
            self.wf(),
        ensures
            self@.len() <= self.spec_capacity(),
            forall|i: int| 0 <= i < self@.len() ==> #[trigger] self@[i].len() <= self.spec_max_message_bytes(),
            self.spec_capacity() > 0,
            self.spec_max_message_bytes() > 0,
    {
    }

    /// Creates a bounded queue with the supplied message and count limits.
    pub fn new(capacity: usize, max_message_bytes: usize) -> (r: Result<Self, Error>)
        ensures
            capacity == 0 ==> r == Err::<Self, Error>(Error::InvalidLimit { name: "control capacity" }),
            capacity > 0 && max_message_bytes == 0 ==> r == Err::<Self, Error>(
                Error::InvalidLimit { name: "control message bytes" },
            ),
            capacity > 0 && max_message_bytes > 0 ==> (r matches Ok(q) && {
                &&& q.wf()
                &&& q@ == Seq::<Seq<u8>>::empty()
                &&& q.spec_capacity() == capacity
                &&& q.spec_max_message_bytes() == max_message_bytes
                &&& !q.wake_pending()
            }),
    {
        if capacity == 0 {
            return Err(Error::InvalidLimit { name: "control capacity" });
        }
        if max_message_bytes == 0 {
            return Err(Error::InvalidLimit { name: "control message bytes" });
        }
        let q = ControlQueue {
            inner: VecDeque::new(),
            capacity,
            max_message_bytes,
            wake: WakeSignal::new(),
        };
        proof {
            assert(q@ =~= Seq::<Seq<u8>>::empty());
        }
        Ok(q)
    }

    /// Creates a queue with conservative defaults.
    pub fn with_defaults() -> (q: Self)
        ensures
            q.wf(),
            q@ == Seq::<Seq<u8>>::empty(),
            q.spec_capacity() == DEFAULT_CONTROL_CAPACITY,
            q.spec_max_message_bytes() == DEFAULT_MAX_CONTROL_MESSAGE_BYTES,
            !q.wake_pending(),
    {
        match Self::new(DEFAULT_CONTROL_CAPACITY, DEFAULT_MAX_CONTROL_MESSAGE_BYTES) {
            Ok(q) => q,
            Err(_) => {
                proof {
                    assert(false);
                }
                ControlQueue {
                    inner: VecDeque::new(),
                    capacity: DEFAULT_CONTROL_CAPACITY,
                    max_message_bytes: DEFAULT_MAX_CONTROL_MESSAGE_BYTES,
                    wake: WakeSignal::new(),
                }
            },
        }
    }

    /// Attempts to append a semantic payload in FIFO order.
    ///
    /// An oversized payload is refused first, then a full queue; otherwise
    /// the payload is copied and queued and the wake signal raised, unless the
    /// allocator refuses the copy.
    pub fn try_push(&mut self, payload: &[u8]) -> (r: Result<(), Error>)
        requires
            old(self).wf(),
        ensures
            final(self).wf(),
            final(self).spec_capacity() == old(self).spec_capacity(),
            final(self).spec_max_message_bytes() == old(self).spec_max_message_bytes(),
            payload@.len() > old(self).spec_max_message_bytes() ==> r == Err::<(), Error>(
                Error::TooLarge {
                    kind: "control message",
                    actual: payload@.len() as usize,
                    maximum: old(self).spec_max_message_bytes() as usize,
                },
            ),
            payload@.len() <= old(self).spec_max_message_bytes() && old(self)@.len()
                == old(self).spec_capacity() ==> r == Err::<(), Error>(
                Error::Full { kind: "control queue" },
            ),
            payload@.len() <= old(self).spec_max_message_bytes() && old(self)@.len()
                < old(self).spec_capacity() ==> r == Ok::<(), Error>(()) || r == Err::<(), Error>(
                Error::AllocationFailed { kind: "control message" },
            ),
            r is Ok ==> final(self)@ == old(self)@.push(payload@) && final(self).wake_pending(),
            r is Err ==> final(self)@ == old(self)@ && final(self).wake_pending()
                == old(self).wake_pending(),
    {
        if payload.len() > self.max_message_bytes {
            return Err(
                Error::TooLarge {
                    kind: "control message",
                    actual: payload.len(),
                    maximum: self.max_message_bytes,
                },
            );
        }
        if self.inner.len() == self.capacity {
            return Err(Error::Full { kind: "control queue" });
        }
        let owned = match try_copy_bytes(payload) {
            Some(owned) => owned,
            None => {
                return Err(Error::AllocationFailed { kind: "control message" });
            },
        };
        let ghost before = self.inner@;
        self.inner.push_back(owned);
        self.wake.notify();
        proof {
            assert(self@ =~= old(self)@.push(payload@)) by {
                assert(self.inner@ == before.push(owned));
            }
            assert forall|i: int| 0 <= i < self.inner@.len() implies #[trigger] self.inner@[i]@.len()
                <= self.max_message_bytes by {
                if i < before.len() {
                    assert(self.inner@[i] == before[i]);
                }
            }
        }
        Ok(())
    }

    /// Removes the oldest payload, or returns `None` when idle.
    pub fn try_pop(&mut self) -> (r: Option<Vec<u8>>)
        requires
            old(self).wf(),
        ensures
            final(self).wf(),
            final(self).spec_capacity() == old(self).spec_capacity(),
            final(self).spec_max_message_bytes() == old(self).spec_max_message_bytes(),
            final(self).wake_pending() == old(self).wake_pending(),
            old(self)@.len() == 0 ==> r is None && final(self)@ == old(self)@,
            old(self)@.len() > 0 ==> (r matches Some(m) && m@ == old(self)@[0] && final(self)@
                == old(self)@.drop_first()),
    {
        let r = self.inner.pop_front();
        proof {
            if old(self)@.len() > 0 {
                assert(self@ =~= old(self)@.drop_first());
            }
            assert forall|i: int| 0 <= i < self.inner@.len() implies #[trigger] self.inner@[i]@.len()
                <= self.max_message_bytes by {
                assert(self.inner@[i] == old(self).inner@[i + 1]);
            }
        }
        r
    }

    /// Removes the oldest payload. The queue is owned by the caller, so a
    /// payload must already be queued: nothing else could supply one.
    pub fn wait_pop(&mut self) -> (m: Vec<u8>)
        requires
            old(self).wf(),
            old(self)@.len() > 0,
        ensures
            final(self).wf(),
            final(self).spec_capacity() == old(self).spec_capacity(),
            final(self).spec_max_message_bytes() == old(self).spec_max_message_bytes(),
            final(self).wake_pending() == old(self).wake_pending(),
            m@ == old(self)@[0],
            final(self)@ == old(self)@.drop_first(),
    {
        match self.try_pop() {
            Some(m) => m,
            None => {
                proof {
                    assert(false);
                }
                Vec::new()
            },
        }
    }

    /// Returns the number of queued payloads.
    pub fn len(&self) -> (n: usize)
        ensures
            n == self@.len(),
    {
        self.inner.len()
    }

    /// Returns whether no payload is currently queued.
    pub fn is_empty(&self) -> (b: bool)
        ensures
            b == (self@.len() == 0),
    {
        self.len() == 0
    }

    /// Returns the queue's wake signal for an event-loop integration.
    pub fn wake_signal(&mut self) -> (signal: &mut WakeSignal)
        requires
            old(self).wf(),
        ensures
            signal@ == old(self).wake_pending(),
            final(self).wf(),
            final(self)@ == old(self)@,
            final(self).spec_capacity() == old(self).spec_capacity(),
            final(self).spec_max_message_bytes() == old(self).spec_max_message_bytes(),
            final(self).wake_pending() == final(signal)@,
    {
        &mut self.wake
    }
}

/// The queue is first in, first out: pushing onto a non-empty queue keeps
/// its oldest message at the front and commutes with removing it, and a
/// message pushed onto an empty queue is the next one out.
pub proof fn law_first_in_first_out(queue: Seq<Seq<u8>>, message: Seq<u8>)
    ensures
        queue.len() > 0 ==> queue.push(message)[0] == queue[0] && queue.push(message).drop_first()
            == queue.drop_first().push(message),
        queue.len() == 0 ==> queue.push(message)[0] == message && queue.push(message).drop_first()
            == queue,
{
    if queue.len() > 0 {
        assert(queue.push(message).drop_first() =~= queue.drop_first().push(message));
    } else {
        assert(queue.push(message).drop_first() =~= queue);
    }
}

} // verus!
