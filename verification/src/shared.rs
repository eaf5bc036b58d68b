//! The exclusion guard: a mutual-exclusion lock wrapping the backing store.
//!
//! Every `write` and `read` acquires the lock for its whole duration, so the
//! critical sections of concurrent callers never overlap, and releases it on
//! every exit path. The lock's invariant keeps the buffer well formed and its
//! capacity fixed; what each serialized operation does to the buffered bytes
//! is stated exactly on [`RingBuffer::write`] and [`RingBuffer::read`], and
//! holds here of whichever buffer state this call happened to observe.
//!
//! The guard never waits: a full buffer rejects a `write` with
//! [`RingBufferError::NoSpaceLeft`] and an empty buffer answers a `read` with
//! nothing, immediately either way; retrying is the caller's business.

use vstd::prelude::*;
use vstd::rwlock::RwLock;

use crate::ring::RingBuffer;
use crate::ring::RingBufferError;

verus! {

/// A [`RingBuffer`] behind a mutual-exclusion lock, safe to share across
/// threads.
pub struct SharedRingBuffer {
    capacity: usize,
    lock: RwLock<RingBuffer, spec_fn(RingBuffer) -> bool>,
}

impl SharedRingBuffer {
    /// The fixed capacity `N`, chosen at construction.
    pub closed spec fn capacity(&self) -> nat {
        self.capacity as nat
    }

    /// The lock holds exactly the well-formed buffers of this fixed capacity.
    pub closed spec fn wf(&self) -> bool {
        &&& self.capacity > 0
        &&& forall|rb: RingBuffer|
            self.lock.inv(rb) <==> (rb.wf() && rb.capacity() == self.capacity())
    }

    /// Create an empty shared buffer of fixed positive capacity.
    pub fn create(capacity: usize) -> (r: SharedRingBuffer)
        requires
            capacity > 0,
        ensures
            r.wf(),
            r.capacity() == capacity,
    {
        let rb = RingBuffer::create(capacity);
        let lock = RwLock::new(
            rb,
            Ghost(|rb: RingBuffer| rb.wf() && rb.capacity() == capacity as nat),
        );
        SharedRingBuffer { capacity, lock }
    }

    /// Append bytes under the lock. The count accepted depends on the free
    /// capacity this call finds once serialized: a full buffer signals
    /// `NoSpaceLeft`, and otherwise everything up to the free capacity is
    /// taken, so a non-empty input never yields `Ok(0)`.
    pub fn write(&self, bytes: &[u8]) -> (r: Result<usize, RingBufferError>)
        requires
            self.wf(),
        ensures
            r is Err ==> r == Err::<usize, RingBufferError>(RingBufferError::NoSpaceLeft),
            r is Ok ==> r->Ok_0 <= bytes@.len(),
            r is Ok ==> r->Ok_0 <= self.capacity(),
            r is Ok && bytes@.len() > 0 ==> 1 <= r->Ok_0,
            bytes@.len() == 0 && r is Ok ==> r->Ok_0 == 0,
    {
        let (mut rb, handle) = self.lock.acquire_write();
        proof {
            assert(self.lock.inv(rb));
            assert(rb.wf() && rb.capacity() == self.capacity());
            crate::ring::lemma_occupancy_in_range(&rb);
        }
        let r = rb.write(bytes);
        handle.release_write(rb);
        r
    }

    /// Remove up to `count` of the oldest buffered bytes under the lock.
    /// Nothing comes out exactly when the request is zero or the buffer this
    /// call finds once serialized is empty; otherwise between `1` and `count`
    /// bytes come out, oldest first.
    pub fn read(&self, count: usize) -> (r: Option<Vec<u8>>)
        requires
            self.wf(),
        ensures
            count == 0 ==> r is None,
            r is Some ==> 1 <= r->0@.len() <= count,
            r is Some ==> r->0@.len() <= self.capacity(),
    {
        let (mut rb, handle) = self.lock.acquire_write();
        proof {
            assert(self.lock.inv(rb));
            assert(rb.wf() && rb.capacity() == self.capacity());
            crate::ring::lemma_occupancy_in_range(&rb);
        }
        let r = rb.read(count);
        handle.release_write(rb);
        r
    }
}

} // verus!
