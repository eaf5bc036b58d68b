//! The backing store of the buffer: a fixed-length circular byte array with
//! a read cursor, a write cursor and an occupancy count.
//!
//! The abstract view of a buffer is the sequence of currently buffered,
//! unread bytes in FIFO order. Two ghost histories, the bytes ever accepted
//! by `write` and the bytes ever delivered by `read`, tie every state to the
//! conservation law: `accepted == delivered + buffered`.

use vstd::prelude::*;

verus! {

/// The single failure condition: a `write` against a buffer whose free
/// capacity is zero at the moment the call begins.
#[derive(Clone, Copy, Debug, PartialEq, Eq, Structural)]
pub enum RingBufferError {
    NoSpaceLeft,
}

/// One step of circular index arithmetic: `i` reduced modulo `n`, stated for
/// the only range the cursors ever produce, `0 <= i < 2 * n`.
pub open spec fn wrap(i: int, n: int) -> int {
    if i < n {
        i
    } else {
        i - n
    }
}

/// `n` clipped from above to `bound`: how many of `n` offered bytes fit into
/// `bound` free slots, and how many of `n` requested bytes `bound` buffered
/// bytes can satisfy.
pub open spec fn clip(n: int, bound: int) -> int {
    if n <= bound {
        n
    } else {
        bound
    }
}

/// On the reduced range, `wrap` agrees with the mathematical remainder.
pub proof fn lemma_wrap_is_mod(i: int, n: int)
    requires
        n > 0,
        0 <= i < 2 * n,
    ensures
        wrap(i, n) == i % n,
{
    if i < n {
        vstd::arithmetic::div_mod::lemma_small_mod(i as nat, n as nat);
    } else {
        vstd::arithmetic::div_mod::lemma_mod_sub_multiples_vanish(i, n);
        vstd::arithmetic::div_mod::lemma_small_mod((i - n) as nat, n as nat);
    }
}

pub struct RingBuffer {
    data: Vec<u8>,
    read_idx: usize,
    write_idx: usize,
    size: usize,
    accepted: Ghost<Seq<u8>>,
    delivered: Ghost<Seq<u8>>,
}

impl View for RingBuffer {
    type V = Seq<u8>;

    /// The currently buffered, unread bytes in FIFO order: `size` bytes
    /// starting at the read cursor, wrapping modulo the capacity.
    closed spec fn view(&self) -> Seq<u8> {
        Seq::new(
            self.size as nat,
            |j: int| self.data@[wrap(self.read_idx + j, self.data@.len() as int)],
        )
    }
}

impl RingBuffer {
    /// The fixed capacity `N`, chosen at construction.
    pub closed spec fn capacity(&self) -> nat {
        self.data@.len()
    }

    /// Every byte ever accepted by `write`, oldest first.
    pub closed spec fn accepted(&self) -> Seq<u8> {
        self.accepted@
    }

    /// Every byte ever delivered by `read`, oldest first.
    pub closed spec fn delivered(&self) -> Seq<u8> {
        self.delivered@
    }

    /// Well-formedness: both cursors are valid indices, the occupancy never
    /// exceeds the capacity, the write cursor sits `size` slots past the read
    /// cursor (modulo `N`), and the ghost histories account for exactly the
    /// buffered bytes.
    pub closed spec fn wf(&self) -> bool {
        &&& self.data@.len() > 0
        &&& self.read_idx < self.data@.len()
        &&& self.write_idx < self.data@.len()
        &&& self.size <= self.data@.len()
        &&& self.write_idx == wrap(self.read_idx + self.size, self.data@.len() as int)
        &&& self.accepted@ == self.delivered@ + self@
    }

    /// Create an empty buffer of fixed positive capacity.
    pub fn create(capacity: usize) -> (r: RingBuffer)
        requires
            capacity > 0,
        ensures
            r.wf(),
            r.capacity() == capacity,
            r@ == Seq::<u8>::empty(),
            r.accepted() == Seq::<u8>::empty(),
            r.delivered() == Seq::<u8>::empty(),
    {
        let mut data: Vec<u8> = Vec::new();
        let mut i: usize = 0;
        while i < capacity
            invariant
                i <= capacity,
                data@.len() == i,
            decreases capacity - i,
        {
            data.push(0);
            i = i + 1;
        }
        let r = RingBuffer {
            data,
            read_idx: 0,
            write_idx: 0,
            size: 0,
            accepted: Ghost(Seq::empty()),
            delivered: Ghost(Seq::empty()),
        };
        proof {
            assert(r@ =~= Seq::<u8>::empty());
            assert(r.accepted@ =~= r.delivered@ + r@);
        }
        r
    }
    /// Copy bytes into the buffer, one at a time, until either the input is
    /// exhausted or the buffer is full. A buffer that is already full at call
    /// entry accepts nothing and signals `NoSpaceLeft`; otherwise the count
    /// of bytes accepted is returned, which is `0` only for an empty input.
    pub fn write(&mut self, bytes: &[u8]) -> (r: Result<usize, RingBufferError>)
        requires
            old(self).wf(),
        ensures
            final(self).wf(),
            final(self).capacity() == old(self).capacity(),
            final(self).delivered() == old(self).delivered(),
            old(self)@.len() == old(self).capacity() ==> {
                &&& r == Err::<usize, RingBufferError>(RingBufferError::NoSpaceLeft)
                &&& *final(self) == *old(self)
            },
            old(self)@.len() < old(self).capacity() ==> ({
                let k = clip(bytes@.len() as int, old(self).capacity() - old(self)@.len());
                &&& r == Ok::<usize, RingBufferError>(k as usize)
                &&& final(self)@ == old(self)@ + bytes@.take(k)
                &&& final(self).accepted() == old(self).accepted() + bytes@.take(k)
            }),
    {
        if self.size == self.data.len() {
            return Err(RingBufferError::NoSpaceLeft);
        }
        let ghost pre: RingBuffer = *self;
        let mut i: usize = 0;
        while i < bytes.len() && self.size < self.data.len()
            invariant
                self.wf(),
                pre.wf(),
                i <= bytes@.len(),
                self.data@.len() == pre.data@.len(),
                self.read_idx == pre.read_idx,
                self.size == pre.size + i,
                self.size <= self.data@.len(),
                self.delivered@ == pre.delivered@,
                self@ == pre@ + bytes@.take(i as int),
                self.accepted@ == pre.accepted@ + bytes@.take(i as int),
            decreases bytes@.len() - i,
        {
            let ghost prev: RingBuffer = *self;
            let b = bytes[i];
            let n = self.data.len();
            self.data[self.write_idx] = b;
            self.write_idx = if self.write_idx + 1 == n {
                0
            } else {
                self.write_idx + 1
            };
            self.size = self.size + 1;
            self.accepted = Ghost(self.accepted@.push(b));
            i = i + 1;
            proof {
                assert(self@ =~= prev@.push(b));
                assert(pre@ + bytes@.take(i as int) =~= (pre@ + bytes@.take(i - 1)).push(b));
                assert(pre.accepted@ + bytes@.take(i as int) =~= (pre.accepted@ + bytes@.take(
                    i - 1,
                )).push(b));
            }
        }
        proof {
            assert(bytes@.take(i as int) =~= bytes@.take(
                clip(bytes@.len() as int, pre.capacity() - pre@.len()),
            ));
        }
        Ok(i)
    }

    /// Remove and return up to `count` of the oldest buffered bytes, in FIFO
    /// order. An empty buffer or a zero request yields nothing — which is not
    /// an error — and otherwise exactly `min(count, size)` bytes come out.
    pub fn read(&mut self, count: usize) -> (r: Option<Vec<u8>>)
        requires
            old(self).wf(),
        ensures
            final(self).wf(),
            final(self).capacity() == old(self).capacity(),
            final(self).accepted() == old(self).accepted(),
            (old(self)@.len() == 0 || count == 0) ==> {
                &&& r is None
                &&& *final(self) == *old(self)
            },
            (old(self)@.len() > 0 && count > 0) ==> ({
                let k = clip(count as int, old(self)@.len() as int);
                &&& r is Some
                &&& r->0@ == old(self)@.take(k)
                &&& final(self)@ == old(self)@.skip(k)
                &&& final(self).delivered() == old(self).delivered() + old(self)@.take(k)
            }),
    {
        if self.size == 0 || count == 0 {
            return None;
        }
        let ghost pre: RingBuffer = *self;
        let k = if count < self.size {
            count
        } else {
            self.size
        };
        let mut out: Vec<u8> = Vec::new();
        let mut i: usize = 0;
        while i < k
            invariant
                self.wf(),
                pre.wf(),
                i <= k,
                k == clip(count as int, pre@.len() as int),
                k <= pre@.len(),
                self.data@ == pre.data@,
                self.size == pre.size - i,
                self.accepted@ == pre.accepted@,
                out@ == pre@.take(i as int),
                self@ == pre@.skip(i as int),
                self.delivered@ == pre.delivered@ + pre@.take(i as int),
            decreases k - i,
        {
            let ghost prev: RingBuffer = *self;
            let b = self.data[self.read_idx];
            out.push(b);
            let n = self.data.len();
            self.read_idx = if self.read_idx + 1 == n {
                0
            } else {
                self.read_idx + 1
            };
            self.size = self.size - 1;
            self.delivered = Ghost(self.delivered@.push(b));
            i = i + 1;
            proof {
                assert(b == prev@[0]);
                assert(b == pre@[i - 1]);
                assert(self@ =~= prev@.skip(1));
                assert(prev@.skip(1) =~= pre@.skip(i as int));
                assert(pre@.take(i as int) =~= pre@.take(i - 1).push(b));
                assert(pre.delivered@ + pre@.take(i as int) =~= (pre.delivered@ + pre@.take(i - 1)).push(b));
                assert(self.accepted@ =~= self.delivered@ + self@);
            }
        }
        Some(out)
    }
}

/// Occupancy stays in range: in every well-formed state,
/// `0 <= size <= capacity` (the buffered view holds `size` bytes).
pub proof fn lemma_occupancy_in_range(rb: &RingBuffer)
    requires
        rb.wf(),
    ensures
        0 <= rb@.len() <= rb.capacity(),
{
}

/// The FIFO conservation law: the bytes delivered by `read` are exactly a
/// prefix, in original order, of the bytes accepted by `write`; the buffer
/// holds the remaining suffix; no byte is duplicated or dropped. Once the
/// buffer is drained, the two histories coincide.
pub proof fn lemma_fifo(rb: &RingBuffer)
    requires
        rb.wf(),
    ensures
        rb.accepted() == rb.delivered() + rb@,
        rb.delivered() == rb.accepted().take(rb.delivered().len() as int),
        rb@ == rb.accepted().skip(rb.delivered().len() as int),
        rb.delivered().len() + rb@.len() == rb.accepted().len(),
        rb.delivered().len() <= rb.accepted().len(),
        rb@.len() == 0 ==> rb.delivered() == rb.accepted(),
{
    assert(rb.delivered() =~= rb.accepted().take(rb.delivered().len() as int));
    assert(rb@ =~= rb.accepted().skip(rb.delivered().len() as int));
    assert(rb@.len() == 0 ==> rb.delivered() =~= rb.accepted());
}


} // verus!
