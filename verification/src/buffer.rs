//! Single ring buffer with per-session cursors.
//!
//! Holds raw bytes received from the serial port. Every byte ever received has
//! a sequence number, its position in the stream; the ring keeps the newest
//! `capacity` of them. A reader whose cursor fell behind the oldest kept byte
//! is told what it missed and resumes there.

use std::collections::VecDeque;

use vstd::prelude::*;

verus! {

/// What a reader missed: the bytes numbered `dropped_range.0 ..
/// dropped_range.1`, after which reading resumes at `resume_seq`.
#[derive(Debug, Clone, Copy)]
pub struct LagInfo {
    pub dropped_bytes: u64,
    pub dropped_range: (u64, u64),
    pub resume_seq: u64,
}

/// The newest `capacity` bytes of a growing stream.
pub struct RingBuffer {
    buf: VecDeque<u8>,
    capacity: usize,
    /// Sequence number of the next byte to push.
    head_seq: u64,
    /// Sequence number of `buf[0]`.
    tail_seq: u64,
    /// All bytes ever pushed.
    pushed: Ghost<Seq<u8>>,
}

/// The sequence number of the oldest byte kept of a stream of `len` bytes.
pub open spec fn oldest_kept(len: nat, capacity: nat) -> nat {
    if len <= capacity {
        0
    } else {
        (len - capacity) as nat
    }
}

/// What a read at `from` reports as lost when the oldest kept byte is `tail`.
pub open spec fn lag_at(from: u64, tail: u64) -> LagInfo {
    LagInfo {
        dropped_bytes: (tail - from) as u64,
        dropped_range: (from, tail),
        resume_seq: tail,
    }
}

impl RingBuffer {
    /// Every byte ever pushed; the byte numbered `n` is `stream()[n]`.
    pub closed spec fn stream(&self) -> Seq<u8> {
        self.pushed@
    }

    /// How many of the newest bytes are kept.
    pub closed spec fn limit(&self) -> nat {
        self.capacity as nat
    }

    /// Sequence number that the next pushed byte gets.
    pub open spec fn head(&self) -> nat {
        self.stream().len()
    }

    /// Sequence number of the oldest byte kept (`head()` when none is).
    pub open spec fn tail(&self) -> nat {
        oldest_kept(self.stream().len(), self.limit())
    }

    /// The bytes kept, oldest first.
    pub open spec fn kept(&self) -> Seq<u8> {
        self.stream().subrange(self.tail() as int, self.head() as int)
    }

    /// The stored deque is exactly the kept end of the stream.
    pub closed spec fn wf(&self) -> bool {
        &&& self.head_seq == self.pushed@.len()
        &&& self.tail_seq == oldest_kept(self.pushed@.len(), self.capacity as nat)
        &&& self.buf@ == self.pushed@.subrange(self.tail_seq as int, self.head_seq as int)
    }

    /// The bytes a read at `from` can still serve.
    pub open spec fn readable(&self, from: int) -> Seq<u8> {
        if from >= self.head() {
            Seq::empty()
        } else if from < self.tail() {
            self.kept()
        } else {
            self.stream().subrange(from, self.head() as int)
        }
    }

    /// The cursor after a read at `from`.
    pub open spec fn cursor_after(&self, from: u64) -> nat {
        if from >= self.head() {
            from as nat
        } else {
            self.head()
        }
    }

    /// What a read at `from` reports as lost.
    pub open spec fn lag(&self, from: u64) -> Option<LagInfo> {
        if from < self.tail() {
            Some(lag_at(from, self.tail() as u64))
        } else {
            None
        }
    }

    pub fn new(capacity: usize) -> (ring: Self)
        ensures
            ring.wf(),
            ring.stream() == Seq::<u8>::empty(),
            ring.limit() == capacity,
    {
        let ring = RingBuffer {
            buf: VecDeque::with_capacity(capacity),
            capacity,
            head_seq: 0,
            tail_seq: 0,
            pushed: Ghost(Seq::empty()),
        };
        assert(ring.buf@ =~= ring.pushed@.subrange(0, 0));
        ring
    }

    /// Appends `bytes` to the stream, dropping the oldest kept bytes beyond
    /// the capacity. Returns whether readers waiting for data are to be woken.
    pub fn push(&mut self, bytes: &[u8]) -> (wake: bool)
        requires
            old(self).wf(),
            old(self).head() + bytes@.len() <= u64::MAX,
        ensures
            final(self).wf(),
            final(self).stream() == old(self).stream() + bytes@,
            final(self).limit() == old(self).limit(),
            wake == (bytes@.len() > 0),
    {
        if bytes.len() == 0 {
            assert(self.stream() =~= old(self).stream() + bytes@);
            return false;
        }
        let mut i: usize = 0;
        while i < bytes.len()
            invariant
                i <= bytes@.len(),
                self.wf(),
                self.capacity == old(self).capacity,
                old(self).head() + bytes@.len() <= u64::MAX,
                self.pushed@ == old(self).pushed@ + bytes@.take(i as int),
            decreases bytes@.len() - i,
        {
            let b: u8 = bytes[i];
            let ghost before = self.buf@;
            let ghost stream = self.pushed@;
            self.buf.push_back(b);
            if self.buf.len() > self.capacity {
                let _ = self.buf.pop_front();
                self.tail_seq = self.tail_seq + 1;
            }
            self.head_seq = self.head_seq + 1;
            self.pushed = Ghost(self.pushed@.push(b));
            proof {
                assert(self.buf@ =~= self.pushed@.subrange(
                    self.tail_seq as int,
                    self.head_seq as int,
                ));
                assert(bytes@.take(i + 1) =~= bytes@.take(i as int).push(b));
                assert(self.pushed@ =~= old(self).pushed@ + bytes@.take(i + 1));
            }
            i = i + 1;
        }
        assert(bytes@.take(i as int) =~= bytes@);
        true
    }

    /// `(head, tail)`.
    pub fn snapshot_seqs(&self) -> (seqs: (u64, u64))
        requires
            self.wf(),
        ensures
            seqs.0 == self.head(),
            seqs.1 == self.tail(),
    {
        (self.head_seq, self.tail_seq)
    }

    pub fn capacity(&self) -> (capacity: usize)
        ensures
            capacity == self.limit(),
    {
        self.capacity
    }

    /// Returns all bytes available from `from_seq` on in a single read, the
    /// cursor to read at next, and what was dropped before it could be served.
    pub fn read_from(&self, from_seq: u64) -> (read: (Vec<u8>, u64, Option<LagInfo>))
        requires
            self.wf(),
        ensures
            read.0@ == self.readable(from_seq as int),
            read.1 == self.cursor_after(from_seq),
            read.2 == self.lag(from_seq),
    {
        if from_seq >= self.head_seq {
            return (Vec::new(), from_seq, None);
        }
        let mut from: u64 = from_seq;
        let mut lag: Option<LagInfo> = None;
        if from_seq < self.tail_seq {
            from = self.tail_seq;
            lag = Some(
                LagInfo {
                    dropped_bytes: self.tail_seq - from_seq,
                    dropped_range: (from_seq, self.tail_seq),
                    resume_seq: self.tail_seq,
                },
            );
        }
        let start: usize = (from - self.tail_seq) as usize;
        let end: usize = self.buf.len();
        let mut out: Vec<u8> = Vec::with_capacity(end - start);
        let mut i: usize = start;
        while i < end
            invariant
                start <= i <= end,
                end == self.buf@.len(),
                out@ == self.buf@.subrange(start as int, i as int),
            decreases end - i,
        {
            out.push(self.buf[i]);
            i = i + 1;
            assert(out@ =~= self.buf@.subrange(start as int, i as int));
        }
        assert(out@ =~= self.readable(from_seq as int));
        (out, self.head_seq, lag)
    }
}

/// The ring never keeps more than its capacity, and keeps the whole stream
/// while it fits.
pub proof fn law_keeps_the_newest(ring: &RingBuffer)
    ensures
        ring.tail() <= ring.head(),
        ring.head() - ring.tail() == ring.kept().len(),
        ring.kept().len() <= ring.limit(),
        ring.head() <= ring.limit() ==> ring.kept() == ring.stream(),
        ring.head() >= ring.limit() ==> ring.kept().len() == ring.limit(),
{
    assert(ring.head() <= ring.limit() ==> ring.kept() =~= ring.stream());
}

/// Reading at the cursor of an earlier read continues it: as long as nothing
/// was dropped in between, both reads together are one read of everything.
pub proof fn law_reads_concatenate(earlier: &RingBuffer, later: &RingBuffer, from: int)
    requires
        earlier.stream().is_prefix_of(later.stream()),
        earlier.tail() <= from <= earlier.head(),
        later.tail() <= from,
    ensures
        earlier.readable(from) + later.readable(earlier.head() as int) == later.readable(from),
{
    assert(earlier.readable(from) + later.readable(earlier.head() as int) =~= later.readable(from));
}

/// A reader that fell behind misses exactly the dropped bytes: what it is told
/// it missed and what it is given make up the stream from its cursor on.
pub proof fn law_lag_accounts_for_every_byte(ring: &RingBuffer, from: u64)
    requires
        from < ring.tail(),
        ring.tail() <= u64::MAX,
    ensures
        ({
            let lag = lag_at(from, ring.tail() as u64);
            &&& lag.dropped_bytes == ring.tail() - from
            &&& lag.dropped_range == (from, lag.resume_seq)
            &&& ring.stream().subrange(from as int, lag.resume_seq as int) + ring.readable(
                from as int,
            ) == ring.stream().skip(from as int)
        }),
{
    let lag = lag_at(from, ring.tail() as u64);
    assert(ring.stream().subrange(from as int, lag.resume_seq as int) + ring.readable(from as int)
        =~= ring.stream().skip(from as int));
}

/// Bytes pushed are read back: a reader at the head before a push is given the
/// pushed bytes, all of them where they fit the ring and else the newest.
pub proof fn law_push_then_read(before: &RingBuffer, after: &RingBuffer, bytes: Seq<u8>)
    requires
        after.stream() == before.stream() + bytes,
        after.limit() == before.limit(),
    ensures
        bytes.len() <= after.limit() ==> after.readable(before.head() as int) == bytes,
        bytes.len() > after.limit() ==> after.readable(before.head() as int) == bytes.skip(
            bytes.len() - after.limit(),
        ),
{
    let got = after.readable(before.head() as int);
    if bytes.len() <= after.limit() {
        assert(got =~= bytes);
    } else {
        assert(got =~= bytes.skip(bytes.len() - after.limit()));
    }
}

/// How bytes are cut into pushes makes no difference: pushing `a` and then `b`
/// leaves the ring as pushing both at once does, for every read.
pub proof fn law_pushes_join(
    start: &RingBuffer,
    between: &RingBuffer,
    twice: &RingBuffer,
    once: &RingBuffer,
    a: Seq<u8>,
    b: Seq<u8>,
)
    requires
        between.stream() == start.stream() + a && between.limit() == start.limit(),
        twice.stream() == between.stream() + b && twice.limit() == between.limit(),
        once.stream() == start.stream() + (a + b) && once.limit() == start.limit(),
    ensures
        twice.stream() == once.stream(),
        twice.head() == once.head(),
        twice.tail() == once.tail(),
        forall|from: u64|
            #![trigger twice.readable(from as int)]
            #![trigger once.readable(from as int)]
            twice.readable(from as int) == once.readable(from as int),
        forall|from: u64| #[trigger] twice.cursor_after(from) == once.cursor_after(from),
        forall|from: u64| #[trigger] twice.lag(from) == once.lag(from),
{
    assert(twice.stream() =~= once.stream());
}

} // verus!
