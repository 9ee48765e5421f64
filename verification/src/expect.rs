//! The expect engine: waits for a pattern in what the device sends.
//!
//! Each step takes what the ring received since the last one, looks for the
//! pattern in everything taken so far, and decides whether to answer or to
//! wait for more.

use vstd::prelude::*;
use vstd::slice::*;
use vstd::string::*;
use vstd::utf8::*;

use crate::buffer::RingBuffer;
use crate::scan::{
    ansi_stripped, echo_stripped, find_substring, is_first_occurrence, lemma_plain_positions,
    occurs_at, plain_byte_positions, plain_positions, strip_ansi_bytes, strip_leading_echo,
};
use crate::encoding::{b64_encode, carries};
use crate::error::{ErrorCode, ProtocolError, TimeoutData};
use crate::message::ExpectMatch;
use crate::pattern::{check_regex, regex_error, regex_find, regex_match};
use crate::text::{lossy, lossy_text};

verus! {

/// What is being waited for, and under which limits.
#[derive(Debug)]
pub struct ExpectRequest {
    pub from_seq: u64,
    pub pattern: String,
    pub regex: bool,
    pub strip_ansi: bool,
    /// Bytes whose echo is removed from the start of the output.
    pub strip_echo: Option<Vec<u8>>,
    /// How long to wait; `None` waits forever.
    pub timeout_ms: Option<u32>,
    /// How much may be taken without a match.
    pub max_bytes: u64,
    /// How much of the output is returned.
    pub max_output_bytes: Option<u64>,
}

/// Something other than data that ends the wait.
#[derive(Debug, Clone, Copy, PartialEq, Eq, Structural)]
pub enum Interrupt {
    Nothing,
    /// The device went away.
    DeviceDropped,
    /// Another session took the writer lock over.
    LockSeized,
}

/// A match, before it is put into wire form.
#[derive(Debug)]
pub struct RawMatch {
    pub matched: Vec<u8>,
    pub before: Vec<u8>,
    pub match_seq: u64,
    pub end_seq: u64,
    pub truncated: bool,
    pub original_bytes: Option<u64>,
}

/// What to do after looking at the data.
#[derive(Debug)]
pub enum Verdict {
    Matched(RawMatch),
    Overflow,
    Dropped,
    Seized,
    TimedOut,
    /// Wait for more data, at most this long.
    Wait(Option<u64>),
}

/// The same, in wire form.
#[derive(Debug)]
pub enum ExpectStep {
    Matched(ExpectMatch),
    Failed(ProtocolError),
    Wait(Option<u64>),
}

/// A wait in progress.
#[derive(Debug)]
pub struct ExpectState {
    request: ExpectRequest,
    /// Sequence number to read at next.
    cursor: u64,
    /// Everything read so far.
    taken: Vec<u8>,
    /// Where in `taken` each gapless run of bytes starts, and the sequence
    /// number of its first byte.
    runs: Vec<(usize, u64)>,
}

/// The sequence number of byte `k` of what was taken in these runs.
pub open spec fn seq_in_runs(runs: Seq<(usize, u64)>, k: int) -> int
    decreases runs.len(),
{
    if runs.len() == 0 {
        0
    } else if runs.last().0 <= k {
        runs.last().1 + (k - runs.last().0)
    } else {
        seq_in_runs(runs.drop_last(), k)
    }
}

/// Where run `i` of `len` taken bytes ends.
pub open spec fn run_end(runs: Seq<(usize, u64)>, len: int, i: int) -> int {
    if i + 1 < runs.len() {
        runs[i + 1].0 as int
    } else {
        len
    }
}

/// The sequence number that run `i` cannot reach past.
pub open spec fn run_limit(runs: Seq<(usize, u64)>, cursor: u64, i: int) -> u64 {
    if i + 1 < runs.len() {
        runs[i + 1].1
    } else {
        cursor
    }
}

/// Run `i` is not empty, and its numbers stay below those of what follows.
pub open spec fn run_fits(runs: Seq<(usize, u64)>, len: int, cursor: u64, i: int) -> bool {
    &&& runs[i].0 < run_end(runs, len, i) <= len
    &&& runs[i].1 + (run_end(runs, len, i) - runs[i].0) <= run_limit(runs, cursor, i)
}

/// The trailing bytes of `s` that a limit leaves.
pub open spec fn trailing(s: Seq<u8>, limit: Option<u64>) -> Seq<u8> {
    match limit {
        Some(n) => if s.len() > n {
            s.skip(s.len() - n)
        } else {
            s
        },
        None => s,
    }
}

/// A limit cuts these bytes.
pub open spec fn cuts(s: Seq<u8>, limit: Option<u64>) -> bool {
    limit matches Some(n) && s.len() > n
}

/// Truncation keeps the end of the output, no more than the limit of it, and
/// all of it where it fits.
pub proof fn law_truncation_keeps_the_end(s: Seq<u8>, limit: Option<u64>)
    ensures
        limit matches Some(n) ==> trailing(s, limit).len() <= n,
        !cuts(s, limit) ==> trailing(s, limit) == s,
        trailing(s, limit).len() <= s.len(),
        trailing(s, limit) == s.skip(s.len() - trailing(s, limit).len()),
        limit matches Some(n) ==> s.len() >= n ==> trailing(s, limit).len() == n,
{
    assert(s.skip(0) =~= s);
}

impl ExpectState {
    pub closed spec fn req(&self) -> ExpectRequest {
        self.request
    }

    /// Everything taken from the ring so far.
    pub closed spec fn bytes(&self) -> Seq<u8> {
        self.taken@
    }

    /// The sequence number to read at next.
    pub closed spec fn next_seq(&self) -> u64 {
        self.cursor
    }

    /// The sequence number that byte `k` of what was taken has in the ring; the
    /// end of what was taken stands for the next one.
    pub closed spec fn seq_at(&self, k: int) -> int {
        if k < self.taken@.len() {
            seq_in_runs(self.runs@, k)
        } else {
            self.cursor as int
        }
    }

    pub closed spec fn wf(&self) -> bool {
        let runs = self.runs@;
        let len = self.taken@.len() as int;
        &&& runs.len() == 0 <==> len == 0
        &&& runs.len() > 0 ==> runs[0].0 == 0
        &&& forall|i: int| 0 <= i < runs.len() ==> #[trigger] run_fits(runs, len, self.cursor, i)
    }

    /// What was taken stands in the ring's stream at the recorded numbers.
    pub open spec fn read_off(&self, ring: &RingBuffer) -> bool {
        forall|k: int|
            0 <= k < self.bytes().len() ==> 0 <= #[trigger] self.seq_at(k) < ring.head()
                && ring.stream()[self.seq_at(k)] == self.bytes()[k]
    }

    /// What the pattern is looked for in.
    pub open spec fn haystack(&self) -> Seq<u8> {
        if self.req().strip_ansi {
            ansi_stripped(self.bytes())
        } else {
            self.bytes()
        }
    }

    /// Where byte `k` of the haystack stands in what was taken; the haystack's
    /// end stands at the end.
    pub open spec fn raw_position(&self, k: int) -> int {
        if !self.req().strip_ansi {
            k
        } else if k < plain_positions(self.bytes(), 0).len() {
            plain_positions(self.bytes(), 0)[k]
        } else {
            self.bytes().len() as int
        }
    }

    /// The sequence number at which a match that starts at `start` began.
    pub open spec fn match_seq(&self, start: int) -> int {
        self.seq_at(self.raw_position(start))
    }

    /// The sequence number just past a match.
    pub open spec fn end_seq(&self, start: int, end: int) -> int {
        if start == end {
            self.match_seq(start)
        } else {
            self.seq_at(self.raw_position(end - 1)) + 1
        }
    }

    /// The output before a match that starts at `start`, without the echo.
    pub open spec fn output(&self, start: int) -> Seq<u8> {
        let before = self.haystack().take(start);
        match self.req().strip_echo {
            Some(echo) => echo_stripped(before, echo@),
            None => before,
        }
    }

    /// `found` is where the pattern is: the leftmost match of a regular
    /// expression, or the first occurrence of a literal text.
    pub open spec fn finds(&self, found: Option<(usize, usize)>) -> bool {
        if self.req().regex {
            found == regex_match(self.req().pattern@, self.haystack())
        } else {
            is_first_occurrence(
                self.haystack(),
                encode_utf8(self.req().pattern@),
                found,
            )
        }
    }

    pub open spec fn is_raw_match(&self, start: int, end: int, m: RawMatch) -> bool {
        let output = self.output(start);
        &&& m.matched@ == self.haystack().subrange(start, end)
        &&& m.before@ == trailing(output, self.req().max_output_bytes)
        &&& m.match_seq == self.match_seq(start)
        &&& m.end_seq == self.end_seq(start, end)
        &&& m.truncated == cuts(output, self.req().max_output_bytes)
        &&& m.original_bytes == (if m.truncated {
            Some(output.len() as u64)
        } else {
            None
        })
    }

    /// The time for this wait is up.
    pub open spec fn out_of_time(&self, elapsed_ms: u64) -> bool {
        self.req().timeout_ms matches Some(t) && elapsed_ms >= t
    }

    /// The verdict on a search result: a match counts before anything else,
    /// then too much data, then an interruption, then the clock.
    pub open spec fn is_verdict(
        &self,
        found: Option<(usize, usize)>,
        elapsed_ms: u64,
        interrupt: Interrupt,
        v: Verdict,
    ) -> bool {
        match found {
            Some((start, end)) => v matches Verdict::Matched(m) && self.is_raw_match(
                start as int,
                end as int,
                m,
            ),
            None => if self.bytes().len() > self.req().max_bytes {
                v is Overflow
            } else if interrupt == Interrupt::DeviceDropped {
                v is Dropped
            } else if interrupt == Interrupt::LockSeized {
                v is Seized
            } else if self.out_of_time(elapsed_ms) {
                v is TimedOut
            } else {
                v == Verdict::Wait(
                    match self.req().timeout_ms {
                        Some(t) => Some((t - elapsed_ms) as u64),
                        None => None,
                    },
                )
            },
        }
    }

    /// Starts to wait. A pattern that is no regular expression is refused.
    pub fn new(request: ExpectRequest) -> (r: Result<Self, ProtocolError>)
        ensures
            match r {
                Ok(s) => {
                    &&& request.regex ==> regex_error(request.pattern@) is None
                    &&& s.wf()
                    &&& s.req() == request
                    &&& s.bytes() == Seq::<u8>::empty()
                    &&& s.next_seq() == request.from_seq
                },
                Err(e) => request.regex && regex_error(request.pattern@) is Some && e.says(
                    ErrorCode::InvalidParams,
                    "regex: "@ + regex_error(request.pattern@).unwrap(),
                ),
            },
    {
        if request.regex {
            match check_regex(request.pattern.as_str()) {
                Ok(()) => {},
                Err(e) => {
                    return Err(e);
                },
            }
        }
        let cursor: u64 = request.from_seq;
        let s = ExpectState { request, cursor, taken: Vec::new(), runs: Vec::new() };
        assert(s.taken@ =~= Seq::<u8>::empty());
        Ok(s)
    }

    pub fn cursor(&self) -> (c: u64)
        ensures
            c == self.next_seq(),
    {
        self.cursor
    }

    proof fn lemma_run_below_cursor(&self, i: int)
        requires
            self.wf(),
            0 <= i < self.runs@.len(),
        ensures
            self.runs@[i].0 < run_end(self.runs@, self.taken@.len() as int, i) <= self.taken@.len(),
            self.runs@[i].1 + (run_end(self.runs@, self.taken@.len() as int, i) - self.runs@[i].0)
                <= self.cursor,
        decreases self.runs@.len() - i,
    {
        assert(run_fits(self.runs@, self.taken@.len() as int, self.cursor, i));
        if i + 1 < self.runs@.len() {
            self.lemma_run_below_cursor(i + 1);
        }
    }

    /// The numbers of the taken bytes ascend, below the one to read next.
    pub proof fn lemma_seqs_ascend(&self, k: int, l: int)
        requires
            self.wf(),
            0 <= k < l <= self.bytes().len(),
        ensures
            0 <= self.seq_at(k) < self.seq_at(l) <= self.next_seq(),
    {
        let runs = self.runs@;
        let len = self.taken@.len() as int;
        assert(runs.take(runs.len() as int) =~= runs);
        self.lemma_ascend_in(runs.len() as int, k, l);
    }

    proof fn lemma_ascend_in(&self, n: int, k: int, l: int)
        requires
            self.wf(),
            0 < n <= self.runs@.len(),
            0 <= k < l <= run_end(self.runs@, self.taken@.len() as int, n - 1),
        ensures
            0 <= seq_in_runs(self.runs@.take(n), k),
            seq_in_runs(self.runs@.take(n), k) < run_limit(self.runs@, self.cursor, n - 1),
            l < run_end(self.runs@, self.taken@.len() as int, n - 1) ==> seq_in_runs(
                self.runs@.take(n),
                k,
            ) < seq_in_runs(self.runs@.take(n), l),
            l < run_end(self.runs@, self.taken@.len() as int, n - 1) ==> seq_in_runs(
                self.runs@.take(n),
                l,
            ) < run_limit(self.runs@, self.cursor, n - 1),
        decreases n,
    {
        let runs = self.runs@;
        let len = self.taken@.len() as int;
        let pre = runs.take(n);
        assert(pre.last() == runs[n - 1]);
        assert(run_fits(runs, len, self.cursor, n - 1));
        if runs[n - 1].0 <= k {
        } else {
            assert(n > 1);
            assert(pre.drop_last() =~= runs.take(n - 1));
            assert(run_end(runs, len, n - 2) == runs[n - 1].0);
            assert(run_limit(runs, self.cursor, n - 2) == runs[n - 1].1);
            if l <= runs[n - 1].0 {
                self.lemma_ascend_in(n - 1, k, l);
            } else {
                self.lemma_ascend_in(n - 1, k, runs[n - 1].0 as int);
            }
        }
    }

    /// The sequence number of byte `k` of what was taken.
    fn seq_of(&self, k: usize) -> (seq: u64)
        requires
            self.wf(),
            k < self.bytes().len(),
        ensures
            seq == self.seq_at(k as int),
            seq < self.next_seq(),
    {
        let ghost runs = self.runs@;
        let ghost len = self.taken@.len() as int;
        let mut i: usize = self.runs.len();
        assert(runs.take(i as int) =~= runs);
        while i > 0
            invariant
                self.wf(),
                runs == self.runs@,
                len == self.taken@.len(),
                k < len,
                i <= runs.len(),
                seq_in_runs(runs.take(i as int), k as int) == seq_in_runs(runs, k as int),
                i < runs.len() ==> runs[i as int].0 > k,
            decreases i,
        {
            let run = self.runs[i - 1];
            assert(runs.take(i as int).last() == run);
            assert(k < run_end(runs, len, i - 1));
            proof {
                self.lemma_run_below_cursor(i - 1);
            }
            if run.0 <= k {
                return run.1 + (k - run.0) as u64;
            }
            assert(runs.take(i as int).drop_last() =~= runs.take(i - 1));
            i = i - 1;
        }
        assert(false);
        0
    }

    /// A chunk that starts at sequence number `start` follows the last run
    /// without a gap.
    spec fn joins(&self, start: u64) -> bool {
        self.runs@.len() > 0 && self.runs@.last().1 + (self.taken@.len() - self.runs@.last().0)
            == start
    }

    /// This is `before` with a chunk taken from sequence number `start` on.
    spec fn has_grown(&self, before: &ExpectState, chunk: Seq<u8>, start: u64) -> bool {
        &&& self.taken@ == before.taken@ + chunk
        &&& chunk.len() > 0
        &&& before.cursor <= start
        &&& self.cursor == start + chunk.len()
        &&& self.runs@ == (if before.joins(start) {
            before.runs@
        } else {
            before.runs@.push((before.taken@.len() as usize, start))
        })
    }

    proof fn lemma_grown(&self, before: &ExpectState, chunk: Seq<u8>, start: u64)
        requires
            before.wf(),
            before.taken@.len() <= usize::MAX,
            self.has_grown(before, chunk, start),
        ensures
            self.wf(),
            forall|k: int|
                0 <= k < before.taken@.len() ==> #[trigger] self.seq_at(k) == before.seq_at(k),
            forall|k: int|
                before.taken@.len() <= k <= self.taken@.len() ==> #[trigger] self.seq_at(k)
                    == self.cursor - (self.taken@.len() - k),
    {
        let runs = self.runs@;
        let old_runs = before.runs@;
        let had = before.taken@.len() as int;
        let len = self.taken@.len() as int;
        if old_runs.len() > 0 {
            before.lemma_run_below_cursor(old_runs.len() - 1);
        }
        if !before.joins(start) {
            assert(runs.drop_last() =~= old_runs);
            assert(runs.last() == (had as usize, start));
        }
        assert forall|i: int| 0 <= i < runs.len() implies #[trigger] run_fits(
            runs,
            len,
            self.cursor,
            i,
        ) by {
            if i < old_runs.len() {
                assert(runs[i] == old_runs[i]);
                assert(run_fits(old_runs, had, before.cursor, i));
                if i + 1 < old_runs.len() {
                    assert(runs[i + 1] == old_runs[i + 1]);
                }
            }
        }
    }

    proof fn lemma_still_read_off(
        &self,
        before: &ExpectState,
        chunk: Seq<u8>,
        start: u64,
        ring: &RingBuffer,
    )
        requires
            before.wf(),
            before.read_off(ring),
            before.taken@.len() <= usize::MAX,
            self.has_grown(before, chunk, start),
            start + chunk.len() == ring.head(),
            ring.stream().len() == ring.head(),
            chunk == ring.stream().skip(start as int),
        ensures
            self.read_off(ring),
    {
        self.lemma_grown(before, chunk, start);
        let had = before.taken@.len() as int;
        assert forall|k: int| 0 <= k < self.bytes().len() implies 0 <= #[trigger] self.seq_at(k)
            < ring.head() && ring.stream()[self.seq_at(k)] == self.bytes()[k] by {
            if k < had {
                assert(self.seq_at(k) == before.seq_at(k));
                assert(self.bytes()[k] == before.bytes()[k]);
            } else {
                assert(self.bytes()[k] == chunk[k - had]);
            }
        }
    }

    /// Takes what the ring received since the last call.
    pub fn absorb(&mut self, ring: &RingBuffer)
        requires
            old(self).wf(),
            ring.wf(),
        ensures
            final(self).wf(),
            final(self).req() == old(self).req(),
            final(self).bytes() == old(self).bytes() + ring.readable(old(self).next_seq() as int),
            final(self).next_seq() == (if old(self).next_seq() >= ring.head() {
                old(self).next_seq() as nat
            } else {
                ring.head()
            }),
            old(self).read_off(ring) ==> final(self).read_off(ring),
            forall|k: int|
                0 <= k < old(self).bytes().len() ==> #[trigger] final(self).seq_at(k) == old(self).seq_at(k),
            forall|k: int|
                old(self).bytes().len() <= k <= final(self).bytes().len()
                    ==> #[trigger] final(self).seq_at(k) == final(self).next_seq() - (final(self).bytes().len() - k),
    {
        let (chunk, new_cursor, _lag) = ring.read_from(self.cursor);
        if chunk.len() == 0 {
            self.cursor = new_cursor;
            assert(self.wf()) by {
                let len = self.taken@.len() as int;
                assert forall|i: int| 0 <= i < self.runs@.len() implies #[trigger] run_fits(
                    self.runs@,
                    len,
                    self.cursor,
                    i,
                ) by {
                    assert(run_fits(self.runs@, len, old(self).cursor, i));
                }
            }
            assert(self.bytes() =~= old(self).bytes() + ring.readable(old(self).next_seq() as int));
            assert(old(self).read_off(ring) ==> self.read_off(ring)) by {
                assert forall|k: int| old(self).read_off(ring) && 0 <= k < self.bytes().len() implies 0
                    <= #[trigger] self.seq_at(k) < ring.head() && ring.stream()[self.seq_at(k)]
                    == self.bytes()[k] by {
                    assert(self.seq_at(k) == old(self).seq_at(k));
                }
            }
            return;
        }
        let start: u64 = new_cursor - chunk.len() as u64;
        let had: usize = self.taken.len();
        let n: usize = self.runs.len();
        let gapless: bool = if n == 0 {
            false
        } else {
            let last = self.runs[n - 1];
            proof {
                self.lemma_run_below_cursor(n - 1);
            }
            last.1 + (had - last.0) as u64 == start
        };
        if !gapless {
            self.runs.push((had, start));
        }
        self.taken.extend_from_slice(chunk.as_slice());
        self.cursor = new_cursor;
        proof {
            assert(self.taken@ =~= old(self).taken@ + chunk@);
            self.lemma_grown(old(self), chunk@, start);
            if old(self).read_off(ring) {
                self.lemma_still_read_off(old(self), chunk@, start, ring);
            }
        }
    }

    fn haystack_bytes(&self) -> (hay: Vec<u8>)
        ensures
            hay@ == self.haystack(),
    {
        if self.request.strip_ansi {
            strip_ansi_bytes(self.taken.as_slice())
        } else {
            slice_to_vec(self.taken.as_slice())
        }
    }

    /// Looks for the pattern in everything taken so far.
    pub fn search(&self) -> (found: Option<(usize, usize)>)
        ensures
            self.finds(found),
            found matches Some(m) ==> m.0 <= m.1 <= self.haystack().len(),
    {
        let hay = self.haystack_bytes();
        if self.request.regex {
            regex_find(self.request.pattern.as_str(), hay.as_slice())
        } else {
            find_substring(hay.as_slice(), self.request.pattern.as_str().as_bytes())
        }
    }

    /// The sequence number of byte `k` of the haystack, or of its end.
    fn seq_of_haystack(&self, k: usize, hay_len: usize) -> (seq: u64)
        requires
            self.wf(),
            hay_len == self.haystack().len(),
            k <= hay_len,
        ensures
            seq == self.match_seq(k as int),
            k < hay_len ==> seq < self.next_seq(),
    {
        if k == hay_len {
            return self.cursor;
        }
        if !self.request.strip_ansi {
            return self.seq_of(k);
        }
        let positions = plain_byte_positions(self.taken.as_slice());
        proof {
            lemma_plain_positions(self.taken@, 0);
            let ps = plain_positions(self.taken@, 0);
            assert(ps.len() == positions@.len());
            assert(ps[k as int] == positions@[k as int] as int);
        }
        self.seq_of(positions[k])
    }

    /// The output before a match that starts at `start`, without the echo.
    fn output_bytes(&self, hay: &Vec<u8>, start: usize) -> (out: Vec<u8>)
        requires
            hay@ == self.haystack(),
            start <= hay@.len(),
        ensures
            out@ == self.output(start as int),
    {
        let before = slice_subrange(hay.as_slice(), 0, start);
        assert(before@ =~= self.haystack().take(start as int));
        match &self.request.strip_echo {
            Some(echo) => strip_leading_echo(before, echo.as_slice()),
            None => slice_to_vec(before),
        }
    }

    /// Decides on a search result.
    pub fn judge(
        &self,
        found: Option<(usize, usize)>,
        elapsed_ms: u64,
        interrupt: Interrupt,
    ) -> (v: Verdict)
        requires
            self.wf(),
            found matches Some(m) ==> m.0 <= m.1 <= self.haystack().len(),
        ensures
            self.is_verdict(found, elapsed_ms, interrupt, v),
    {
        if let Some((start, end)) = found {
            let hay = self.haystack_bytes();
            let output = self.output_bytes(&hay, start);
            let original: usize = output.len();
            let mut before = output;
            let mut truncated: bool = false;
            if let Some(limit) = self.request.max_output_bytes {
                if original as u64 > limit {
                    let cut: usize = original - limit as usize;
                    before = slice_to_vec(slice_subrange(before.as_slice(), cut, original));
                    truncated = true;
                    assert(before@ =~= self.output(start as int).skip(cut as int));
                }
            }
            let matched = slice_to_vec(slice_subrange(hay.as_slice(), start, end));
            let match_seq: u64 = self.seq_of_haystack(start, hay.len());
            let end_seq: u64 = if start == end {
                match_seq
            } else {
                self.seq_of_haystack(end - 1, hay.len()) + 1
            };
            return Verdict::Matched(
                RawMatch {
                    matched,
                    before,
                    match_seq,
                    end_seq,
                    truncated,
                    original_bytes: if truncated {
                        Some(original as u64)
                    } else {
                        None
                    },
                },
            );
        }
        if self.taken.len() as u64 > self.request.max_bytes {
            return Verdict::Overflow;
        }
        match interrupt {
            Interrupt::DeviceDropped => {
                return Verdict::Dropped;
            },
            Interrupt::LockSeized => {
                return Verdict::Seized;
            },
            Interrupt::Nothing => {},
        }
        match self.request.timeout_ms {
            Some(t) => {
                if elapsed_ms >= t as u64 {
                    Verdict::TimedOut
                } else {
                    Verdict::Wait(Some(t as u64 - elapsed_ms))
                }
            },
            None => Verdict::Wait(None),
        }
    }

    /// `step` puts the verdict `v` into wire form.
    pub open spec fn is_answer(&self, v: Verdict, step: ExpectStep) -> bool {
        match v {
            Verdict::Matched(m) => step matches ExpectStep::Matched(x) && is_wire_match(m, x),
            Verdict::Overflow => step matches ExpectStep::Failed(e) && e.is_plain(
                ErrorCode::BufferOverflow,
            ),
            Verdict::Dropped => step matches ExpectStep::Failed(e) && e.is_plain(
                ErrorCode::DeviceDisconnected,
            ),
            Verdict::Seized => step matches ExpectStep::Failed(e) && e.is_plain(
                ErrorCode::Cancelled,
            ),
            Verdict::TimedOut => step matches ExpectStep::Failed(e) && {
                &&& e.code == ErrorCode::Timeout.number()
                &&& e.message@ == ErrorCode::Timeout.text()
                &&& e.data matches Some(d) && carries(d.buffered@, self.bytes())
                    && d.buffered_seq_range@ == seq![self.req().from_seq, self.next_seq()]
            },
            Verdict::Wait(t) => step == ExpectStep::Wait(t),
        }
    }

    /// Puts a verdict into wire form.
    pub fn answer(&self, v: Verdict) -> (step: ExpectStep)
        ensures
            self.is_answer(v, step),
    {
        match v {
            Verdict::Matched(m) => ExpectStep::Matched(wire_match(m)),
            Verdict::Overflow => ExpectStep::Failed(ProtocolError::new(ErrorCode::BufferOverflow)),
            Verdict::Dropped => ExpectStep::Failed(
                ProtocolError::new(ErrorCode::DeviceDisconnected),
            ),
            Verdict::Seized => ExpectStep::Failed(ProtocolError::new(ErrorCode::Cancelled)),
            Verdict::TimedOut => {
                let data = TimeoutData {
                    buffered: b64_encode(self.taken.as_slice()),
                    buffered_seq_range: [self.request.from_seq, self.cursor],
                };
                assert(data.buffered_seq_range@ =~= seq![self.req().from_seq, self.next_seq()]);
                ExpectStep::Failed(ProtocolError::new(ErrorCode::Timeout).with_data(data))
            },
            Verdict::Wait(t) => ExpectStep::Wait(t),
        }
    }

    /// Takes what the ring received, looks for the pattern, and decides.
    pub fn step(&mut self, ring: &RingBuffer, elapsed_ms: u64, interrupt: Interrupt) -> (step:
        ExpectStep)
        requires
            old(self).wf(),
            ring.wf(),
        ensures
            final(self).wf(),
            final(self).req() == old(self).req(),
            final(self).bytes() == old(self).bytes() + ring.readable(old(self).next_seq() as int),
            final(self).next_seq() == (if old(self).next_seq() >= ring.head() {
                old(self).next_seq() as nat
            } else {
                ring.head()
            }),
            old(self).read_off(ring) ==> final(self).read_off(ring),
            forall|k: int|
                0 <= k < old(self).bytes().len() ==> #[trigger] final(self).seq_at(k) == old(self).seq_at(k),
            forall|k: int|
                old(self).bytes().len() <= k <= final(self).bytes().len()
                    ==> #[trigger] final(self).seq_at(k) == final(self).next_seq() - (final(self).bytes().len() - k),
            exists|found: Option<(usize, usize)>, v: Verdict|
                final(self).finds(found) && (found matches Some(m) ==> m.0 <= m.1 <= final(
                    self).haystack().len()) && #[trigger] final(self).is_verdict(
                    found,
                    elapsed_ms,
                    interrupt,
                    v,
                ) && final(self).is_answer(v, step),
    {
        self.absorb(ring);
        let found = self.search();
        let v = self.judge(found, elapsed_ms, interrupt);
        let ghost gv = v;
        let step = self.answer(v);
        assert(self.is_verdict(found, elapsed_ms, interrupt, gv));
        step
    }
}

/// The sequence numbers of a match frame it in the ring: the byte numbered
/// `match_seq` is the match's first and the one before `end_seq` its last,
/// escape sequences and dropped bytes notwithstanding.
pub proof fn law_match_framed_in_ring(s: &ExpectState, ring: &RingBuffer, start: int, end: int)
    requires
        s.wf(),
        s.read_off(ring),
        0 <= start < end <= s.haystack().len(),
    ensures
        0 <= s.match_seq(start) < s.end_seq(start, end) <= ring.head(),
        ring.stream()[s.match_seq(start)] == s.haystack()[start],
        ring.stream()[s.end_seq(start, end) - 1] == s.haystack()[end - 1],
        s.end_seq(start, end) <= s.next_seq(),
{
    lemma_plain_positions(s.bytes(), 0);
    let a = s.raw_position(start);
    let b = s.raw_position(end - 1);
    assert(0 <= a <= b < s.bytes().len());
    assert(s.haystack()[start] == s.bytes()[a] && s.haystack()[end - 1] == s.bytes()[b]);
    if a < b {
        s.lemma_seqs_ascend(a, b);
    }
    s.lemma_seqs_ascend(b, s.bytes().len() as int);
    assert(0 <= s.seq_at(a) < ring.head());
    assert(0 <= s.seq_at(b) < ring.head());
}

/// `x` is the wire form of the match `m`.
pub open spec fn is_wire_match(m: RawMatch, x: ExpectMatch) -> bool {
    &&& x.matched
    &&& x.match_text@ == lossy_text(m.matched@)
    &&& valid_utf8(m.matched@) ==> x.match_text@ == decode_utf8(m.matched@)
    &&& carries(x.before@, m.before@)
    &&& x.match_seq == m.match_seq
    &&& x.end_seq == m.end_seq
    &&& x.truncated == m.truncated
    &&& x.original_bytes == m.original_bytes
}

/// The text of a literal match is the pattern.
pub proof fn law_literal_match_is_the_pattern(
    s: &ExpectState,
    start: usize,
    end: usize,
    m: RawMatch,
    x: ExpectMatch,
)
    requires
        !s.req().regex,
        s.finds(Some((start, end))),
        s.is_raw_match(start as int, end as int, m),
        is_wire_match(m, x),
    ensures
        x.match_text@ == s.req().pattern@,
{
    let needle = encode_utf8(s.req().pattern@);
    assert(m.matched@ =~= needle);
    encode_utf8_valid_utf8(s.req().pattern@);
    encode_utf8_decode_utf8(s.req().pattern@);
}

/// Puts a match into wire form.
pub fn wire_match(m: RawMatch) -> (x: ExpectMatch)
    ensures
        is_wire_match(m, x),
{
    ExpectMatch {
        matched: true,
        match_text: lossy(m.matched.as_slice()),
        before: b64_encode(m.before.as_slice()),
        match_seq: m.match_seq,
        end_seq: m.end_seq,
        truncated: m.truncated,
        original_bytes: m.original_bytes,
    }
}

/// What one step from `a` to `f` makes of a request, while nothing that it
/// waits for was dropped.
pub proof fn lemma_step_result(
    a: ExpectState,
    f: ExpectState,
    r: ExpectRequest,
    from: u64,
    ring: &RingBuffer,
    elapsed_ms: u64,
    interrupt: Interrupt,
    step: ExpectStep,
    hay: Seq<u8>,
)
    requires
        r == a.req(),
        r.from_seq == from,
        a.wf(),
        ring.tail() <= a.next_seq() <= ring.head() <= u64::MAX,
        from <= a.next_seq(),
        a.bytes() == ring.stream().subrange(from as int, a.next_seq() as int),
        forall|k: int|
            0 <= k <= a.bytes().len() ==> #[trigger] a.seq_at(k) == from + k,
        hay == (if r.strip_ansi {
            ansi_stripped(ring.stream().subrange(from as int, ring.head() as int))
        } else {
            ring.stream().subrange(from as int, ring.head() as int)
        }),
        f.wf(),
        f.req() == a.req(),
        f.bytes() == a.bytes() + ring.readable(a.next_seq() as int),
        f.next_seq() == ring.head(),
        forall|k: int| 0 <= k < a.bytes().len() ==> #[trigger] f.seq_at(k) == a.seq_at(k),
        forall|k: int|
            a.bytes().len() <= k <= f.bytes().len() ==> #[trigger] f.seq_at(k) == f.next_seq() - (
            f.bytes().len() - k),
        exists|found: Option<(usize, usize)>, v: Verdict|
            f.finds(found) && (found matches Some(m) ==> m.0 <= m.1 <= f.haystack().len())
                && #[trigger] f.is_verdict(found, elapsed_ms, interrupt, v) && f.is_answer(v, step),
    ensures
        f.wf() && f.req() == r,
        f.bytes() == ring.stream().subrange(from as int, ring.head() as int),
        f.next_seq() == ring.head(),
        forall|k: int|
            0 <= k <= f.bytes().len() ==> #[trigger] f.seq_at(k) == from + k,
        step matches ExpectStep::Matched(x) ==> exists|start: int, end: int|
            #![trigger hay.subrange(start, end)]
            {
                let before = hay.take(start);
                let output = (match r.strip_echo {
                    Some(e) => echo_stripped(before, e@),
                    None => before,
                });
                &&& 0 <= start <= end <= hay.len()
                &&& r.regex ==> regex_match(r.pattern@, hay) == Some((start as usize, end as usize))
                &&& !r.regex ==> hay.subrange(start, end) == encode_utf8(r.pattern@) && forall|j: int|
                    0 <= j < start ==> !occurs_at(hay, encode_utf8(r.pattern@), j)
                &&& x.matched && x.match_text@ == lossy_text(hay.subrange(start, end))
                &&& if r.max_output_bytes matches Some(n) && output.len() > n {
                    let n = r.max_output_bytes->Some_0;
                    carries(x.before@, output.skip(output.len() - n)) && x.truncated
                        && x.original_bytes == Some(output.len() as u64)
                } else {
                    carries(x.before@, output) && !x.truncated && x.original_bytes is None
                }
                &&& !r.strip_ansi ==> x.match_seq == from + start && x.end_seq == from + end
                &&& r.strip_ansi && start < end ==> from <= x.match_seq < x.end_seq <= ring.head()
                    && ring.stream()[x.match_seq as int] == hay[start] && ring.stream()[x.end_seq
                    - 1] == hay[end - 1]
            },
        !(step is Matched) ==> (if r.regex {
            regex_match(r.pattern@, hay) is None
        } else {
            forall|j: int| !occurs_at(hay, encode_utf8(r.pattern@), j)
        }),
        step matches ExpectStep::Failed(e) ==> if ring.head() - from > r.max_bytes {
            e.code == -32006
        } else if interrupt == Interrupt::DeviceDropped {
            e.code == -32005
        } else if interrupt == Interrupt::LockSeized {
            e.code == -32800
        } else {
            &&& r.timeout_ms matches Some(t) && elapsed_ms >= t
            &&& e.code == -32001
            &&& e.data matches Some(d) && carries(
                d.buffered@,
                ring.stream().subrange(from as int, ring.head() as int),
            ) && d.buffered_seq_range@ == seq![from, ring.head() as u64]
        },
        step matches ExpectStep::Wait(limit) ==> {
            &&& ring.head() - from <= r.max_bytes && interrupt == Interrupt::Nothing
            &&& match r.timeout_ms {
                Some(t) => elapsed_ms < t && limit == Some((t - elapsed_ms) as u64),
                None => limit is None,
            }
        },
{
    let next = a.next_seq() as int;
    let head = ring.head() as int;
    assert(a.bytes() + ring.readable(next) =~= ring.stream().subrange(from as int, head));
    assert(f.read_off(ring)) by {
        assert forall|k: int| 0 <= k < f.bytes().len() implies 0 <= #[trigger] f.seq_at(k)
            < ring.head() && ring.stream()[f.seq_at(k)] == f.bytes()[k] by {
            assert(f.seq_at(k) == from + k);
        }
    }
    assert(f.haystack() == hay);
    let (found, v) = choose|found: Option<(usize, usize)>, v: Verdict|
        f.finds(found) && (found matches Some(m) ==> m.0 <= m.1 <= f.haystack().len())
            && #[trigger] f.is_verdict(found, elapsed_ms, interrupt, v) && f.is_answer(v, step);
    if let ExpectStep::Matched(x) = step {
        let start = found->Some_0.0 as int;
        let end = found->Some_0.1 as int;
        let m = v->Matched_0;
        assert(f.is_raw_match(start, end, m) && is_wire_match(m, x));
        if start < end {
            law_match_framed_in_ring(&f, ring, start, end);
            if r.strip_ansi {
                lemma_plain_positions(f.bytes(), 0);
                let a = f.raw_position(start);
                let b = f.raw_position(end - 1);
                assert(0 <= a <= b < f.bytes().len());
                assert(f.seq_at(a) == from + a && f.seq_at(b) == from + b);
            } else {
                assert(f.seq_at(start) == from + start);
                assert(f.seq_at(end - 1) == from + (end - 1));
            }
        } else {
            assert(!r.strip_ansi ==> f.seq_at(start) == from + start);
        }
        assert(hay.subrange(start, end) == m.matched@);
        if !r.regex {
            assert(occurs_at(hay, encode_utf8(r.pattern@), start));
        }
    }
}

} // verus!
