//! The virtual serial port bridge: what goes between a tool on a PTY and the
//! real device.
//!
//! A tool's bytes go to the device unless a session holds it exclusively; the
//! device's bytes go to the tool unless nobody reads them. Dropped bytes are
//! counted, and the operator is warned, but not too often.

use vstd::prelude::*;

use crate::buffer::RingBuffer;
use crate::lock::WriterLock;

verus! {

/// Least time between two warnings about dropped bytes.
pub const WARN_EVERY_MS: u64 = 5000;

/// How long the bridge waits for a tool to take a chunk.
pub const TOOL_WRITE_TIMEOUT_MS: u64 = 200;

/// One direction's count of dropped bytes and the time of the last warning, in
/// milliseconds on the daemon's monotonic clock.
#[derive(Debug, Clone, Copy)]
pub struct DropCounter {
    pub dropped_bytes: u64,
    pub last_warn: Option<u64>,
}

/// A warning is due: none was given yet, or long enough ago.
pub open spec fn warn_due(last: Option<u64>, now_ms: u64) -> bool {
    match last {
        Some(t) => now_ms >= t && now_ms - t >= WARN_EVERY_MS,
        None => true,
    }
}

impl DropCounter {
    pub fn new() -> (c: Self)
        ensures
            c.dropped_bytes == 0,
            c.last_warn is None,
    {
        DropCounter { dropped_bytes: 0, last_warn: None }
    }

    /// Counts `n` dropped bytes. Returns the total to warn about, if it is time.
    pub fn record(&mut self, n: u64, now_ms: u64) -> (warn: Option<u64>)
        requires
            old(self).dropped_bytes + n <= u64::MAX,
        ensures
            final(self).dropped_bytes == old(self).dropped_bytes + n,
            warn == (if warn_due(old(self).last_warn, now_ms) {
                Some(final(self).dropped_bytes)
            } else {
                None
            }),
            final(self).last_warn == (if warn is Some {
                Some(now_ms)
            } else {
                old(self).last_warn
            }),
    {
        self.dropped_bytes = self.dropped_bytes + n;
        let due: bool = match self.last_warn {
            Some(t) => now_ms >= t && now_ms - t >= WARN_EVERY_MS,
            None => true,
        };
        if due {
            self.last_warn = Some(now_ms);
            Some(self.dropped_bytes)
        } else {
            None
        }
    }
}

/// Two warnings of one direction are never closer than the limit.
pub proof fn law_warnings_spaced(first_ms: u64, now_ms: u64)
    ensures
        warn_due(Some(first_ms), now_ms) ==> now_ms >= first_ms + WARN_EVERY_MS,
{
}

/// What happens to bytes that a tool wrote.
#[derive(Debug, Clone, Copy, PartialEq, Eq, Structural)]
pub enum ToolBytes {
    /// Nobody has the port open; look again shortly.
    Idle,
    /// Write them to the device.
    Forward,
    /// Drop them; warn about this total, if it is time.
    Dropped(Option<u64>),
}

/// Decides on `n` bytes that a tool wrote. The bridge has no session of its own
/// and never takes the writer lock, but it backs off while a session holds it
/// exclusively (typically guarding a flash over the real port): writing tool
/// bytes underneath would interleave two writers on the same wire.
pub fn tool_bytes(counter: &mut DropCounter, lock: &WriterLock, n: u64, now_ms: u64) -> (d:
    ToolBytes)
    requires
        old(counter).dropped_bytes + n <= u64::MAX,
    ensures
        n == 0 ==> d is Idle,
        n > 0 ==> (d is Dropped <==> (lock@ matches Some(h) && h.1)),
        n > 0 ==> (d is Forward <==> !(lock@ matches Some(h) && h.1)),
        !(d is Dropped) ==> *final(counter) == *old(counter),
        d matches ToolBytes::Dropped(warn) ==> {
            &&& final(counter).dropped_bytes == old(counter).dropped_bytes + n
            &&& warn == (if warn_due(old(counter).last_warn, now_ms) {
                Some(final(counter).dropped_bytes)
            } else {
                None
            })
            &&& final(counter).last_warn == (if warn is Some {
                Some(now_ms)
            } else {
                old(counter).last_warn
            })
        },
{
    if n == 0 {
        return ToolBytes::Idle;
    }
    if lock.exclusively_held() {
        let warn = counter.record(n, now_ms);
        return ToolBytes::Dropped(warn);
    }
    ToolBytes::Forward
}

/// Takes what the device sent since `cursor` for the tool; empty means wait.
/// The cursor moves on whether or not the tool takes the bytes, so a tool that
/// does not read never blocks the bridge.
pub fn device_bytes(ring: &RingBuffer, cursor: &mut u64) -> (chunk: Vec<u8>)
    requires
        ring.wf(),
    ensures
        chunk@ == ring.readable(*old(cursor) as int),
        *final(cursor) == (if *old(cursor) >= ring.head() {
            *old(cursor) as nat
        } else {
            ring.head()
        }),
{
    let (chunk, next, _lag) = ring.read_from(*cursor);
    *cursor = next;
    chunk
}

} // verus!
